//! A thin holder a host text service keeps its engine in.

use vstd::prelude::*;

use crate::command::CommandType;
use crate::command::KeyEvent;
use crate::command::Request;
use crate::db::Database;
use crate::engine::Engine;
use crate::error::KhiinError;

verus! {

/// One host session's engine.
pub struct EngineMgr {
    pub engine: Engine,
}

impl EngineMgr {
    /// Builds the session's engine over a conversion store.
    pub fn new(db: Database) -> (r: Result<EngineMgr, KhiinError>)
        ensures
            r is Ok,
            r matches Ok(m) ==> {
                &&& m.engine.wf()
                &&& m.engine.buffer_mgr.is_initial()
                &&& m.engine.inner.db.records@ == db.records@
                &&& m.engine.inner.conf == crate::config::spec_initial_config()
            },
    {
        let engine = Engine::new(db);
        match engine {
            Some(engine) => Ok(EngineMgr { engine }),
            None => Err(KhiinError::EngineNotReady),
        }
    }

    /// Whether the host should hold a key back before sending it; no key
    /// is ever held back.
    pub fn on_test_key(&self, _key_event: &KeyEvent) -> (r: bool)
        ensures
            !r,
    {
        false
    }

    /// Wraps one key event in a send-key request.
    pub fn on_key(&self, key_event: KeyEvent) -> (r: Request)
        ensures
            r.command == CommandType::SendKey,
            r.key_event == key_event,
            r.config == (crate::command::ConfigRequest {
                input_mode: None,
                output_mode: None,
                khin_mode: None,
                telex_enabled: None,
            }),
    {
        Request {
            command: CommandType::SendKey,
            key_event,
            config: crate::command::ConfigRequest::new(),
        }
    }

    /// Part of the host interface; nothing to exercise.
    pub fn test(&mut self)
        ensures
            *final(self) == *old(self),
    {
        return ;
    }
}

} // verus!
