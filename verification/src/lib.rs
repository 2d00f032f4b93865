//! Composition and candidate engine for a romanized Taiwanese (Khíín) input
//! method: a tonal-syllable model, a dictionary-driven segmenter, a
//! composition buffer with caret mapping, candidate paging, and the command
//! dispatcher that drives them.

pub mod buffer;
pub mod buffer_mgr;
pub mod command;
pub mod config;
pub mod converter;
pub mod db;
pub mod dict;
pub mod display;
pub mod elem;
pub mod engine;
pub mod engine_mgr;
pub mod error;
pub mod geometry;
pub mod host;
pub mod parser;
pub mod syllable;
pub mod text;
pub mod tone;

pub use buffer::Buffer;
pub use buffer_mgr::BufferMgr;
pub use config::Config;
pub use config::InputMode;
pub use config::KhinMode;
pub use config::OutputMode;
pub use config::ToneMode;
pub use db::Conversion;
pub use db::Database;
pub use dict::Dictionary;
pub use elem::BufferElement;
pub use elem::BufferElementEnum;
pub use elem::KhiinElem;
pub use elem::StringElem;
pub use engine::Engine;
pub use engine_mgr::EngineMgr;
pub use error::KhiinError;
pub use syllable::Syllable;
pub use tone::Tone;
