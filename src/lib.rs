//! Hierarchical production identifiers: a show, a sequence within the show,
//! and a shot within the sequence, written `SHOW`, `SHOW.SEQ` or
//! `SHOW.SEQ.SHOT`.
pub mod error;
pub mod level;
pub mod split;
pub mod token;

pub use error::LevelSpecError;
pub use level::{Level, LevelSpec};
