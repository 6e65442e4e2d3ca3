//! Playback of recorded sound and of synthesized speech for documents.
//!
//! The library holds the decisions: which voice a name selects, which step of a
//! playback comes next, how many times a buffer is appended to the output, and
//! which diagnostic a failure becomes. Decoding, synthesis and the output
//! device are driven by the caller, one step at a time.

pub mod diag;
pub mod session;
pub mod voice;

pub use diag::{Diagnostic, Failure, diagnose};
pub use session::{Action, Material, Session, Stage};
pub use voice::{VoiceId, parse_voice};
