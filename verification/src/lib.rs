//! Execution history and symbol resolution for an LC-3 debugger.
//!
//! The crate holds the parts of a debugger session that decide something:
//! how far a run goes and what it records, what an undo restores, which
//! symbol an address resolves to, and which window of memory a range token
//! selects. Terminal and file handling, and the machine itself, stay with
//! the caller.

pub mod numeral;
pub mod helper;
pub mod range;
pub mod run;
pub mod symbol;
pub mod text;
pub mod undo;
