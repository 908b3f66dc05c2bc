//! Core of an interactive manager for manual test cases: the case and status
//! model, the CSV persistence format, the Markdown report, the file-naming
//! and versioning scheme that links definitions to their execution
//! snapshots, and the decisions of the create, execute, modify and list
//! workflows. The interactive loop around it — prompts, terminal output,
//! file and network access — lives outside and hands plain values in and
//! out.

use vstd::prelude::*;

pub mod case;
pub mod clock;
pub mod codec;
pub mod csv_io;
pub mod gateway;
pub mod ident;
pub mod listing;
pub mod naming;
pub mod report;
pub mod status;
pub mod text;
pub mod workflow;

verus! {

} // verus!
