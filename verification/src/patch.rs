//! The apply-patch format: parsing a complete patch, following a patch while it is still being
//! written, and the grammar that both go by.
//!
//! ```text
//! start: begin_patch hunk+ end_patch
//! begin_patch: "*** Begin Patch" LF
//! end_patch: "*** End Patch" LF?
//!
//! hunk: add_hunk | delete_hunk | update_hunk
//! add_hunk: "*** Add File: " filename LF add_line+
//! delete_hunk: "*** Delete File: " filename LF
//! update_hunk: "*** Update File: " filename LF change_move? change?
//! filename: /(.+)/
//! add_line: "+" /(.+)/ LF -> line
//!
//! change_move: "*** Move to: " filename LF
//! change: (change_context | change_line)+ eof_line?
//! change_context: ("@@" | "@@ " /(.+)/) LF
//! change_line: ("+" | "-" | " ") /(.+)/ LF
//! eof_line: "*** End of File" LF
//! ```
//!
//! The parsers do not follow this to the letter.
//! - They allow white space around the markers of the patch and the headers of its hunks.
//! - They accept a patch without hunks, a new file without lines, empty lines in an update, and
//!   texts that are empty where the grammar asks for some.
//! - They refuse an update without changes: parsing reports it, and while a patch arrives such an
//!   update is not shown.
pub mod arrival_laws;
pub mod batch;
pub mod batch_laws;
pub mod chunk_laws;
pub mod grammar;
pub mod grammar_stream;
pub mod model;
pub mod plain;
pub mod stream;
pub mod stream_laws;
