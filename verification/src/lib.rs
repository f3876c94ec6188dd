//! Terminal capability lookup: a typed view of a terminal's capability
//! record, as stored in the system's hash-keyed capability database.
//!
//! The crate decodes the textual record format (`name1|name2:cap:cap#N:
//! cap=value:...`) into named boolean, numeric and string capabilities,
//! drives the two-step alias-resolution protocol that locates a record,
//! and carries the fixed catalog of recognized capability codes.
//! Database I/O itself is left to the caller, who feeds each lookup's
//! outcome back into the resolution state machine.

pub mod caps;
pub mod errors;
pub mod names;
pub mod parser;
pub mod resolver;
pub mod text;
