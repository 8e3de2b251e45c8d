//! Discovery and dispatch of helper programs that share a naming prefix.
//!
//! A front-end program scans the directories of a search path for executables
//! whose file names begin with [`names::PREFIX`], derives a target name from
//! each, resolves a requested name to the first matching record and plans the
//! launch of that program. Everything that touches the process environment or
//! the file system is handed in as plain values.

pub mod dispatch;
pub mod error;
pub mod front;
pub mod laws;
pub mod names;
pub mod proxy;
pub mod scan;
pub mod search_path;
pub mod tail;
pub mod text;
