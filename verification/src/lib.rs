//! A minimal in-memory row store with a verified statement pipeline.
//!
//! Fixed-shape records (`Row`) are kept in fixed-capacity pages owned by a
//! `Table`, addressed by a linear row index split into a page index and a
//! slot index. A three-stage pipeline drives it: meta-command dispatch,
//! statement preparation, and statement execution. Every stage is specified
//! against a mathematical model of the table (a sequence of row views) and
//! verified; the surrounding read/print loop lives outside the library.

pub mod row;
pub mod table;
pub mod text;
pub mod statement;
pub mod pipeline;
