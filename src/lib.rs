//! Address resolution for a multi-pass assembler: the per-directive
//! resolution step, bank-range validation, the pass driver and the
//! in-memory and disk-backed file servers that hand out file handles.

pub mod diagn;
pub mod bank;
pub mod value;
pub mod resolver;
pub mod convergence;
pub mod driver;
pub mod fileserver;
