//! Convenience utilities for strings, paths, iterators, files and system information,
//! with their behaviour stated as Verus contracts.
pub mod text;
pub mod path;
pub mod path_laws;
pub mod order;
pub mod errors;
pub mod iter;
pub mod string;
pub mod option;
pub mod os;
pub mod pattern;
pub mod file;
pub mod git;
pub mod arch;
pub mod gzip;
pub mod exec;
pub mod term;
pub mod logs;
