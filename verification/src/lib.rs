//! The logic behind `dbgen`, which writes random rows as SQL or CSV files, and `dbschemagen`,
//! which writes a shell script of random `dbgen` invocations.

pub mod cli;
pub mod columns;
pub mod decimal;
pub mod draws;
pub mod format;
pub mod indexes;
pub mod names;
pub mod output;
pub mod progress;
pub mod rng;
pub mod schemagen_cli;
pub mod seed;
pub mod shell;
pub mod timestamp;
