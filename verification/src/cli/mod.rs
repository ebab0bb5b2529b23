//! The decisions and the output of the command line: what its arguments mean, and what
//! it prints.

pub mod changes;
pub mod check;
pub mod describe;
pub mod describe_table;
pub mod diagnostic;
pub mod dotenv;
pub mod error;
pub mod export;
pub mod export_laws;
pub mod export_row_laws;
pub mod lines;
pub mod loading;
pub mod maintenance;
pub mod migration;
pub mod output;
pub mod output_laws;
pub mod params;
pub mod params_laws;
pub mod payload_laws;
pub mod project_laws;
pub mod scaffold;
pub mod stripped;
pub mod table_laws;
pub mod version;
