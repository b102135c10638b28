//! Parsing logic for VisibleV8 (VV8) log files: the line grammar that turns
//! one log line into a typed record, and the fold that turns a stream of
//! records into what each script did.
pub mod aggregating;
pub mod folding;
pub mod js_values;
pub mod log_files;
pub mod log_records;
pub mod numbers;
pub mod record_lines;
pub mod text;

pub use aggregating::{
    AggregateErr, ApiCall, ApiType, CallLines, RecordAggregate, ScriptAggregate,
    ScriptInjectionType, ScriptName,
};
pub use js_values::JSValue;
pub use log_files::{
    is_not_vv8_log_file, parse_log_lines, LogFile, LogFileErr, LogFileInfo, LogFileInfoErr, ReadErr,
};
pub use log_records::{LogRecord, LogRecordErr, ID_UNSURE};
pub use record_lines::SplitRecordLine;
