pub mod args;
pub mod backend;
pub mod bench;
pub mod binary64;
pub mod chat;
pub mod chat_loop;
pub mod chat_session;
pub mod commands;
pub mod doctor;
pub mod estimate;
pub mod estimate_report;
pub mod fields;
pub mod images;
pub mod json;
pub mod keys;
pub mod kv_cache;
pub mod line_edit;
pub mod manifest;
pub mod media_diagnostics;
pub mod media_execution;
pub mod media_params;
pub mod media_request;
pub mod media_run;
pub mod memory;
pub mod messages;
pub mod model_list;
pub mod order;
pub mod outputs;
pub mod parameters;
pub mod paths;
pub mod persistence;
pub mod progress;
pub mod readiness;
pub mod redaction;
pub mod remote;
pub mod report_lines;
pub mod routing_debug;
pub mod run_inference;
pub mod runtime_control;
pub mod selection;
pub mod stats;
pub mod summaries;
pub mod text;
pub mod tool_calls;
pub mod workload;
