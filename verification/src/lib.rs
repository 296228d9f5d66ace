//! A collector of structured log records: the record codec, the
//! append-only store with its windowed reads, the registry of thread
//! statuses, the listener's decisions and the windowed view of the
//! dashboard, each with its contract.
pub mod args;
pub mod codec;
pub mod dashboard;
pub mod data;
pub mod frame;
pub mod listener;
pub mod log;
pub mod logger;
pub mod logs_panel;
pub mod panels;
pub mod popup;
pub mod rows;
pub mod status;
pub mod storage;
pub mod text;
pub mod timestamp;
