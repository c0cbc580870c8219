//! The rules of a segmented download engine, and of its media companion.
//!
//! A file is cut into byte ranges, the ranges are handed to connections, and a
//! connection that runs out of work takes over a part of what another one has
//! left. The crate holds those rules, the state that they work on and the text
//! formats around them. Sockets, files and timers are the caller's.

pub mod cli;
pub mod cookie_laws;
pub mod cookies;
pub mod engine;
pub mod front_laws;
pub mod headers;
pub mod library_laws;
pub mod lru;
pub mod numerals;
pub mod quic;
pub mod request;
pub mod request_laws;
pub mod service;
pub mod spectur;
pub mod storage;
pub mod text;
pub mod text_laws;
pub mod text_map;
pub mod tui;
pub mod units;
pub mod web_url;

pub use crate::cookies::{CookieEntry, CookieJar};
pub use crate::engine::types::{DownloadStatus, HttpMode, ProtocolFamily, ProtocolInfo, ScheduleMode, WorkerState};
pub use crate::request::{DownloadRequest, RequestContext, ServiceConfig, SessionContext};
pub use crate::service::{DownloadUpdate, WorkerSnapshot};
pub use crate::storage::StorageConfig;
