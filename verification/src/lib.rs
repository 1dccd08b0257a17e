//! The decisions of a downloader that fetches one file over many ranged
//! requests at once and can take a download up again after it was broken
//! off.
//!
//! The library holds no socket, no file and no clock. It says what to do:
//! which ranges are written (`progress`, `ledger`) and which are left
//! (`dispatch`), what the answer to the probe means (`prefetch`), what a
//! worker reports and does next (`puller`), what a sink accepts (`sink`),
//! what follows from each report (`observer`), whether a stored download is
//! resumed and what is asked before (`download`), and what is kept of a
//! download between runs (`downloading`, `store`, `persist`). Around these
//! stand the settings (`args`, `config`, `headers`), the texts (`fmt`,
//! `names`, `confirm`, `text`), the update check (`update`, `env`) and the
//! state of a terminal front end (`painter`, `state`). The caller carries
//! the decisions out.
//!
//! What is taken on trust from other crates stands in `outside`.

pub mod args;
pub mod auto_download;
pub mod config;
pub mod confirm;
pub mod dispatch;
pub mod download;
pub mod downloading;
pub mod env;
pub mod event;
pub mod file_download;
pub mod fmt;
pub mod headers;
pub mod ledger;
pub mod ledger_laws;
pub mod names;
pub mod observer;
pub mod outside;
pub mod painter;
pub mod persist;
pub mod prefetch;
pub mod progress;
pub mod puller;
pub mod retain;
pub mod sink;
pub mod state;
pub mod store;
pub mod text;
pub mod update;
