//! What the background threads report.

use vstd::prelude::*;

verus! {

/// Reports of a running download.
#[derive(Debug, Clone)]
pub enum DownloadEvent {
    Progress { file: String, bytes: u64, total: u64 },
    FileDone(String),
    Error(String),
    AllDone,
}

/// What came of starting a model. `E` is the handle of the running engine.
#[derive(Debug)]
pub enum InitEvent<E> {
    Success(E),
    Error(String),
}

/// Reports of a running capture.
#[derive(Debug, Clone)]
pub enum TranscriptionEvent {
    FinalResult(String),
    Error(String),
}

}
