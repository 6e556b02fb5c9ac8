//! The events of a download.

use vstd::prelude::*;

verus! {

/// The events of an HTTP download, in the order they can occur.
pub enum HttpEvents {
    /// Logging was switched to debug mode.
    DebugModeSet,
    StartToProcessDownload(String),
    GetLocalContentlength(usize),
    URLAnalysing(String),
    HostAnalysing(String),
    IPAnalysed(String),
    ConnectionEstablishing { host: String, ip: String, port: u16 },
    ConnectionEstablished,
    HTTPRequestSend(String),
    /// A HEAD request was sent for the file's metadata.
    HeadRequestSent,
    ContentLengthAnalysed(usize),
    ContentStreamGeted,
    StartDownload,
    Downloading(usize),
    DownloadFinished(String),
    /// A local file was found; the download continues after its bytes.
    ResumeDownloadDetected { local_size: usize, total_size: usize },
    /// No local file: the download starts afresh.
    NewDownloadStarted,
    /// The local file is already complete.
    FileAlreadyComplete { file_size: usize },
    /// A file exists but continuing was not asked for.
    FileExistsWithoutResume { file_path: String },
}

} // verus!
