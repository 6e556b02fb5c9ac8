//! The events reported by the first debug logger.

use vstd::prelude::*;

verus! {

/// The events of a download as the first debug logger knows them.
pub enum DebugLogEvents {
    DebugModeSet,
    URLAnalysing(String),
    HostAnalysing(String),
    IPAnalysed(String),
    ConnectionEstablishing { host: String, ip: String, port: u16 },
    ConnectionEstablished,
    HTTPRequestSend(String),
    HTTPRequestReceived(String),
    StartDownload,
    Downloading(usize),
    DownloadFinished(String),
}

} // verus!
