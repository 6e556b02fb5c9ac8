//! The first debug logger: one `DEBUG: ` line per event of
//! [`DebugLogEvents`].

use vstd::prelude::*;
use crate::log::debuglog::events::DebugLogEvents;
use crate::log::debuglog::productor::carries;
use crate::text::{decimal, decimal_string};

verus! {

/// What a debug line says about an event, after its `DEBUG: ` tag.
pub open spec fn debug_event_detail(e: DebugLogEvents) -> Seq<char> {
    match e {
        DebugLogEvents::DebugModeSet => "设置为调试模式"@,
        DebugLogEvents::URLAnalysing(url) => "解析URL: "@ + url@,
        DebugLogEvents::HostAnalysing(host) => "正在解析主机 "@ + host@ + "..."@,
        DebugLogEvents::IPAnalysed(ip) => "IP地址为 "@ + ip@,
        DebugLogEvents::ConnectionEstablishing { host, ip, port } =>
            "正在连接 "@ + host@ + "|"@ + ip@ + "|:"@ + decimal(port as nat) + "..."@,
        DebugLogEvents::ConnectionEstablished => "已建立连接"@,
        DebugLogEvents::HTTPRequestSend(req) => "发送 HTTP 请求:\n"@ + req@,
        DebugLogEvents::HTTPRequestReceived(resp) => "收到响应:\n"@ + resp@,
        DebugLogEvents::StartDownload => "开始下载数据..."@,
        DebugLogEvents::Downloading(bytes) => "已下载 "@ + decimal(bytes as nat) + " 字节..."@,
        DebugLogEvents::DownloadFinished(name) => "下载完成，保存为 "@ + name@,
    }
}

/// The debug line of an event: `DEBUG: ` and the event's detail.
pub open spec fn debug_event_line(e: DebugLogEvents) -> Seq<char> {
    "DEBUG: "@ + debug_event_detail(e)
}

/// Every line of the first logger starts with the tag `DEBUG: `.
pub proof fn lemma_debug_event_line_is_tagged(e: DebugLogEvents)
    ensures
        debug_event_line(e).len() >= 7,
        debug_event_line(e).take(7) == "DEBUG: "@,
{
    reveal_strlit("DEBUG: ");
    assert(debug_event_line(e).take(7) =~= "DEBUG: "@);
}

/// Each line of the first logger reports its event's data in full, right
/// after the tag and the event's label.
pub proof fn lemma_debug_event_line_carries_data(e: DebugLogEvents)
    ensures
        match e {
            DebugLogEvents::URLAnalysing(url) =>
                carries(debug_event_line(e), ("DEBUG: "@ + "解析URL: "@).len(), url@, 0),
            DebugLogEvents::HostAnalysing(host) =>
                carries(debug_event_line(e), ("DEBUG: "@ + "正在解析主机 "@).len(), host@, "..."@.len()),
            DebugLogEvents::IPAnalysed(ip) =>
                carries(debug_event_line(e), ("DEBUG: "@ + "IP地址为 "@).len(), ip@, 0),
            DebugLogEvents::HTTPRequestSend(req) =>
                carries(debug_event_line(e), ("DEBUG: "@ + "发送 HTTP 请求:\n"@).len(), req@, 0),
            DebugLogEvents::HTTPRequestReceived(resp) =>
                carries(debug_event_line(e), ("DEBUG: "@ + "收到响应:\n"@).len(), resp@, 0),
            DebugLogEvents::Downloading(bytes) =>
                carries(debug_event_line(e), ("DEBUG: "@ + "已下载 "@).len(), decimal(bytes as nat), " 字节..."@.len()),
            DebugLogEvents::DownloadFinished(name) =>
                carries(debug_event_line(e), ("DEBUG: "@ + "下载完成，保存为 "@).len(), name@, 0),
            _ => true,
        },
{
    let line = debug_event_line(e);
    match e {
        DebugLogEvents::URLAnalysing(url) => {
            let lead = "DEBUG: "@ + "解析URL: "@;
            assert(line =~= lead + url@);
            assert(line.subrange(lead.len() as int, lead.len() as int + url@.len()) =~= url@);
        },
        DebugLogEvents::HostAnalysing(host) => {
            let lead = "DEBUG: "@ + "正在解析主机 "@;
            assert(line =~= lead + host@ + "..."@);
            assert(line.subrange(lead.len() as int, lead.len() as int + host@.len()) =~= host@);
        },
        DebugLogEvents::IPAnalysed(ip) => {
            let lead = "DEBUG: "@ + "IP地址为 "@;
            assert(line =~= lead + ip@);
            assert(line.subrange(lead.len() as int, lead.len() as int + ip@.len()) =~= ip@);
        },
        DebugLogEvents::HTTPRequestSend(req) => {
            let lead = "DEBUG: "@ + "发送 HTTP 请求:\n"@;
            assert(line =~= lead + req@);
            assert(line.subrange(lead.len() as int, lead.len() as int + req@.len()) =~= req@);
        },
        DebugLogEvents::HTTPRequestReceived(resp) => {
            let lead = "DEBUG: "@ + "收到响应:\n"@;
            assert(line =~= lead + resp@);
            assert(line.subrange(lead.len() as int, lead.len() as int + resp@.len()) =~= resp@);
        },
        DebugLogEvents::Downloading(bytes) => {
            let lead = "DEBUG: "@ + "已下载 "@;
            let d = decimal(bytes as nat);
            assert(line =~= lead + d + " 字节..."@);
            assert(line.subrange(lead.len() as int, lead.len() as int + d.len()) =~= d);
        },
        DebugLogEvents::DownloadFinished(name) => {
            let lead = "DEBUG: "@ + "下载完成，保存为 "@;
            assert(line =~= lead + name@);
            assert(line.subrange(lead.len() as int, lead.len() as int + name@.len()) =~= name@);
        },
        _ => {},
    }
}

/// The first debug logger.
pub struct DebugLogProductor {}

impl DebugLogProductor {
    /// The debug line that reports `event`.
    pub fn event_line(&self, event: &DebugLogEvents) -> (line: String)
        ensures
            line@ == debug_event_line(*event),
    {
        let mut s = String::from_str("DEBUG: ");
        match event {
            DebugLogEvents::DebugModeSet => s.append("设置为调试模式"),
            DebugLogEvents::URLAnalysing(url) => {
                s.append("解析URL: ");
                s.append(url.as_str());
            },
            DebugLogEvents::HostAnalysing(host) => {
                s.append("正在解析主机 ");
                s.append(host.as_str());
                s.append("...");
            },
            DebugLogEvents::IPAnalysed(ip) => {
                s.append("IP地址为 ");
                s.append(ip.as_str());
            },
            DebugLogEvents::ConnectionEstablishing { host, ip, port } => {
                s.append("正在连接 ");
                s.append(host.as_str());
                s.append("|");
                s.append(ip.as_str());
                s.append("|:");
                let d = decimal_string(*port as u64);
                s.append(d.as_str());
                s.append("...");
            },
            DebugLogEvents::ConnectionEstablished => s.append("已建立连接"),
            DebugLogEvents::HTTPRequestSend(req) => {
                s.append("发送 HTTP 请求:\n");
                s.append(req.as_str());
            },
            DebugLogEvents::HTTPRequestReceived(resp) => {
                s.append("收到响应:\n");
                s.append(resp.as_str());
            },
            DebugLogEvents::StartDownload => s.append("开始下载数据..."),
            DebugLogEvents::Downloading(bytes) => {
                s.append("已下载 ");
                let d = decimal_string(*bytes as u64);
                s.append(d.as_str());
                s.append(" 字节...");
            },
            DebugLogEvents::DownloadFinished(name) => {
                s.append("下载完成，保存为 ");
                s.append(name.as_str());
            },
        }
        s
    }
}

} // verus!
