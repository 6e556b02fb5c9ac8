//! The debug logger: one `DEBUG: ` line per download event.

use vstd::prelude::*;
use crate::log::events::HttpEvents;
use crate::text::{decimal, decimal_string};

verus! {

/// What a debug line says about an event, after its `DEBUG: ` tag.
pub open spec fn event_detail(e: HttpEvents) -> Seq<char> {
    match e {
        HttpEvents::DebugModeSet => "设置为调试模式"@,
        HttpEvents::StartToProcessDownload(url) => "开始处理下载任务: "@ + url@,
        HttpEvents::GetLocalContentlength(size) => "本地文件大小: "@ + decimal(size as nat) + "B"@,
        HttpEvents::URLAnalysing(url) => "解析URL: "@ + url@,
        HttpEvents::HostAnalysing(host) => "正在解析主机 "@ + host@ + "..."@,
        HttpEvents::IPAnalysed(ip) => "IP地址为 "@ + ip@,
        HttpEvents::ConnectionEstablishing { host, ip, port } =>
            "正在连接 "@ + host@ + "|"@ + ip@ + "|:"@ + decimal(port as nat) + "..."@,
        HttpEvents::ConnectionEstablished => "已建立连接"@,
        HttpEvents::HTTPRequestSend(req) => "发送 HTTP 请求:\n"@ + req@,
        HttpEvents::HeadRequestSent => "发送 HEAD 请求获取文件元信息"@,
        HttpEvents::ContentLengthAnalysed(size) => "文件大小为: "@ + decimal(size as nat) + "B"@,
        HttpEvents::ContentStreamGeted => "已解析要下载的文件流"@,
        HttpEvents::StartDownload => "开始下载数据..."@,
        HttpEvents::Downloading(bytes) => "已下载 "@ + decimal(bytes as nat) + " 字节..."@,
        HttpEvents::DownloadFinished(name) => "下载完成，保存为 "@ + name@,
        HttpEvents::ResumeDownloadDetected { local_size, total_size } =>
            "检测到本地文件，从 "@ + decimal(local_size as nat) + " 字节处继续下载 (总大小: "@
                + decimal(total_size as nat) + "B)"@,
        HttpEvents::NewDownloadStarted => "开始全新下载"@,
        HttpEvents::FileAlreadyComplete { file_size } =>
            "本地文件已完整 ("@ + decimal(file_size as nat) + "B)，无需继续下载"@,
        HttpEvents::FileExistsWithoutResume { file_path } => "文件已存在但未启用断点续传: "@ + file_path@,
    }
}

/// The debug line of an event: `DEBUG: ` and the event's detail.
pub open spec fn event_line(e: HttpEvents) -> Seq<char> {
    "DEBUG: "@ + event_detail(e)
}

/// Every debug line starts with the tag `DEBUG: `.
pub proof fn lemma_event_line_is_tagged(e: HttpEvents)
    ensures
        event_line(e).len() >= 7,
        event_line(e).take(7) == "DEBUG: "@,
{
    reveal_strlit("DEBUG: ");
    assert(event_line(e).take(7) =~= "DEBUG: "@);
}

/// `line` holds `data` whole, right after a leading text of `lead` characters
/// and followed by exactly `trail` more characters.
pub open spec fn carries(line: Seq<char>, lead: nat, data: Seq<char>, trail: nat) -> bool {
    &&& line.len() == lead + data.len() + trail
    &&& line.subrange(lead as int, lead as int + data.len()) == data
}

/// Each debug line reports its event's data in full: the URL, host, address,
/// request, file name or path it carries, and the decimal rendering of each
/// number, stand unchanged after the tag and the event's label.
pub proof fn lemma_event_line_carries_data(e: HttpEvents)
    ensures
        match e {
            HttpEvents::StartToProcessDownload(url) =>
                carries(event_line(e), ("DEBUG: "@ + "开始处理下载任务: "@).len(), url@, 0),
            HttpEvents::GetLocalContentlength(size) =>
                carries(event_line(e), ("DEBUG: "@ + "本地文件大小: "@).len(), decimal(size as nat), "B"@.len()),
            HttpEvents::URLAnalysing(url) =>
                carries(event_line(e), ("DEBUG: "@ + "解析URL: "@).len(), url@, 0),
            HttpEvents::HostAnalysing(host) =>
                carries(event_line(e), ("DEBUG: "@ + "正在解析主机 "@).len(), host@, "..."@.len()),
            HttpEvents::IPAnalysed(ip) =>
                carries(event_line(e), ("DEBUG: "@ + "IP地址为 "@).len(), ip@, 0),
            HttpEvents::ConnectionEstablishing { host, ip, port } => {
                let lead = ("DEBUG: "@ + "正在连接 "@).len();
                &&& carries(event_line(e), lead, host@, ("|"@ + ip@ + "|:"@ + decimal(port as nat) + "..."@).len())
                &&& carries(event_line(e), lead + host@.len() + "|"@.len(), ip@, ("|:"@ + decimal(port as nat) + "..."@).len())
                &&& carries(event_line(e), lead + host@.len() + ("|"@ + ip@ + "|:"@).len(), decimal(port as nat), "..."@.len())
            },
            HttpEvents::HTTPRequestSend(req) =>
                carries(event_line(e), ("DEBUG: "@ + "发送 HTTP 请求:\n"@).len(), req@, 0),
            HttpEvents::ContentLengthAnalysed(size) =>
                carries(event_line(e), ("DEBUG: "@ + "文件大小为: "@).len(), decimal(size as nat), "B"@.len()),
            HttpEvents::Downloading(bytes) =>
                carries(event_line(e), ("DEBUG: "@ + "已下载 "@).len(), decimal(bytes as nat), " 字节..."@.len()),
            HttpEvents::DownloadFinished(name) =>
                carries(event_line(e), ("DEBUG: "@ + "下载完成，保存为 "@).len(), name@, 0),
            HttpEvents::ResumeDownloadDetected { local_size, total_size } => {
                let lead = ("DEBUG: "@ + "检测到本地文件，从 "@).len();
                let mid = " 字节处继续下载 (总大小: "@;
                &&& carries(event_line(e), lead, decimal(local_size as nat), (mid + decimal(total_size as nat) + "B)"@).len())
                &&& carries(event_line(e), lead + decimal(local_size as nat).len() + mid.len(), decimal(total_size as nat), "B)"@.len())
            },
            HttpEvents::FileAlreadyComplete { file_size } =>
                carries(event_line(e), ("DEBUG: "@ + "本地文件已完整 ("@).len(), decimal(file_size as nat), "B)，无需继续下载"@.len()),
            HttpEvents::FileExistsWithoutResume { file_path } =>
                carries(event_line(e), ("DEBUG: "@ + "文件已存在但未启用断点续传: "@).len(), file_path@, 0),
            _ => true,
        },
{
    let line = event_line(e);
    match e {
        HttpEvents::StartToProcessDownload(url) => {
            let lead = "DEBUG: "@ + "开始处理下载任务: "@;
            assert(line =~= lead + url@);
            assert(line.subrange(lead.len() as int, lead.len() as int + url@.len()) =~= url@);
        },
        HttpEvents::GetLocalContentlength(size) => {
            let lead = "DEBUG: "@ + "本地文件大小: "@;
            let d = decimal(size as nat);
            assert(line =~= lead + d + "B"@);
            assert(line.subrange(lead.len() as int, lead.len() as int + d.len()) =~= d);
        },
        HttpEvents::URLAnalysing(url) => {
            let lead = "DEBUG: "@ + "解析URL: "@;
            assert(line =~= lead + url@);
            assert(line.subrange(lead.len() as int, lead.len() as int + url@.len()) =~= url@);
        },
        HttpEvents::HostAnalysing(host) => {
            let lead = "DEBUG: "@ + "正在解析主机 "@;
            assert(line =~= lead + host@ + "..."@);
            assert(line.subrange(lead.len() as int, lead.len() as int + host@.len()) =~= host@);
        },
        HttpEvents::IPAnalysed(ip) => {
            let lead = "DEBUG: "@ + "IP地址为 "@;
            assert(line =~= lead + ip@);
            assert(line.subrange(lead.len() as int, lead.len() as int + ip@.len()) =~= ip@);
        },
        HttpEvents::ConnectionEstablishing { host, ip, port } => {
            let lead = "DEBUG: "@ + "正在连接 "@;
            let d = decimal(port as nat);
            assert(line =~= lead + host@ + "|"@ + ip@ + "|:"@ + d + "..."@);
            let a = lead.len() as int;
            let b = a + host@.len() + "|"@.len();
            let c = a + host@.len() + ("|"@ + ip@ + "|:"@).len();
            assert(line.subrange(a, a + host@.len()) =~= host@);
            assert(line.subrange(b, b + ip@.len()) =~= ip@);
            assert(line.subrange(c, c + d.len()) =~= d);
        },
        HttpEvents::HTTPRequestSend(req) => {
            let lead = "DEBUG: "@ + "发送 HTTP 请求:\n"@;
            assert(line =~= lead + req@);
            assert(line.subrange(lead.len() as int, lead.len() as int + req@.len()) =~= req@);
        },
        HttpEvents::ContentLengthAnalysed(size) => {
            let lead = "DEBUG: "@ + "文件大小为: "@;
            let d = decimal(size as nat);
            assert(line =~= lead + d + "B"@);
            assert(line.subrange(lead.len() as int, lead.len() as int + d.len()) =~= d);
        },
        HttpEvents::Downloading(bytes) => {
            let lead = "DEBUG: "@ + "已下载 "@;
            let d = decimal(bytes as nat);
            assert(line =~= lead + d + " 字节..."@);
            assert(line.subrange(lead.len() as int, lead.len() as int + d.len()) =~= d);
        },
        HttpEvents::DownloadFinished(name) => {
            let lead = "DEBUG: "@ + "下载完成，保存为 "@;
            assert(line =~= lead + name@);
            assert(line.subrange(lead.len() as int, lead.len() as int + name@.len()) =~= name@);
        },
        HttpEvents::ResumeDownloadDetected { local_size, total_size } => {
            let lead = "DEBUG: "@ + "检测到本地文件，从 "@;
            let mid = " 字节处继续下载 (总大小: "@;
            let d1 = decimal(local_size as nat);
            let d2 = decimal(total_size as nat);
            assert(line =~= lead + d1 + mid + d2 + "B)"@);
            let a = lead.len() as int;
            let b = a + d1.len() + mid.len();
            assert(line.subrange(a, a + d1.len()) =~= d1);
            assert(line.subrange(b, b + d2.len()) =~= d2);
        },
        HttpEvents::FileAlreadyComplete { file_size } => {
            let lead = "DEBUG: "@ + "本地文件已完整 ("@;
            let d = decimal(file_size as nat);
            assert(line =~= lead + d + "B)，无需继续下载"@);
            assert(line.subrange(lead.len() as int, lead.len() as int + d.len()) =~= d);
        },
        HttpEvents::FileExistsWithoutResume { file_path } => {
            let lead = "DEBUG: "@ + "文件已存在但未启用断点续传: "@;
            assert(line =~= lead + file_path@);
            assert(line.subrange(lead.len() as int, lead.len() as int + file_path@.len()) =~= file_path@);
        },
        _ => {},
    }
}

/// The debug logger. It holds no state: every instance logs alike.
pub struct DebugLogProductor {}

/// `s` followed by the decimal rendering of `n`.
fn with_number(s: &mut String, n: usize)
    ensures
        final(s)@ == old(s)@ + decimal(n as nat),
{
    let d = decimal_string(n as u64);
    s.append(d.as_str());
}

impl DebugLogProductor {
    fn new() -> (p: Self)
        ensures
            p == (DebugLogProductor {}),
    {
        DebugLogProductor {}
    }

    /// The logger shared by the whole program. It holds no state, so every
    /// call hands out an equal logger.
    pub fn get_instance() -> (p: DebugLogProductor)
        ensures
            p == (DebugLogProductor {}),
    {
        DebugLogProductor::new()
    }

    /// The debug line that reports `event`.
    pub fn event_line(&self, event: &HttpEvents) -> (line: String)
        ensures
            line@ == event_line(*event),
    {
        let mut s = String::from_str("DEBUG: ");
        match event {
            HttpEvents::DebugModeSet => s.append("设置为调试模式"),
            HttpEvents::StartToProcessDownload(url) => {
                s.append("开始处理下载任务: ");
                s.append(url.as_str());
            },
            HttpEvents::GetLocalContentlength(size) => {
                s.append("本地文件大小: ");
                with_number(&mut s, *size);
                s.append("B");
            },
            HttpEvents::URLAnalysing(url) => {
                s.append("解析URL: ");
                s.append(url.as_str());
            },
            HttpEvents::HostAnalysing(host) => {
                s.append("正在解析主机 ");
                s.append(host.as_str());
                s.append("...");
            },
            HttpEvents::IPAnalysed(ip) => {
                s.append("IP地址为 ");
                s.append(ip.as_str());
            },
            HttpEvents::ConnectionEstablishing { host, ip, port } => {
                s.append("正在连接 ");
                s.append(host.as_str());
                s.append("|");
                s.append(ip.as_str());
                s.append("|:");
                with_number(&mut s, *port as usize);
                s.append("...");
            },
            HttpEvents::ConnectionEstablished => s.append("已建立连接"),
            HttpEvents::HTTPRequestSend(req) => {
                s.append("发送 HTTP 请求:\n");
                s.append(req.as_str());
            },
            HttpEvents::HeadRequestSent => s.append("发送 HEAD 请求获取文件元信息"),
            HttpEvents::ContentLengthAnalysed(size) => {
                s.append("文件大小为: ");
                with_number(&mut s, *size);
                s.append("B");
            },
            HttpEvents::ContentStreamGeted => s.append("已解析要下载的文件流"),
            HttpEvents::StartDownload => s.append("开始下载数据..."),
            HttpEvents::Downloading(bytes) => {
                s.append("已下载 ");
                with_number(&mut s, *bytes);
                s.append(" 字节...");
            },
            HttpEvents::DownloadFinished(name) => {
                s.append("下载完成，保存为 ");
                s.append(name.as_str());
            },
            HttpEvents::ResumeDownloadDetected { local_size, total_size } => {
                s.append("检测到本地文件，从 ");
                with_number(&mut s, *local_size);
                s.append(" 字节处继续下载 (总大小: ");
                with_number(&mut s, *total_size);
                s.append("B)");
            },
            HttpEvents::NewDownloadStarted => s.append("开始全新下载"),
            HttpEvents::FileAlreadyComplete { file_size } => {
                s.append("本地文件已完整 (");
                with_number(&mut s, *file_size);
                s.append("B)，无需继续下载");
            },
            HttpEvents::FileExistsWithoutResume { file_path } => {
                s.append("文件已存在但未启用断点续传: ");
                s.append(file_path.as_str());
            },
        }
        s
    }
}

} // verus!
