use wget::log::debuglog::productor::DebugLogProductor;
use wget::log::events::HttpEvents;

#[test]
fn productor_test_on_debug_mode_set_event() {
    let productor = DebugLogProductor::get_instance();
    assert_eq!(productor.event_line(&HttpEvents::DebugModeSet), "DEBUG: 设置为调试模式");
}

#[test]
fn productor_test_on_url_analysing_event() {
    let productor = DebugLogProductor::get_instance();
    assert_eq!(
        productor.event_line(&HttpEvents::URLAnalysing("http://example.com".to_string())),
        "DEBUG: 解析URL: http://example.com"
    );
}

#[test]
fn productor_test_on_host_analysing_event() {
    let productor = DebugLogProductor::get_instance();
    assert_eq!(
        productor.event_line(&HttpEvents::HostAnalysing("example.com".to_string())),
        "DEBUG: 正在解析主机 example.com..."
    );
    assert_eq!(
        productor.event_line(&HttpEvents::IPAnalysed("192.168.1.1".to_string())),
        "DEBUG: IP地址为 192.168.1.1"
    );
}

#[test]
fn productor_test_on_connection_establishing_event() {
    let productor = DebugLogProductor::get_instance();
    assert_eq!(
        productor.event_line(&HttpEvents::ConnectionEstablishing {
            host: "example.com".to_string(),
            ip: "192.168.1.1".to_string(),
            port: 80,
        }),
        "DEBUG: 正在连接 example.com|192.168.1.1|:80..."
    );
}

#[test]
fn productor_test_on_connection_established_event() {
    let productor = DebugLogProductor::get_instance();
    assert_eq!(productor.event_line(&HttpEvents::ConnectionEstablished), "DEBUG: 已建立连接");
}

#[test]
fn productor_test_on_http_request_send_event() {
    let productor = DebugLogProductor::get_instance();
    assert_eq!(
        productor.event_line(&HttpEvents::HTTPRequestSend("GET / HTTP/1.1\r\nHost: example.com\r\n\r\n".to_string())),
        "DEBUG: 发送 HTTP 请求:\nGET / HTTP/1.1\r\nHost: example.com\r\n\r\n"
    );
}

#[test]
fn test_on_content_lenght_analysed() {
    let productor = DebugLogProductor::get_instance();
    assert_eq!(productor.event_line(&HttpEvents::ContentLengthAnalysed(1234)), "DEBUG: 文件大小为: 1234B");
}

#[test]
fn productor_test_on_start_download_event() {
    let productor = DebugLogProductor::get_instance();
    assert_eq!(productor.event_line(&HttpEvents::StartDownload), "DEBUG: 开始下载数据...");
}

#[test]
fn productor_test_on_downloading_event() {
    let productor = DebugLogProductor::get_instance();
    assert_eq!(productor.event_line(&HttpEvents::Downloading(1024)), "DEBUG: 已下载 1024 字节...");
}

#[test]
fn productor_test_on_download_finished_event() {
    let productor = DebugLogProductor::get_instance();
    assert_eq!(
        productor.event_line(&HttpEvents::DownloadFinished("output.txt".to_string())),
        "DEBUG: 下载完成，保存为 output.txt"
    );
}

#[test]
fn test_on_start_to_process_download_event() {
    let productor = DebugLogProductor::get_instance();
    assert_eq!(
        productor.event_line(&HttpEvents::StartToProcessDownload("http://example.com/file.txt".to_string())),
        "DEBUG: 开始处理下载任务: http://example.com/file.txt"
    );
}

#[test]
fn test_on_get_local_contentlength_event() {
    let productor = DebugLogProductor::get_instance();
    assert_eq!(productor.event_line(&HttpEvents::GetLocalContentlength(1024)), "DEBUG: 本地文件大小: 1024B");
}

#[test]
fn test_on_head_request_sent_event() {
    let productor = DebugLogProductor::get_instance();
    assert_eq!(productor.event_line(&HttpEvents::HeadRequestSent), "DEBUG: 发送 HEAD 请求获取文件元信息");
}

#[test]
fn test_on_resume_download_detected_event() {
    let productor = DebugLogProductor::get_instance();
    assert_eq!(
        productor.event_line(&HttpEvents::ResumeDownloadDetected { local_size: 512, total_size: 1024 }),
        "DEBUG: 检测到本地文件，从 512 字节处继续下载 (总大小: 1024B)"
    );
}

#[test]
fn test_on_new_download_started_event() {
    let productor = DebugLogProductor::get_instance();
    assert_eq!(productor.event_line(&HttpEvents::NewDownloadStarted), "DEBUG: 开始全新下载");
}

#[test]
fn test_on_file_already_complete_event() {
    let productor = DebugLogProductor::get_instance();
    assert_eq!(
        productor.event_line(&HttpEvents::FileAlreadyComplete { file_size: 1024 }),
        "DEBUG: 本地文件已完整 (1024B)，无需继续下载"
    );
}

#[test]
fn test_on_file_exists_without_resume_event() {
    let productor = DebugLogProductor::get_instance();
    assert_eq!(
        productor.event_line(&HttpEvents::FileExistsWithoutResume { file_path: "/path/to/file.txt".to_string() }),
        "DEBUG: 文件已存在但未启用断点续传: /path/to/file.txt"
    );
}

#[test]
fn content_stream_event_line() {
    let productor = DebugLogProductor::get_instance();
    assert_eq!(productor.event_line(&HttpEvents::ContentStreamGeted), "DEBUG: 已解析要下载的文件流");
}

#[test]
fn every_event_line_is_tagged() {
    let productor = DebugLogProductor::get_instance();
    let events = vec![
        HttpEvents::DebugModeSet,
        HttpEvents::Downloading(0),
        HttpEvents::ConnectionEstablishing { host: String::new(), ip: String::new(), port: 65535 },
        HttpEvents::FileAlreadyComplete { file_size: usize::MAX },
    ];
    for e in events.iter() {
        assert!(productor.event_line(e).starts_with("DEBUG: "));
    }
    assert_eq!(
        productor.event_line(&HttpEvents::FileAlreadyComplete { file_size: usize::MAX }),
        format!("DEBUG: 本地文件已完整 ({}B)，无需继续下载", usize::MAX)
    );
}
