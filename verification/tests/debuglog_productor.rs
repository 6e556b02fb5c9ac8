use wget::log::debuglog::debuglog_productor::DebugLogProductor;
use wget::log::debuglog::events::DebugLogEvents;

#[test]
fn debuglog_productor_test_on_debug_mode_set_event() {
    let productor = DebugLogProductor {};
    assert_eq!(productor.event_line(&DebugLogEvents::DebugModeSet), "DEBUG: 设置为调试模式");
}

#[test]
fn debuglog_productor_test_on_url_analysing_event() {
    let productor = DebugLogProductor {};
    assert_eq!(
        productor.event_line(&DebugLogEvents::URLAnalysing("http://example.com".to_string())),
        "DEBUG: 解析URL: http://example.com"
    );
}

#[test]
fn debuglog_productor_test_on_host_analysing_event() {
    let productor = DebugLogProductor {};
    assert_eq!(
        productor.event_line(&DebugLogEvents::HostAnalysing("example.com".to_string())),
        "DEBUG: 正在解析主机 example.com..."
    );
    assert_eq!(
        productor.event_line(&DebugLogEvents::IPAnalysed("192.168.1.1".to_string())),
        "DEBUG: IP地址为 192.168.1.1"
    );
}

#[test]
fn debuglog_productor_test_on_connection_establishing_event() {
    let productor = DebugLogProductor {};
    assert_eq!(
        productor.event_line(&DebugLogEvents::ConnectionEstablishing {
            host: "example.com".to_string(),
            ip: "192.168.1.1".to_string(),
            port: 80,
        }),
        "DEBUG: 正在连接 example.com|192.168.1.1|:80..."
    );
}

#[test]
fn debuglog_productor_test_on_connection_established_event() {
    let productor = DebugLogProductor {};
    assert_eq!(productor.event_line(&DebugLogEvents::ConnectionEstablished), "DEBUG: 已建立连接");
}

#[test]
fn debuglog_productor_test_on_http_request_send_event() {
    let productor = DebugLogProductor {};
    assert_eq!(
        productor.event_line(&DebugLogEvents::HTTPRequestSend("GET / HTTP/1.1\r\nHost: example.com\r\n\r\n".to_string())),
        "DEBUG: 发送 HTTP 请求:\nGET / HTTP/1.1\r\nHost: example.com\r\n\r\n"
    );
}

#[test]
fn test_on_http_request_received_event() {
    let productor = DebugLogProductor {};
    assert_eq!(
        productor.event_line(&DebugLogEvents::HTTPRequestReceived(
            "HTTP/1.1 200 OK\r\nContent-Type: text/html\r\n\r\n<html>...</html>".to_string()
        )),
        "DEBUG: 收到响应:\nHTTP/1.1 200 OK\r\nContent-Type: text/html\r\n\r\n<html>...</html>"
    );
}

#[test]
fn debuglog_productor_test_on_start_download_event() {
    let productor = DebugLogProductor {};
    assert_eq!(productor.event_line(&DebugLogEvents::StartDownload), "DEBUG: 开始下载数据...");
}

#[test]
fn debuglog_productor_test_on_downloading_event() {
    let productor = DebugLogProductor {};
    assert_eq!(productor.event_line(&DebugLogEvents::Downloading(1024)), "DEBUG: 已下载 1024 字节...");
}

#[test]
fn debuglog_productor_test_on_download_finished_event() {
    let productor = DebugLogProductor {};
    assert_eq!(
        productor.event_line(&DebugLogEvents::DownloadFinished("output.txt".to_string())),
        "DEBUG: 下载完成，保存为 output.txt"
    );
}
