use wget::cli::{WgetArgs, CLI};
use wget::file_writer::{choose_open_mode, fresh_notice, resume_notice, resume_offset, DownloadProgress, OpenMode, PrepareError};
use wget::parameter_process;

fn args(url: &str, output: Option<&str>) -> WgetArgs {
    WgetArgs {
        url: url.to_string(),
        debug: true,
        output_file_name: output.map(|s| s.to_string()),
        directory_prefix: None,
        continue_download: false,
    }
}

#[test]
fn file_name_from_url_or_option() {
    assert_eq!(args("http://google.com/index.html", None).file_name(), "index.html");
    assert_eq!(args("http://google.com/a/b/c.tar.gz", None).file_name(), "c.tar.gz");
    assert_eq!(args("http://google.com/dir/", None).file_name(), "");
    assert_eq!(args("noslash", None).file_name(), "noslash");
    assert_eq!(args("http://google.com/index.html", Some("out.html")).file_name(), "out.html");
}

#[test]
fn getters() {
    let a = args("http://x/y", Some("z"));
    assert_eq!(a.get_url(), "http://x/y");
    assert_eq!(a.get_output_file_name(), Some("z"));
    assert_eq!(args("u", None).get_output_file_name(), None);

    let cli = CLI::new(args("http://x/y", None));
    assert_eq!(cli.get_args().url, "http://x/y");

    let p = parameter_process::WgetArgs { url: "http://a/b".to_string(), debug: false, output_file_name: Some("c".to_string()) };
    assert_eq!(p.get_url(), "http://a/b");
    assert_eq!(p.get_output_file_name(), Some("c"));
}

#[test]
fn finished_note_text() {
    assert_eq!(CLI::finished_note(2048), "下载完成，共下载 2048B");
    assert_eq!(CLI::finished_note(0), "下载完成，共下载 0B");
}

#[test]
fn open_mode_decision_table() {
    assert!(choose_open_mode(true, true, false) == Ok(OpenMode::Append));
    assert!(choose_open_mode(true, false, false) == Ok(OpenMode::Create));
    assert!(choose_open_mode(false, false, false) == Ok(OpenMode::Create));
    assert!(choose_open_mode(false, true, false) == Err(PrepareError::AlreadyExists));
    assert!(choose_open_mode(true, true, true) == Err(PrepareError::IsADirectory));
    assert!(choose_open_mode(false, true, true) == Err(PrepareError::IsADirectory));
}

#[test]
fn resume_offsets() {
    assert!(resume_offset(10, 100) == Ok(10));
    assert!(resume_offset(0, 1) == Ok(0));
    assert!(resume_offset(100, 100) == Err(PrepareError::AlreadyComplete));
    assert!(resume_offset(101, 100) == Err(PrepareError::AlreadyComplete));
}

#[test]
fn notices_and_messages() {
    assert_eq!(resume_notice(512), "检测到本地文件，从 512 字节处继续下载");
    assert_eq!(fresh_notice(true), "本地文件不存在，开始全新下载");
    assert_eq!(fresh_notice(false), "开始全新下载");
    assert_eq!(PrepareError::IsADirectory.message("/tmp/d"), "目标路径是目录: /tmp/d");
    assert_eq!(PrepareError::AlreadyComplete.message("x"), "本地文件已完整，无需继续下载");
    assert_eq!(PrepareError::AlreadyExists.message("x"), "文件已存在，使用 -c 选项进行断点续传，或删除现有文件");
}

#[test]
fn progress_positions() {
    let mut p = DownloadProgress::new(100);
    assert_eq!(p.offset(), 100);
    assert_eq!(p.total_written(), 0);
    assert_eq!(p.record(8192), 8292);
    assert_eq!(p.record(10), 8302);
    assert_eq!(p.total_written(), 8202);
}
