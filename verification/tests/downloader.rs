use yt2action::downloader::{
    download_command, first_video_entry, is_video_extension, next_download, transcript_args,
    video_file_name, watch_url, DownloadNext, DownloadStep,
};
use yt2action::transcript::TranscriptResult;
use yt2action::downloader::DownloadResult;

#[test]
fn ytt_arguments() {
    let langs = vec!["en".to_string(), "es".to_string()];
    assert_eq!(
        transcript_args("vid", &langs, "/v/vid/transcript.txt"),
        vec!["vid", "-l", "en", "-l", "es", "-f", "text", "-o", "/v/vid/transcript.txt"]
    );
    assert_eq!(transcript_args("vid", &vec![], "o"), vec!["vid", "-f", "text", "-o", "o"]);
}

#[test]
fn download_fallback_order() {
    assert_eq!(next_download(DownloadStep::Yaydl, true), DownloadNext::Finish(true));
    assert_eq!(next_download(DownloadStep::Yaydl, false), DownloadNext::Try(DownloadStep::YtDlpFirefox));
    assert_eq!(next_download(DownloadStep::YtDlpFirefox, false), DownloadNext::Try(DownloadStep::YtDlpChrome));
    assert_eq!(next_download(DownloadStep::YtDlpChrome, false), DownloadNext::Try(DownloadStep::YtDlpPlain));
    assert_eq!(next_download(DownloadStep::YtDlpPlain, false), DownloadNext::Finish(false));
    assert_eq!(next_download(DownloadStep::YtDlpPlain, true), DownloadNext::Finish(true));
}

#[test]
fn download_commands() {
    assert_eq!(watch_url("v1"), "https://www.youtube.com/watch?v=v1");
    let (prog, args) = download_command(DownloadStep::Yaydl, "yt-dlp", "worst", "/o/v1.mp4", "v1");
    assert_eq!(prog, "yaydl");
    assert_eq!(args, vec!["-o", "/o/v1.mp4", "https://www.youtube.com/watch?v=v1"]);
    let (prog, args) = download_command(DownloadStep::YtDlpFirefox, "yt-dlp", "worst", "/o/v1.mp4", "v1");
    assert_eq!(prog, "yt-dlp");
    assert_eq!(
        args,
        vec!["-f", "worst", "-o", "/o/v1.mp4", "--cookies-from-browser", "firefox", "https://www.youtube.com/watch?v=v1"]
    );
    let (_, args) = download_command(DownloadStep::YtDlpChrome, "y", "q", "o", "v");
    assert_eq!(args[5], "chrome");
    let (_, args) = download_command(DownloadStep::YtDlpPlain, "y", "q", "o", "v");
    assert_eq!(args, vec!["-f", "q", "-o", "o", "https://www.youtube.com/watch?v=v"]);
    assert_eq!(video_file_name("v1"), "v1.mp4");
}

#[test]
fn video_files_by_extension() {
    assert!(is_video_extension("MP4"));
    assert!(is_video_extension("webm"));
    assert!(is_video_extension("Mkv"));
    assert!(!is_video_extension("txt"));
    assert!(!is_video_extension("vtt"));
    let exts = vec![None, Some("txt".to_string()), Some("WEBM".to_string()), Some("mp4".to_string())];
    assert_eq!(first_video_entry(&exts), Some(2));
    assert_eq!(first_video_entry(&vec![Some("json".to_string())]), None);
}

#[test]
fn transcript_result_from_download() {
    let d = DownloadResult {
        video_dir: "/v/x".to_string(),
        video_path: None,
        subtitle_path: Some("/v/x/transcript.txt".to_string()),
        transcript: Some("hola".to_string()),
    };
    let t = TranscriptResult::from_download(d);
    assert_eq!(t.text.as_deref(), Some("hola"));
    assert_eq!(t.subtitle_path.as_deref(), Some("/v/x/transcript.txt"));
    assert_eq!(t.video_path, None);
    assert_eq!(t.video_dir, "/v/x");
}
