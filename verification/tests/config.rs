use std::collections::HashMap;
use yt2action::config::{
    parse_subtitle_langs, Config, OutputConfig, ProcessingConfig, StorageConfig, YoutubeConfig,
};

fn config() -> Config {
    Config {
        youtube: YoutubeConfig {
            credentials_path: None,
            playlist_id: "PL1".to_string(),
            processed_playlist_id: None,
            playlists: vec![],
        },
        processing: ProcessingConfig {
            llm_base_url: Some("http://localhost:11434".to_string()),
            llm_model: Some("llama3.2".to_string()),
            llm_api_key: None,
            max_transcript_chars: None,
        },
        output: OutputConfig {
            sp_enabled: false,
            sp_project_id: None,
            sp_tag_learn: Some("mine".to_string()),
            sp_tag_dev: None,
            obsidian_vault: None,
            category_folders: HashMap::new(),
        },
        storage: StorageConfig {
            videos_dir: None,
            quality: None,
            yt_dlp_path: None,
            keep_subtitles: None,
            subtitle_langs: None,
        },
    }
}

#[test]
fn storage_defaults() {
    let d = StorageConfig::default();
    assert_eq!(d.videos_dir, None);
    assert_eq!(d.quality.as_deref(), Some("worst"));
    assert_eq!(d.yt_dlp_path, None);
    assert_eq!(d.keep_subtitles, Some(true));
    assert_eq!(d.subtitle_langs.as_deref(), Some("en,es,es-419,en-US"));
}

#[test]
fn config_fallbacks() {
    let mut c = config();
    assert_eq!(c.yt_dlp_path(), "yt-dlp");
    assert_eq!(c.video_quality(), "worst");
    assert_eq!(c.credentials_path(), "credentials.json");
    assert_eq!(c.videos_dir_path(Some("/home/u".to_string())), "/home/u/Videos/yt2action");
    assert_eq!(c.videos_dir_path(None), "/tmp/Videos/yt2action");
    assert_eq!(c.subtitle_langs(), vec!["en", "es", "es-419", "en-US"]);
    c.storage.quality = Some("best".to_string());
    c.storage.yt_dlp_path = Some("/opt/yt-dlp".to_string());
    c.storage.videos_dir = Some("/data/v".to_string());
    c.storage.subtitle_langs = Some(" fr , de ".to_string());
    assert_eq!(c.video_quality(), "best");
    assert_eq!(c.yt_dlp_path(), "/opt/yt-dlp");
    assert_eq!(c.videos_dir_path(Some("/home/u".to_string())), "/data/v");
    assert_eq!(c.subtitle_langs(), vec!["fr", "de"]);
}

#[test]
fn output_defaults_fill_only_what_is_missing() {
    let mut c = config();
    c.apply_defaults();
    assert_eq!(c.output.sp_project_id.as_deref(), Some("INBOX_PROJECT"));
    assert_eq!(c.output.sp_tag_learn.as_deref(), Some("mine"));
    assert_eq!(c.output.sp_tag_dev.as_deref(), Some("dev"));
    assert_eq!(parse_subtitle_langs("en,,es"), vec!["en", "", "es"]);
}
