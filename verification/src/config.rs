//! Application configuration and the defaults that fill in what the file
//! leaves out.
use vstd::prelude::*;
use crate::text::{chars_of, split_chars, split_text, string_of, trim_chars, trim_text};

verus! {

/// Application configuration.
#[derive(Clone, Debug)]
pub struct Config {
    pub youtube: YoutubeConfig,
    pub processing: ProcessingConfig,
    pub output: OutputConfig,
    pub storage: StorageConfig,
}

/// The YouTube side of the configuration.
#[derive(Clone, Debug)]
pub struct YoutubeConfig {
    /// Path to credentials.json (Google OAuth Desktop app credentials)
    pub credentials_path: Option<String>,
    /// ID of the private playlist to watch (legacy/default)
    pub playlist_id: String,
    /// Optional: after processing, move videos to this playlist
    pub processed_playlist_id: Option<String>,
    /// Playlists with their own patterns and output settings
    pub playlists: Vec<PlaylistPatternConfig>,
}

/// One playlist with the settings that override the global ones.
#[derive(Clone, Debug)]
pub struct PlaylistPatternConfig {
    pub id: String,
    pub patterns: Vec<String>,
    /// Enable SP tasks for this playlist (overrides global sp_enabled)
    pub sp_enabled: Option<bool>,
    /// SP project ID for this playlist (overrides global sp_project_id)
    pub sp_project_id: Option<String>,
    /// Target Obsidian folder for this playlist
    pub obsidian_folder: Option<String>,
    /// Target Obsidian vault for this playlist (overrides global obsidian_vault)
    pub obsidian_vault: Option<String>,
    /// Max transcript characters for this playlist
    pub max_transcript_chars: Option<usize>,
}

/// The language model settings.
#[derive(Clone, Debug)]
pub struct ProcessingConfig {
    /// LLM base URL (OpenAI-compatible)
    pub llm_base_url: Option<String>,
    /// Model name
    pub llm_model: Option<String>,
    /// Optional API key
    pub llm_api_key: Option<String>,
    /// Max transcript characters to send to the model (default: 25000)
    pub max_transcript_chars: Option<usize>,
}

/// Where the results go.
#[derive(Clone, Debug)]
pub struct OutputConfig {
    /// Create tasks in Super Productivity
    pub sp_enabled: bool,
    /// SP project ID (default: "INBOX_PROJECT")
    pub sp_project_id: Option<String>,
    /// SP tag IDs for learn/dev
    pub sp_tag_learn: Option<String>,
    pub sp_tag_dev: Option<String>,
    /// Obsidian vault for notes
    pub obsidian_vault: Option<String>,
    /// Category → vault folder mapping
    pub category_folders: std::collections::HashMap<String, String>,
}

/// Local storage of downloaded videos.
#[derive(Clone, Debug)]
pub struct StorageConfig {
    /// Directory to store downloaded videos (default: ~/Videos/yt2action)
    pub videos_dir: Option<String>,
    /// Video quality for yt-dlp (default "worst")
    pub quality: Option<String>,
    /// Path to the yt-dlp binary
    pub yt_dlp_path: Option<String>,
    /// Whether to keep subtitle files alongside the video
    pub keep_subtitles: Option<bool>,
    /// Preferred subtitle languages, comma-separated
    pub subtitle_langs: Option<String>,
}

/// The value of an optional text, or `default` when it is absent.
pub open spec fn text_or(o: Option<String>, default: Seq<char>) -> Seq<char> {
    match o {
        Some(s) => s@,
        None => default,
    }
}

/// The view of an optional text.
pub open spec fn opt_view(o: Option<String>) -> Option<Seq<char>> {
    match o {
        Some(s) => Some(s@),
        None => None,
    }
}

impl Default for StorageConfig {
    /// Quality "worst", subtitles kept, languages "en,es,es-419,en-US".
    fn default() -> (res: Self)
        ensures
            res.videos_dir is None,
            opt_view(res.quality) == Some("worst"@),
            res.yt_dlp_path is None,
            res.keep_subtitles == Some(true),
            opt_view(res.subtitle_langs) == Some("en,es,es-419,en-US"@),
    {
        StorageConfig {
            videos_dir: None,
            quality: Some(String::from_str("worst")),
            yt_dlp_path: None,
            keep_subtitles: Some(true),
            subtitle_langs: Some(String::from_str("en,es,es-419,en-US")),
        }
    }
}

/// The languages of a comma-separated list, each trimmed.
pub open spec fn subtitle_langs_text(list: Seq<char>) -> Seq<Seq<char>> {
    split_text(list, ',').map_values(|piece: Seq<char>| trim_text(piece))
}

/// Splits a comma-separated list and trims each piece.
pub fn parse_subtitle_langs(list: &str) -> (res: Vec<String>)
    ensures
        res@.len() == subtitle_langs_text(list@).len(),
        forall|i: int| 0 <= i < res@.len() ==> #[trigger] res@[i]@ == subtitle_langs_text(list@)[i],
{
    let v = chars_of(list);
    let pieces = split_chars(&v, ',');
    let mut res: Vec<String> = Vec::new();
    for i in 0..pieces.len()
        invariant
            pieces@.len() == split_text(v@, ',').len(),
            forall|k: int| 0 <= k < pieces@.len() ==> #[trigger] pieces@[k]@ == split_text(v@, ',')[k],
            v@ == list@,
            res@.len() == i,
            forall|k: int| 0 <= k < i ==> #[trigger] res@[k]@ == subtitle_langs_text(list@)[k],
    {
        let t = trim_chars(&pieces[i]);
        res.push(string_of(&t));
    }
    res
}

impl Config {
    /// Fills in the defaults of the output settings: project "INBOX_PROJECT",
    /// tags "learn" and "dev", each only where the file gave none.
    pub fn apply_defaults(&mut self)
        ensures
            opt_view(final(self).output.sp_project_id) == Some(text_or(old(self).output.sp_project_id, "INBOX_PROJECT"@)),
            opt_view(final(self).output.sp_tag_learn) == Some(text_or(old(self).output.sp_tag_learn, "learn"@)),
            opt_view(final(self).output.sp_tag_dev) == Some(text_or(old(self).output.sp_tag_dev, "dev"@)),
            final(self).youtube == old(self).youtube,
            final(self).processing == old(self).processing,
            final(self).storage == old(self).storage,
            final(self).output.sp_enabled == old(self).output.sp_enabled,
            final(self).output.obsidian_vault == old(self).output.obsidian_vault,
            final(self).output.category_folders == old(self).output.category_folders,
    {
        if self.output.sp_project_id.is_none() {
            self.output.sp_project_id = Some(String::from_str("INBOX_PROJECT"));
        }
        if self.output.sp_tag_learn.is_none() {
            self.output.sp_tag_learn = Some(String::from_str("learn"));
        }
        if self.output.sp_tag_dev.is_none() {
            self.output.sp_tag_dev = Some(String::from_str("dev"));
        }
    }

    /// Path to the yt-dlp binary: the configured one, else "yt-dlp".
    pub fn yt_dlp_path(&self) -> (res: String)
        ensures
            res@ == text_or(self.storage.yt_dlp_path, "yt-dlp"@),
    {
        match &self.storage.yt_dlp_path {
            Some(p) => p.clone(),
            None => String::from_str("yt-dlp"),
        }
    }

    /// Video quality: the configured one, else "worst".
    pub fn video_quality(&self) -> (res: &str)
        ensures
            res@ == text_or(self.storage.quality, "worst"@),
    {
        match &self.storage.quality {
            Some(q) => q.as_str(),
            None => "worst",
        }
    }

    /// The videos directory: the configured one, else
    /// `<home>/Videos/yt2action` with `home` defaulting to "/tmp".
    pub fn videos_dir_path(&self, home: Option<String>) -> (res: String)
        ensures
            res@ == match self.storage.videos_dir {
                Some(d) => d@,
                None => text_or(home, "/tmp"@) + "/Videos/yt2action"@,
            },
    {
        match &self.storage.videos_dir {
            Some(d) => d.clone(),
            None => {
                let mut p = match home {
                    Some(h) => h,
                    None => String::from_str("/tmp"),
                };
                p.append("/Videos/yt2action");
                p
            },
        }
    }

    /// The preferred subtitle languages, trimmed, from the configured list or
    /// "en,es,es-419,en-US".
    pub fn subtitle_langs(&self) -> (res: Vec<String>)
        ensures
            res@.len() == subtitle_langs_text(text_or(self.storage.subtitle_langs, "en,es,es-419,en-US"@)).len(),
            forall|i: int| 0 <= i < res@.len() ==> #[trigger] res@[i]@ == subtitle_langs_text(
                text_or(self.storage.subtitle_langs, "en,es,es-419,en-US"@),
            )[i],
    {
        match &self.storage.subtitle_langs {
            Some(l) => parse_subtitle_langs(l.as_str()),
            None => parse_subtitle_langs("en,es,es-419,en-US"),
        }
    }

    /// Path to credentials.json: the configured one, else "credentials.json".
    pub fn credentials_path(&self) -> (res: String)
        ensures
            res@ == text_or(self.youtube.credentials_path, "credentials.json"@),
    {
        match &self.youtube.credentials_path {
            Some(p) => p.clone(),
            None => String::from_str("credentials.json"),
        }
    }
}

} // verus!
