//! The transcript of a video, as fetched along with its download.
use vstd::prelude::*;
use crate::downloader::DownloadResult;

verus! {

/// Result of fetching a transcript.
#[derive(Clone, Debug)]
pub struct TranscriptResult {
    /// Raw transcript text
    pub text: Option<String>,
    /// Path to the transcript file (if available)
    pub subtitle_path: Option<String>,
    /// Path to the downloaded video file
    pub video_path: Option<String>,
    /// Directory where the video is stored
    pub video_dir: String,
}

impl TranscriptResult {
    /// The transcript part of a download.
    pub fn from_download(d: DownloadResult) -> (res: Self)
        ensures
            res.text == d.transcript,
            res.subtitle_path == d.subtitle_path,
            res.video_path == d.video_path,
            res.video_dir == d.video_dir,
    {
        TranscriptResult {
            text: d.transcript,
            subtitle_path: d.subtitle_path,
            video_path: d.video_path,
            video_dir: d.video_dir,
        }
    }
}

} // verus!
