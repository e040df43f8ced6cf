//! Fetching a transcript with `ytt` and a video with `yaydl` or `yt-dlp`:
//! the commands, the order in which download strategies are tried, and which
//! files count as videos.
use vstd::prelude::*;
use crate::text::{eq_str, lowercase, to_lowercase};

verus! {

/// What a download produced.
#[derive(Clone, Debug)]
pub struct DownloadResult {
    /// Directory where the video is stored (`<videos_dir>/<video_id>`)
    pub video_dir: String,
    /// Path to the downloaded video file
    pub video_path: Option<String>,
    /// Path to the transcript file (if it was written)
    pub subtitle_path: Option<String>,
    /// The transcript text
    pub transcript: Option<String>,
}

/// The arguments of the `ytt` call that writes the transcript of
/// `video_id` to `out_path` as text: the id, `-l <lang>` for each language,
/// then `-f text -o <out_path>`.
pub open spec fn transcript_args_text(video_id: Seq<char>, langs: Seq<Seq<char>>, out_path: Seq<char>) -> Seq<Seq<char>> {
    seq![video_id] + langs_args(langs) + seq!["-f"@, "text"@, "-o"@, out_path]
}

/// `-l <lang>` for each language, in order.
pub open spec fn langs_args(langs: Seq<Seq<char>>) -> Seq<Seq<char>>
    decreases langs.len(),
{
    if langs.len() == 0 {
        seq![]
    } else {
        langs_args(langs.drop_last()) + seq!["-l"@, langs.last()]
    }
}

/// The arguments of the `ytt` transcript call.
pub fn transcript_args(video_id: &str, langs: &Vec<String>, out_path: &str) -> (res: Vec<String>)
    ensures
        res@.map_values(|s: String| s@) == transcript_args_text(
            video_id@,
            langs@.map_values(|s: String| s@),
            out_path@,
        ),
{
    let ghost ls = langs@.map_values(|s: String| s@);
    let mut args: Vec<String> = Vec::new();
    args.push(String::from_str(video_id));
    for i in 0..langs.len()
        invariant
            ls == langs@.map_values(|s: String| s@),
            args@.map_values(|s: String| s@) == seq![video_id@] + langs_args(ls.take(i as int)),
    {
        assert(ls.take(i + 1).drop_last() == ls.take(i as int));
        assert(ls.take(i + 1).last() == langs@[i as int]@);
        let ghost before = args@.map_values(|s: String| s@);
        args.push(String::from_str("-l"));
        args.push(langs[i].clone());
        assert(args@.map_values(|s: String| s@) == before.push("-l"@).push(langs@[i as int]@));
        assert(langs_args(ls.take(i + 1)) == langs_args(ls.take(i as int)) + seq!["-l"@, langs@[i as int]@]);
        assert(args@.map_values(|s: String| s@) == seq![video_id@] + langs_args(ls.take(i + 1)));
    }
    assert(ls.take(langs.len() as int) == ls);
    args.push(String::from_str("-f"));
    args.push(String::from_str("text"));
    args.push(String::from_str("-o"));
    args.push(String::from_str(out_path));
    assert(args@.map_values(|s: String| s@) == transcript_args_text(video_id@, ls, out_path@));
    args
}

/// A way of downloading the video file, in the order they are tried.
#[derive(Clone, Copy, Debug, PartialEq, Eq, Structural)]
pub enum DownloadStep {
    /// `yaydl`
    Yaydl,
    /// `yt-dlp` with Firefox's cookies
    YtDlpFirefox,
    /// `yt-dlp` with Chrome's cookies
    YtDlpChrome,
    /// `yt-dlp` without cookies
    YtDlpPlain,
}

/// What to do after a download attempt.
#[derive(Clone, Copy, Debug, PartialEq, Eq, Structural)]
pub enum DownloadNext {
    /// Try this way next.
    Try(DownloadStep),
    /// Stop; look for the video file when `found` is true.
    Finish(bool),
}

/// After an attempt with `step` that `succeeded` or not: a success ends the
/// download (the file is then looked for); a failure moves to the next way,
/// and the last way failing ends it with no video.
pub open spec fn next_download_text(step: DownloadStep, succeeded: bool) -> DownloadNext {
    if succeeded {
        DownloadNext::Finish(true)
    } else {
        match step {
            DownloadStep::Yaydl => DownloadNext::Try(DownloadStep::YtDlpFirefox),
            DownloadStep::YtDlpFirefox => DownloadNext::Try(DownloadStep::YtDlpChrome),
            DownloadStep::YtDlpChrome => DownloadNext::Try(DownloadStep::YtDlpPlain),
            DownloadStep::YtDlpPlain => DownloadNext::Finish(false),
        }
    }
}

/// The next move after a download attempt.
pub fn next_download(step: DownloadStep, succeeded: bool) -> (res: DownloadNext)
    ensures
        res == next_download_text(step, succeeded),
{
    if succeeded {
        DownloadNext::Finish(true)
    } else {
        match step {
            DownloadStep::Yaydl => DownloadNext::Try(DownloadStep::YtDlpFirefox),
            DownloadStep::YtDlpFirefox => DownloadNext::Try(DownloadStep::YtDlpChrome),
            DownloadStep::YtDlpChrome => DownloadNext::Try(DownloadStep::YtDlpPlain),
            DownloadStep::YtDlpPlain => DownloadNext::Finish(false),
        }
    }
}

/// The watch page of a video.
pub open spec fn watch_url_text(video_id: Seq<char>) -> Seq<char> {
    "https://www.youtube.com/watch?v="@ + video_id
}

/// The watch page of a video.
pub fn watch_url(video_id: &str) -> (res: String)
    ensures
        res@ == watch_url_text(video_id@),
{
    let mut u = String::from_str("https://www.youtube.com/watch?v=");
    u.append(video_id);
    u
}

/// The program and arguments of a download attempt writing to `output`.
pub open spec fn download_command_text(
    step: DownloadStep,
    yt_dlp_path: Seq<char>,
    quality: Seq<char>,
    output: Seq<char>,
    video_id: Seq<char>,
) -> (Seq<char>, Seq<Seq<char>>) {
    match step {
        DownloadStep::Yaydl => ("yaydl"@, seq!["-o"@, output, watch_url_text(video_id)]),
        DownloadStep::YtDlpFirefox => (
            yt_dlp_path,
            seq!["-f"@, quality, "-o"@, output, "--cookies-from-browser"@, "firefox"@, watch_url_text(video_id)],
        ),
        DownloadStep::YtDlpChrome => (
            yt_dlp_path,
            seq!["-f"@, quality, "-o"@, output, "--cookies-from-browser"@, "chrome"@, watch_url_text(video_id)],
        ),
        DownloadStep::YtDlpPlain => (yt_dlp_path, seq!["-f"@, quality, "-o"@, output, watch_url_text(video_id)]),
    }
}

fn strs(items: &Vec<&str>) -> (res: Vec<String>)
    ensures
        res@.map_values(|s: String| s@) == items@.map_values(|s: &str| s@),
{
    let mut out: Vec<String> = Vec::new();
    for i in 0..items.len()
        invariant
            out@.len() == i,
            forall|k: int| 0 <= k < i ==> #[trigger] out@[k]@ == items@[k]@,
    {
        out.push(String::from_str(items[i]));
    }
    assert(out@.map_values(|s: String| s@) == items@.map_values(|s: &str| s@));
    out
}

/// The program and arguments of a download attempt.
pub fn download_command(
    step: DownloadStep,
    yt_dlp_path: &str,
    quality: &str,
    output: &str,
    video_id: &str,
) -> (res: (String, Vec<String>))
    ensures
        (res.0@, res.1@.map_values(|s: String| s@)) == download_command_text(
            step,
            yt_dlp_path@,
            quality@,
            output@,
            video_id@,
        ),
{
    let url = watch_url(video_id);
    let u = url.as_str();
    match step {
        DownloadStep::Yaydl => {
            let args = vec!["-o", output, u];
            let r = strs(&args);
            assert(args@.map_values(|s: &str| s@) == seq!["-o"@, output@, url@]);
            (String::from_str("yaydl"), r)
        },
        DownloadStep::YtDlpFirefox => {
            let args = vec!["-f", quality, "-o", output, "--cookies-from-browser", "firefox", u];
            let r = strs(&args);
            assert(args@.map_values(|s: &str| s@) == seq![
                "-f"@,
                quality@,
                "-o"@,
                output@,
                "--cookies-from-browser"@,
                "firefox"@,
                url@,
            ]);
            (String::from_str(yt_dlp_path), r)
        },
        DownloadStep::YtDlpChrome => {
            let args = vec!["-f", quality, "-o", output, "--cookies-from-browser", "chrome", u];
            let r = strs(&args);
            assert(args@.map_values(|s: &str| s@) == seq![
                "-f"@,
                quality@,
                "-o"@,
                output@,
                "--cookies-from-browser"@,
                "chrome"@,
                url@,
            ]);
            (String::from_str(yt_dlp_path), r)
        },
        DownloadStep::YtDlpPlain => {
            let args = vec!["-f", quality, "-o", output, u];
            let r = strs(&args);
            assert(args@.map_values(|s: &str| s@) == seq!["-f"@, quality@, "-o"@, output@, url@]);
            (String::from_str(yt_dlp_path), r)
        },
    }
}

/// The file a video is downloaded to: `<video_id>.mp4`.
pub fn video_file_name(video_id: &str) -> (res: String)
    ensures
        res@ == video_id@ + ".mp4"@,
{
    let mut n = String::from_str(video_id);
    n.append(".mp4");
    n
}

/// A file extension (lowercased) that marks a video file.
pub open spec fn is_video_extension_text(ext: Seq<char>) -> bool {
    let e = lowercase(ext);
    e == "mp4"@ || e == "webm"@ || e == "avi"@ || e == "mkv"@ || e == "mov"@ || e == "mpg"@ || e == "flv"@
}

/// Whether a file with this extension is taken for the downloaded video.
pub fn is_video_extension(ext: &str) -> (res: bool)
    ensures
        res == is_video_extension_text(ext@),
{
    let e = to_lowercase(ext);
    let s = e.as_str();
    eq_str(s, "mp4") || eq_str(s, "webm") || eq_str(s, "avi") || eq_str(s, "mkv") || eq_str(s, "mov")
        || eq_str(s, "mpg") || eq_str(s, "flv")
}

/// An entry whose extension marks a video file.
pub open spec fn is_video_entry(ext: Option<String>) -> bool {
    match ext {
        Some(e) => is_video_extension_text(e@),
        None => false,
    }
}

/// The entry taken as the downloaded video among the extensions of a
/// directory's entries (`None` for an entry without one): the first with a
/// video extension, if any.
pub fn first_video_entry(exts: &Vec<Option<String>>) -> (res: Option<usize>)
    ensures
        match res {
            Some(i) => i < exts@.len() && is_video_entry(exts@[i as int]) && forall|j: int|
                0 <= j < i ==> !is_video_entry(#[trigger] exts@[j]),
            None => forall|j: int| 0 <= j < exts@.len() ==> !is_video_entry(#[trigger] exts@[j]),
        },
{
    for i in 0..exts.len()
        invariant
            forall|j: int| 0 <= j < i ==> !is_video_entry(#[trigger] exts@[j]),
    {
        if let Some(e) = &exts[i] {
            if is_video_extension(e.as_str()) {
                return Some(i);
            }
        }
    }
    None
}

} // verus!
