//! The records that travel through the pipeline, and the processed-video
//! state file.
use vstd::prelude::*;
use crate::text::{chars_of, eq_str};

verus! {

/// A video fetched from a YouTube playlist (or described by yt-dlp).
#[derive(Clone, Debug)]
pub struct Video {
    pub id: String,
    /// The playlist item ID (used to remove the video from a playlist)
    pub playlist_item_id: String,
    pub title: String,
    pub channel: String,
    pub description: String,
    pub published_at: String,
    pub duration_seconds: Option<u64>,
    pub view_count: Option<u64>,
    pub like_count: Option<u64>,
    pub dislike_count: Option<u64>,
    pub comment_count: Option<u64>,
}

/// Classification produced by the language model.
#[derive(Clone, Debug)]
pub struct Classification {
    pub category: VideoCategory,
    pub tags: Vec<String>,
    pub suggested_action: SuggestedAction,
}

/// The content category of a video.
#[derive(Clone, Debug)]
pub enum VideoCategory {
    Tutorial,
    News,
    Concept,
    Entertainment,
    Tool,
    Health,
    Other(String),
}

/// What the reader should do with the video.
#[derive(Clone, Copy, Debug, PartialEq, Eq, Structural)]
pub enum SuggestedAction {
    WatchFull,
    ReadTranscript,
    SaveForLater,
    Archive,
}

/// The Spanish label of an action.
pub open spec fn action_label_text(a: SuggestedAction) -> Seq<char> {
    match a {
        SuggestedAction::WatchFull => "Ver completo"@,
        SuggestedAction::ReadTranscript => "Leer resumen"@,
        SuggestedAction::SaveForLater => "Guardar para después"@,
        SuggestedAction::Archive => "Archivar"@,
    }
}

impl SuggestedAction {
    /// The Spanish label shown to the reader (what the type displays as).
    pub fn label(&self) -> (res: String)
        ensures
            res@ == action_label_text(*self),
    {
        match self {
            SuggestedAction::WatchFull => String::from_str("Ver completo"),
            SuggestedAction::ReadTranscript => String::from_str("Leer resumen"),
            SuggestedAction::SaveForLater => String::from_str("Guardar para después"),
            SuggestedAction::Archive => String::from_str("Archivar"),
        }
    }
}

/// A processed video ready to become a note or a task.
#[derive(Clone, Debug)]
pub struct ProcessedVideo {
    pub video: Video,
    pub transcript: Option<String>,
    pub summary: String,
    pub key_points: Vec<String>,
    pub classification: Classification,
    /// Vault folder suggested by the model
    pub target_folder: String,
    /// Path to the local video file, when one was downloaded
    pub local_video_path: Option<String>,
    /// Optional rich analysis from Fabric patterns
    pub fabric_output: Option<String>,
}

/// The state file: which videos have been processed already.
#[derive(Clone, Debug)]
pub struct ProcessState {
    pub processed_ids: Vec<String>,
}

/// The ids of a state, as character sequences.
pub open spec fn ids_view(ids: Seq<String>) -> Seq<Seq<char>> {
    ids.map_values(|s: String| s@)
}

/// The ids after marking `id`: appended unless it is there already.
pub open spec fn marked(ids: Seq<Seq<char>>, id: Seq<char>) -> Seq<Seq<char>> {
    if ids.contains(id) {
        ids
    } else {
        ids.push(id)
    }
}

impl View for ProcessState {
    type V = Seq<Seq<char>>;

    open spec fn view(&self) -> Seq<Seq<char>> {
        ids_view(self.processed_ids@)
    }
}

impl ProcessState {
    /// An empty state.
    pub fn new() -> (res: Self)
        ensures
            res@ == Seq::<Seq<char>>::empty(),
    {
        ProcessState { processed_ids: Vec::new() }
    }

    /// Whether `id` has been processed.
    pub fn is_processed(&self, id: &str) -> (res: bool)
        ensures
            res == self@.contains(id@),
    {
        let mut i: usize = 0;
        while i < self.processed_ids.len()
            invariant
                i <= self.processed_ids.len(),
                forall|j: int| 0 <= j < i ==> self@[j] != id@,
            decreases self.processed_ids.len() - i,
        {
            if eq_str(self.processed_ids[i].as_str(), id) {
                assert(self@[i as int] == id@);
                return true;
            }
            i += 1;
        }
        proof {
            if self@.contains(id@) {
                let k = choose|k: int| 0 <= k < self@.len() && self@[k] == id@;
                assert(self@[k] == id@);
            }
        }
        false
    }

    /// Records `id` as processed; an id already recorded is not added again.
    pub fn mark_processed(&mut self, id: String)
        ensures
            final(self)@ == marked(old(self)@, id@),
    {
        if !self.is_processed(id.as_str()) {
            self.processed_ids.push(id);
            assert(self@ == old(self)@.push(id@));
        }
    }
}

/// After marking an id, it counts as processed.
pub proof fn law_marked_is_processed(ids: Seq<Seq<char>>, id: Seq<char>)
    ensures
        marked(ids, id).contains(id),
{
    if !ids.contains(id) {
        assert(ids.push(id)[ids.len() as int] == id);
    }
}

/// Marking keeps every id that was already processed.
pub proof fn law_marking_keeps_processed(ids: Seq<Seq<char>>, id: Seq<char>, other: Seq<char>)
    requires
        ids.contains(other),
    ensures
        marked(ids, id).contains(other),
{
    if !ids.contains(id) {
        let k = choose|k: int| 0 <= k < ids.len() && ids[k] == other;
        assert(ids.push(id)[k] == other);
    }
}

/// Marking the same id twice is the same as marking it once.
pub proof fn law_marking_is_idempotent(ids: Seq<Seq<char>>, id: Seq<char>)
    ensures
        marked(marked(ids, id), id) == marked(ids, id),
{
    law_marked_is_processed(ids, id);
}

/// A state built by marking never records an id twice.
pub proof fn law_marking_keeps_ids_distinct(ids: Seq<Seq<char>>, id: Seq<char>)
    requires
        ids.no_duplicates(),
    ensures
        marked(ids, id).no_duplicates(),
{
    if !ids.contains(id) {
        let m = ids.push(id);
        assert forall|i: int, j: int| 0 <= i < m.len() && 0 <= j < m.len() && i != j implies m[i] != m[j] by {
            if i < ids.len() && j < ids.len() {
                assert(m[i] == ids[i] && m[j] == ids[j]);
            } else if i == ids.len() {
                assert(m[j] == ids[j]);
            } else {
                assert(m[i] == ids[i]);
            }
        }
    }
}

impl Default for ProcessState {
    /// The empty state.
    fn default() -> (res: Self)
        ensures
            res@ == Seq::<Seq<char>>::empty(),
    {
        ProcessState::new()
    }
}

/// The state reached from an empty one by marking `ids` in turn.
pub open spec fn marked_all(ids: Seq<Seq<char>>) -> Seq<Seq<char>>
    decreases ids.len(),
{
    if ids.len() == 0 {
        seq![]
    } else {
        marked(marked_all(ids.drop_last()), ids.last())
    }
}

/// After marking `ids` one by one from a new state, exactly those ids count
/// as processed, and none is recorded twice.
pub proof fn law_marking_sequence(ids: Seq<Seq<char>>)
    ensures
        forall|id: Seq<char>| #[trigger] marked_all(ids).contains(id) <==> ids.contains(id),
        marked_all(ids).no_duplicates(),
    decreases ids.len(),
{
    if ids.len() > 0 {
        let prev = ids.drop_last();
        law_marking_sequence(prev);
        law_marking_keeps_ids_distinct(marked_all(prev), ids.last());
        law_marked_is_processed(marked_all(prev), ids.last());
        assert forall|id: Seq<char>| #[trigger] marked_all(ids).contains(id) <==> ids.contains(id) by {
            if ids.contains(id) {
                let k = choose|k: int| 0 <= k < ids.len() && ids[k] == id;
                if k < ids.len() - 1 {
                    assert(prev[k] == id);
                    law_marking_keeps_processed(marked_all(prev), ids.last(), id);
                }
            }
            if marked_all(ids).contains(id) && id != ids.last() {
                let m = marked_all(prev);
                if !m.contains(ids.last()) {
                    let k = choose|k: int| 0 <= k < m.push(ids.last()).len() && m.push(ids.last())[k] == id;
                    assert(m[k] == id);
                }
                assert(m.contains(id));
                assert(marked_all(prev).contains(id));
                assert(prev.contains(id));
                let k = choose|k: int| 0 <= k < prev.len() && prev[k] == id;
                assert(ids[k] == id);
            }
            if id == ids.last() {
                assert(ids[ids.len() - 1] == id);
            }
        }
    }
}

/// Task payload for the Super Productivity API.
#[derive(Clone, Debug)]
pub struct SpTask {
    pub title: String,
    pub notes: String,
    pub project_id: String,
    pub tag_ids: Vec<String>,
}

/// A task as the Super Productivity API returns it.
#[derive(Clone, Debug)]
pub struct SpTaskResponse {
    pub id: String,
    pub title: String,
}

/// The outcome of processing one video, for the final report.
#[derive(Clone, Debug)]
pub struct ProcessResult {
    pub video_title: String,
    pub video_url: String,
    pub target_folder: String,
    pub note_path: Option<String>,
    pub sp_task_id: Option<String>,
    pub moved_to_processed: bool,
    pub suggested_action: SuggestedAction,
    pub tags: Vec<String>,
    pub error: Option<String>,
    /// Pattern name and how long it took, already formatted
    pub pattern_execution_times: Vec<(String, String)>,
}

} // verus!
