//! The decisions of a pipeline run: which playlists and videos are
//! processed, which folders the model may choose, how pattern outputs are
//! combined, and the final report.
use vstd::prelude::*;
use crate::config::{opt_view, text_or, Config, PlaylistPatternConfig};
use crate::json::{json_document, member_count, member_count_of, member_text, member_text_of, opt_text, parse_json, JsonDoc, JsonDocView};
use crate::processor::texts;
use crate::text::{
    chars_of, contains_chars, contains_seq, decimal_string, decimal_text, eq_str, find_char, first_index,
    byte_prefix, first_occurrence, lemma_total_at_least, lemma_utf8_bytes_split, prefix_within,
    utf8_bytes, join_strings, join_texts, occurs_at, slice_chars, string_of, trim_chars, trim_text,
};
use crate::youtube::digits_value;
use crate::obsidian::{lines_text, text_lines};
use crate::types::{action_label_text, ProcessResult, ProcessState, ProcessedVideo, SuggestedAction, Video};

verus! {

/// The heavy rule of the report.
pub const HEAVY_RULE: &'static str = "══════════════════════════════════════════════════════";

/// The light rule of the report.
pub const LIGHT_RULE: &'static str = "──────────────────────────────────────────────────";

/// The report's advice line for an action.
pub open spec fn action_emoji_text(a: SuggestedAction) -> Seq<char> {
    match a {
        SuggestedAction::WatchFull => "👀  Sugerencia: Ver completo (vale la pena)"@,
        SuggestedAction::ReadTranscript => "📖  Sugerencia: Solo leer resumen"@,
        SuggestedAction::SaveForLater => "💾  Sugerencia: Guardar para después"@,
        SuggestedAction::Archive => "📦  Sugerencia: Archivar (referencia)"@,
    }
}

/// The report's advice line for an action (every action has one).
pub fn action_emoji(action: &SuggestedAction) -> (res: Option<&'static str>)
    ensures
        res matches Some(t) && t@ == action_emoji_text(*action),
{
    match action {
        SuggestedAction::WatchFull => Some("👀  Sugerencia: Ver completo (vale la pena)"),
        SuggestedAction::ReadTranscript => Some("📖  Sugerencia: Solo leer resumen"),
        SuggestedAction::SaveForLater => Some("💾  Sugerencia: Guardar para después"),
        SuggestedAction::Archive => Some("📦  Sugerencia: Archivar (referencia)"),
    }
}

/// The first two lines of a result: status, number and title; link.
pub open spec fn result_head_text(n: nat, r: ProcessResult) -> Seq<char> {
    "  "@ + (if r.error is Some { "❌"@ } else { "✅"@ }) + "  "@ + decimal_text(n) + ". "@ + r.video_title@ + "\n"@
        + "     🔗  "@ + r.video_url@ + "\n"@
}

/// The note line of a result, if it has a note.
pub open spec fn note_line_text(r: ProcessResult, dry_run: bool) -> Seq<char> {
    match r.note_path {
        Some(p) => (if dry_run { "     📝  [Simulado] "@ } else { "     📝  "@ }) + p@ + "\n"@,
        None => Seq::empty(),
    }
}

/// The task line of a result, if it has a task.
pub open spec fn task_line_text(r: ProcessResult, dry_run: bool) -> Seq<char> {
    match r.sp_task_id {
        Some(t) => (if dry_run { "     📋  [Simulado] SP task: "@ } else { "     📋  SP task: "@ }) + t@ + "\n"@,
        None => Seq::empty(),
    }
}

/// The moved line of a result, if it was moved to the processed playlist.
pub open spec fn moved_line_text(r: ProcessResult, dry_run: bool) -> Seq<char> {
    if r.moved_to_processed {
        if dry_run {
            "     📁  [Simulado] Movido a playlist de procesados\n"@
        } else {
            "     📁  Movido a playlist de procesados\n"@
        }
    } else {
        Seq::empty()
    }
}

/// The advice, tags, pattern times and error lines of a result.
pub open spec fn result_tail_text(r: ProcessResult) -> Seq<char> {
    "     "@ + action_emoji_text(r.suggested_action) + "\n"@
        + (if r.tags@.len() > 0 { "     🏷️  "@ + join_texts(texts(r.tags@), ", "@) + "\n"@ } else { Seq::empty() })
        + (if r.pattern_execution_times@.len() > 0 {
            "     🧠  Tiempos de patrones:\n"@ + pattern_times_text(r.pattern_execution_times@)
        } else {
            Seq::empty()
        })
        + match r.error {
            Some(e) => "     ❌  Error: "@ + e@ + "\n"@,
            None => Seq::empty(),
        }
        + "\n"@
}

/// The report block of result number `n` (counting from 1).
pub open spec fn result_block_text(n: nat, r: ProcessResult, dry_run: bool) -> Seq<char> {
    result_head_text(n, r) + note_line_text(r, dry_run) + task_line_text(r, dry_run) + moved_line_text(r, dry_run)
        + result_tail_text(r)
}

/// One line per pattern with the time it took.
pub open spec fn pattern_times_text(times: Seq<(String, String)>) -> Seq<char>
    decreases times.len(),
{
    if times.len() == 0 {
        seq![]
    } else {
        pattern_times_text(times.drop_last()) + "         - "@ + times.last().0@ + ": "@ + times.last().1@ + "\n"@
    }
}

/// The blocks of all results, numbered from 1.
pub open spec fn result_blocks_text(rs: Seq<ProcessResult>, dry_run: bool) -> Seq<char>
    decreases rs.len(),
{
    if rs.len() == 0 {
        seq![]
    } else {
        result_blocks_text(rs.drop_last(), dry_run) + result_block_text(rs.len(), rs.last(), dry_run)
    }
}

/// How many results carry an error.
pub open spec fn error_count(rs: Seq<ProcessResult>) -> nat
    decreases rs.len(),
{
    if rs.len() == 0 {
        0
    } else {
        error_count(rs.drop_last()) + if rs.last().error is Some { 1nat } else { 0nat }
    }
}

/// The report's header.
pub open spec fn report_head_text(dry_run: bool) -> Seq<char> {
    "\n"@ + HEAVY_RULE@ + "\n"@
        + (if dry_run { "       📋 REPORTE DE PROCESAMIENTO (MODO SIMULACIÓN)\n"@ } else { "           📋 REPORTE DE PROCESAMIENTO\n"@ })
        + HEAVY_RULE@ + "\n"@ + "\n"@
}

/// The totals line: results without and with an error.
pub open spec fn totals_text(ok: nat, errors: nat) -> Seq<char> {
    "  Total: "@ + decimal_text(ok) + " procesado"@ + (if ok == 1 { ""@ } else { "s"@ }) + " | "@
        + decimal_text(errors) + " error"@ + (if errors == 1 { ""@ } else { "es"@ }) + "\n"@
}

/// The closing lines: vault and destination playlist when configured, run time.
pub open spec fn report_foot_text(vault: Option<Seq<char>>, processed_playlist: Option<Seq<char>>, elapsed: Seq<char>) -> Seq<char> {
    (match vault {
        Some(v) => "  📁  Vault: "@ + v + "\n"@,
        None => Seq::empty(),
    })
        + match processed_playlist {
            Some(p) => "  📁  Playlist destino: "@ + p + "\n"@,
            None => Seq::empty(),
        }
        + "  ⏱️   Tiempo total de ejecución: "@ + elapsed + "\n"@
        + HEAVY_RULE@ + "\n"@ + "\n"@
}

/// The final report of a run: a header, a block per result, the totals,
/// the vault and destination playlist when configured, and the run time.
pub open spec fn report_text(
    rs: Seq<ProcessResult>,
    vault: Option<Seq<char>>,
    processed_playlist: Option<Seq<char>>,
    dry_run: bool,
    elapsed: Seq<char>,
) -> Seq<char> {
    report_head_text(dry_run) + result_blocks_text(rs, dry_run) + LIGHT_RULE@ + "\n"@
        + totals_text((rs.len() - error_count(rs)) as nat, error_count(rs))
        + report_foot_text(vault, processed_playlist, elapsed)
}

} // verus!

verus! {

/// The lines with the time each pattern took.
fn pattern_times(times: &Vec<(String, String)>) -> (res: String)
    ensures
        res@ == pattern_times_text(times@),
{
    let mut out = String::new();
    for i in 0..times.len()
        invariant
            out@ == pattern_times_text(times@.take(i as int)),
    {
        assert(times@.take(i + 1).drop_last() == times@.take(i as int));
        assert(times@.take(i + 1).last() == times@[i as int]);
        out.append("         - ");
        out.append(times[i].0.as_str());
        out.append(": ");
        out.append(times[i].1.as_str());
        out.append("\n");
    }
    assert(times@.take(times.len() as int) == times@);
    out
}

fn result_head(n: usize, r: &ProcessResult) -> (res: String)
    ensures
        res@ == result_head_text(n as nat, *r),
{
    let mut out = String::from_str("  ");
    if r.error.is_some() {
        out.append("❌");
    } else {
        out.append("✅");
    }
    out.append("  ");
    out.append(decimal_string(n as u64).as_str());
    out.append(". ");
    out.append(r.video_title.as_str());
    out.append("\n");
    out.append("     🔗  ");
    out.append(r.video_url.as_str());
    out.append("\n");
    out
}

fn note_line(r: &ProcessResult, dry_run: bool) -> (res: String)
    ensures
        res@ == note_line_text(*r, dry_run),
{
    match &r.note_path {
        Some(p) => {
            let mut out = if dry_run {
                String::from_str("     📝  [Simulado] ")
            } else {
                String::from_str("     📝  ")
            };
            out.append(p.as_str());
            out.append("\n");
            out
        },
        None => String::new(),
    }
}

fn task_line(r: &ProcessResult, dry_run: bool) -> (res: String)
    ensures
        res@ == task_line_text(*r, dry_run),
{
    match &r.sp_task_id {
        Some(t) => {
            let mut out = if dry_run {
                String::from_str("     📋  [Simulado] SP task: ")
            } else {
                String::from_str("     📋  SP task: ")
            };
            out.append(t.as_str());
            out.append("\n");
            out
        },
        None => String::new(),
    }
}

fn moved_line(r: &ProcessResult, dry_run: bool) -> (res: String)
    ensures
        res@ == moved_line_text(*r, dry_run),
{
    if r.moved_to_processed {
        if dry_run {
            String::from_str("     📁  [Simulado] Movido a playlist de procesados\n")
        } else {
            String::from_str("     📁  Movido a playlist de procesados\n")
        }
    } else {
        String::new()
    }
}

fn result_tail(r: &ProcessResult) -> (res: String)
    ensures
        res@ == result_tail_text(*r),
{
    let mut out = String::from_str("     ");
    match action_emoji(&r.suggested_action) {
        Some(t) => out.append(t),
        None => {},
    }
    out.append("\n");
    let ghost d = out@;
    if r.tags.len() > 0 {
        out.append("     🏷️  ");
        out.append(join_strings(&r.tags, ", ").as_str());
        out.append("\n");
    } else {
        assert(d + Seq::<char>::empty() == d);
    }
    let ghost e = out@;
    if r.pattern_execution_times.len() > 0 {
        out.append("     🧠  Tiempos de patrones:\n");
        out.append(pattern_times(&r.pattern_execution_times).as_str());
    } else {
        assert(e + Seq::<char>::empty() == e);
    }
    let ghost f = out@;
    match &r.error {
        Some(err) => {
            out.append("     ❌  Error: ");
            out.append(err.as_str());
            out.append("\n");
        },
        None => {
            assert(f + Seq::<char>::empty() == f);
        },
    }
    out.append("\n");
    out
}

/// The report block of result number `n`.
fn result_block(n: usize, r: &ProcessResult, dry_run: bool) -> (res: String)
    ensures
        res@ == result_block_text(n as nat, *r, dry_run),
{
    let mut out = result_head(n, r);
    out.append(note_line(r, dry_run).as_str());
    out.append(task_line(r, dry_run).as_str());
    out.append(moved_line(r, dry_run).as_str());
    out.append(result_tail(r).as_str());
    out
}

fn report_head(dry_run: bool) -> (res: String)
    ensures
        res@ == report_head_text(dry_run),
{
    let mut out = String::from_str("\n");
    out.append(HEAVY_RULE);
    out.append("\n");
    if dry_run {
        out.append("       📋 REPORTE DE PROCESAMIENTO (MODO SIMULACIÓN)\n");
    } else {
        out.append("           📋 REPORTE DE PROCESAMIENTO\n");
    }
    out.append(HEAVY_RULE);
    out.append("\n");
    out.append("\n");
    out
}

fn totals(ok: usize, errors: usize) -> (res: String)
    ensures
        res@ == totals_text(ok as nat, errors as nat),
{
    let mut out = String::from_str("  Total: ");
    out.append(decimal_string(ok as u64).as_str());
    out.append(" procesado");
    if ok == 1 {
        out.append("");
    } else {
        out.append("s");
    }
    out.append(" | ");
    out.append(decimal_string(errors as u64).as_str());
    out.append(" error");
    if errors == 1 {
        out.append("");
    } else {
        out.append("es");
    }
    out.append("\n");
    out
}

fn report_foot(vault: Option<&str>, processed_playlist: Option<&str>, elapsed: &str) -> (res: String)
    ensures
        res@ == report_foot_text(
            match vault {
                Some(v) => Some(v@),
                None => None,
            },
            match processed_playlist {
                Some(p) => Some(p@),
                None => None,
            },
            elapsed@,
        ),
{
    let mut out = String::new();
    match vault {
        Some(v) => {
            out.append("  📁  Vault: ");
            out.append(v);
            out.append("\n");
        },
        None => {},
    }
    let ghost h = out@;
    match processed_playlist {
        Some(p) => {
            out.append("  📁  Playlist destino: ");
            out.append(p);
            out.append("\n");
        },
        None => {
            assert(h + Seq::<char>::empty() == h);
        },
    }
    out.append("  ⏱️   Tiempo total de ejecución: ");
    out.append(elapsed);
    out.append("\n");
    out.append(HEAVY_RULE);
    out.append("\n");
    out.append("\n");
    out
}

/// The final report of a run (see `report_text`); `elapsed` is the run
/// time as shown.
pub fn report(
    results: &Vec<ProcessResult>,
    vault: Option<&str>,
    processed_playlist: Option<&str>,
    dry_run: bool,
    elapsed: &str,
) -> (res: String)
    ensures
        res@ == report_text(
            results@,
            match vault {
                Some(v) => Some(v@),
                None => None,
            },
            match processed_playlist {
                Some(p) => Some(p@),
                None => None,
            },
            dry_run,
            elapsed@,
        ),
{
    let mut blocks = String::new();
    let mut errors: usize = 0;
    for i in 0..results.len()
        invariant
            blocks@ == result_blocks_text(results@.take(i as int), dry_run),
            errors as nat == error_count(results@.take(i as int)),
            errors <= i,
    {
        assert(results@.take(i + 1).drop_last() == results@.take(i as int));
        assert(results@.take(i + 1).last() == results@[i as int]);
        blocks.append(result_block(i + 1, &results[i], dry_run).as_str());
        if results[i].error.is_some() {
            errors += 1;
        }
    }
    assert(results@.take(results.len() as int) == results@);
    let ok = results.len() - errors;
    let mut out = report_head(dry_run);
    out.append(blocks.as_str());
    out.append(LIGHT_RULE);
    out.append("\n");
    out.append(totals(ok, errors).as_str());
    out.append(report_foot(vault, processed_playlist, elapsed).as_str());
    out
}

/// The run time as shown in the report: `<m>m <s>s` from a minute on,
/// else the given `short` text (seconds with one decimal, rendered by the
/// caller).
pub fn elapsed_text(total_secs: u64, short: &str) -> (res: String)
    ensures
        res@ == if total_secs / 60 > 0 {
            decimal_text((total_secs / 60) as nat) + "m "@ + decimal_text((total_secs % 60) as nat) + "s"@
        } else {
            short@
        },
{
    let mins = total_secs / 60;
    let secs = total_secs % 60;
    if mins > 0 {
        let mut out = decimal_string(mins);
        out.append("m ");
        out.append(decimal_string(secs).as_str());
        out.append("s");
        out
    } else {
        String::from_str(short)
    }
}

} // verus!

verus! {

/// The part of `s` from `start` up to the first `stop` after it (or the end).
pub open spec fn up_to_text(s: Seq<char>, start: int, stop: char) -> Seq<char> {
    let rest = s.skip(start);
    match first_index(rest, stop) {
        Some(k) => rest.take(k),
        None => rest,
    }
}

/// The video id in a YouTube URL: the `v=` parameter of a
/// `youtube.com/watch` URL, the path of a `youtu.be/` link; anything else
/// (a bare id, a playlist position) is returned trimmed.
pub open spec fn extract_video_id_text(input: Seq<char>) -> Seq<char> {
    let s = trim_text(input);
    if contains_seq(s, "youtube.com/watch"@) {
        match first_occurrence(s, "v="@) {
            Some(pos) => up_to_text(s, pos + 2, '&'),
            None => s,
        }
    } else if contains_seq(s, "youtu.be/"@) {
        match crate::text::last_index(s, '/') {
            Some(pos) => up_to_text(s, pos + 1, '?'),
            None => s,
        }
    } else {
        s
    }
}

/// `v[start..]` up to the first `stop`.
fn up_to(v: &Vec<char>, start: usize, stop: char) -> (res: String)
    requires
        start <= v.len(),
    ensures
        res@ == up_to_text(v@, start as int, stop),
{
    let rest = slice_chars(v, start, v.len());
    assert(rest@ == v@.skip(start as int));
    match find_char(&rest, stop) {
        Some(k) => string_of(&slice_chars(&rest, 0, k)),
        None => string_of(&rest),
    }
}

/// The video id in a URL, or the trimmed input.
pub fn extract_video_id(input: &str) -> (res: String)
    ensures
        res@ == extract_video_id_text(input@),
{
    let v = trim_chars(&chars_of(input));
    if contains_chars(&v, &chars_of("youtube.com/watch")) {
        proof {
            reveal_strlit("v=");
        }
        match crate::text::find_chars(&v, &chars_of("v=")) {
            Some(pos) => {
                return up_to(&v, pos + 2, '&');
            },
            None => {},
        }
    } else if contains_chars(&v, &chars_of("youtu.be/")) {
        match crate::text::rfind_char(&v, '/') {
            Some(pos) => {
                return up_to(&v, pos + 1, '?');
            },
            None => {},
        }
    }
    string_of(&v)
}

} // verus!

verus! {

/// The folders the model may always choose from.
pub open spec fn default_folders() -> Seq<Seq<char>> {
    seq!["Learn"@, "Ideas"@, "Resources"@, "Health"@, "Things"@, "Resources/YouTube"@]
}

/// `base` followed by each folder of `extra` that is not already listed.
pub open spec fn add_folders(base: Seq<Seq<char>>, extra: Seq<Seq<char>>) -> Seq<Seq<char>>
    decreases extra.len(),
{
    if extra.len() == 0 {
        base
    } else {
        let prev = add_folders(base, extra.drop_last());
        if prev.contains(extra.last()) {
            prev
        } else {
            prev.push(extra.last())
        }
    }
}

/// The folders offered to the model: the defaults, then each configured
/// category folder (`extra`) that is not already offered.
pub fn valid_folders(extra: &Vec<String>) -> (res: Vec<String>)
    ensures
        texts(res@) == add_folders(default_folders(), texts(extra@)),
        texts(res@).no_duplicates(),
        forall|i: int| 0 <= i < extra@.len() ==> texts(res@).contains(#[trigger] extra@[i]@),
{
    proof {
        lemma_default_folders_distinct();
        law_valid_folders_distinct_and_complete(default_folders(), texts(extra@));
        assert forall|i: int| 0 <= i < extra@.len() implies add_folders(default_folders(), texts(extra@)).contains(
            #[trigger] extra@[i]@,
        ) by {
            assert(texts(extra@)[i] == extra@[i]@);
        }
    }
    let mut res: Vec<String> = Vec::new();
    res.push(String::from_str("Learn"));
    res.push(String::from_str("Ideas"));
    res.push(String::from_str("Resources"));
    res.push(String::from_str("Health"));
    res.push(String::from_str("Things"));
    res.push(String::from_str("Resources/YouTube"));
    assert(texts(res@) == default_folders());
    let ghost ex = texts(extra@);
    for i in 0..extra.len()
        invariant
            ex == texts(extra@),
            texts(res@) == add_folders(default_folders(), ex.take(i as int)),
    {
        assert(ex.take(i + 1).drop_last() == ex.take(i as int));
        assert(ex.take(i + 1).last() == extra@[i as int]@);
        let mut found = false;
        for k in 0..res.len()
            invariant
                i < extra@.len(),
                found == exists|j: int| 0 <= j < k && res@[j]@ == extra@[i as int]@,
        {
            if eq_str(res[k].as_str(), extra[i].as_str()) {
                found = true;
            }
        }
        proof {
            let r = texts(res@);
            if found {
                let j = choose|j: int| 0 <= j < res@.len() && res@[j]@ == extra@[i as int]@;
                assert(r[j] == extra@[i as int]@);
            } else {
                assert forall|j: int| 0 <= j < r.len() implies r[j] != extra@[i as int]@ by {
                    assert(r[j] == res@[j]@);
                }
            }
        }
        if !found {
            res.push(extra[i].clone());
            assert(texts(res@) == texts(res@.drop_last()).push(extra@[i as int]@));
        }
    }
    assert(ex.take(extra.len() as int) == ex);
    res
}

/// The folders offered to the model are all distinct, and every configured
/// folder is among them.
pub proof fn law_valid_folders_distinct_and_complete(base: Seq<Seq<char>>, extra: Seq<Seq<char>>)
    requires
        base.no_duplicates(),
    ensures
        add_folders(base, extra).no_duplicates(),
        forall|i: int| 0 <= i < extra.len() ==> add_folders(base, extra).contains(#[trigger] extra[i]),
        forall|i: int| 0 <= i < base.len() ==> add_folders(base, extra).contains(#[trigger] base[i]),
    decreases extra.len(),
{
    if extra.len() > 0 {
        let init = extra.drop_last();
        law_valid_folders_distinct_and_complete(base, init);
        let prev = add_folders(base, init);
        if !prev.contains(extra.last()) {
            let r = prev.push(extra.last());
            assert forall|a: int, b: int| 0 <= a < r.len() && 0 <= b < r.len() && a != b implies r[a] != r[b] by {
                if a < prev.len() && b < prev.len() {
                } else if a == prev.len() {
                    assert(r[b] == prev[b]);
                } else {
                    assert(r[a] == prev[a]);
                }
            }
            assert forall|i: int| 0 <= i < extra.len() implies r.contains(#[trigger] extra[i]) by {
                if i < init.len() {
                    assert(init[i] == extra[i]);
                    let k = choose|k: int| 0 <= k < prev.len() && prev[k] == init[i];
                    assert(r[k] == extra[i]);
                } else {
                    assert(r[prev.len() as int] == extra[i]);
                }
            }
            assert forall|i: int| 0 <= i < base.len() implies r.contains(#[trigger] base[i]) by {
                let k = choose|k: int| 0 <= k < prev.len() && prev[k] == base[i];
                assert(r[k] == base[i]);
            }
        } else {
            assert forall|i: int| 0 <= i < extra.len() implies prev.contains(#[trigger] extra[i]) by {
                if i < init.len() {
                    assert(init[i] == extra[i]);
                }
            }
        }
    }
}

/// The default folders are distinct.
proof fn lemma_default_folders_distinct()
    ensures
        default_folders().no_duplicates(),
{
    reveal_strlit("Learn");
    reveal_strlit("Ideas");
    reveal_strlit("Resources");
    reveal_strlit("Health");
    reveal_strlit("Things");
    reveal_strlit("Resources/YouTube");
    let d = default_folders();
    assert forall|a: int, b: int| 0 <= a < d.len() && 0 <= b < d.len() && a != b implies d[a] != d[b] by {
        if d[a].len() == d[b].len() {
            assert(d[a][0] != d[b][0] || d[a][1] != d[b][1]);
        }
    }
}

/// The output of one more pattern added to what earlier patterns gave.
pub open spec fn appended_output_text(current: Option<Seq<char>>, pattern: Seq<char>, output: Seq<char>) -> Seq<char> {
    match current {
        None => output,
        Some(c) => c + "\n\n---\n\n# Patrón: "@ + pattern + "\n\n"@ + output,
    }
}

/// Adds a pattern's output to what earlier patterns gave.
pub fn append_pattern_output(current: Option<String>, pattern: &str, output: &str) -> (res: String)
    ensures
        res@ == appended_output_text(opt_text(current), pattern@, output@),
{
    match current {
        None => String::from_str(output),
        Some(mut c) => {
            c.append("\n\n---\n\n# Patrón: ");
            c.append(pattern);
            c.append("\n\n");
            c.append(output);
            c
        },
    }
}

/// A copy of a list of strings.
pub fn copy_strings(v: &Vec<String>) -> (res: Vec<String>)
    ensures
        res@ == v@,
{
    let mut out: Vec<String> = Vec::new();
    for i in 0..v.len()
        invariant
            out@ == v@.take(i as int),
    {
        out.push(v[i].clone());
        assert(out@ == v@.take(i + 1));
    }
    assert(v@.take(v.len() as int) == v@);
    out
}

/// A copy of an optional string.
pub fn copy_opt(o: &Option<String>) -> (res: Option<String>)
    ensures
        res == *o,
{
    match o {
        Some(s) => Some(s.clone()),
        None => None,
    }
}

/// The patterns to run: those given on the command line, else the playlist's.
pub fn patterns_to_run(cli: &Vec<String>, playlist: &Vec<String>) -> (res: Vec<String>)
    ensures
        res@ == if cli@.len() > 0 { cli@ } else { playlist@ },
{
    if cli.len() > 0 {
        copy_strings(cli)
    } else {
        copy_strings(playlist)
    }
}

/// The project a task goes to: the playlist's, else the configured one,
/// else "INBOX_PROJECT".
pub fn effective_project_id(playlist: &Option<String>, global: &Option<String>) -> (res: String)
    ensures
        res@ == match *playlist {
            Some(p) => p@,
            None => text_or(*global, "INBOX_PROJECT"@),
        },
{
    match playlist {
        Some(p) => p.clone(),
        None => match global {
            Some(g) => g.clone(),
            None => String::from_str("INBOX_PROJECT"),
        },
    }
}

/// The link to a video on YouTube.
pub fn youtube_link(video_id: &str) -> (res: String)
    ensures
        res@ == "https://youtube.com/watch?v="@ + video_id@,
{
    let mut u = String::from_str("https://youtube.com/watch?v=");
    u.append(video_id);
    u
}

/// The line of a video in a playlist listing: `<n>. [<duration>] <title> — <channel>`.
pub fn list_line(n: usize, duration: &str, title: &str, channel: &str) -> (res: String)
    ensures
        res@ == decimal_text(n as nat) + ". ["@ + duration@ + "] "@ + title@ + " — "@ + channel@,
{
    let mut out = decimal_string(n as u64);
    out.append(". [");
    out.append(duration);
    out.append("] ");
    out.append(title);
    out.append(" — ");
    out.append(channel);
    out
}

} // verus!

verus! {

/// A playlist to process with the settings that override the global ones.
#[derive(Clone, Debug)]
pub struct PlaylistJob {
    pub id: String,
    pub patterns: Vec<String>,
    pub sp_enabled: Option<bool>,
    pub sp_project_id: Option<String>,
    pub obsidian_folder: Option<String>,
    pub obsidian_vault: Option<String>,
    pub max_transcript_chars: Option<usize>,
}

/// `j` is the job for the configured playlist `p`.
pub open spec fn job_for_playlist(j: PlaylistJob, p: PlaylistPatternConfig) -> bool {
    &&& j.id == p.id
    &&& j.patterns@ == p.patterns@
    &&& j.sp_enabled == p.sp_enabled
    &&& j.sp_project_id == p.sp_project_id
    &&& j.obsidian_folder == p.obsidian_folder
    &&& j.obsidian_vault == p.obsidian_vault
    &&& j.max_transcript_chars == p.max_transcript_chars
}

/// The playlists a run processes: the legacy playlist (with the global
/// project and no overrides) when none is configured, else each configured
/// playlist in order.
pub fn playlist_jobs(cfg: &Config) -> (res: Vec<PlaylistJob>)
    ensures
        cfg.youtube.playlists@.len() == 0 ==> {
            &&& res@.len() == 1
            &&& res@[0].id == cfg.youtube.playlist_id
            &&& res@[0].patterns@.len() == 0
            &&& res@[0].sp_enabled is None
            &&& res@[0].sp_project_id == cfg.output.sp_project_id
            &&& res@[0].obsidian_folder is None
            &&& res@[0].obsidian_vault is None
            &&& res@[0].max_transcript_chars is None
        },
        cfg.youtube.playlists@.len() > 0 ==> {
            &&& res@.len() == cfg.youtube.playlists@.len()
            &&& forall|i: int| 0 <= i < res@.len() ==> job_for_playlist(#[trigger] res@[i], cfg.youtube.playlists@[i])
        },
{
    let mut jobs: Vec<PlaylistJob> = Vec::new();
    if cfg.youtube.playlists.len() == 0 {
        jobs.push(PlaylistJob {
            id: cfg.youtube.playlist_id.clone(),
            patterns: Vec::new(),
            sp_enabled: None,
            sp_project_id: copy_opt(&cfg.output.sp_project_id),
            obsidian_folder: None,
            obsidian_vault: None,
            max_transcript_chars: None,
        });
        return jobs;
    }
    for i in 0..cfg.youtube.playlists.len()
        invariant
            jobs@.len() == i,
            forall|k: int| 0 <= k < i ==> job_for_playlist(#[trigger] jobs@[k], cfg.youtube.playlists@[k]),
    {
        let p = &cfg.youtube.playlists[i];
        jobs.push(PlaylistJob {
            id: p.id.clone(),
            patterns: copy_strings(&p.patterns),
            sp_enabled: p.sp_enabled,
            sp_project_id: copy_opt(&p.sp_project_id),
            obsidian_folder: copy_opt(&p.obsidian_folder),
            obsidian_vault: copy_opt(&p.obsidian_vault),
            max_transcript_chars: p.max_transcript_chars,
        });
    }
    jobs
}

/// The positions of the videos that may be processed: every video when
/// `force`, else those whose id is not in the processed state `done`.
pub open spec fn eligible(ids: Seq<Seq<char>>, done: Seq<Seq<char>>, force: bool) -> Seq<int>
    decreases ids.len(),
{
    if ids.len() == 0 {
        seq![]
    } else {
        let prev = eligible(ids.drop_last(), done, force);
        if force || !done.contains(ids.last()) {
            prev.push(ids.len() - 1)
        } else {
            prev
        }
    }
}

/// The first `room` eligible positions (all of them when fewer).
pub open spec fn selected(ids: Seq<Seq<char>>, done: Seq<Seq<char>>, force: bool, room: nat) -> Seq<int> {
    let e = eligible(ids, done, force);
    if e.len() <= room { e } else { e.take(room as int) }
}

proof fn lemma_eligible_grows(ids: Seq<Seq<char>>, done: Seq<Seq<char>>, force: bool)
    ensures
        eligible(ids, done, force).len() <= ids.len(),
    decreases ids.len(),
{
    if ids.len() > 0 {
        lemma_eligible_grows(ids.drop_last(), done, force);
    }
}

/// Every eligible position is a position of `ids`, and, unless `force`,
/// one whose id is not processed.
proof fn lemma_eligible_members(ids: Seq<Seq<char>>, done: Seq<Seq<char>>, force: bool)
    ensures
        forall|j: int| 0 <= j < eligible(ids, done, force).len() ==> {
            let k = #[trigger] eligible(ids, done, force)[j];
            &&& 0 <= k < ids.len()
            &&& (force || !done.contains(ids[k]))
        },
    decreases ids.len(),
{
    if ids.len() > 0 {
        let prev = eligible(ids.drop_last(), done, force);
        lemma_eligible_members(ids.drop_last(), done, force);
        assert forall|j: int| 0 <= j < eligible(ids, done, force).len() implies {
            let k = #[trigger] eligible(ids, done, force)[j];
            &&& 0 <= k < ids.len()
            &&& (force || !done.contains(ids[k]))
        } by {
            if j < prev.len() {
                let k = prev[j];
                assert(eligible(ids, done, force)[j] == k);
                assert(ids.drop_last()[k] == ids[k]);
            }
        }
    }
}

/// Without `force` a run never picks a video that is already processed, and
/// it never picks more than `room` videos.
pub proof fn law_selection_skips_processed(ids: Seq<Seq<char>>, done: Seq<Seq<char>>, room: nat)
    ensures
        selected(ids, done, false, room).len() <= room,
        forall|j: int| 0 <= j < selected(ids, done, false, room).len() ==> {
            let k = #[trigger] selected(ids, done, false, room)[j];
            0 <= k < ids.len() && !done.contains(ids[k])
        },
{
    lemma_eligible_members(ids, done, false);
    let e = eligible(ids, done, false);
    assert forall|j: int| 0 <= j < selected(ids, done, false, room).len() implies {
        let k = #[trigger] selected(ids, done, false, room)[j];
        0 <= k < ids.len() && !done.contains(ids[k])
    } by {
        assert(selected(ids, done, false, room)[j] == e[j]);
    }
}

/// With `force` a run picks the first `room` videos of the playlist (all of
/// them when there are fewer), processed or not.
pub proof fn law_forced_selection_takes_first(ids: Seq<Seq<char>>, done: Seq<Seq<char>>, room: nat)
    ensures
        selected(ids, done, true, room) == Seq::new(
            if ids.len() <= room { ids.len() } else { room },
            |j: int| j,
        ),
    decreases ids.len(),
{
    lemma_eligible_all(ids, done);
    let e = eligible(ids, done, true);
    let n: nat = if ids.len() <= room { ids.len() } else { room };
    assert(selected(ids, done, true, room) =~= Seq::new(n, |j: int| j));
}

/// With `force` every position is eligible, in order.
proof fn lemma_eligible_all(ids: Seq<Seq<char>>, done: Seq<Seq<char>>)
    ensures
        eligible(ids, done, true) == Seq::new(ids.len(), |j: int| j),
    decreases ids.len(),
{
    if ids.len() > 0 {
        lemma_eligible_all(ids.drop_last(), done);
        assert(eligible(ids, done, true) =~= Seq::new(ids.len(), |j: int| j));
    } else {
        assert(eligible(ids, done, true) =~= Seq::new(ids.len(), |j: int| j));
    }
}

/// Which videos a run processes from a playlist: the first `room` of them
/// (in playlist order) that are not processed yet, or regardless of the
/// state when `force`; given as positions in `videos`.
pub fn select_for_processing(videos: &Vec<Video>, state: &ProcessState, force: bool, room: usize) -> (res: Vec<usize>)
    ensures
        res@.map_values(|i: usize| i as int) == selected(
            videos@.map_values(|v: Video| v.id@),
            state@,
            force,
            room as nat,
        ),
{
    let ghost ids = videos@.map_values(|v: Video| v.id@);
    let mut res: Vec<usize> = Vec::new();
    for i in 0..videos.len()
        invariant
            ids == videos@.map_values(|v: Video| v.id@),
            res@.map_values(|i: usize| i as int) == selected(ids.take(i as int), state@, force, room as nat),
    {
        let ghost before = ids.take(i as int);
        let ghost after = ids.take(i + 1);
        assert(after.drop_last() == before);
        assert(after.last() == videos@[i as int].id@);
        proof {
            lemma_eligible_grows(before, state@, force);
        }
        let pick = force || !state.is_processed(videos[i].id.as_str());
        if pick && res.len() < room {
            proof {
                let e0 = eligible(before, state@, force);
                let old_map = res@.map_values(|i: usize| i as int);
                if e0.len() > room {
                    assert(old_map.len() == room);
                }
                assert(old_map == e0);
            }
            res.push(i);
            proof {
                let e0 = eligible(before, state@, force);
                let e1 = eligible(after, state@, force);
                assert(e1 == e0.push(i as int));
                assert(res@.map_values(|i: usize| i as int) == res@.drop_last().map_values(|i: usize| i as int).push(i as int));
                assert(res@.drop_last().map_values(|i: usize| i as int) == e0);
            }
        } else {
            proof {
                let e0 = eligible(before, state@, force);
                let e1 = eligible(after, state@, force);
                if pick {
                    assert(e1 == e0.push(i as int));
                    assert(e1.take(room as int) == e0.take(room as int));
                }
            }
        }
    }
    assert(ids.take(videos.len() as int) == ids);
    res
}

} // verus!

verus! {

/// Every character is a decimal digit.
pub open spec fn all_digits(s: Seq<char>) -> bool {
    forall|i: int| 0 <= i < s.len() ==> '0' <= #[trigger] s[i] && s[i] <= '9'
}

/// What `str::parse::<usize>` gives: an optional `+`, then at least one
/// digit and nothing else, with a value that fits in a `usize`.
pub open spec fn parse_usize_text(s: Seq<char>) -> Option<nat> {
    let d = if s.len() > 0 && s[0] == '+' { s.drop_first() } else { s };
    if d.len() > 0 && all_digits(d) && digits_value(d) <= usize::MAX {
        Some(digits_value(d))
    } else {
        None
    }
}

/// A playlist position given on the command line, if the argument is one.
pub fn parse_position(s: &str) -> (res: Option<usize>)
    ensures
        match res {
            Some(n) => parse_usize_text(s@) == Some(n as nat),
            None => parse_usize_text(s@) is None,
        },
{
    let v = chars_of(s);
    let start: usize = if v.len() > 0 && v[0] == '+' { 1 } else { 0 };
    let ghost d = if v@.len() > 0 && v@[0] == '+' { v@.drop_first() } else { v@ };
    assert(d == v@.skip(start as int));
    if start >= v.len() {
        return None;
    }
    let mut value: usize = 0;
    let mut overflow = false;
    let mut i = start;
    while i < v.len()
        invariant
            start <= i <= v.len(),
            d == v@.skip(start as int),
            d == (if v@.len() > 0 && v@[0] == '+' { v@.drop_first() } else { v@ }),
            v@ == s@,
            all_digits(v@.subrange(start as int, i as int)),
            !overflow ==> value as nat == digits_value(v@.subrange(start as int, i as int)),
            overflow ==> digits_value(v@.subrange(start as int, i as int)) > usize::MAX,
        decreases v.len() - i,
    {
        let c = v[i];
        let ghost before = v@.subrange(start as int, i as int);
        let ghost after = v@.subrange(start as int, i + 1);
        assert(after.drop_last() == before);
        assert(after.last() == c);
        if !('0' <= c && c <= '9') {
            proof {
                assert(d[i - start] == c);
                assert(!all_digits(d));
            }
            return None;
        }
        let digit = (c as u32 - '0' as u32) as usize;
        assert(digits_value(after) == digits_value(before) * 10 + digit);
        if !overflow {
            if value > (usize::MAX - digit) / 10 {
                assert(value * 10 + digit > usize::MAX) by (nonlinear_arith)
                    requires
                        value > (usize::MAX - digit) / 10,
                        digit <= 9,
                ;
                overflow = true;
            } else {
                assert(value * 10 + digit <= usize::MAX) by (nonlinear_arith)
                    requires
                        value <= (usize::MAX - digit) / 10,
                        digit <= 9,
                ;
                value = value * 10 + digit;
            }
        }
        i += 1;
    }
    assert(v@.subrange(start as int, v.len() as int) == d);
    if overflow {
        return None;
    }
    Some(value)
}

/// The upload date yt-dlp gives (`YYYYMMDD`) as `YYYY-MM-DD`: when the text
/// is eight bytes long its bytes 0–4, 4–6 and 6–8 joined by dashes;
/// otherwise unchanged.
pub open spec fn upload_date_text(raw: Seq<char>) -> Seq<char> {
    if utf8_bytes(raw) == 8 {
        let p4 = prefix_within(raw, 4);
        let p6 = prefix_within(raw, 6);
        p4 + "-"@ + p6.skip(p4.len() as int) + "-"@ + raw.skip(p6.len() as int)
    } else {
        raw
    }
}

/// Cutting an eight-byte date at bytes 4 and 6 splits no character.
pub open spec fn upload_date_ok(raw: Seq<char>) -> bool {
    utf8_bytes(raw) == 8 ==> utf8_bytes(prefix_within(raw, 4)) == 4 && utf8_bytes(prefix_within(raw, 6)) == 6
}

/// The upload date as `YYYY-MM-DD`, or `None` where the cut would split a
/// character.
pub fn upload_date(raw: &str) -> (res: Option<String>)
    ensures
        match res {
            Some(d) => upload_date_ok(raw@) && d@ == upload_date_text(raw@),
            None => !upload_date_ok(raw@),
        },
{
    let v = chars_of(raw);
    let (k8, b8) = byte_prefix(&v, 9);
    if !(b8 == 8 && k8 == v.len()) {
        proof {
            if k8 == v.len() {
                assert(v@.take(k8 as int) == v@);
            } else {
                lemma_total_at_least(v@, k8 as int, (9 - b8) as nat, 9);
            }
        }
        return Some(String::from_str(raw));
    }
    assert(v@.take(k8 as int) == v@);
    let (k4, b4) = byte_prefix(&v, 4);
    let (k6, b6) = byte_prefix(&v, 6);
    if b4 != 4 || b6 != 6 {
        return None;
    }
    proof {
        lemma_prefix_lengths(v@, k4 as int, k6 as int);
    }
    let mut out = string_of(&slice_chars(&v, 0, k4));
    out.append("-");
    out.append(string_of(&slice_chars(&v, k4, k6)).as_str());
    out.append("-");
    out.append(string_of(&slice_chars(&v, k6, v.len())).as_str());
    assert(v@.subrange(k4 as int, k6 as int) == v@.take(k6 as int).skip(k4 as int));
    assert(v@.subrange(k6 as int, v.len() as int) == v@.skip(k6 as int));
    Some(out)
}

/// The character prefixes of 4 and 6 bytes nest.
proof fn lemma_prefix_lengths(s: Seq<char>, k4: int, k6: int)
    requires
        0 <= k4 <= s.len(),
        0 <= k6 <= s.len(),
        utf8_bytes(s.take(k4)) == 4,
        utf8_bytes(s.take(k6)) == 6,
    ensures
        k4 <= k6,
{
    if k4 > k6 {
        lemma_utf8_bytes_split(s.take(k4), k6);
        assert(s.take(k4).take(k6) == s.take(k6));
    }
}

/// A text if there is one, else `default`.
pub open spec fn some_or(o: Option<Seq<char>>, default: Seq<char>) -> Seq<char> {
    match o {
        Some(t) => t,
        None => default,
    }
}

/// The upload date member of yt-dlp's description (empty when absent).
pub open spec fn metadata_date(doc: JsonDocView) -> Seq<char> {
    some_or(member_text(doc, "upload_date"@), ""@)
}

/// The channel of yt-dlp's description: its `channel`, else its `uploader`,
/// else empty.
pub open spec fn metadata_channel(doc: JsonDocView) -> Seq<char> {
    match member_text(doc, "channel"@) {
        Some(c) => c,
        None => some_or(member_text(doc, "uploader"@), ""@),
    }
}

/// `v` is the video that yt-dlp's description `doc` gives for the
/// requested id: the text members with empty defaults (the requested id for a
/// missing `id`), the counts as integers, no playlist item and no dislikes.
pub open spec fn metadata_video(doc: JsonDocView, v: Video, requested: Seq<char>) -> bool {
    &&& v.id@ == some_or(member_text(doc, "id"@), requested)
    &&& v.playlist_item_id@.len() == 0
    &&& v.title@ == some_or(member_text(doc, "title"@), ""@)
    &&& v.channel@ == metadata_channel(doc)
    &&& v.description@ == some_or(member_text(doc, "description"@), ""@)
    &&& v.published_at@ == upload_date_text(metadata_date(doc))
    &&& v.duration_seconds == member_count(doc, "duration"@)
    &&& v.view_count == member_count(doc, "view_count"@)
    &&& v.like_count == member_count(doc, "like_count"@)
    &&& v.dislike_count is None
    &&& v.comment_count == member_count(doc, "comment_count"@)
}

/// Why yt-dlp's description of a video could not be read.
#[derive(Clone, Copy, Debug, PartialEq, Eq, Structural)]
pub enum MetadataError {
    /// The output is not JSON.
    NotJson,
    /// The eight-byte upload date cannot be cut at bytes 4 and 6 without
    /// splitting a character.
    SplitDate,
}

/// A text member of `doc`, or `default`.
fn text_member_or(doc: &JsonDoc, key: &str, default: &str) -> (res: String)
    ensures
        res@ == some_or(member_text(doc@, key@), default@),
{
    match member_text_of(doc, key) {
        Some(t) => t,
        None => String::from_str(default),
    }
}

/// The video that yt-dlp's description gives; `None` where its upload date
/// cannot be rewritten as `YYYY-MM-DD`.
pub fn video_from_metadata(doc: &JsonDoc, requested_id: &str) -> (res: Option<Video>)
    ensures
        match res {
            Some(v) => upload_date_ok(metadata_date(doc@)) && metadata_video(doc@, v, requested_id@),
            None => !upload_date_ok(metadata_date(doc@)),
        },
{
    let raw_date = text_member_or(doc, "upload_date", "");
    let published_at = match upload_date(raw_date.as_str()) {
        Some(d) => d,
        None => return None,
    };
    let channel = match member_text_of(doc, "channel") {
        Some(c) => c,
        None => text_member_or(doc, "uploader", ""),
    };
    Some(Video {
        id: text_member_or(doc, "id", requested_id),
        playlist_item_id: String::new(),
        title: text_member_or(doc, "title", ""),
        channel,
        description: text_member_or(doc, "description", ""),
        published_at,
        duration_seconds: member_count_of(doc, "duration"),
        view_count: member_count_of(doc, "view_count"),
        like_count: member_count_of(doc, "like_count"),
        dislike_count: None,
        comment_count: member_count_of(doc, "comment_count"),
    })
}

/// Reads the video that yt-dlp's `--dump-json` output describes.
pub fn read_video_metadata(output: &str, requested_id: &str) -> (res: Result<Video, MetadataError>)
    ensures
        match json_document(output@) {
            None => res == Err::<Video, MetadataError>(MetadataError::NotJson),
            Some(d) => if upload_date_ok(metadata_date(d)) {
                res matches Ok(v) && metadata_video(d, v, requested_id@)
            } else {
                res == Err::<Video, MetadataError>(MetadataError::SplitDate)
            },
        },
{
    match parse_json(output) {
        None => Err(MetadataError::NotJson),
        Some(doc) => match video_from_metadata(&doc, requested_id) {
            Some(v) => Ok(v),
            None => Err(MetadataError::SplitDate),
        },
    }
}

/// The outcome of a video that was processed: its title and link, the
/// folder, action and tags the model chose, the pattern timings, and nothing
/// done yet (no note, task or move).
pub fn success_result(video: &Video, processed: &ProcessedVideo, times: Vec<(String, String)>) -> (res:
    ProcessResult)
    ensures
        res.video_title@ == video.title@,
        res.video_url@ == "https://youtube.com/watch?v="@ + video.id@,
        res.target_folder@ == processed.target_folder@,
        res.note_path is None,
        res.sp_task_id is None,
        !res.moved_to_processed,
        res.suggested_action == processed.classification.suggested_action,
        res.tags@ == processed.classification.tags@,
        res.error is None,
        res.pattern_execution_times@ == times@,
{
    ProcessResult {
        video_title: video.title.clone(),
        video_url: youtube_link(video.id.as_str()),
        target_folder: processed.target_folder.clone(),
        note_path: None,
        sp_task_id: None,
        moved_to_processed: false,
        suggested_action: processed.classification.suggested_action,
        tags: copy_strings(&processed.classification.tags),
        error: None,
        pattern_execution_times: times,
    }
}

/// The outcome of a video whose processing failed with `error`: its title
/// and link, no folder, "save for later", no tags and no timings.
pub fn failure_result(video: &Video, error: String) -> (res: ProcessResult)
    ensures
        res.video_title@ == video.title@,
        res.video_url@ == "https://youtube.com/watch?v="@ + video.id@,
        res.target_folder@.len() == 0,
        res.note_path is None,
        res.sp_task_id is None,
        !res.moved_to_processed,
        res.suggested_action == SuggestedAction::SaveForLater,
        res.tags@.len() == 0,
        res.error == Some(error),
        res.pattern_execution_times@.len() == 0,
{
    ProcessResult {
        video_title: video.title.clone(),
        video_url: youtube_link(video.id.as_str()),
        target_folder: String::new(),
        note_path: None,
        sp_task_id: None,
        moved_to_processed: false,
        suggested_action: SuggestedAction::SaveForLater,
        tags: Vec::new(),
        error: Some(error),
        pattern_execution_times: Vec::new(),
    }
}

/// Whether a processed video is recorded in the local state: only when it
/// is not moved to a processed playlist, and not in a dry run.
pub fn records_in_state(processed_playlist_id: &Option<String>, dry_run: bool) -> (res: bool)
    ensures
        res == (processed_playlist_id is None && !dry_run),
{
    processed_playlist_id.is_none() && !dry_run
}

/// The index of the video at 1-based position `pos` in a playlist of `len`
/// videos, or `None` when the position is out of range.
pub fn playlist_index(pos: usize, len: usize) -> (res: Option<usize>)
    ensures
        match res {
            Some(i) => 0 < pos <= len && i == pos - 1,
            None => pos == 0 || pos > len,
        },
{
    if pos > 0 && pos <= len {
        Some(pos - 1)
    } else {
        None
    }
}

/// How many more videos a run may take once `taken` of its `limit` are
/// taken; `None` when the limit is reached (the run stops).
pub fn room_left(limit: usize, taken: usize) -> (res: Option<usize>)
    ensures
        match res {
            Some(r) => taken < limit && r == limit - taken,
            None => taken >= limit,
        },
{
    if taken >= limit {
        None
    } else {
        Some(limit - taken)
    }
}

/// What to do about one side effect of a processed video (a task, a move to
/// the processed playlist).
#[derive(Clone, Copy, Debug, PartialEq, Eq, Structural)]
pub enum SideAction {
    /// Not configured: nothing is done.
    Skip,
    /// A dry run: only reported as done.
    Simulate,
    /// Done for real.
    Perform,
}

/// The task step: skipped unless tasks are enabled (the playlist's setting,
/// else the global one), simulated in a dry run.
pub fn task_action(playlist_sp_enabled: Option<bool>, global_sp_enabled: bool, dry_run: bool) -> (res: SideAction)
    ensures
        res == if !(match playlist_sp_enabled {
            Some(b) => b,
            None => global_sp_enabled,
        }) {
            SideAction::Skip
        } else if dry_run {
            SideAction::Simulate
        } else {
            SideAction::Perform
        },
{
    let enabled = match playlist_sp_enabled {
        Some(b) => b,
        None => global_sp_enabled,
    };
    if !enabled {
        SideAction::Skip
    } else if dry_run {
        SideAction::Simulate
    } else {
        SideAction::Perform
    }
}

/// The move step: skipped when no processed playlist is configured,
/// simulated in a dry run.
pub fn move_action(processed_playlist_id: &Option<String>, dry_run: bool) -> (res: SideAction)
    ensures
        res == if processed_playlist_id is None {
            SideAction::Skip
        } else if dry_run {
            SideAction::Simulate
        } else {
            SideAction::Perform
        },
{
    if processed_playlist_id.is_none() {
        SideAction::Skip
    } else if dry_run {
        SideAction::Simulate
    } else {
        SideAction::Perform
    }
}

/// `b` is `a` with at most its task id and its moved flag changed.
pub open spec fn same_but_outputs(a: ProcessResult, b: ProcessResult) -> bool {
    &&& b.video_title == a.video_title
    &&& b.video_url == a.video_url
    &&& b.target_folder == a.target_folder
    &&& b.note_path == a.note_path
    &&& b.suggested_action == a.suggested_action
    &&& b.tags == a.tags
    &&& b.error == a.error
    &&& b.pattern_execution_times == a.pattern_execution_times
}

/// Records the outcome of the task step: a simulated task gets the id
/// `SIMULATED_TASK_ID`, a created one its id (`created`); a skipped step or
/// a failed creation leaves the result as it was.
pub fn record_task(result: &mut ProcessResult, action: SideAction, created: Option<String>)
    ensures
        same_but_outputs(*old(result), *final(result)),
        final(result).moved_to_processed == old(result).moved_to_processed,
        opt_text(final(result).sp_task_id) == match action {
            SideAction::Simulate => Some("SIMULATED_TASK_ID"@),
            SideAction::Perform => match created {
                Some(id) => Some(id@),
                None => opt_text(old(result).sp_task_id),
            },
            SideAction::Skip => opt_text(old(result).sp_task_id),
        },
{
    match action {
        SideAction::Simulate => {
            result.sp_task_id = Some(String::from_str("SIMULATED_TASK_ID"));
        },
        SideAction::Perform => {
            if let Some(id) = created {
                result.sp_task_id = Some(id);
            }
        },
        SideAction::Skip => {},
    }
}

/// Records the outcome of the move step: a simulated move, or a real one
/// that `moved` the video (added to the processed playlist and removed from
/// its own), marks the result as moved.
pub fn record_move(result: &mut ProcessResult, action: SideAction, moved: bool)
    ensures
        same_but_outputs(*old(result), *final(result)),
        final(result).sp_task_id == old(result).sp_task_id,
        final(result).moved_to_processed == (old(result).moved_to_processed || action == SideAction::Simulate
            || (action == SideAction::Perform && moved)),
{
    if action == SideAction::Simulate || (action == SideAction::Perform && moved) {
        result.moved_to_processed = true;
    }
}

/// The summary as printed: each of its lines indented by four spaces.
pub open spec fn indented_lines(lines: Seq<Seq<char>>) -> Seq<char>
    decreases lines.len(),
{
    if lines.len() == 0 {
        seq![]
    } else {
        indented_lines(lines.drop_last()) + "    "@ + lines.last() + "\n"@
    }
}

/// The head of a single video's outcome: the heading (marked as a
/// simulation in a dry run) and the note written, or the folder chosen when
/// there is none.
pub open spec fn outcome_head_text(p: ProcessedVideo, note_path: Option<Seq<char>>, dry_run: bool) -> Seq<char> {
    HEAVY_RULE@ + "\n"@ + (if dry_run {
        "  ✅ PROCESAMIENTO EXITOSO (MODO SIMULACIÓN)\n"@
    } else {
        "  ✅ PROCESAMIENTO EXITOSO\n"@
    }) + HEAVY_RULE@ + "\n"@ + match note_path {
        Some(n) => (if dry_run { "  📝  [Simulado] Nota: "@ } else { "  📝  Nota: "@ }) + n + "\n"@,
        None => "  📝  Categoría: "@ + p.target_folder@ + "\n"@,
    }
}

/// The middle of a single video's outcome: link, tags and advice.
pub open spec fn outcome_details_text(p: ProcessedVideo) -> Seq<char> {
    "  🔗  "@ + ("https://youtube.com/watch?v="@ + p.video.id@) + "\n"@ + "  🏷️  "@ + join_texts(
        texts(p.classification.tags@),
        ", "@,
    ) + "\n"@ + "  💡  "@ + action_label_text(p.classification.suggested_action) + "\n"@
}

/// The outcome printed after one video was processed on its own: the head,
/// the details, then the summary line by line.
pub open spec fn single_outcome_text(p: ProcessedVideo, note_path: Option<Seq<char>>, dry_run: bool) -> Seq<char> {
    outcome_head_text(p, note_path, dry_run) + outcome_details_text(p) + "\n"@ + "  Resumen:\n"@ + indented_lines(
        lines_text(p.summary@),
    ) + "\n"@ + HEAVY_RULE@ + "\n"@
}

fn outcome_head(p: &ProcessedVideo, note_path: &Option<String>, dry_run: bool) -> (res: String)
    ensures
        res@ == outcome_head_text(*p, opt_text(*note_path), dry_run),
{
    let mut out = String::from_str(HEAVY_RULE);
    out.append("\n");
    if dry_run {
        out.append("  ✅ PROCESAMIENTO EXITOSO (MODO SIMULACIÓN)\n");
    } else {
        out.append("  ✅ PROCESAMIENTO EXITOSO\n");
    }
    out.append(HEAVY_RULE);
    out.append("\n");
    let line = match note_path {
        Some(n) => {
            let mut l = if dry_run {
                String::from_str("  📝  [Simulado] Nota: ")
            } else {
                String::from_str("  📝  Nota: ")
            };
            l.append(n.as_str());
            l.append("\n");
            l
        },
        None => {
            let mut l = String::from_str("  📝  Categoría: ");
            l.append(p.target_folder.as_str());
            l.append("\n");
            l
        },
    };
    out.append(line.as_str());
    out
}

fn outcome_details(p: &ProcessedVideo) -> (res: String)
    ensures
        res@ == outcome_details_text(*p),
{
    let mut out = String::from_str("  🔗  ");
    out.append(youtube_link(p.video.id.as_str()).as_str());
    out.append("\n");
    out.append("  🏷️  ");
    out.append(join_strings(&p.classification.tags, ", ").as_str());
    out.append("\n");
    out.append("  💡  ");
    out.append(p.classification.suggested_action.label().as_str());
    out.append("\n");
    out
}

/// The summary lines, each indented by four spaces.
fn indented(lines: &Vec<String>) -> (res: String)
    ensures
        res@ == indented_lines(texts(lines@)),
{
    let ghost ls = texts(lines@);
    let mut out = String::new();
    for i in 0..lines.len()
        invariant
            ls == texts(lines@),
            out@ == indented_lines(ls.take(i as int)),
    {
        assert(ls.take(i + 1).drop_last() == ls.take(i as int));
        assert(ls.take(i + 1).last() == lines@[i as int]@);
        out.append("    ");
        out.append(lines[i].as_str());
        out.append("\n");
    }
    assert(ls.take(lines.len() as int) == ls);
    out
}

/// The outcome printed after one video was processed on its own.
pub fn single_outcome(p: &ProcessedVideo, note_path: &Option<String>, dry_run: bool) -> (res: String)
    ensures
        res@ == single_outcome_text(*p, opt_text(*note_path), dry_run),
{
    let mut out = outcome_head(p, note_path, dry_run);
    out.append(outcome_details(p).as_str());
    out.append("\n");
    out.append("  Resumen:\n");
    out.append(indented(&text_lines(p.summary.as_str())).as_str());
    out.append("\n");
    out.append(HEAVY_RULE);
    out.append("\n");
    out
}

/// A line whose text has no `[` holds no "[Simulado]".
proof fn lemma_no_mark(line: Seq<char>)
    requires
        forall|k: int| 0 <= k < line.len() ==> line[k] != '[',
    ensures
        !contains_seq(line, "[Simulado]"@),
{
    reveal_strlit("[Simulado]");
    assert forall|i: int| !occurs_at(line, i, "[Simulado]"@) by {
        if occurs_at(line, i, "[Simulado]"@) {
            assert(line.subrange(i, i + 10)[0] == line[i]);
        }
    }
}

/// In a dry run the mark "[Simulado] " stands right after the 8-character
/// lead of the line; a real run's line is the same line without it.
proof fn lemma_marked_line(lead: Seq<char>, rest: Seq<char>)
    requires
        lead.len() == 8,
        forall|k: int| 0 <= k < lead.len() ==> lead[k] != '[',
    ensures
        lead + "[Simulado] "@ + rest == (lead + rest).take(8) + "[Simulado] "@ + (lead + rest).skip(8),
        occurs_at(lead + "[Simulado] "@ + rest, 8, "[Simulado]"@),
        (forall|k: int| 0 <= k < rest.len() ==> rest[k] != '[') ==> !contains_seq(lead + rest, "[Simulado]"@),
{
    reveal_strlit("[Simulado] ");
    reveal_strlit("[Simulado]");
    assert((lead + rest).take(8) =~= lead);
    assert((lead + rest).skip(8) =~= rest);
    let d = lead + "[Simulado] "@ + rest;
    assert(d.subrange(8, 18) =~= "[Simulado]"@);
    if forall|k: int| 0 <= k < rest.len() ==> rest[k] != '[' {
        assert forall|k: int| 0 <= k < (lead + rest).len() implies (lead + rest)[k] != '[' by {
            if k >= 8 {
                assert((lead + rest)[k] == rest[k - 8]);
            }
        }
        lemma_no_mark(lead + rest);
    }
}

/// The "[Simulado]" mark stands in a result's lines exactly when the run is
/// a dry run: a dry run's note, task and moved lines are the real run's
/// lines with "[Simulado] " put in after their 8-character lead, and a real
/// run's lines hold no such mark (where the note path or task id holds no
/// `[`). A result without a note, task or move has no such line either way.
pub proof fn law_simulation_mark(r: ProcessResult)
    ensures
        match r.sp_task_id {
            Some(t) => {
                let live = task_line_text(r, false);
                let dry = task_line_text(r, true);
                &&& dry == live.take(8) + "[Simulado] "@ + live.skip(8)
                &&& occurs_at(dry, 8, "[Simulado]"@)
                &&& live.skip(8) == "SP task: "@ + t@ + "\n"@
                &&& (forall|k: int| 0 <= k < t@.len() ==> t@[k] != '[') ==> !contains_seq(live, "[Simulado]"@)
            },
            None => task_line_text(r, false).len() == 0 && task_line_text(r, true).len() == 0,
        },
        match r.note_path {
            Some(n) => {
                let live = note_line_text(r, false);
                let dry = note_line_text(r, true);
                &&& dry == live.take(8) + "[Simulado] "@ + live.skip(8)
                &&& occurs_at(dry, 8, "[Simulado]"@)
                &&& live.skip(8) == n@ + "\n"@
                &&& (forall|k: int| 0 <= k < n@.len() ==> n@[k] != '[') ==> !contains_seq(live, "[Simulado]"@)
            },
            None => note_line_text(r, false).len() == 0 && note_line_text(r, true).len() == 0,
        },
        r.moved_to_processed ==> ({
            let live = moved_line_text(r, false);
            let dry = moved_line_text(r, true);
            &&& dry == live.take(8) + "[Simulado] "@ + live.skip(8)
            &&& occurs_at(dry, 8, "[Simulado]"@)
            &&& !contains_seq(live, "[Simulado]"@)
        }),
        !r.moved_to_processed ==> moved_line_text(r, false).len() == 0 && moved_line_text(r, true).len() == 0,
{
    reveal_strlit("[Simulado] ");
    reveal_strlit("\n");
    match r.sp_task_id {
        Some(t) => {
            reveal_strlit("     📋  [Simulado] SP task: ");
            reveal_strlit("     📋  SP task: ");
            reveal_strlit("     📋  ");
            reveal_strlit("SP task: ");
            let lead = "     📋  "@;
            let rest = "SP task: "@ + t@ + "\n"@;
            assert("     📋  [Simulado] SP task: "@ + t@ + "\n"@ =~= lead + "[Simulado] "@ + rest);
            assert("     📋  SP task: "@ + t@ + "\n"@ =~= lead + rest);
            if forall|k: int| 0 <= k < t@.len() ==> t@[k] != '[' {
                assert forall|k: int| 0 <= k < rest.len() implies rest[k] != '[' by {
                    if 9 <= k < 9 + t@.len() {
                        assert(rest[k] == t@[k - 9]);
                    }
                }
            }
            lemma_marked_line(lead, rest);
        },
        None => {},
    }
    match r.note_path {
        Some(n) => {
            reveal_strlit("     📝  [Simulado] ");
            reveal_strlit("     📝  ");
            let lead = "     📝  "@;
            let rest = n@ + "\n"@;
            assert("     📝  [Simulado] "@ + n@ + "\n"@ =~= lead + "[Simulado] "@ + rest);
            assert("     📝  "@ + n@ + "\n"@ =~= lead + rest);
            if forall|k: int| 0 <= k < n@.len() ==> n@[k] != '[' {
                assert forall|k: int| 0 <= k < rest.len() implies rest[k] != '[' by {
                    if k < n@.len() {
                        assert(rest[k] == n@[k]);
                    }
                }
            }
            lemma_marked_line(lead, rest);
        },
        None => {},
    }
    if r.moved_to_processed {
        reveal_strlit("     📁  [Simulado] Movido a playlist de procesados\n");
        reveal_strlit("     📁  Movido a playlist de procesados\n");
        reveal_strlit("     📁  ");
        reveal_strlit("Movido a playlist de procesados\n");
        let lead = "     📁  "@;
        let rest = "Movido a playlist de procesados\n"@;
        assert("     📁  [Simulado] Movido a playlist de procesados\n"@ =~= lead + "[Simulado] "@ + rest);
        assert("     📁  Movido a playlist de procesados\n"@ =~= lead + rest);
        lemma_marked_line(lead, rest);
    }
}

} // verus!
