//! Obsidian notes: where a note goes in the vault and what it says.
use vstd::prelude::*;
use crate::json::opt_text;
use crate::processor::texts;
use crate::security::{
    escape_yaml, escape_yaml_text, sanitize_for_obsidian, sanitize_for_obsidian_text, strip_html,
    strip_html_text,
};
use crate::types::{ProcessedVideo, VideoCategory};
use crate::text::{
    chars_of, contains_chars, contains_seq, decimal_string, decimal_text, join_strings, join_texts,
    byte_prefix, lemma_prefix_within_all, lemma_split_nonempty, lemma_total_at_least,
    lemma_utf8_bytes_split, prefix_within, lowercase, trim_chars, nonempty_texts, replace_all, replace_str, split_chars,
    occurs_at, slice_chars, split_text, string_of, to_lowercase, trim_str, trim_text, utf8_bytes,
    utf8_len, char_utf8_len,
};

verus! {

/// A character that a slug keeps: `a`–`z`, `0`–`9` and á é í ó ú ñ.
pub open spec fn slug_keeps(c: char) -> bool {
    ('a' <= c && c <= 'z') || ('0' <= c && c <= '9') || c == 'á' || c == 'é' || c == 'í' || c == 'ó'
        || c == 'ú' || c == 'ñ'
}

/// Every character a slug does not keep becomes `-`.
pub open spec fn slug_marks(s: Seq<char>) -> Seq<char> {
    s.map_values(|c: char| if slug_keeps(c) { c } else { '-' })
}

/// The slug of a title: lowercased, other characters turned into dashes,
/// runs of dashes collapsed and dashes at the ends dropped.
pub open spec fn slugify_text(title: Seq<char>) -> Seq<char> {
    join_texts(nonempty_texts(split_text(slug_marks(lowercase(title)), '-')), "-"@)
}

/// The slug of a title, used as the note's file name.
pub fn slugify(title: &str) -> (res: String)
    ensures
        res@ == slugify_text(title@),
{
    let lower = to_lowercase(title);
    let chars = chars_of(lower.as_str());
    let mut marked: Vec<char> = Vec::new();
    for i in 0..chars.len()
        invariant
            marked@ == slug_marks(chars@.take(i as int)),
    {
        let c = chars[i];
        let keep = ('a' <= c && c <= 'z') || ('0' <= c && c <= '9') || c == 'á' || c == 'é' || c == 'í'
            || c == 'ó' || c == 'ú' || c == 'ñ';
        if keep {
            marked.push(c);
        } else {
            marked.push('-');
        }
        assert(slug_marks(chars@.take(i + 1)) == slug_marks(chars@.take(i as int)).push(
            if slug_keeps(c) { c } else { '-' },
        ));
    }
    assert(chars@.take(chars.len() as int) == chars@);
    let pieces = split_chars(&marked, '-');
    let ghost all = split_text(marked@, '-');
    let mut kept: Vec<String> = Vec::new();
    for i in 0..pieces.len()
        invariant
            pieces@.len() == all.len(),
            forall|k: int| 0 <= k < pieces@.len() ==> #[trigger] pieces@[k]@ == all[k],
            kept@.map_values(|s: String| s@) == nonempty_texts(all.take(i as int)),
    {
        assert(all.take(i + 1).drop_last() == all.take(i as int));
        assert(all.take(i + 1).last() == pieces@[i as int]@);
        if pieces[i].len() > 0 {
            kept.push(string_of(&pieces[i]));
            assert(kept@.map_values(|s: String| s@) == kept@.drop_last().map_values(|s: String| s@).push(
                kept@.last()@,
            ));
        }
    }
    assert(all.take(pieces.len() as int) == all);
    join_strings(&kept, "-")
}

/// The folder used when the requested one could leave the vault.
pub open spec fn safe_folder_text(raw: Seq<char>) -> Seq<char> {
    if contains_seq(raw, ".."@) || (raw.len() > 0 && raw[0] == '/') {
        "Resources/YouTube"@
    } else {
        raw
    }
}

/// The folder a note goes to: the requested one, unless it holds `..` or
/// starts with `/`, in which case "Resources/YouTube".
pub fn safe_folder(raw: &str) -> (res: String)
    ensures
        res@ == safe_folder_text(raw@),
{
    let chars = chars_of(raw);
    let dots = chars_of("..");
    if contains_chars(&chars, &dots) || (chars.len() > 0 && chars[0] == '/') {
        String::from_str("Resources/YouTube")
    } else {
        String::from_str(raw)
    }
}

/// A folder chosen for a note never climbs out of the vault: it holds no
/// `..` and does not start with `/`.
pub proof fn law_safe_folder_stays_in_vault(raw: Seq<char>)
    ensures
        !contains_seq(safe_folder_text(raw), ".."@),
        !(safe_folder_text(raw).len() > 0 && safe_folder_text(raw)[0] == '/'),
{
    reveal_strlit("Resources/YouTube");
    reveal_strlit("..");
    if contains_seq(raw, ".."@) || (raw.len() > 0 && raw[0] == '/') {
        let f = "Resources/YouTube"@;
        assert forall|i: int| !occurs_at(f, i, ".."@) by {
            if occurs_at(f, i, ".."@) {
                assert(f.subrange(i, i + 2)[0] == f[i]);
                assert(f.subrange(i, i + 2)[1] == f[i + 1]);
            }
        }
    }
}

/// The first ten bytes of the publication date can be cut off as text: the
/// date is shorter than ten bytes, or its first ten bytes end on a character.
pub open spec fn date_cut_ok(s: Seq<char>) -> bool {
    utf8_bytes(s) < 10 || utf8_bytes(prefix_within(s, 10)) == 10
}

/// The date part of a publication timestamp: its first ten bytes (the
/// `YYYY-MM-DD` of an ISO 8601 timestamp), or all of it when it is shorter.
pub open spec fn date_part_text(s: Seq<char>) -> Seq<char> {
    if utf8_bytes(s) >= 10 {
        prefix_within(s, 10)
    } else {
        s
    }
}

/// The date part of `published_at`, or `None` where cutting its first ten
/// bytes would split a character (the input on which the note cannot be made).
pub fn published_date(published_at: &str) -> (res: Option<String>)
    ensures
        match res {
            Some(d) => date_cut_ok(published_at@) && d@ == date_part_text(published_at@),
            None => !date_cut_ok(published_at@),
        },
{
    let v = chars_of(published_at);
    let (k, bytes) = byte_prefix(&v, 10);
    if bytes == 10 {
        proof {
            lemma_utf8_bytes_split(v@, k as int);
        }
        Some(string_of(&slice_chars(&v, 0, k)))
    } else if k == v.len() {
        proof {
            assert(v@.take(k as int) == v@);
            lemma_prefix_within_all(v@, 10);
        }
        Some(String::from_str(published_at))
    } else {
        proof {
            lemma_total_at_least(v@, k as int, (10 - bytes) as nat, 10);
        }
        None
    }
}

} // verus!

verus! {

/// What `format!("{:?}", s)` gives for a string (Rust's quoted, escaped form).
pub uninterp spec fn str_debug(s: Seq<char>) -> Seq<char>;

/// `<str as Debug>::fmt`: the string quoted, with the escapes Rust's `{:?}`
/// uses. The contract only names the result.
#[verifier::external_body]
pub(crate) fn debug_str(s: &str) -> (res: String)
    ensures
        res@ == str_debug(s@),
{
    format!("{:?}", s)
}

/// How a category prints with `{:?}`.
pub open spec fn category_debug_text(c: VideoCategory) -> Seq<char> {
    match c {
        VideoCategory::Tutorial => "Tutorial"@,
        VideoCategory::News => "News"@,
        VideoCategory::Concept => "Concept"@,
        VideoCategory::Entertainment => "Entertainment"@,
        VideoCategory::Tool => "Tool"@,
        VideoCategory::Health => "Health"@,
        VideoCategory::Other(s) => "Other("@ + str_debug(s@) + ")"@,
    }
}

/// How a category prints with `{:?}`.
pub fn category_debug(c: &VideoCategory) -> (res: String)
    ensures
        res@ == category_debug_text(*c),
{
    match c {
        VideoCategory::Tutorial => String::from_str("Tutorial"),
        VideoCategory::News => String::from_str("News"),
        VideoCategory::Concept => String::from_str("Concept"),
        VideoCategory::Entertainment => String::from_str("Entertainment"),
        VideoCategory::Tool => String::from_str("Tool"),
        VideoCategory::Health => String::from_str("Health"),
        VideoCategory::Other(s) => {
            let mut out = String::from_str("Other(");
            out.append(debug_str(s.as_str()).as_str());
            out.append(")");
            out
        },
    }
}

/// One tag in YAML: quoted and escaped.
pub open spec fn yaml_tag(t: Seq<char>) -> Seq<char> {
    "\""@ + escape_yaml_text(t) + "\""@
}

/// The tags as a YAML flow list body: quoted, escaped, comma-separated.
pub open spec fn yaml_tags_text(tags: Seq<Seq<char>>) -> Seq<char> {
    join_texts(tags.map_values(|t: Seq<char>| yaml_tag(t)), ", "@)
}

/// The tags as a YAML flow list body.
pub fn yaml_tags(tags: &Vec<String>) -> (res: String)
    ensures
        res@ == yaml_tags_text(texts(tags@)),
{
    let mut items: Vec<String> = Vec::new();
    for i in 0..tags.len()
        invariant
            items@.len() == i,
            forall|k: int| 0 <= k < i ==> #[trigger] items@[k]@ == yaml_tag(tags@[k]@),
    {
        let mut q = String::from_str("\"");
        q.append(escape_yaml(tags[i].as_str()).as_str());
        q.append("\"");
        items.push(q);
    }
    assert(items@.map_values(|s: String| s@) == texts(tags@).map_values(|t: Seq<char>| yaml_tag(t)));
    join_strings(&items, ", ")
}

/// A count as shown in the note (0 when unknown).
pub open spec fn count_text(o: Option<u64>) -> Seq<char> {
    decimal_text(
        match o {
            Some(n) => n as nat,
            None => 0,
        },
    )
}

/// A count as shown in the note.
pub fn count_string(o: Option<u64>) -> (res: String)
    ensures
        res@ == count_text(o),
{
    match o {
        Some(n) => decimal_string(n),
        None => decimal_string(0),
    }
}

/// The line that points at the local video file, if there is one.
pub open spec fn local_link_text(o: Option<Seq<char>>) -> Seq<char> {
    match o {
        Some(p) => "**Video local:** `"@ + p + "`"@,
        None => Seq::empty(),
    }
}

/// The line that points at the local video file, if there is one.
pub fn local_link(o: &Option<String>) -> (res: String)
    ensures
        res@ == local_link_text(opt_text(*o)),
{
    match o {
        Some(p) => {
            let mut out = String::from_str("**Video local:** `");
            out.append(p.as_str());
            out.append("`");
            out
        },
        None => String::new(),
    }
}

/// One key point as a sanitized list item.
pub open spec fn key_point_item(p: Seq<char>) -> Seq<char> {
    "- "@ + sanitize_for_obsidian_text(p)
}

/// The key points as sanitized list items, one per line.
pub open spec fn key_points_text(points: Seq<Seq<char>>) -> Seq<char> {
    join_texts(points.map_values(|p: Seq<char>| key_point_item(p)), "\n"@)
}

/// The key points as sanitized list items.
pub fn key_points_list(points: &Vec<String>) -> (res: String)
    ensures
        res@ == key_points_text(texts(points@)),
{
    let mut items: Vec<String> = Vec::new();
    for i in 0..points.len()
        invariant
            items@.len() == i,
            forall|k: int| 0 <= k < i ==> #[trigger] items@[k]@ == key_point_item(points@[k]@),
    {
        let mut item = String::from_str("- ");
        item.append(sanitize_for_obsidian(points[i].as_str()).as_str());
        items.push(item);
    }
    assert(items@.map_values(|s: String| s@) == texts(points@).map_values(|p: Seq<char>| key_point_item(p)));
    join_strings(&items, "\n")
}

/// A line without the carriage return that ended it.
pub open spec fn strip_cr(s: Seq<char>) -> Seq<char> {
    if s.len() > 0 && s.last() == '\r' {
        s.drop_last()
    } else {
        s
    }
}

/// The lines of a text (what `str::lines` yields): split at `\n`, each line
/// that ended in `\r\n` without its `\r`, no empty line after a final `\n`.
pub open spec fn lines_text(s: Seq<char>) -> Seq<Seq<char>> {
    let pieces = split_text(s, '\n');
    let body = pieces.drop_last().map_values(|p: Seq<char>| strip_cr(p));
    if pieces.last().len() == 0 {
        body
    } else {
        body.push(pieces.last())
    }
}

/// The transcript as one paragraph: HTML stripped, each line trimmed, empty
/// lines dropped, lines joined by spaces; a notice when there is none.
pub open spec fn transcript_paragraph(t: Option<Seq<char>>) -> Seq<char> {
    match t {
        Some(t) => join_texts(
            nonempty_texts(lines_text(strip_html_text(t)).map_values(|l: Seq<char>| trim_text(l))),
            " "@,
        ),
        None => "No disponible — el video no tenía subtítulos."@,
    }
}

/// The lines of a text (`str::lines`).
pub fn text_lines(t: &str) -> (res: Vec<String>)
    ensures
        texts(res@) == lines_text(t@),
{
    let chars = chars_of(t);
    let pieces = split_chars(&chars, '\n');
    let ghost all = split_text(chars@, '\n');
    proof {
        lemma_split_nonempty(chars@, '\n');
    }
    let ghost lines = lines_text(chars@);
    let n = pieces.len();
    let mut out: Vec<String> = Vec::new();
    let mut i: usize = 0;
    while i + 1 < n
        invariant
            n == pieces@.len(),
            n == all.len(),
            n >= 1,
            i + 1 <= n,
            forall|k: int| 0 <= k < n ==> #[trigger] pieces@[k]@ == all[k],
            all == split_text(chars@, '\n'),
            texts(out@) == all.take(i as int).map_values(|p: Seq<char>| strip_cr(p)),
        decreases n - i,
    {
        let piece = &pieces[i];
        let line = if piece.len() > 0 && piece[piece.len() - 1] == '\r' {
            slice_chars(piece, 0, piece.len() - 1)
        } else {
            slice_chars(piece, 0, piece.len())
        };
        assert(line@ == strip_cr(all[i as int]));
        out.push(string_of(&line));
        assert(texts(out@) == texts(out@.drop_last()).push(line@));
        assert(all.take(i + 1).map_values(|p: Seq<char>| strip_cr(p)) == all.take(i as int).map_values(
            |p: Seq<char>| strip_cr(p),
        ).push(strip_cr(all[i as int])));
        i += 1;
    }
    assert(all.take(i as int) == all.drop_last());
    let last = &pieces[n - 1];
    if last.len() > 0 {
        out.push(string_of(last));
        assert(texts(out@) == texts(out@.drop_last()).push(all.last()));
    }
    out
}

/// The transcript as one paragraph.
pub fn transcript_paragraph_of(t: &Option<String>) -> (res: String)
    ensures
        res@ == transcript_paragraph(opt_text(*t)),
{
    match t {
        None => String::from_str("No disponible — el video no tenía subtítulos."),
        Some(t) => {
            let stripped = strip_html(t.as_str());
            let chars = chars_of(stripped.as_str());
            let pieces = split_chars(&chars, '\n');
            let ghost all = split_text(chars@, '\n');
            proof {
                lemma_split_nonempty(chars@, '\n');
            }
            let ghost lines = lines_text(chars@);
            let ghost trimmed = lines.map_values(|l: Seq<char>| trim_text(l));
            let n = pieces.len();
            let mut kept: Vec<String> = Vec::new();
            let mut i: usize = 0;
            while i + 1 < n
                invariant
                    n == pieces@.len(),
                    n == all.len(),
                    n >= 1,
                    i + 1 <= n,
                    forall|k: int| 0 <= k < n ==> #[trigger] pieces@[k]@ == all[k],
                    lines == lines_text(chars@),
                    trimmed == lines.map_values(|l: Seq<char>| trim_text(l)),
                    all == split_text(chars@, '\n'),
                    texts(kept@) == nonempty_texts(trimmed.take(i as int)),
                decreases n - i,
            {
                let piece = &pieces[i];
                let line = if piece.len() > 0 && piece[piece.len() - 1] == '\r' {
                    slice_chars(piece, 0, piece.len() - 1)
                } else {
                    slice_chars(piece, 0, piece.len())
                };
                assert(line@ == strip_cr(all[i as int]));
                assert(lines[i as int] == strip_cr(all[i as int]));
                let tl = trim_chars(&line);
                assert(trimmed.take(i + 1).drop_last() == trimmed.take(i as int));
                assert(trimmed.take(i + 1).last() == tl@);
                if tl.len() > 0 {
                    kept.push(string_of(&tl));
                    assert(texts(kept@) == texts(kept@.drop_last()).push(tl@));
                }
                i += 1;
            }
            let last = &pieces[n - 1];
            if last.len() > 0 {
                let tl = trim_chars(last);
                assert(lines.len() == n);
                assert(lines[n - 1] == all[n - 1]);
                assert(trimmed.take(n as int).drop_last() == trimmed.take(i as int));
                assert(trimmed.take(n as int).last() == tl@);
                if tl.len() > 0 {
                    kept.push(string_of(&tl));
                    assert(texts(kept@) == texts(kept@.drop_last()).push(tl@));
                }
                assert(trimmed.take(n as int) == trimmed);
                assert(texts(kept@) == nonempty_texts(trimmed));
            } else {
                assert(lines.len() == n - 1);
                assert(trimmed.take(i as int) == trimmed);
                assert(texts(kept@) == nonempty_texts(trimmed));
            }
            assert(transcript_paragraph(opt_text(Some(*t))) == join_texts(nonempty_texts(trimmed), " "@));
            join_strings(&kept, " ")
        },
    }
}

/// The pattern analysis section, when there is one: the output without its
/// `INPUT:` markers, sanitized.
pub open spec fn fabric_section_text(o: Option<Seq<char>>) -> Seq<char> {
    match o {
        Some(f) => "\n## Análisis Profundo\n\n"@ + sanitize_for_obsidian_text(
            replace_all(replace_all(f, "INPUT:\n"@, ""@), "INPUT:"@, ""@),
        ) + "\n"@,
        None => Seq::empty(),
    }
}

/// The pattern analysis section, when there is one.
pub fn fabric_section(o: &Option<String>) -> (res: String)
    ensures
        res@ == fabric_section_text(opt_text(*o)),
{
    match o {
        Some(f) => {
            proof {
                reveal_strlit("INPUT:\n");
                reveal_strlit("INPUT:");
            }
            let cleaned = replace_str(f.as_str(), "INPUT:\n", "");
            let cleaned = replace_str(cleaned.as_str(), "INPUT:", "");
            let mut out = String::from_str("\n## Análisis Profundo\n\n");
            out.append(sanitize_for_obsidian(cleaned.as_str()).as_str());
            out.append("\n");
            out
        },
        None => String::new(),
    }
}

} // verus!

verus! {

/// Part 1 of the note text.
pub open spec fn note_part1_text(p: ProcessedVideo, date: Seq<char>, duration: Seq<char>, published: Seq<char>) -> Seq<char> {
    "---\ntitle: \""@
        + escape_yaml_text(p.video.title@)
        + "\"\nurl: https://youtube.com/watch?v="@
        + p.video.id@
        + "\nchannel: \""@
        + escape_yaml_text(p.video.channel@)
        + "\"\nduration: "@
        + duration
        + "\npublished: "@
        + published
        + "\ndate_added: "@
        + date
        + "\ncategory: "@
        + escape_yaml_text(category_debug_text(p.classification.category))
        + "\ntags: ["@
        + yaml_tags_text(texts(p.classification.tags@))
}

/// Part 1 of the note text.
fn note_part1(p: &ProcessedVideo, date: &str, duration: &str, published: &str) -> (res: String)
    ensures
        res@ == note_part1_text(*p, date@, duration@, published@),
{
    let mut out = String::new();
    out.append("---\ntitle: \"");
    out.append(escape_yaml(p.video.title.as_str()).as_str());
    out.append("\"\nurl: https://youtube.com/watch?v=");
    out.append(p.video.id.as_str());
    out.append("\nchannel: \"");
    out.append(escape_yaml(p.video.channel.as_str()).as_str());
    out.append("\"\nduration: ");
    out.append(duration);
    out.append("\npublished: ");
    out.append(published);
    out.append("\ndate_added: ");
    out.append(date);
    out.append("\ncategory: ");
    out.append(escape_yaml(category_debug(&p.classification.category).as_str()).as_str());
    out.append("\ntags: [");
    out.append(yaml_tags(&p.classification.tags).as_str());
    out
}

/// Part 2 of the note text.
pub open spec fn note_part2_text(p: ProcessedVideo, date: Seq<char>, duration: Seq<char>, published: Seq<char>) -> Seq<char> {
    "]\nviews: "@
        + count_text(p.video.view_count)
        + "\nlikes: "@
        + count_text(p.video.like_count)
        + "\ndislikes: "@
        + count_text(p.video.dislike_count)
        + "\ncomments: "@
        + count_text(p.video.comment_count)
        + "\n---\n\n# "@
        + strip_html_text(p.video.title@)
        + "\n\n[![Poster](https://img.youtube.com/vi/"@
        + p.video.id@
}

/// Part 2 of the note text.
fn note_part2(p: &ProcessedVideo, date: &str, duration: &str, published: &str) -> (res: String)
    ensures
        res@ == note_part2_text(*p, date@, duration@, published@),
{
    let mut out = String::new();
    out.append("]\nviews: ");
    out.append(count_string(p.video.view_count).as_str());
    out.append("\nlikes: ");
    out.append(count_string(p.video.like_count).as_str());
    out.append("\ndislikes: ");
    out.append(count_string(p.video.dislike_count).as_str());
    out.append("\ncomments: ");
    out.append(count_string(p.video.comment_count).as_str());
    out.append("\n---\n\n# ");
    out.append(strip_html(p.video.title.as_str()).as_str());
    out.append("\n\n[![Poster](https://img.youtube.com/vi/");
    out.append(p.video.id.as_str());
    out
}

/// Part 3 of the note text.
pub open spec fn note_part3_text(p: ProcessedVideo, date: Seq<char>, duration: Seq<char>, published: Seq<char>) -> Seq<char> {
    "/maxresdefault.jpg)](https://youtube.com/watch?v="@
        + p.video.id@
        + ")\n\n**Canal:** "@
        + strip_html_text(p.video.channel@)
        + "\n**Duración:** "@
        + duration
        + "\n**Publicado:** "@
        + published
        + "\n**Link:** https://youtube.com/watch?v="@
        + p.video.id@
        + "\n**Métricas:** "@
        + count_text(p.video.view_count)
        + " vistas | "@
        + count_text(p.video.like_count)
        + " likes | "@
        + count_text(p.video.comment_count)
}

/// Part 3 of the note text.
fn note_part3(p: &ProcessedVideo, date: &str, duration: &str, published: &str) -> (res: String)
    ensures
        res@ == note_part3_text(*p, date@, duration@, published@),
{
    let mut out = String::new();
    out.append("/maxresdefault.jpg)](https://youtube.com/watch?v=");
    out.append(p.video.id.as_str());
    out.append(")\n\n**Canal:** ");
    out.append(strip_html(p.video.channel.as_str()).as_str());
    out.append("\n**Duración:** ");
    out.append(duration);
    out.append("\n**Publicado:** ");
    out.append(published);
    out.append("\n**Link:** https://youtube.com/watch?v=");
    out.append(p.video.id.as_str());
    out.append("\n**Métricas:** ");
    out.append(count_string(p.video.view_count).as_str());
    out.append(" vistas | ");
    out.append(count_string(p.video.like_count).as_str());
    out.append(" likes | ");
    out.append(count_string(p.video.comment_count).as_str());
    out
}

/// Part 4 of the note text.
pub open spec fn note_part4_text(p: ProcessedVideo, date: Seq<char>, duration: Seq<char>, published: Seq<char>) -> Seq<char> {
    " comentarios\n"@
        + local_link_text(opt_text(p.local_video_path))
        + "\n\n## Resumen\n\n"@
        + sanitize_for_obsidian_text(p.summary@)
        + "\n\n## Puntos Clave\n\n"@
        + key_points_text(texts(p.key_points@))
        + "\n"@
}

/// Part 4 of the note text.
fn note_part4(p: &ProcessedVideo, date: &str, duration: &str, published: &str) -> (res: String)
    ensures
        res@ == note_part4_text(*p, date@, duration@, published@),
{
    let mut out = String::new();
    out.append(" comentarios\n");
    out.append(local_link(&p.local_video_path).as_str());
    out.append("\n\n## Resumen\n\n");
    out.append(sanitize_for_obsidian(p.summary.as_str()).as_str());
    out.append("\n\n## Puntos Clave\n\n");
    out.append(key_points_list(&p.key_points).as_str());
    out.append("\n");
    out
}

/// The whole note: frontmatter, heading, poster, details, summary, key
/// points, the pattern analysis when there is one, and the transcript.
pub open spec fn note_text(p: ProcessedVideo, date: Seq<char>, duration: Seq<char>, published: Seq<char>) -> Seq<char> {
    note_part1_text(p, date, duration, published) + note_part2_text(p, date, duration, published)
        + note_part3_text(p, date, duration, published) + note_part4_text(p, date, duration, published)
        + fabric_section_text(opt_text(p.fabric_output)) + "\n## Transcripción\n\n"@ + transcript_paragraph(
        opt_text(p.transcript),
    ) + "\n"@
}

/// The text of the note for a processed video, added on `date`, with the
/// duration shown as `duration` and the date part `published` of its
/// publication timestamp (see `published_date`).
pub fn note_content(p: &ProcessedVideo, date: &str, duration: &str, published: &str) -> (res: String)
    ensures
        res@ == note_text(*p, date@, duration@, published@),
{
    let mut out = note_part1(p, date, duration, published);
    out.append(note_part2(p, date, duration, published).as_str());
    out.append(note_part3(p, date, duration, published).as_str());
    out.append(note_part4(p, date, duration, published).as_str());
    out.append(fabric_section(&p.fabric_output).as_str());
    out.append("\n## Transcripción\n\n");
    out.append(transcript_paragraph_of(&p.transcript).as_str());
    out.append("\n");
    out
}

/// The file name of a note: the slug of the title with `.md`.
pub fn note_file_name(title: &str) -> (res: String)
    ensures
        res@ == slugify_text(title@) + ".md"@,
{
    let mut name = slugify(title);
    name.append(".md");
    name
}

/// The vault folder of a note: the override when given, else the folder the
/// model chose, made safe (see `safe_folder_text`).
pub fn note_folder(p: &ProcessedVideo, folder_override: Option<&str>) -> (res: String)
    ensures
        res@ == safe_folder_text(
            match folder_override {
                Some(f) => f@,
                None => p.target_folder@,
            },
        ),
{
    match folder_override {
        Some(f) => safe_folder(f),
        None => safe_folder(p.target_folder.as_str()),
    }
}

} // verus!

verus! {

proof fn lemma_split_pieces_lack_sep(s: Seq<char>, sep: char)
    ensures
        forall|i: int| 0 <= i < split_text(s, sep).len() ==> !(#[trigger] split_text(s, sep)[i]).contains(sep),
    decreases s.len(),
{
    if s.len() > 0 {
        let init = split_text(s.drop_last(), sep);
        lemma_split_pieces_lack_sep(s.drop_last(), sep);
        lemma_split_nonempty(s.drop_last(), sep);
        if s.last() != sep {
            let last = init.last().push(s.last());
            assert(!last.contains(sep)) by {
                assert forall|k: int| 0 <= k < last.len() implies last[k] != sep by {
                    if k < init.last().len() {
                        assert(last[k] == init.last()[k]);
                        assert(!init[init.len() - 1].contains(sep));
                    }
                }
            }
        } else {
            assert(!Seq::<char>::empty().contains(sep));
        }
    }
}

proof fn lemma_nonempty_texts_props(items: Seq<Seq<char>>, sep: char)
    requires
        forall|i: int| 0 <= i < items.len() ==> !(#[trigger] items[i]).contains(sep),
    ensures
        forall|i: int| 0 <= i < nonempty_texts(items).len() ==> (#[trigger] nonempty_texts(items)[i]).len() > 0
            && !nonempty_texts(items)[i].contains(sep),
    decreases items.len(),
{
    if items.len() > 0 {
        let init = items.drop_last();
        assert forall|i: int| 0 <= i < init.len() implies !(#[trigger] init[i]).contains(sep) by {
            assert(init[i] == items[i]);
        }
        lemma_nonempty_texts_props(init, sep);
        assert(!items[items.len() - 1].contains(sep));
        let prev = nonempty_texts(init);
        if items.last().len() > 0 {
            let r = prev.push(items.last());
            assert forall|i: int| 0 <= i < r.len() implies (#[trigger] r[i]).len() > 0 && !r[i].contains(sep) by {
                if i < prev.len() {
                    assert(r[i] == prev[i]);
                }
            }
        }
    }
}

/// Joining non-empty pieces without `-` by `-`: no dash at either end and
/// no two dashes in a row.
proof fn lemma_join_dashes(items: Seq<Seq<char>>)
    requires
        forall|i: int| 0 <= i < items.len() ==> (#[trigger] items[i]).len() > 0 && !items[i].contains('-'),
    ensures
        ({
            let j = join_texts(items, "-"@);
            &&& items.len() > 0 ==> j.len() > 0 && j[0] != '-' && j.last() != '-'
            &&& forall|k: int| 0 <= k < j.len() - 1 ==> !(j[k] == '-' && #[trigger] j[k + 1] == '-')
        }),
    decreases items.len(),
{
    reveal_strlit("-");
    if items.len() == 1 {
        let j = items[0];
        assert(j[0] != '-');
        assert(j.last() != '-');
        assert forall|k: int| 0 <= k < j.len() - 1 implies !(j[k] == '-' && #[trigger] j[k + 1] == '-') by {
            assert(j[k] != '-');
        }
    } else if items.len() > 1 {
        let init = items.drop_last();
        lemma_join_dashes(init);
        let a = join_texts(init, "-"@);
        let b = items.last();
        assert(b.len() > 0 && !b.contains('-'));
        assert(b[0] != '-');
        assert(b.last() != '-');
        let j = a + "-"@ + b;
        assert(j == join_texts(items, "-"@));
        assert(j[0] == a[0]);
        assert(j.last() == b.last());
        assert forall|k: int| 0 <= k < j.len() - 1 implies !(j[k] == '-' && #[trigger] j[k + 1] == '-') by {
            if k < a.len() - 1 {
                assert(j[k] == a[k] && j[k + 1] == a[k + 1]);
            } else if k == a.len() - 1 {
                assert(j[k] == a.last());
            } else if k == a.len() {
                assert(j[k + 1] == b[0]);
            } else {
                assert(j[k] == b[k - a.len() - 1]);
            }
        }
    }
}

/// A character a slug may hold: one it keeps, or a dash.
pub open spec fn slug_char(c: char) -> bool {
    slug_keeps(c) || c == '-'
}

/// Every character of `t` may stand in a slug.
pub open spec fn all_slug_chars(t: Seq<char>) -> bool {
    forall|k: int| 0 <= k < t.len() ==> slug_char(#[trigger] t[k])
}

proof fn lemma_split_slug_chars(s: Seq<char>, sep: char)
    requires
        all_slug_chars(s),
    ensures
        forall|i: int| 0 <= i < split_text(s, sep).len() ==> all_slug_chars(#[trigger] split_text(s, sep)[i]),
    decreases s.len(),
{
    if s.len() > 0 {
        let init = split_text(s.drop_last(), sep);
        assert(all_slug_chars(s.drop_last())) by {
            assert forall|k: int| 0 <= k < s.drop_last().len() implies slug_char(#[trigger] s.drop_last()[k]) by {
                assert(s.drop_last()[k] == s[k]);
            }
        }
        lemma_split_slug_chars(s.drop_last(), sep);
        lemma_split_nonempty(s.drop_last(), sep);
        assert(slug_char(s[s.len() - 1]));
        let r = split_text(s, sep);
        assert forall|i: int| 0 <= i < r.len() implies all_slug_chars(#[trigger] r[i]) by {
            if i < init.len() {
                if s.last() != sep && i == init.len() - 1 {
                    let t = init.last().push(s.last());
                    assert(r[i] == t);
                    assert forall|k: int| 0 <= k < t.len() implies slug_char(#[trigger] t[k]) by {
                        if k < init.last().len() {
                            assert(t[k] == init[init.len() - 1][k]);
                        }
                    }
                } else {
                    assert(r[i] == init[i]);
                }
            } else {
                assert(r[i].len() == 0);
            }
        }
    }
}

proof fn lemma_nonempty_slug_chars(items: Seq<Seq<char>>)
    requires
        forall|i: int| 0 <= i < items.len() ==> all_slug_chars(#[trigger] items[i]),
    ensures
        forall|i: int| 0 <= i < nonempty_texts(items).len() ==> all_slug_chars(#[trigger] nonempty_texts(items)[i]),
    decreases items.len(),
{
    if items.len() > 0 {
        let init = items.drop_last();
        assert forall|i: int| 0 <= i < init.len() implies all_slug_chars(#[trigger] init[i]) by {
            assert(init[i] == items[i]);
        }
        lemma_nonempty_slug_chars(init);
        assert(all_slug_chars(items[items.len() - 1]));
        let prev = nonempty_texts(init);
        if items.last().len() > 0 {
            let r = prev.push(items.last());
            assert forall|i: int| 0 <= i < r.len() implies all_slug_chars(#[trigger] r[i]) by {
                if i < prev.len() {
                    assert(r[i] == prev[i]);
                }
            }
        }
    }
}

proof fn lemma_join_slug_chars(items: Seq<Seq<char>>)
    requires
        forall|i: int| 0 <= i < items.len() ==> all_slug_chars(#[trigger] items[i]),
    ensures
        all_slug_chars(join_texts(items, "-"@)),
    decreases items.len(),
{
    reveal_strlit("-");
    if items.len() == 1 {
        assert(all_slug_chars(items[0]));
    } else if items.len() > 1 {
        let init = items.drop_last();
        assert forall|i: int| 0 <= i < init.len() implies all_slug_chars(#[trigger] init[i]) by {
            assert(init[i] == items[i]);
        }
        lemma_join_slug_chars(init);
        let a = join_texts(init, "-"@);
        let b = items.last();
        assert(all_slug_chars(items[items.len() - 1]));
        let j = a + "-"@ + b;
        assert(j == join_texts(items, "-"@));
        assert forall|k: int| 0 <= k < j.len() implies slug_char(#[trigger] j[k]) by {
            if k < a.len() {
                assert(j[k] == a[k]);
            } else if k == a.len() {
                assert(j[k] == '-');
            } else {
                assert(j[k] == b[k - a.len() - 1]);
            }
        }
    }
}

/// A slug holds only `a`–`z`, `0`–`9`, á é í ó ú ñ and dashes.
pub proof fn law_slug_characters(title: Seq<char>)
    ensures
        all_slug_chars(slugify_text(title)),
{
    let marked = slug_marks(lowercase(title));
    assert forall|k: int| 0 <= k < marked.len() implies slug_char(#[trigger] marked[k]) by {
        assert(marked[k] == (if slug_keeps(lowercase(title)[k]) { lowercase(title)[k] } else { '-' }));
    }
    lemma_split_slug_chars(marked, '-');
    lemma_nonempty_slug_chars(split_text(marked, '-'));
    lemma_join_slug_chars(nonempty_texts(split_text(marked, '-')));
}

/// Joining the pieces of a split by the separator gives the text back.
proof fn lemma_join_split(x: Seq<char>, c: char)
    ensures
        join_texts(split_text(x, c), seq![c]) == x,
    decreases x.len(),
{
    if x.len() > 0 {
        let init = x.drop_last();
        lemma_join_split(init, c);
        lemma_split_nonempty(init, c);
        let items = split_text(init, c);
        let n = items.len();
        if x.last() == c {
            let r = items.push(Seq::<char>::empty());
            assert(r.drop_last() == items);
            assert(join_texts(r, seq![c]) == join_texts(items, seq![c]) + seq![c] + Seq::<char>::empty());
            assert(x == init + seq![c]);
        } else {
            let r = items.update(n - 1, items.last().push(x.last()));
            if n == 1 {
                assert(join_texts(items, seq![c]) == items[0]);
                assert(join_texts(r, seq![c]) == r[0]);
            } else {
                assert(r.drop_last() == items.drop_last());
                assert(join_texts(items, seq![c]) == join_texts(items.drop_last(), seq![c]) + seq![c] + items.last());
                assert(join_texts(r, seq![c]) == join_texts(items.drop_last(), seq![c]) + seq![c] + items.last().push(
                    x.last(),
                ));
            }
            assert(x == init.push(x.last()));
        }
    }
}

/// Text with no leading `-` and no `--` splits at `-` into non-empty pieces,
/// but for an empty last piece after a trailing `-`.
proof fn lemma_split_pieces_nonempty(x: Seq<char>)
    requires
        x.len() > 0 ==> x[0] != '-',
        forall|k: int| 0 <= k < x.len() - 1 ==> !(x[k] == '-' && #[trigger] x[k + 1] == '-'),
    ensures
        forall|i: int| 0 <= i < split_text(x, '-').len() - 1 ==> (#[trigger] split_text(x, '-')[i]).len() > 0,
        x.len() > 0 ==> (split_text(x, '-').last().len() == 0 <==> x.last() == '-'),
    decreases x.len(),
{
    if x.len() > 0 {
        let init = x.drop_last();
        assert forall|k: int| 0 <= k < init.len() - 1 implies !(init[k] == '-' && #[trigger] init[k + 1] == '-') by {
            assert(init[k] == x[k] && init[k + 1] == x[k + 1]);
        }
        if init.len() > 0 {
            assert(init[0] == x[0]);
        }
        lemma_split_pieces_nonempty(init);
        lemma_split_nonempty(init, '-');
        let items = split_text(init, '-');
        if x.last() == '-' {
            if init.len() > 0 {
                assert(init.last() == x[x.len() - 2]);
                let k = x.len() - 2;
                assert(x[k + 1] == '-');
                assert(!(x[k] == '-' && x[k + 1] == '-'));
                assert(init.last() != '-');
            }
            let r = items.push(Seq::<char>::empty());
            assert forall|i: int| 0 <= i < r.len() - 1 implies (#[trigger] r[i]).len() > 0 by {
                assert(r[i] == items[i]);
                if i == items.len() - 1 && init.len() == 0 {
                    assert(false);
                }
            }
        } else {
            let r = items.update(items.len() - 1, items.last().push(x.last()));
            assert forall|i: int| 0 <= i < r.len() - 1 implies (#[trigger] r[i]).len() > 0 by {
                assert(r[i] == items[i]);
            }
        }
    } else {
        assert(split_text(x, '-') == seq![Seq::<char>::empty()]);
    }
}

/// Keeping the non-empty texts of texts that are all non-empty keeps them all.
proof fn lemma_nonempty_all(items: Seq<Seq<char>>)
    requires
        forall|i: int| 0 <= i < items.len() ==> (#[trigger] items[i]).len() > 0,
    ensures
        nonempty_texts(items) == items,
    decreases items.len(),
{
    if items.len() > 0 {
        let init = items.drop_last();
        assert forall|i: int| 0 <= i < init.len() implies (#[trigger] init[i]).len() > 0 by {
            assert(init[i] == items[i]);
        }
        lemma_nonempty_all(init);
        assert(items[items.len() - 1].len() > 0);
        assert(init.push(items.last()) == items);
    }
}

/// A slug is its own slug, provided lowercasing it leaves it unchanged (the
/// slug's characters are lowercase letters, digits and dashes; what
/// `str::to_lowercase` gives is only named here, so this is a premise).
pub proof fn law_slug_is_fixed_point(title: Seq<char>)
    requires
        lowercase(slugify_text(title)) == slugify_text(title),
    ensures
        slugify_text(slugify_text(title)) == slugify_text(title),
{
    let r = slugify_text(title);
    law_slug_characters(title);
    law_slug_shape(title);
    reveal_strlit("-");
    assert(slug_marks(r) == r) by {
        assert forall|k: int| 0 <= k < r.len() implies slug_marks(r)[k] == r[k] by {
            assert(slug_char(r[k]));
        }
    }
    lemma_split_pieces_nonempty(r);
    lemma_split_nonempty(r, '-');
    let items = split_text(r, '-');
    lemma_join_split(r, '-');
    assert("-"@ == seq!['-']);
    if r.len() == 0 {
        assert(items == seq![Seq::<char>::empty()]);
        assert(nonempty_texts(items) == nonempty_texts(items.drop_last()));
        assert(items.drop_last().len() == 0);
    } else {
        assert forall|i: int| 0 <= i < items.len() implies (#[trigger] items[i]).len() > 0 by {
            if i == items.len() - 1 {
                assert(items.last().len() > 0);
            }
        }
        lemma_nonempty_all(items);
    }
}

/// A note's file name is a clean slug: it neither starts nor ends with `-`
/// and never has two dashes in a row.
pub proof fn law_slug_shape(title: Seq<char>)
    ensures
        ({
            let s = slugify_text(title);
            &&& s.len() > 0 ==> s[0] != '-' && s.last() != '-'
            &&& forall|k: int| 0 <= k < s.len() - 1 ==> !(s[k] == '-' && #[trigger] s[k + 1] == '-')
        }),
{
    let marked = slug_marks(lowercase(title));
    lemma_split_pieces_lack_sep(marked, '-');
    lemma_nonempty_texts_props(split_text(marked, '-'), '-');
    let items = nonempty_texts(split_text(marked, '-'));
    lemma_join_dashes(items);
    if items.len() == 0 {
        assert(slugify_text(title).len() == 0);
    }
}

/// Text without the separator splits into itself alone.
proof fn lemma_split_without_sep(s: Seq<char>, sep: char)
    requires
        forall|k: int| 0 <= k < s.len() ==> s[k] != sep,
    ensures
        split_text(s, sep) == seq![s],
    decreases s.len(),
{
    if s.len() > 0 {
        let init = s.drop_last();
        assert forall|k: int| 0 <= k < init.len() implies init[k] != sep by {
            assert(init[k] == s[k]);
        }
        lemma_split_without_sep(init, sep);
        assert(s.last() == s[s.len() - 1]);
        assert(s.last() != sep);
        assert(init.push(s.last()) == s);
        assert(split_text(s, sep) == seq![init].update(0, init.push(s.last())));
        assert(seq![init].update(0, s) == seq![s]);
    } else {
        assert(s == Seq::<char>::empty());
    }
}

/// A title whose lowercased text holds only `a`–`z`, `0`–`9` and á é í ó ú
/// ñ is its own slug once lowercased: each of those characters stands in
/// the slug unchanged (e.g. "Canción" gives "canción").
pub proof fn law_slug_keeps_plain_words(title: Seq<char>)
    requires
        forall|k: int|
            0 <= k < lowercase(title).len() ==> {
                let c = #[trigger] lowercase(title)[k];
                ('a' <= c && c <= 'z') || ('0' <= c && c <= '9') || c == 'á' || c == 'é' || c == 'í' || c == 'ó'
                    || c == 'ú' || c == 'ñ'
            },
    ensures
        slugify_text(title) == lowercase(title),
{
    let low = lowercase(title);
    reveal_strlit("-");
    assert(slug_marks(low) == low) by {
        assert forall|k: int| 0 <= k < low.len() implies slug_marks(low)[k] == low[k] by {
            assert(slug_keeps(low[k]));
        }
    }
    lemma_split_without_sep(low, '-');
    let items = seq![low];
    assert(items.drop_last() == Seq::<Seq<char>>::empty());
    if low.len() == 0 {
        assert(nonempty_texts(items) == nonempty_texts(items.drop_last()));
        assert(nonempty_texts(items).len() == 0);
    } else {
        assert(items.last() == low);
        assert(nonempty_texts(items.drop_last()) == Seq::<Seq<char>>::empty());
        assert(nonempty_texts(items) == Seq::<Seq<char>>::empty().push(low));
        assert(Seq::<Seq<char>>::empty().push(low) == items);
    }
}

/// The count lines of a note's frontmatter, with the closing `---`.
spec fn count_lines(p: ProcessedVideo) -> Seq<char> {
    "\nviews: "@ + count_text(p.video.view_count) + "\nlikes: "@ + count_text(p.video.like_count)
        + "\ndislikes: "@ + count_text(p.video.dislike_count) + "\ncomments: "@ + count_text(
        p.video.comment_count,
    ) + "\n---\n"@
}

proof fn lemma_part2_count_lines(p: ProcessedVideo, date: Seq<char>, duration: Seq<char>, published: Seq<char>)
    ensures
        note_part2_text(p, date, duration, published) == "]"@ + count_lines(p) + ("\n# "@ + strip_html_text(
            p.video.title@,
        ) + "\n\n[![Poster](https://img.youtube.com/vi/"@ + p.video.id@),
{
    reveal_strlit("]\nviews: ");
    reveal_strlit("]");
    reveal_strlit("\nviews: ");
    reveal_strlit("\n---\n\n# ");
    reveal_strlit("\n---\n");
    reveal_strlit("\n# ");
    assert("]\nviews: "@ =~= "]"@ + "\nviews: "@);
    assert("\n---\n\n# "@ =~= "\n---\n"@ + "\n# "@);
    assert(note_part2_text(p, date, duration, published) =~= "]"@ + count_lines(p) + ("\n# "@ + strip_html_text(
        p.video.title@,
    ) + "\n\n[![Poster](https://img.youtube.com/vi/"@ + p.video.id@));
}

proof fn lemma_regroup(
    p1: Seq<char>,
    p2: Seq<char>,
    p3: Seq<char>,
    p4: Seq<char>,
    p5: Seq<char>,
    p6: Seq<char>,
    p7: Seq<char>,
    p8: Seq<char>,
    a: Seq<char>,
    b: Seq<char>,
    c: Seq<char>,
)
    requires
        p2 == a + b + c,
    ensures
        occurs_at(p1 + p2 + p3 + p4 + p5 + p6 + p7 + p8, (p1 + a).len() as int, b),
{
    let n = p1 + p2 + p3 + p4 + p5 + p6 + p7 + p8;
    let x = p1 + a;
    let y = c + p3 + p4 + p5 + p6 + p7 + p8;
    assert(n =~= x + b + y);
    assert(n.subrange(x.len() as int, (x.len() + b.len()) as int) =~= b);
}

/// The frontmatter of a note gives the video's counts in order, each the
/// decimal text of its own count (0 when unknown): the lines `views:`,
/// `likes:`, `dislikes:` and `comments:` stand together, followed by the
/// closing `---`.
pub proof fn law_note_counts(p: ProcessedVideo, date: Seq<char>, duration: Seq<char>, published: Seq<char>)
    ensures
        contains_seq(
            note_text(p, date, duration, published),
            "\nviews: "@ + decimal_text(
                match p.video.view_count {
                    Some(n) => n as nat,
                    None => 0,
                },
            ) + "\nlikes: "@ + decimal_text(
                match p.video.like_count {
                    Some(n) => n as nat,
                    None => 0,
                },
            ) + "\ndislikes: "@ + decimal_text(
                match p.video.dislike_count {
                    Some(n) => n as nat,
                    None => 0,
                },
            ) + "\ncomments: "@ + decimal_text(
                match p.video.comment_count {
                    Some(n) => n as nat,
                    None => 0,
                },
            ) + "\n---\n"@,
        ),
{
    lemma_part2_count_lines(p, date, duration, published);
    let p1 = note_part1_text(p, date, duration, published);
    lemma_regroup(
        p1,
        note_part2_text(p, date, duration, published),
        note_part3_text(p, date, duration, published),
        note_part4_text(p, date, duration, published),
        fabric_section_text(opt_text(p.fabric_output)),
        "\n## Transcripción\n\n"@,
        transcript_paragraph(opt_text(p.transcript)),
        "\n"@,
        "]"@,
        count_lines(p),
        "\n# "@ + strip_html_text(p.video.title@) + "\n\n[![Poster](https://img.youtube.com/vi/"@ + p.video.id@,
    );
    assert(occurs_at(note_text(p, date, duration, published), (p1 + "]"@).len() as int, count_lines(p)));
}

} // verus!
