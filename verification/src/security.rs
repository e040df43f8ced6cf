//! Input sanitisation and output escaping for the text that moves between
//! YouTube, the language model, YAML frontmatter and Obsidian notes.
use vstd::prelude::*;
use crate::text::{
    chars_of, char_is_alphabetic, contains_seq, is_alphabetic, lemma_replace_no_occurrence,
    lemma_straddle_free_disjoint, occurs_at, replace_all, replace_str, straddle_free, string_of,
};

verus! {

/// A line break that YAML parsers may honour: `\n`, `\r`, NEL, U+2028, U+2029.
pub open spec fn is_line_break(c: char) -> bool {
    c == '\n' || c == '\r' || c == '\u{0085}' || c == '\u{2028}' || c == '\u{2029}'
}

/// How one character is written inside a double-quoted YAML value: a
/// backslash or double quote behind a backslash, a carriage return dropped,
/// the other line breaks as a space, anything else as itself.
pub open spec fn yaml_char(c: char) -> Seq<char> {
    if c == '\\' {
        seq!['\\', '\\']
    } else if c == '"' {
        seq!['\\', '"']
    } else if c == '\r' {
        seq![]
    } else if is_line_break(c) {
        seq![' ']
    } else {
        seq![c]
    }
}

/// The escaped form of `s`, where `after_mark` says whether the last
/// character written so far is a `!`: each character as `yaml_char` writes
/// it, except that a `!` right after a written `!` gets a space before it,
/// so that no YAML tag marker `!!` is ever written.
pub open spec fn yaml_escape_from(s: Seq<char>, after_mark: bool) -> Seq<char>
    decreases s.len(),
{
    if s.len() == 0 {
        seq![]
    } else {
        let c = s[0];
        let piece = if c == '!' && after_mark { seq![' ', '!'] } else { yaml_char(c) };
        let next = if c == '\r' { after_mark } else { c == '!' };
        piece + yaml_escape_from(s.drop_first(), next)
    }
}

/// The result of `escape_yaml`.
pub open spec fn escape_yaml_text(s: Seq<char>) -> Seq<char> {
    yaml_escape_from(s, false)
}

/// Escapes a string to be placed inside a double-quoted YAML value:
/// backslashes are doubled, double quotes escaped, newlines and the Unicode
/// line separators (NEL, U+2028, U+2029) become spaces, carriage returns are
/// dropped, and YAML tag sequences are neutralized: between two marks `!`
/// that would stand side by side a space is put, so `!!` becomes `! !`.
pub fn escape_yaml(s: &str) -> (res: String)
    ensures
        res@ == escape_yaml_text(s@),
{
    let v = chars_of(s);
    let mut out: Vec<char> = Vec::new();
    let mut after_mark = false;
    let mut i: usize = 0;
    assert(v@.skip(0) == v@);
    assert(out@ + yaml_escape_from(v@, false) == yaml_escape_from(v@, false));
    while i < v.len()
        invariant
            i <= v@.len(),
            v@ == s@,
            out@ + yaml_escape_from(v@.skip(i as int), after_mark) == escape_yaml_text(s@),
        decreases v@.len() - i,
    {
        let c = v[i];
        let ghost before = out@;
        let ghost prev = after_mark;
        assert(v@.skip(i as int).drop_first() == v@.skip(i + 1));
        assert(v@.skip(i as int)[0] == c);
        if c == '!' && after_mark {
            out.push(' ');
            out.push('!');
        } else if c == '\\' {
            out.push('\\');
            out.push('\\');
        } else if c == '"' {
            out.push('\\');
            out.push('"');
        } else if c == '\r' {
        } else if c == '\n' || c == '\u{0085}' || c == '\u{2028}' || c == '\u{2029}' {
            out.push(' ');
        } else {
            out.push(c);
        }
        if c != '\r' {
            after_mark = c == '!';
        }
        let ghost piece = if c == '!' && prev { seq![' ', '!'] } else { yaml_char(c) };
        assert(out@ == before + piece);
        assert(yaml_escape_from(v@.skip(i as int), prev) == piece + yaml_escape_from(v@.skip(i + 1), after_mark));
        assert(out@ + yaml_escape_from(v@.skip(i + 1), after_mark) == before + yaml_escape_from(
            v@.skip(i as int),
            prev,
        ));
        i += 1;
    }
    assert(v@.skip(i as int).len() == 0);
    assert(out@ == escape_yaml_text(s@));
    string_of(&out)
}

/// How one character is written in XML content: `&`, `<` and `>` as the
/// entities `&amp;`, `&lt;` and `&gt;`, anything else as itself.
pub open spec fn xml_char(c: char) -> Seq<char> {
    if c == '&' {
        seq!['&', 'a', 'm', 'p', ';']
    } else if c == '<' {
        seq!['&', 'l', 't', ';']
    } else if c == '>' {
        seq!['&', 'g', 't', ';']
    } else {
        seq![c]
    }
}

/// The result of `escape_xml_content`: each character as `xml_char` writes it.
pub open spec fn escape_xml_text(s: Seq<char>) -> Seq<char>
    decreases s.len(),
{
    if s.len() == 0 {
        seq![]
    } else {
        xml_char(s[0]) + escape_xml_text(s.drop_first())
    }
}

/// Escapes `&`, `<` and `>` so that content cannot close or open an XML tag.
pub fn escape_xml_content(s: &str) -> (res: String)
    ensures
        res@ == escape_xml_text(s@),
{
    let v = chars_of(s);
    let mut out: Vec<char> = Vec::new();
    let mut i: usize = 0;
    assert(v@.skip(0) == v@);
    assert(out@ + escape_xml_text(v@) == escape_xml_text(v@));
    while i < v.len()
        invariant
            i <= v@.len(),
            v@ == s@,
            out@ + escape_xml_text(v@.skip(i as int)) == escape_xml_text(s@),
        decreases v@.len() - i,
    {
        let c = v[i];
        let ghost before = out@;
        assert(v@.skip(i as int).drop_first() == v@.skip(i + 1));
        assert(v@.skip(i as int)[0] == c);
        if c == '&' {
            out.push('&');
            out.push('a');
            out.push('m');
            out.push('p');
            out.push(';');
        } else if c == '<' {
            out.push('&');
            out.push('l');
            out.push('t');
            out.push(';');
        } else if c == '>' {
            out.push('&');
            out.push('g');
            out.push('t');
            out.push(';');
        } else {
            out.push(c);
        }
        assert(out@ == before + xml_char(c));
        assert(out@ + escape_xml_text(v@.skip(i + 1)) == before + escape_xml_text(v@.skip(i as int)));
        i += 1;
    }
    assert(v@.skip(i as int).len() == 0);
    string_of(&out)
}

/// The result of `wrap_in_xml`.
pub open spec fn wrap_in_xml_text(tag: Seq<char>, content: Seq<char>) -> Seq<char> {
    "<"@ + tag + ">"@ + escape_xml_text(content) + "</"@ + tag + ">"@
}

/// `<tag>` + the escaped content + `</tag>`.
pub fn wrap_in_xml(tag: &str, content: &str) -> (res: String)
    ensures
        res@ == wrap_in_xml_text(tag@, content@),
{
    let escaped = escape_xml_content(content);
    let mut res = String::from_str("<");
    res.append(tag);
    res.append(">");
    res.append(escaped.as_str());
    res.append("</");
    res.append(tag);
    res.append(">");
    res
}

} // verus!

verus! {

/// Position `i` of `s` holds a `<` that opens something shaped like an HTML
/// tag: the next character is a letter, `/`, `!` or `?`.
pub open spec fn opens_tag(s: Seq<char>, i: int) -> bool {
    &&& 0 <= i
    &&& i + 1 < s.len()
    &&& s[i] == '<'
    &&& (is_alphabetic(s[i + 1]) || s[i + 1] == '/' || s[i + 1] == '!' || s[i + 1] == '?')
}

/// The text that `strip_html` keeps from position `i` on, where `in_tag`
/// says whether position `i` lies inside a tag that has not been closed yet.
/// Inside a tag every character up to and including the next `>` is dropped.
pub open spec fn strip_from(s: Seq<char>, i: int, in_tag: bool) -> Seq<char>
    decreases s.len() - i,
{
    if i < 0 || i >= s.len() {
        seq![]
    } else if in_tag {
        strip_from(s, i + 1, s[i] != '>')
    } else if opens_tag(s, i) {
        strip_from(s, i + 1, true)
    } else {
        seq![s[i]] + strip_from(s, i + 1, false)
    }
}

/// The result of `strip_html`.
pub open spec fn strip_html_text(s: Seq<char>) -> Seq<char> {
    strip_from(s, 0, false)
}

/// Removes HTML-like tags: from each `<` that is followed by a letter, `/`,
/// `!` or `?`, up to and including the next `>` (or to the end when there is
/// none). Every other character, a lone `<` included, is kept.
pub fn strip_html(s: &str) -> (res: String)
    ensures
        res@ == strip_html_text(s@),
{
    let chars = chars_of(s);
    let mut result: Vec<char> = Vec::new();
    let mut i: usize = 0;
    while i < chars.len()
        invariant
            i <= chars@.len(),
            result@ + strip_from(chars@, i as int, false) == strip_html_text(chars@),
            chars@ == s@,
        decreases chars@.len() - i,
    {
        if chars[i] == '<' {
            let mut is_tag = false;
            if i + 1 < chars.len() {
                let next = chars[i + 1];
                if char_is_alphabetic(next) || next == '/' || next == '!' || next == '?' {
                    is_tag = true;
                }
            }
            if is_tag {
                assert(opens_tag(chars@, i as int));
                let ghost start = i;
                i += 1;
                while i < chars.len() && chars[i] != '>'
                    invariant
                        start < i <= chars@.len(),
                        result@ + strip_from(chars@, i as int, true) == strip_html_text(chars@),
                    decreases chars@.len() - i,
                {
                    i += 1;
                }
                if i < chars.len() {
                    i += 1;
                }
                continue;
            }
            assert(!opens_tag(chars@, i as int));
        }
        result.push(chars[i]);
        i += 1;
    }
    string_of(&result)
}

} // verus!

verus! {

/// The result of `sanitize_for_obsidian`: HTML stripped, then the
/// replacements in the order they are made.
pub open spec fn sanitize_for_obsidian_text(s: Seq<char>) -> Seq<char> {
    let r0 = strip_html_text(s);
    let r1 = replace_all(r0, "[["@, "\\[\\["@);
    let r2 = replace_all(r1, "]]"@, "\\]\\]"@);
    let r3 = replace_all(r2, "obsidian://"@, "obsidian[:]//"@);
    let r4 = replace_all(r3, "<%"@, "\\<%"@);
    let r5 = replace_all(r4, "%>"@, "\\%>"@);
    let r6 = replace_all(r5, "```dataview"@, "` ` `dataview"@);
    let r7 = replace_all(r6, "```dataviewjs"@, "` ` `dataviewjs"@);
    let r8 = replace_all(r7, "```templater"@, "` ` `templater"@);
    let r9 = replace_all(r8, "```run-js"@, "` ` `run-js"@);
    replace_all(r9, "```javascript"@, "` ` `javascript"@)
}

/// Makes model output safe to insert into an Obsidian note: strips HTML
/// tags, escapes wikilinks (`[[`, `]]`), defuses the `obsidian://` URI scheme
/// and Templater blocks (`<%`, `%>`), and breaks the code fences of the
/// plugins that run code (dataview, dataviewjs, templater, run-js, javascript).
pub fn sanitize_for_obsidian(s: &str) -> (res: String)
    ensures
        res@ == sanitize_for_obsidian_text(s@),
{
    proof {
        reveal_strlit("[[");
        reveal_strlit("]]");
        reveal_strlit("obsidian://");
        reveal_strlit("<%");
        reveal_strlit("%>");
        reveal_strlit("```dataview");
        reveal_strlit("```dataviewjs");
        reveal_strlit("```templater");
        reveal_strlit("```run-js");
        reveal_strlit("```javascript");
    }
    let r = strip_html(s);
    let r = replace_str(r.as_str(), "[[", "\\[\\[");
    let r = replace_str(r.as_str(), "]]", "\\]\\]");
    let r = replace_str(r.as_str(), "obsidian://", "obsidian[:]//");
    let r = replace_str(r.as_str(), "<%", "\\<%");
    let r = replace_str(r.as_str(), "%>", "\\%>");
    let r = replace_str(r.as_str(), "```dataview", "` ` `dataview");
    let r = replace_str(r.as_str(), "```dataviewjs", "` ` `dataviewjs");
    let r = replace_str(r.as_str(), "```templater", "` ` `templater");
    let r = replace_str(r.as_str(), "```run-js", "` ` `run-js");
    replace_str(r.as_str(), "```javascript", "` ` `javascript")
}

} // verus!

verus! {

/// The escaped form never holds a line break.
proof fn lemma_yaml_no_break(s: Seq<char>, after_mark: bool)
    ensures
        forall|k: int| 0 <= k < yaml_escape_from(s, after_mark).len() ==> !is_line_break(
            #[trigger] yaml_escape_from(s, after_mark)[k],
        ),
    decreases s.len(),
{
    if s.len() > 0 {
        let c = s[0];
        let next = if c == '\r' { after_mark } else { c == '!' };
        lemma_yaml_no_break(s.drop_first(), next);
        let piece = if c == '!' && after_mark { seq![' ', '!'] } else { yaml_char(c) };
        let rest = yaml_escape_from(s.drop_first(), next);
        assert forall|k: int| 0 <= k < (piece + rest).len() implies !is_line_break(#[trigger] (piece + rest)[k]) by {
            if k >= piece.len() {
                assert((piece + rest)[k] == rest[k - piece.len()]);
            }
        }
    }
}

/// No two marks `!` stand side by side in the escaped form, and after a
/// written mark the escaped rest does not start with one.
proof fn lemma_yaml_no_marker(s: Seq<char>, after_mark: bool)
    ensures
        forall|k: int| 0 <= k < yaml_escape_from(s, after_mark).len() - 1 ==> !(
            #[trigger] yaml_escape_from(s, after_mark)[k] == '!' && yaml_escape_from(s, after_mark)[k + 1] == '!'),
        after_mark && yaml_escape_from(s, after_mark).len() > 0 ==> yaml_escape_from(s, after_mark)[0] != '!',
    decreases s.len(),
{
    if s.len() > 0 {
        let c = s[0];
        let next = if c == '\r' { after_mark } else { c == '!' };
        lemma_yaml_no_marker(s.drop_first(), next);
        let piece = if c == '!' && after_mark { seq![' ', '!'] } else { yaml_char(c) };
        let rest = yaml_escape_from(s.drop_first(), next);
        let all = piece + rest;
        assert(all == yaml_escape_from(s, after_mark));
        assert forall|k: int| 0 <= k < all.len() - 1 implies !(#[trigger] all[k] == '!' && all[k + 1] == '!') by {
            if k >= piece.len() {
                assert(all[k] == rest[k - piece.len()]);
                assert(all[k + 1] == rest[k + 1 - piece.len()]);
            } else if k + 1 >= piece.len() {
                assert(all[k + 1] == rest[0]);
            }
        }
    }
}

/// `escape_yaml` output never holds a line break: no `\n`, `\r`, NEL, U+2028
/// or U+2029, so a value cannot break out of its frontmatter line.
pub proof fn law_escape_yaml_single_line(s: Seq<char>)
    ensures
        !escape_yaml_text(s).contains('\n'),
        !escape_yaml_text(s).contains('\r'),
        !escape_yaml_text(s).contains('\u{0085}'),
        !escape_yaml_text(s).contains('\u{2028}'),
        !escape_yaml_text(s).contains('\u{2029}'),
{
    lemma_yaml_no_break(s, false);
}

/// `escape_yaml` output never holds the YAML tag marker `!!`.
pub proof fn law_escape_yaml_no_tag_marker(s: Seq<char>)
    ensures
        !contains_seq(escape_yaml_text(s), "!!"@),
{
    reveal_strlit("!!");
    lemma_yaml_no_marker(s, false);
    let r = escape_yaml_text(s);
    assert forall|i: int| !occurs_at(r, i, "!!"@) by {
        if occurs_at(r, i, "!!"@) {
            assert(r.subrange(i, i + 2)[0] == r[i]);
            assert(r.subrange(i, i + 2)[1] == r[i + 1]);
        }
    }
}

/// Text as a YAML double-quoted scalar can read it: made of escape pairs
/// (a backslash and the character after it) and single characters that are
/// neither a backslash nor a double quote.
pub open spec fn yaml_well_escaped(r: Seq<char>) -> bool
    decreases r.len(),
{
    if r.len() == 0 {
        true
    } else if r[0] == '\\' {
        r.len() >= 2 && yaml_well_escaped(r.skip(2))
    } else {
        r[0] != '"' && yaml_well_escaped(r.skip(1))
    }
}

/// What a YAML double-quoted scalar reads back: each escape pair as the
/// character after the backslash, every other character as itself.
pub open spec fn yaml_unescape(r: Seq<char>) -> Seq<char>
    decreases r.len(),
{
    if r.len() == 0 {
        seq![]
    } else if r[0] == '\\' && r.len() >= 2 {
        seq![r[1]] + yaml_unescape(r.skip(2))
    } else {
        seq![r[0]] + yaml_unescape(r.skip(1))
    }
}

/// What a value reads back as once escaped: each line break but `\r` as a
/// space, `\r` dropped, and a space between two marks `!` that would stand
/// side by side (so `!!` reads back as `! !`).
pub open spec fn yaml_plain_from(s: Seq<char>, after_mark: bool) -> Seq<char>
    decreases s.len(),
{
    if s.len() == 0 {
        seq![]
    } else {
        let c = s[0];
        let piece = if c == '!' && after_mark {
            seq![' ', '!']
        } else if c == '\r' {
            seq![]
        } else if is_line_break(c) {
            seq![' ']
        } else {
            seq![c]
        };
        let next = if c == '\r' { after_mark } else { c == '!' };
        piece + yaml_plain_from(s.drop_first(), next)
    }
}

proof fn lemma_yaml_round_trip(s: Seq<char>, after_mark: bool)
    ensures
        yaml_well_escaped(yaml_escape_from(s, after_mark)),
        yaml_unescape(yaml_escape_from(s, after_mark)) == yaml_plain_from(s, after_mark),
    decreases s.len(),
{
    if s.len() > 0 {
        let c = s[0];
        let next = if c == '\r' { after_mark } else { c == '!' };
        lemma_yaml_round_trip(s.drop_first(), next);
        let piece = if c == '!' && after_mark { seq![' ', '!'] } else { yaml_char(c) };
        let rest = yaml_escape_from(s.drop_first(), next);
        let all = piece + rest;
        if piece.len() == 2 {
            assert(all.skip(2) == rest);
            assert(all.skip(1).skip(1) == rest);
            if piece[0] == ' ' {
                assert(all.skip(1)[0] == '!');
                assert(yaml_unescape(all.skip(1)) == seq!['!'] + yaml_unescape(rest));
                assert(yaml_well_escaped(all.skip(1)));
                assert(yaml_well_escaped(all));
            } else {
                assert(piece[0] == '\\');
                assert(yaml_well_escaped(all));
            }
        } else if piece.len() == 1 {
            assert(all.skip(1) == rest);
            assert(piece[0] != '\\' && piece[0] != '"');
            assert(yaml_well_escaped(all));
        } else {
            assert(all == rest);
        }
    }
}

/// `escape_yaml` output is a well-formed double-quoted YAML body (no bare
/// `"`, no dangling backslash), and reading it back gives the value with its
/// line breaks made spaces, carriage returns dropped and `!!` split as `! !`.
pub proof fn law_escape_yaml_reads_back(s: Seq<char>)
    ensures
        yaml_well_escaped(escape_yaml_text(s)),
        yaml_unescape(escape_yaml_text(s)) == yaml_plain_from(s, false),
{
    lemma_yaml_round_trip(s, false);
}

/// The escaped form never holds `<` or `>`.
proof fn lemma_xml_no_angle(s: Seq<char>)
    ensures
        forall|k: int| 0 <= k < escape_xml_text(s).len() ==> #[trigger] escape_xml_text(s)[k] != '<'
            && escape_xml_text(s)[k] != '>',
    decreases s.len(),
{
    if s.len() > 0 {
        lemma_xml_no_angle(s.drop_first());
        let piece = xml_char(s[0]);
        let rest = escape_xml_text(s.drop_first());
        assert forall|k: int| 0 <= k < (piece + rest).len() implies #[trigger] (piece + rest)[k] != '<' && (piece
            + rest)[k] != '>' by {
            if k >= piece.len() {
                assert((piece + rest)[k] == rest[k - piece.len()]);
            }
        }
    }
}

/// `escape_xml_content` output holds no `<` and no `>`.
pub proof fn law_escape_xml_no_angle_brackets(s: Seq<char>)
    ensures
        !escape_xml_text(s).contains('<'),
        !escape_xml_text(s).contains('>'),
{
    lemma_xml_no_angle(s);
}

/// Reading XML content back: the entities `&amp;`, `&lt;` and `&gt;` as
/// `&`, `<` and `>` in one left-to-right pass, every other character as itself.
pub open spec fn xml_unescape(r: Seq<char>) -> Seq<char>
    decreases r.len(),
{
    if r.len() == 0 {
        seq![]
    } else if r.len() >= 5 && r.take(5) == seq!['&', 'a', 'm', 'p', ';'] {
        seq!['&'] + xml_unescape(r.skip(5))
    } else if r.len() >= 4 && r.take(4) == seq!['&', 'l', 't', ';'] {
        seq!['<'] + xml_unescape(r.skip(4))
    } else if r.len() >= 4 && r.take(4) == seq!['&', 'g', 't', ';'] {
        seq!['>'] + xml_unescape(r.skip(4))
    } else {
        seq![r[0]] + xml_unescape(r.skip(1))
    }
}

/// Every `&` of `r` begins one of the entities `&amp;`, `&lt;`, `&gt;`.
pub open spec fn xml_entities_only(r: Seq<char>) -> bool {
    forall|i: int| 0 <= i < r.len() && #[trigger] r[i] == '&' ==> occurs_at(r, i, seq!['&', 'a', 'm', 'p', ';'])
        || occurs_at(r, i, seq!['&', 'l', 't', ';']) || occurs_at(r, i, seq!['&', 'g', 't', ';'])
}

proof fn lemma_xml_round_trip(s: Seq<char>)
    ensures
        xml_unescape(escape_xml_text(s)) == s,
        xml_entities_only(escape_xml_text(s)),
    decreases s.len(),
{
    if s.len() > 0 {
        let c = s[0];
        lemma_xml_round_trip(s.drop_first());
        let piece = xml_char(c);
        let rest = escape_xml_text(s.drop_first());
        let all = piece + rest;
        assert(all.take(piece.len() as int) == piece);
        assert(all.skip(piece.len() as int) == rest);
        if c != '&' && c != '<' && c != '>' {
            assert(all[0] == c);
            if all.len() >= 4 {
                assert(all.take(4)[0] == c);
            }
            if all.len() >= 5 {
                assert(all.take(5)[0] == c);
            }
        }
        assert(s == seq![c] + s.drop_first());
        assert forall|i: int| 0 <= i < all.len() && #[trigger] all[i] == '&' implies occurs_at(
            all,
            i,
            seq!['&', 'a', 'm', 'p', ';'],
        ) || occurs_at(all, i, seq!['&', 'l', 't', ';']) || occurs_at(all, i, seq!['&', 'g', 't', ';']) by {
            if i >= piece.len() {
                let j = i - piece.len();
                assert(rest[j] == '&');
                if occurs_at(rest, j, seq!['&', 'a', 'm', 'p', ';']) {
                    assert(all.subrange(i, i + 5) == rest.subrange(j, j + 5));
                } else if occurs_at(rest, j, seq!['&', 'l', 't', ';']) {
                    assert(all.subrange(i, i + 4) == rest.subrange(j, j + 4));
                } else {
                    assert(all.subrange(i, i + 4) == rest.subrange(j, j + 4));
                }
            } else {
                assert(i == 0);
                assert(all.subrange(0, piece.len() as int) == piece);
            }
        }
    }
}

/// `escape_xml_content` can be undone: every `&` of the output begins one
/// of the three entities, and reading them back gives the input.
pub proof fn law_escape_xml_reads_back(s: Seq<char>)
    ensures
        xml_entities_only(escape_xml_text(s)),
        xml_unescape(escape_xml_text(s)) == s,
{
    lemma_xml_round_trip(s);
}

/// In `wrap_in_xml(tag, content)` the only `<` after the opening one is the
/// one that starts the closing `</tag>`: the content cannot close the
/// element early or open another one (for a tag without `<`).
pub proof fn law_wrap_in_xml_single_element(tag: Seq<char>, content: Seq<char>)
    requires
        !tag.contains('<'),
    ensures
        ({
            let w = wrap_in_xml_text(tag, content);
            let close: int = (tag.len() + 2 + escape_xml_text(content).len()) as int;
            &&& w[0] == '<'
            &&& w.subrange(close, close + 2) == "</"@
            &&& forall|i: int| 0 < i < close ==> w[i] != '<'
        }),
{
    reveal_strlit("<");
    reveal_strlit(">");
    reveal_strlit("</");
    law_escape_xml_no_angle_brackets(content);
    let body = escape_xml_text(content);
    let w = wrap_in_xml_text(tag, content);
    let close: int = (tag.len() + 2 + body.len()) as int;
    assert(w == seq!['<'] + tag + seq!['>'] + body + seq!['<', '/'] + tag + seq!['>']);
    assert forall|i: int| 0 < i < close implies w[i] != '<' by {
        if i <= tag.len() {
            assert(w[i] == tag[i - 1]);
        } else if i == tag.len() + 1 {
            assert(w[i] == '>');
        } else {
            assert(w[i] == body[i - tag.len() - 2]);
        }
    }
    assert(w.subrange(close, close + 2) == seq!['<', '/']);
}

} // verus!

verus! {

/// A defused code fence (three backticks split by spaces, then a word) can
/// never form `obsidian://` with the text around it.
proof fn lemma_fence_cannot_form_uri(r: Seq<char>)
    requires
        11 <= r.len() <= 15,
        r[0] == '`',
        r[2] == '`',
        r[4] == '`',
        r[r.len() - 1] == 'w' || r[r.len() - 1] == 't' || r[r.len() - 1] == 'r' || (r[r.len() - 1]
            == 's' && r[r.len() - 3] != 'o'),
    ensures
        straddle_free("obsidian://"@, r),
{
    reveal_strlit("obsidian://");
    let p = "obsidian://"@;
    assert forall|i: int| !occurs_at(r, i, p) by {
        if occurs_at(r, i, p) {
            assert(r.subrange(i, i + p.len())[4 - i] == r[4]);
        }
    }
    assert forall|i: int| !occurs_at(p, i, r) by {
        if occurs_at(p, i, r) {
            assert(p.subrange(i, i + r.len())[0] == p[i]);
        }
    }
    assert forall|j: int| 0 < j < p.len() && j <= r.len() implies #[trigger] p.take(j) != r.skip(r.len() - j) by {
        assert(p.take(j)[j - 1] == p[j - 1]);
        assert(r.skip(r.len() - j)[j - 1] == r[r.len() - 1]);
        if j == 3 {
            assert(p.take(j)[0] == p[0]);
            assert(r.skip(r.len() - j)[0] == r[r.len() - 3]);
        }
    }
    assert forall|j: int| 0 < j < p.len() && j <= r.len() implies #[trigger] p.skip(p.len() - j) != r.take(j) by {
        assert(r.take(j)[0] == r[0]);
        assert(p.skip(p.len() - j)[0] == p[p.len() - j]);
    }
}

/// `sanitize_for_obsidian` output never holds the `obsidian://` URI scheme.
pub proof fn law_sanitize_for_obsidian_no_uri_scheme(s: Seq<char>)
    ensures
        !contains_seq(sanitize_for_obsidian_text(s), "obsidian://"@),
{
    reveal_strlit("obsidian://");
    reveal_strlit("obsidian[:]//");
    reveal_strlit("\\<%");
    reveal_strlit("\\%>");
    reveal_strlit("<%");
    reveal_strlit("%>");
    reveal_strlit("```dataview");
    reveal_strlit("```dataviewjs");
    reveal_strlit("```templater");
    reveal_strlit("```run-js");
    reveal_strlit("```javascript");
    reveal_strlit("` ` `dataview");
    reveal_strlit("` ` `dataviewjs");
    reveal_strlit("` ` `templater");
    reveal_strlit("` ` `run-js");
    reveal_strlit("` ` `javascript");
    let p = "obsidian://"@;
    let defused = "obsidian[:]//"@;
    assert forall|i: int| !occurs_at(defused, i, p) by {
        if occurs_at(defused, i, p) {
            assert(defused.subrange(i, i + p.len())[8] == defused[i + 8]);
            assert(defused.subrange(i, i + p.len())[0] == defused[i]);
        }
    }
    assert forall|j: int| 0 < j < p.len() && j <= defused.len() implies #[trigger] p.take(j) != defused.skip(defused.len() - j) by {
        assert(p.take(j)[j - 1] == p[j - 1]);
        assert(defused.skip(defused.len() - j)[j - 1] == defused[defused.len() - 1]);
        if j == 10 {
            assert(p.take(j)[0] != defused.skip(defused.len() - j)[0]);
        }
    }
    assert forall|j: int| 0 < j < p.len() && j <= defused.len() implies #[trigger] p.skip(p.len() - j) != defused.take(j) by {
        assert(defused.take(j)[0] == defused[0]);
        assert(p.skip(p.len() - j)[0] == p[p.len() - j]);
    }
    assert(straddle_free(p, defused));
    lemma_straddle_free_disjoint(p, "\\<%"@);
    lemma_straddle_free_disjoint(p, "\\%>"@);
    lemma_fence_cannot_form_uri("` ` `dataview"@);
    lemma_fence_cannot_form_uri("` ` `dataviewjs"@);
    lemma_fence_cannot_form_uri("` ` `templater"@);
    lemma_fence_cannot_form_uri("` ` `run-js"@);
    lemma_fence_cannot_form_uri("` ` `javascript"@);
    let r0 = strip_html_text(s);
    let r1 = replace_all(r0, "[["@, "\\[\\["@);
    let r2 = replace_all(r1, "]]"@, "\\]\\]"@);
    let r3 = replace_all(r2, "obsidian://"@, "obsidian[:]//"@);
    let r4 = replace_all(r3, "<%"@, "\\<%"@);
    let r5 = replace_all(r4, "%>"@, "\\%>"@);
    let r6 = replace_all(r5, "```dataview"@, "` ` `dataview"@);
    let r7 = replace_all(r6, "```dataviewjs"@, "` ` `dataviewjs"@);
    let r8 = replace_all(r7, "```templater"@, "` ` `templater"@);
    let r9 = replace_all(r8, "```run-js"@, "` ` `run-js"@);
    lemma_replace_no_occurrence(r2, p, defused, p);
    lemma_replace_no_occurrence(r3, "<%"@, "\\<%"@, p);
    lemma_replace_no_occurrence(r4, "%>"@, "\\%>"@, p);
    lemma_replace_no_occurrence(r5, "```dataview"@, "` ` `dataview"@, p);
    lemma_replace_no_occurrence(r6, "```dataviewjs"@, "` ` `dataviewjs"@, p);
    lemma_replace_no_occurrence(r7, "```templater"@, "` ` `templater"@, p);
    lemma_replace_no_occurrence(r8, "```run-js"@, "` ` `run-js"@, p);
    lemma_replace_no_occurrence(r9, "```javascript"@, "` ` `javascript"@, p);
}

/// A fence of three backticks and a word cannot overlap a defused fence
/// (backticks split by spaces, then a word) in a way that forms it.
proof fn lemma_fence_straddle_free(p: Seq<char>, r: Seq<char>)
    requires
        p.len() >= 4,
        p[0] == '`' && p[1] == '`' && p[2] == '`',
        forall|k: int| 3 <= k < p.len() ==> p[k] != '`' && p[k] != ' ',
        r.len() >= 6,
        r[0] == '`' && r[1] == ' ' && r[2] == '`' && r[3] == ' ' && r[4] == '`',
        forall|k: int| 5 <= k < r.len() ==> r[k] != '`' && r[k] != ' ',
    ensures
        straddle_free(p, r),
{
    assert forall|i: int| !occurs_at(r, i, p) by {
        if occurs_at(r, i, p) {
            assert(r.subrange(i, i + p.len())[0] == r[i]);
            assert(r.subrange(i, i + p.len())[1] == r[i + 1]);
        }
    }
    assert forall|i: int| !occurs_at(p, i, r) by {
        if occurs_at(p, i, r) {
            assert(p.subrange(i, i + r.len())[1] == p[i + 1]);
        }
    }
    assert forall|j: int| 0 < j < p.len() && j <= r.len() implies #[trigger] p.take(j) != r.skip(r.len() - j) by {
        assert(p.take(j)[0] == p[0]);
        assert(r.skip(r.len() - j)[0] == r[r.len() - j]);
        if j >= 2 {
            assert(p.take(j)[1] == p[1]);
            assert(r.skip(r.len() - j)[1] == r[r.len() - j + 1]);
        }
    }
    assert forall|j: int| 0 < j < p.len() && j <= r.len() implies #[trigger] p.skip(p.len() - j) != r.take(j) by {
        assert(r.take(j)[0] == r[0]);
        assert(p.skip(p.len() - j)[0] == p[p.len() - j]);
        if j >= 2 {
            assert(r.take(j)[1] == r[1]);
            assert(p.skip(p.len() - j)[1] == p[p.len() - j + 1]);
        }
    }
}

/// `sanitize_for_obsidian` output holds none of the code fences that run
/// code in Obsidian plugins: ```` ```dataview ````, ```` ```dataviewjs ````,
/// ```` ```templater ````, ```` ```run-js ```` and ```` ```javascript ````.
pub proof fn law_sanitize_for_obsidian_no_plugin_fences(s: Seq<char>)
    ensures
        !contains_seq(sanitize_for_obsidian_text(s), "```dataview"@),
        !contains_seq(sanitize_for_obsidian_text(s), "```dataviewjs"@),
        !contains_seq(sanitize_for_obsidian_text(s), "```templater"@),
        !contains_seq(sanitize_for_obsidian_text(s), "```run-js"@),
        !contains_seq(sanitize_for_obsidian_text(s), "```javascript"@),
{
    reveal_strlit("```dataview");
    reveal_strlit("```dataviewjs");
    reveal_strlit("```templater");
    reveal_strlit("```run-js");
    reveal_strlit("```javascript");
    reveal_strlit("` ` `dataview");
    reveal_strlit("` ` `dataviewjs");
    reveal_strlit("` ` `templater");
    reveal_strlit("` ` `run-js");
    reveal_strlit("` ` `javascript");
    let f6 = "```dataview"@;
    let f7 = "```dataviewjs"@;
    let f8 = "```templater"@;
    let f9 = "```run-js"@;
    let f10 = "```javascript"@;
    let d6 = "` ` `dataview"@;
    let d7 = "` ` `dataviewjs"@;
    let d8 = "` ` `templater"@;
    let d9 = "` ` `run-js"@;
    let d10 = "` ` `javascript"@;
    let r0 = strip_html_text(s);
    let r1 = replace_all(r0, "[["@, "\\[\\["@);
    let r2 = replace_all(r1, "]]"@, "\\]\\]"@);
    let r3 = replace_all(r2, "obsidian://"@, "obsidian[:]//"@);
    let r4 = replace_all(r3, "<%"@, "\\<%"@);
    let r5 = replace_all(r4, "%>"@, "\\%>"@);
    let r6 = replace_all(r5, f6, d6);
    let r7 = replace_all(r6, f7, d7);
    let r8 = replace_all(r7, f8, d8);
    let r9 = replace_all(r8, f9, d9);
    lemma_fence_straddle_free(f6, d6);
    lemma_fence_straddle_free(f6, d7);
    lemma_fence_straddle_free(f6, d8);
    lemma_fence_straddle_free(f6, d9);
    lemma_fence_straddle_free(f6, d10);
    lemma_replace_no_occurrence(r5, f6, d6, f6);
    lemma_replace_no_occurrence(r6, f7, d7, f6);
    lemma_replace_no_occurrence(r7, f8, d8, f6);
    lemma_replace_no_occurrence(r8, f9, d9, f6);
    lemma_replace_no_occurrence(r9, f10, d10, f6);
    lemma_fence_straddle_free(f7, d7);
    lemma_fence_straddle_free(f7, d8);
    lemma_fence_straddle_free(f7, d9);
    lemma_fence_straddle_free(f7, d10);
    lemma_replace_no_occurrence(r6, f7, d7, f7);
    lemma_replace_no_occurrence(r7, f8, d8, f7);
    lemma_replace_no_occurrence(r8, f9, d9, f7);
    lemma_replace_no_occurrence(r9, f10, d10, f7);
    lemma_fence_straddle_free(f8, d8);
    lemma_fence_straddle_free(f8, d9);
    lemma_fence_straddle_free(f8, d10);
    lemma_replace_no_occurrence(r7, f8, d8, f8);
    lemma_replace_no_occurrence(r8, f9, d9, f8);
    lemma_replace_no_occurrence(r9, f10, d10, f8);
    lemma_fence_straddle_free(f9, d9);
    lemma_fence_straddle_free(f9, d10);
    lemma_replace_no_occurrence(r8, f9, d9, f9);
    lemma_replace_no_occurrence(r9, f10, d10, f9);
    lemma_fence_straddle_free(f10, d10);
    lemma_replace_no_occurrence(r9, f10, d10, f10);
}

/// Outside a tag, text with no tag opening from position `i` on is kept as it is.
proof fn lemma_strip_from_plain(s: Seq<char>, i: int)
    requires
        0 <= i <= s.len(),
        forall|k: int| i <= k < s.len() ==> !opens_tag(s, k),
    ensures
        strip_from(s, i, false) == s.skip(i),
    decreases s.len() - i,
{
    if i < s.len() {
        lemma_strip_from_plain(s, i + 1);
        assert(s.skip(i) == seq![s[i]] + s.skip(i + 1));
    } else {
        assert(s.skip(i).len() == 0);
    }
}

/// `strip_html` keeps plain text unchanged: text in which no `<` is followed
/// by a letter, `/`, `!` or `?` (such as the comparison `a < b`) comes back
/// as it went in.
pub proof fn law_strip_html_keeps_plain_text(s: Seq<char>)
    requires
        forall|k: int| 0 <= k < s.len() ==> !opens_tag(s, k),
    ensures
        strip_html_text(s) == s,
{
    lemma_strip_from_plain(s, 0);
    assert(s.skip(0) == s);
}

} // verus!
