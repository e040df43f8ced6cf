//! YouTube Data API values: playlist items, request URLs and ISO 8601
//! durations.
use vstd::prelude::*;
use crate::text::{chars_of, eq_str, join_strings, join_texts};
use crate::json::{
    doc_of, doc_of_text, json_document, member, member_doc, member_doc_of, member_items, member_items_of,
    member_raw_of, member_text, member_text_of, opt_text, parse_json, json_quote, json_string, JsonDoc, JsonDocView,
};
use crate::types::Video;

verus! {

/// The value of a run of decimal digits (most significant first).
pub open spec fn digits_value(n: Seq<char>) -> nat
    decreases n.len(),
{
    if n.len() == 0 {
        0
    } else {
        digits_value(n.drop_last()) * 10 + ((n.last() as u32 - '0' as u32) as nat)
    }
}

/// What `str::parse::<u64>` makes of a run of digits, with a failed parse
/// (nothing, or a number past `u64::MAX`) counted as 0.
pub open spec fn parsed_number(n: Seq<char>) -> nat {
    if n.len() > 0 && digits_value(n) <= u64::MAX {
        digits_value(n)
    } else {
        0
    }
}

/// Reading an ISO 8601 duration: the seconds so far, the digits read since
/// the last unit, and whether the time part (`T`) has begun. `H`, `M` and
/// `S` count only in the time part; `D` counts anywhere; `P` drops pending
/// digits; other characters are ignored.
pub open spec fn iso_scan(s: Seq<char>) -> (int, Seq<char>, bool)
    decreases s.len(),
{
    if s.len() == 0 {
        (0, seq![], false)
    } else {
        let prev = iso_scan(s.drop_last());
        let c = s.last();
        if c == 'T' {
            (prev.0, prev.1, true)
        } else if '0' <= c && c <= '9' {
            (prev.0, prev.1.push(c), prev.2)
        } else if c == 'H' && prev.2 {
            (prev.0 + parsed_number(prev.1) * 3600, seq![], prev.2)
        } else if c == 'M' && prev.2 {
            (prev.0 + parsed_number(prev.1) * 60, seq![], prev.2)
        } else if c == 'S' && prev.2 {
            (prev.0 + parsed_number(prev.1), seq![], prev.2)
        } else if c == 'D' {
            (prev.0 + parsed_number(prev.1) * 86400, seq![], prev.2)
        } else if c == 'P' {
            (prev.0, seq![], prev.2)
        } else {
            prev
        }
    }
}

/// The number of seconds of an ISO 8601 duration such as `PT1H30M15S`.
pub open spec fn iso_seconds(s: Seq<char>) -> int {
    iso_scan(s).0
}

proof fn lemma_iso_total_grows(s: Seq<char>, i: int)
    requires
        0 <= i <= s.len(),
    ensures
        0 <= iso_scan(s.take(i)).0 <= iso_scan(s).0,
    decreases s.len() - i,
{
    if i < s.len() {
        lemma_iso_total_grows(s, i + 1);
        assert(s.take(i + 1).drop_last() == s.take(i));
        lemma_iso_total_nonneg(s.take(i));
    } else {
        assert(s.take(i) == s);
        lemma_iso_total_nonneg(s);
    }
}

proof fn lemma_iso_total_nonneg(s: Seq<char>)
    ensures
        iso_scan(s).0 >= 0,
    decreases s.len(),
{
    if s.len() > 0 {
        lemma_iso_total_nonneg(s.drop_last());
    }
}

/// Parses an ISO 8601 duration (as YouTube gives them, e.g. `PT1H30M15S`)
/// into seconds; `None` when the total does not fit in a `u64`.
pub fn parse_iso8601_duration_checked(duration: &str) -> (res: Option<u64>)
    ensures
        match res {
            Some(r) => r == iso_seconds(duration@),
            None => iso_seconds(duration@) > u64::MAX,
        },
{
    let v = chars_of(duration);
    let mut s: u64 = 0;
    let mut value: u64 = 0;
    let mut too_big = false;
    let mut has_digits = false;
    let mut t = false;
    let ghost mut digits: Seq<char> = seq![];
    for i in 0..v.len()
        invariant
            v@ == duration@,
            iso_scan(v@.take(i as int)) == (s as int, digits, t),
            has_digits == (digits.len() > 0),
            too_big == (digits_value(digits) > u64::MAX),
            !too_big ==> value == digits_value(digits),
    {
        let c = v[i];
        assert(v@.take(i + 1).drop_last() == v@.take(i as int));
        assert(v@.take(i + 1).last() == c);
        proof {
            lemma_iso_total_grows(v@, i + 1);
        }
        let n: u64 = if has_digits && !too_big { value } else { 0 };
        assert(n == parsed_number(digits));
        let unit: u64 = if c == 'H' && t {
            3600
        } else if c == 'M' && t {
            60
        } else if c == 'S' && t {
            1
        } else if c == 'D' {
            86400
        } else {
            0
        };
        if c == 'T' {
            t = true;
        } else if '0' <= c && c <= '9' {
            let d = (c as u32 - '0' as u32) as u64;
            let ghost nd = digits.push(c);
            assert(nd.drop_last() == digits);
            assert(nd.last() == c);
            assert(digits_value(nd) == digits_value(digits) * 10 + d);
            if !too_big && value <= (u64::MAX - d) / 10 {
                assert(value * 10 + d <= u64::MAX) by (nonlinear_arith)
                    requires
                        value <= (u64::MAX - d) / 10,
                        d <= 9,
                ;
                value = value * 10 + d;
            } else {
                if !too_big {
                    assert(value * 10 + d > u64::MAX) by (nonlinear_arith)
                        requires
                            value > (u64::MAX - d) / 10,
                            d <= 9,
                    ;
                }
                too_big = true;
            }
            has_digits = true;
            proof {
                digits = nd;
            }
        } else if unit > 0 {
            let added = match n.checked_mul(unit) {
                Some(a) => a,
                None => {
                    proof {
                        lemma_iso_total_grows(v@, i + 1);
                        assert(v@.take(v.len() as int) == v@);
                    }
                    return None;
                },
            };
            s = match s.checked_add(added) {
                Some(total) => total,
                None => {
                    proof {
                        assert(v@.take(v.len() as int) == v@);
                    }
                    return None;
                },
            };
            proof {
                digits = seq![];
            }
            value = 0;
            too_big = false;
            has_digits = false;
        } else if c == 'P' {
            proof {
                digits = seq![];
            }
            value = 0;
            too_big = false;
            has_digits = false;
        }
    }
    assert(v@.take(v.len() as int) == v@);
    Some(s)
}

/// Parses an ISO 8601 duration (as YouTube gives them, e.g. `PT1H30M15S`)
/// into seconds, for every duration whose total fits in a `u64`.
pub fn parse_iso8601_duration(duration: &str) -> (res: u64)
    requires
        iso_seconds(duration@) <= u64::MAX,
    ensures
        res == iso_seconds(duration@),
{
    match parse_iso8601_duration_checked(duration) {
        Some(r) => r,
        None => 0,
    }
}

} // verus!

verus! {

/// The request URL of one page of a playlist's items (50 per page).
pub open spec fn playlist_items_url_text(playlist_id: Seq<char>, page_token: Option<Seq<char>>) -> Seq<char> {
    "https://www.googleapis.com/youtube/v3/playlistItems?part=snippet,contentDetails&maxResults=50&playlistId="@
        + playlist_id + match page_token {
        Some(t) => "&pageToken="@ + t,
        None => Seq::empty(),
    }
}

/// The request URL of one page of a playlist's items.
pub fn playlist_items_url(playlist_id: &str, page_token: Option<&str>) -> (res: String)
    ensures
        res@ == playlist_items_url_text(
            playlist_id@,
            match page_token {
                Some(t) => Some(t@),
                None => None,
            },
        ),
{
    let mut url = String::from_str(
        "https://www.googleapis.com/youtube/v3/playlistItems?part=snippet,contentDetails&maxResults=50&playlistId=",
    );
    url.append(playlist_id);
    let ghost before = url@;
    match page_token {
        Some(t) => {
            url.append("&pageToken=");
            url.append(t);
        },
        None => {
            assert(before + Seq::<char>::empty() == before);
        },
    }
    url
}

/// The URL that deletes a playlist item.
pub fn remove_item_url(playlist_item_id: &str) -> (res: String)
    ensures
        res@ == "https://www.googleapis.com/youtube/v3/playlistItems?id="@ + playlist_item_id@,
{
    let mut url = String::from_str("https://www.googleapis.com/youtube/v3/playlistItems?id=");
    url.append(playlist_item_id);
    url
}

/// The URL that asks for the durations of up to 50 videos by id.
pub fn durations_url(ids: &Vec<String>) -> (res: String)
    ensures
        res@ == "https://www.googleapis.com/youtube/v3/videos?part=contentDetails&id="@ + join_texts(
            ids@.map_values(|s: String| s@),
            ","@,
        ),
{
    let mut url = String::from_str("https://www.googleapis.com/youtube/v3/videos?part=contentDetails&id=");
    url.append(join_strings(ids, ",").as_str());
    url
}

/// A video from the fields of a playlist item; `None` for an item without a
/// video id (such items are skipped). The duration is filled in later.
pub fn video_from_item(
    video_id: String,
    playlist_item_id: String,
    title: String,
    channel: String,
    description: String,
    published_at: String,
) -> (res: Option<Video>)
    ensures
        video_id@.len() == 0 <==> res is None,
        res matches Some(v) ==> {
            &&& v.id == video_id
            &&& v.playlist_item_id == playlist_item_id
            &&& v.title == title
            &&& v.channel == channel
            &&& v.description == description
            &&& v.published_at == published_at
            &&& v.duration_seconds is None
            &&& v.view_count is None
            &&& v.like_count is None
            &&& v.dislike_count is None
            &&& v.comment_count is None
        },
{
    if video_id.as_str().unicode_len() == 0 {
        return None;
    }
    Some(Video {
        id: video_id,
        playlist_item_id,
        title,
        channel,
        description,
        published_at,
        duration_seconds: None,
        view_count: None,
        like_count: None,
        dislike_count: None,
        comment_count: None,
    })
}

/// Sets the duration of the first video with id `vid` among those at
/// positions `lo..hi` (the batch whose durations were asked for) to the
/// seconds of the ISO 8601 duration `iso`; the list is unchanged when no
/// video there has that id. Every other field of every video is kept.
pub fn apply_duration(videos: &mut Vec<Video>, lo: usize, hi: usize, vid: &str, iso: &str)
    requires
        lo <= hi <= old(videos)@.len(),
        iso_seconds(iso@) <= u64::MAX,
    ensures
        final(videos)@.len() == old(videos)@.len(),
        forall|i: int| 0 <= i < old(videos)@.len() ==> {
            let o = #[trigger] old(videos)@[i];
            let n = final(videos)@[i];
            &&& n.id == o.id
            &&& n.playlist_item_id == o.playlist_item_id
            &&& n.title == o.title
            &&& n.channel == o.channel
            &&& n.description == o.description
            &&& n.published_at == o.published_at
            &&& n.view_count == o.view_count
            &&& n.like_count == o.like_count
            &&& n.dislike_count == o.dislike_count
            &&& n.comment_count == o.comment_count
            &&& n.duration_seconds == if lo <= i < hi && o.id@ == vid@ && forall|j: int|
                lo <= j < i ==> old(videos)@[j].id@ != vid@ {
                Some(iso_seconds(iso@) as u64)
            } else {
                o.duration_seconds
            }
        },
{
    let mut i: usize = lo;
    while i < hi
        invariant
            lo <= i <= hi <= videos@.len(),
            videos@ == old(videos)@,
            iso_seconds(iso@) <= u64::MAX,
            forall|j: int| lo <= j < i ==> old(videos)@[j].id@ != vid@,
        decreases hi - i,
    {
        if eq_str(videos[i].id.as_str(), vid) {
            let secs = parse_iso8601_duration(iso);
            let ghost before = videos@;
            let mut v = videos.remove(i);
            v.duration_seconds = Some(secs);
            videos.insert(i, v);
            assert forall|k: int| 0 <= k < before.len() && k != i implies #[trigger] videos@[k] == before[k] by {
                if k < i {
                } else {
                }
            }
            return;
        }
        i += 1;
    }
}

/// A string member, or empty text when it is absent or not a string
/// (`value[key].as_str().unwrap_or("")`).
pub open spec fn text_or_empty(doc: JsonDocView, key: Seq<char>) -> Seq<char> {
    match member_text(doc, key) {
        Some(t) => t,
        None => seq![],
    }
}

/// The fields of a playlist item (given as JSON text): video id (from
/// `contentDetails.videoId`), item id, and the snippet's title, channel
/// (`videoOwnerChannelTitle`), description and publication time.
pub open spec fn item_fields(raw: Seq<char>) -> (Seq<char>, Seq<char>, Seq<char>, Seq<char>, Seq<char>, Seq<char>) {
    let item = doc_of(raw);
    let snippet = member_doc(item, "snippet"@);
    (
        text_or_empty(member_doc(item, "contentDetails"@), "videoId"@),
        text_or_empty(item, "id"@),
        text_or_empty(snippet, "title"@),
        text_or_empty(snippet, "videoOwnerChannelTitle"@),
        text_or_empty(snippet, "description"@),
        text_or_empty(snippet, "publishedAt"@),
    )
}

/// The fields of the items of a page that have a video id, in order.
pub open spec fn page_entries(items: Seq<Seq<char>>) -> Seq<(Seq<char>, Seq<char>, Seq<char>, Seq<char>, Seq<char>, Seq<char>)>
    decreases items.len(),
{
    if items.len() == 0 {
        seq![]
    } else {
        let prev = page_entries(items.drop_last());
        let f = item_fields(items.last());
        if f.0.len() == 0 {
            prev
        } else {
            prev.push(f)
        }
    }
}

/// `v` is the video of a playlist item with fields `e`, its duration and
/// counts not known yet.
pub open spec fn video_of_entry(v: Video, e: (Seq<char>, Seq<char>, Seq<char>, Seq<char>, Seq<char>, Seq<char>)) -> bool {
    &&& v.id@ == e.0
    &&& v.playlist_item_id@ == e.1
    &&& v.title@ == e.2
    &&& v.channel@ == e.3
    &&& v.description@ == e.4
    &&& v.published_at@ == e.5
    &&& v.duration_seconds is None
    &&& v.view_count is None
    &&& v.like_count is None
    &&& v.dislike_count is None
    &&& v.comment_count is None
}

/// The error of an API reply, when it has an `error` member: its message
/// ("unknown" when it has none).
pub open spec fn api_error_message(doc: JsonDocView) -> Option<Seq<char>> {
    match member(doc, "error"@) {
        Some(raw) => Some(
            match member_text(doc_of(raw), "message"@) {
                Some(m) => m,
                None => "unknown"@,
            },
        ),
        None => None,
    }
}

/// The error message of an API reply, if it has an `error` member.
fn api_error_of(doc: &JsonDoc) -> (res: Option<String>)
    ensures
        opt_text(res) == api_error_message(doc@),
{
    match member_raw_of(doc, "error") {
        Some(raw) => {
            let e = doc_of_text(raw.as_str());
            match member_text_of(&e, "message") {
                Some(m) => Some(m),
                None => Some(String::from_str("unknown")),
            }
        },
        None => None,
    }
}

/// A string member, or empty text.
fn text_or_empty_of(doc: &JsonDoc, key: &str) -> (res: String)
    ensures
        res@ == text_or_empty(doc@, key@),
{
    match member_text_of(doc, key) {
        Some(t) => t,
        None => String::new(),
    }
}

/// Reads one page of a playlist's items (the reply body): an error for a
/// body that is not JSON or a reply with an `error` member (the videos are
/// then left as they were); otherwise the videos gain, in order, one video
/// per item with a video id, and the result is the next page's token, if any.
pub fn read_playlist_page(body: &str, videos: &mut Vec<Video>) -> (res: Result<Option<String>, String>)
    ensures
        match json_document(body@) {
            None => final(videos)@ == old(videos)@ && (res matches Err(e) && e@ == "Failed to parse API response"@),
            Some(d) => match api_error_message(d) {
                Some(m) => final(videos)@ == old(videos)@ && (res matches Err(e) && e@ == "YouTube API error: "@ + m),
                None => {
                    let entries = page_entries(member_items(d, "items"@));
                    &&& res matches Ok(t) && opt_text(t) == member_text(d, "nextPageToken"@)
                    &&& final(videos)@.len() == old(videos)@.len() + entries.len()
                    &&& final(videos)@.take(old(videos)@.len() as int) == old(videos)@
                    &&& forall|j: int| 0 <= j < entries.len() ==> video_of_entry(
                        #[trigger] final(videos)@[old(videos)@.len() + j],
                        entries[j],
                    )
                },
            },
        },
{
    let doc = match parse_json(body) {
        Some(d) => d,
        None => return Err(String::from_str("Failed to parse API response")),
    };
    match api_error_of(&doc) {
        Some(m) => {
            let mut e = String::from_str("YouTube API error: ");
            e.append(m.as_str());
            return Err(e);
        },
        None => {},
    }
    let items = member_items_of(&doc, "items");
    let ghost raws = items@.map_values(|s: String| s@);
    let ghost start = videos@.len();
    for i in 0..items.len()
        invariant
            raws == items@.map_values(|s: String| s@),
            raws == member_items(doc@, "items"@),
            videos@.len() == start + page_entries(raws.take(i as int)).len(),
            videos@.take(start as int) == old(videos)@,
            start == old(videos)@.len(),
            forall|j: int| 0 <= j < page_entries(raws.take(i as int)).len() ==> video_of_entry(
                #[trigger] videos@[start + j],
                page_entries(raws.take(i as int))[j],
            ),
    {
        assert(raws.take(i + 1).drop_last() == raws.take(i as int));
        assert(raws.take(i + 1).last() == items@[i as int]@);
        let item = doc_of_text(items[i].as_str());
        let snippet = member_doc_of(&item, "snippet");
        let details = member_doc_of(&item, "contentDetails");
        let video_id = text_or_empty_of(&details, "videoId");
        if video_id.as_str().unicode_len() > 0 {
            let ghost before = videos@;
            videos.push(
                Video {
                    id: video_id,
                    playlist_item_id: text_or_empty_of(&item, "id"),
                    title: text_or_empty_of(&snippet, "title"),
                    channel: text_or_empty_of(&snippet, "videoOwnerChannelTitle"),
                    description: text_or_empty_of(&snippet, "description"),
                    published_at: text_or_empty_of(&snippet, "publishedAt"),
                    duration_seconds: None,
                    view_count: None,
                    like_count: None,
                    dislike_count: None,
                    comment_count: None,
                },
            );
            assert(videos@.take(start as int) == before.take(start as int));
            assert forall|j: int| 0 <= j < page_entries(raws.take(i + 1)).len() implies video_of_entry(
                #[trigger] videos@[start + j],
                page_entries(raws.take(i + 1))[j],
            ) by {
                if j < page_entries(raws.take(i as int)).len() {
                    assert(videos@[start + j] == before[start + j]);
                }
            }
        }
    }
    assert(raws.take(items.len() as int) == raws);
    Ok(member_text_of(&doc, "nextPageToken"))
}

/// The video id and ISO 8601 duration of an item of a durations reply
/// (given as JSON text): its `id` (empty when absent) and
/// `contentDetails.duration` ("PT0S" when absent).
pub open spec fn duration_item(raw: Seq<char>) -> (Seq<char>, Seq<char>) {
    let item = doc_of(raw);
    (
        text_or_empty(item, "id"@),
        match member_text(member_doc(item, "contentDetails"@), "duration"@) {
            Some(d) => d,
            None => "PT0S"@,
        },
    )
}

/// The items of a durations reply, as (id, duration) pairs.
pub open spec fn duration_items(doc: JsonDocView) -> Seq<(Seq<char>, Seq<char>)> {
    member_items(doc, "items"@).map_values(|r: Seq<char>| duration_item(r))
}

/// The duration the last item for `vid` gives, if any item is for it.
pub open spec fn last_duration(items: Seq<(Seq<char>, Seq<char>)>, vid: Seq<char>) -> Option<Seq<char>>
    decreases items.len(),
{
    if items.len() == 0 {
        None
    } else if items.last().0 == vid {
        Some(items.last().1)
    } else {
        last_duration(items.drop_last(), vid)
    }
}

/// Position `i` holds the first video of the batch `lo..hi` with its id.
pub open spec fn first_in_batch(vs: Seq<Video>, lo: int, hi: int, i: int) -> bool {
    lo <= i < hi && forall|j: int| lo <= j < i ==> vs[j].id@ != vs[i].id@
}

/// Every duration of the items fits in a `u64` number of seconds.
pub open spec fn durations_fit(items: Seq<(Seq<char>, Seq<char>)>) -> bool {
    forall|k: int| 0 <= k < items.len() ==> iso_seconds(#[trigger] items[k].1) <= u64::MAX
}

/// The duration video `i` has after the items of a durations reply for the
/// batch `lo..hi` are applied in turn: the first video of the batch with an
/// id gets the duration of the last item for that id.
pub open spec fn duration_after(vs: Seq<Video>, lo: int, hi: int, items: Seq<(Seq<char>, Seq<char>)>, i: int) -> Option<u64> {
    if first_in_batch(vs, lo, hi, i) && last_duration(items, vs[i].id@) is Some {
        Some(iso_seconds(last_duration(items, vs[i].id@)->0) as u64)
    } else {
        vs[i].duration_seconds
    }
}

/// `n` is `o` with at most its duration changed.
pub open spec fn same_but_duration(o: Video, n: Video) -> bool {
    &&& n.id == o.id
    &&& n.playlist_item_id == o.playlist_item_id
    &&& n.title == o.title
    &&& n.channel == o.channel
    &&& n.description == o.description
    &&& n.published_at == o.published_at
    &&& n.view_count == o.view_count
    &&& n.like_count == o.like_count
    &&& n.dislike_count == o.dislike_count
    &&& n.comment_count == o.comment_count
}

/// Reads a durations reply (its body) for the videos at positions `lo..hi`
/// and sets their durations: an error when the body is not JSON, or when a
/// duration does not fit in a `u64` (the videos are then left as they were).
pub fn read_durations_page(body: &str, videos: &mut Vec<Video>, lo: usize, hi: usize) -> (res: Result<(), String>)
    requires
        lo <= hi <= old(videos)@.len(),
    ensures
        match json_document(body@) {
            None => final(videos)@ == old(videos)@ && (res matches Err(e) && e@ == "Failed to parse durations response"@),
            Some(d) => if durations_fit(duration_items(d)) {
                &&& res is Ok
                &&& final(videos)@.len() == old(videos)@.len()
                &&& forall|i: int| 0 <= i < old(videos)@.len() ==> same_but_duration(#[trigger] old(videos)@[i], final(videos)@[i])
                    && final(videos)@[i].duration_seconds == duration_after(old(videos)@, lo as int, hi as int, duration_items(d), i)
            } else {
                final(videos)@ == old(videos)@ && (res matches Err(e) && e@ == "duration overflow"@)
            },
        },
{
    let doc = match parse_json(body) {
        Some(d) => d,
        None => return Err(String::from_str("Failed to parse durations response")),
    };
    let raws = member_items_of(&doc, "items");
    let ghost items = duration_items(doc@);
    let mut pairs: Vec<(String, String)> = Vec::new();
    for k in 0..raws.len()
        invariant
            raws@.map_values(|s: String| s@) == member_items(doc@, "items"@),
            items == duration_items(doc@),
            json_document(body@) == Some(doc@),
            videos@ == old(videos)@,
            pairs@.len() == k,
            forall|j: int| 0 <= j < k ==> (#[trigger] pairs@[j]).0@ == items[j].0 && pairs@[j].1@ == items[j].1,
            forall|j: int| 0 <= j < k ==> iso_seconds(#[trigger] items[j].1) <= u64::MAX,
    {
        assert(items[k as int] == duration_item(raws@[k as int]@));
        let item = doc_of_text(raws[k].as_str());
        let details = member_doc_of(&item, "contentDetails");
        let iso = match member_text_of(&details, "duration") {
            Some(d) => d,
            None => String::from_str("PT0S"),
        };
        if parse_iso8601_duration_checked(iso.as_str()).is_none() {
            assert(!durations_fit(items)) by {
                assert(iso_seconds(items[k as int].1) > u64::MAX);
            }
            return Err(String::from_str("duration overflow"));
        }
        pairs.push((text_or_empty_of(&item, "id"), iso));
    }
    let ghost start = videos@;
    for k in 0..pairs.len()
        invariant
            pairs@.len() == items.len(),
            forall|j: int| 0 <= j < items.len() ==> (#[trigger] pairs@[j]).0@ == items[j].0 && pairs@[j].1@ == items[j].1,
            forall|j: int| 0 <= j < items.len() ==> iso_seconds(#[trigger] items[j].1) <= u64::MAX,
            lo <= hi <= start.len(),
            videos@.len() == start.len(),
            forall|i: int| 0 <= i < start.len() ==> same_but_duration(#[trigger] start[i], videos@[i])
                && videos@[i].duration_seconds == duration_after(start, lo as int, hi as int, items.take(k as int), i),
    {
        let ghost before = videos@;
        assert(iso_seconds(items[k as int].1) <= u64::MAX);
        apply_duration(videos, lo, hi, pairs[k].0.as_str(), pairs[k].1.as_str());
        assert(items.take(k + 1).drop_last() == items.take(k as int));
        assert(items.take(k + 1).last() == items[k as int]);
        assert forall|i: int| 0 <= i < start.len() implies same_but_duration(#[trigger] start[i], videos@[i])
            && videos@[i].duration_seconds == duration_after(start, lo as int, hi as int, items.take(k + 1), i) by {
            assert(same_but_duration(before[i], videos@[i]));
            assert(same_but_duration(start[i], before[i]));
            if lo <= i < hi {
                assert((forall|j: int| lo <= j < i ==> before[j].id@ != pairs@[k as int].0@) && before[i].id@ == pairs@[k as int].0@
                    <==> first_in_batch(start, lo as int, hi as int, i) && start[i].id@ == items[k as int].0) by {
                    assert forall|j: int| lo <= j < i implies before[j].id@ == start[j].id@ by {
                        assert(same_but_duration(start[j], before[j]));
                    }
                }
            }
        }
    }
    assert(items.take(items.len() as int) == items);
    Ok(())
}

/// What a reply to "add to playlist" (its body) means: the new playlist
/// item's id; or an error for a body that is not JSON, a reply with an
/// `error` member (its message, "unknown" when it has none), or a reply
/// without a string `id`.
pub fn added_item_reply(body: &str) -> (res: Result<String, String>)
    ensures
        match json_document(body@) {
            None => res matches Err(e) && e@ == "Failed to read the playlist reply"@,
            Some(d) => match api_error_message(d) {
                Some(m) => res matches Err(e) && e@ == "Failed to add to playlist: "@ + m,
                None => match member_text(d, "id"@) {
                    Some(id) => res matches Ok(t) && t@ == id,
                    None => res matches Err(e) && e@ == "No playlist item ID returned"@,
                },
            },
        },
{
    let doc = match parse_json(body) {
        Some(d) => d,
        None => return Err(String::from_str("Failed to read the playlist reply")),
    };
    match api_error_of(&doc) {
        Some(m) => {
            let mut e = String::from_str("Failed to add to playlist: ");
            e.append(m.as_str());
            Err(e)
        },
        None => match member_text_of(&doc, "id") {
            Some(id) => Ok(id),
            None => Err(String::from_str("No playlist item ID returned")),
        },
    }
}

/// The body of an "add to playlist" request: the playlist and a video
/// resource, as a JSON object with its keys in order.
pub open spec fn add_item_body_text(playlist_id: Seq<char>, video_id: Seq<char>) -> Seq<char> {
    "{\"snippet\":{\"playlistId\":"@ + json_string(playlist_id) + ",\"resourceId\":{\"kind\":\"youtube#video\",\"videoId\":"@
        + json_string(video_id) + "}}}"@
}

/// The body of an "add to playlist" request.
pub fn add_item_body(playlist_id: &str, video_id: &str) -> (res: String)
    ensures
        res@ == add_item_body_text(playlist_id@, video_id@),
{
    let mut out = String::from_str("{\"snippet\":{\"playlistId\":");
    out.append(json_quote(playlist_id).as_str());
    out.append(",\"resourceId\":{\"kind\":\"youtube#video\",\"videoId\":");
    out.append(json_quote(video_id).as_str());
    out.append("}}}");
    out
}

} // verus!
