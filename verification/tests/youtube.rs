use yt2action::types::Video;
use yt2action::youtube::{
    add_item_body, added_item_reply, read_durations_page, read_playlist_page, apply_duration, durations_url, parse_iso8601_duration, parse_iso8601_duration_checked,
    playlist_items_url, remove_item_url, video_from_item,
};

#[test]
fn test_duration() {
    assert_eq!(parse_iso8601_duration("PT1H30M15S"), 5415);
    assert_eq!(parse_iso8601_duration("PT5M"), 300);
}

#[test]
fn duration_counts_days_and_ignores_unknown_letters() {
    assert_eq!(parse_iso8601_duration("P1DT2H"), 93600);
    assert_eq!(parse_iso8601_duration("PT45S"), 45);
    assert_eq!(parse_iso8601_duration("PT0S"), 0);
    assert_eq!(parse_iso8601_duration(""), 0);
    // Minutes before the time part are not counted (an `M` outside `T`).
    assert_eq!(parse_iso8601_duration("P2M"), 0);
}

#[test]
fn duration_too_large_is_reported() {
    assert_eq!(parse_iso8601_duration_checked("PT9999999999999999999H"), None);
    // A number past u64::MAX does not parse, and counts as 0.
    assert_eq!(parse_iso8601_duration_checked("PT99999999999999999999S"), Some(0));
    assert_eq!(parse_iso8601_duration_checked("PT10M"), Some(600));
}

fn video(id: &str) -> Video {
    video_from_item(
        id.to_string(),
        format!("item-{id}"),
        format!("Title {id}"),
        "Channel".to_string(),
        "Desc".to_string(),
        "2024-01-02T00:00:00Z".to_string(),
    )
    .unwrap()
}

#[test]
fn video_from_item_needs_an_id() {
    assert!(video_from_item(
        String::new(),
        "i".to_string(),
        "t".to_string(),
        "c".to_string(),
        "d".to_string(),
        "p".to_string()
    )
    .is_none());
    let v = video("abc");
    assert_eq!(v.id, "abc");
    assert_eq!(v.playlist_item_id, "item-abc");
    assert_eq!(v.duration_seconds, None);
}

#[test]
fn apply_duration_sets_first_match_in_batch() {
    let mut vs = vec![video("a"), video("b"), video("a")];
    apply_duration(&mut vs, 0, 3, "a", "PT2M");
    assert_eq!(vs[0].duration_seconds, Some(120));
    assert_eq!(vs[1].duration_seconds, None);
    assert_eq!(vs[2].duration_seconds, None);
    apply_duration(&mut vs, 1, 3, "a", "PT3S");
    assert_eq!(vs[0].duration_seconds, Some(120));
    assert_eq!(vs[2].duration_seconds, Some(3));
    apply_duration(&mut vs, 0, 3, "zzz", "PT3S");
    assert_eq!(vs[1].duration_seconds, None);
}

#[test]
fn youtube_urls() {
    assert_eq!(
        playlist_items_url("PL1", None),
        "https://www.googleapis.com/youtube/v3/playlistItems?part=snippet,contentDetails&maxResults=50&playlistId=PL1"
    );
    assert_eq!(
        remove_item_url("it9"),
        "https://www.googleapis.com/youtube/v3/playlistItems?id=it9"
    );
    assert_eq!(
        durations_url(&vec!["a".to_string(), "b".to_string()]),
        "https://www.googleapis.com/youtube/v3/videos?part=contentDetails&id=a,b"
    );
}

#[test]
fn playlist_pages_are_read() {
    let mut vs = vec![video("old")];
    let body = r#"{"items":[
        {"id":"it1","contentDetails":{"videoId":"v1"},"snippet":{"title":"T1","videoOwnerChannelTitle":"C1","description":"D1","publishedAt":"2024-01-01T00:00:00Z"}},
        {"id":"it2","contentDetails":{},"snippet":{"title":"skipped"}},
        {"id":"it3","contentDetails":{"videoId":"v3"},"snippet":{}}
    ],"nextPageToken":"NEXT"}"#;
    assert_eq!(read_playlist_page(body, &mut vs), Ok(Some("NEXT".to_string())));
    assert_eq!(vs.len(), 3);
    assert_eq!(vs[0].id, "old");
    assert_eq!(vs[1].id, "v1");
    assert_eq!(vs[1].playlist_item_id, "it1");
    assert_eq!(vs[1].title, "T1");
    assert_eq!(vs[1].channel, "C1");
    assert_eq!(vs[1].description, "D1");
    assert_eq!(vs[1].published_at, "2024-01-01T00:00:00Z");
    assert_eq!(vs[2].id, "v3");
    assert_eq!(vs[2].title, "");
    assert_eq!(read_playlist_page(r#"{"items":[]}"#, &mut vs), Ok(None));
    assert_eq!(
        read_playlist_page(r#"{"error":{"message":"quota"}}"#, &mut vs),
        Err("YouTube API error: quota".to_string())
    );
    assert_eq!(read_playlist_page(r#"{"error":null}"#, &mut vs), Err("YouTube API error: unknown".to_string()));
    assert_eq!(read_playlist_page("nope", &mut vs), Err("Failed to parse API response".to_string()));
    assert_eq!(vs.len(), 3);
}

#[test]
fn durations_pages_are_applied() {
    let mut vs = vec![video("a"), video("b"), video("c")];
    let body = r#"{"items":[{"id":"a","contentDetails":{"duration":"PT1M"}},{"id":"c"},{"id":"a","contentDetails":{"duration":"PT2S"}}]}"#;
    assert_eq!(read_durations_page(body, &mut vs, 0, 2), Ok(()));
    assert_eq!(vs[0].duration_seconds, Some(2));
    assert_eq!(vs[1].duration_seconds, None);
    assert_eq!(vs[2].duration_seconds, None);
    assert_eq!(read_durations_page(body, &mut vs, 2, 3), Ok(()));
    assert_eq!(vs[2].duration_seconds, Some(0));
    assert_eq!(
        read_durations_page(r#"{"items":[{"id":"b","contentDetails":{"duration":"PT9999999999999999999H"}}]}"#, &mut vs, 0, 3),
        Err("duration overflow".to_string())
    );
    assert_eq!(vs[1].duration_seconds, None);
    assert_eq!(read_durations_page("x", &mut vs, 0, 3), Err("Failed to parse durations response".to_string()));
}

#[test]
fn add_to_playlist_request_and_reply() {
    assert_eq!(
        add_item_body("PL\"1", "v9"),
        r#"{"snippet":{"playlistId":"PL\"1","resourceId":{"kind":"youtube#video","videoId":"v9"}}}"#
    );
    assert_eq!(added_item_reply(r#"{"id":"item7"}"#), Ok("item7".to_string()));
    assert_eq!(added_item_reply(r#"{}"#), Err("No playlist item ID returned".to_string()));
    assert_eq!(
        added_item_reply(r#"{"error":{"code":403}}"#),
        Err("Failed to add to playlist: unknown".to_string())
    );
    assert_eq!(added_item_reply("<"), Err("Failed to read the playlist reply".to_string()));
}
