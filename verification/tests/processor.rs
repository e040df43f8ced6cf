use yt2action::processor::completion_reply;
use yt2action::processor::{
    action_from_text, category_from_text, classify_user_content, fallback_folder, folders_list,
    format_duration, pattern_user_content, retry_delay_secs, sanitize_tag, truncate_transcript,
    Processor, CLASSIFY_REMINDER, PATTERN_WARNING, SYSTEM_PROMPT_HEAD, SYSTEM_PROMPT_TAIL,
};
use yt2action::types::{SuggestedAction, VideoCategory};
use yt2action::youtube::video_from_item;

fn folders() -> Vec<String> {
    vec!["Learn".to_string(), "Ideas".to_string(), "Resources/YouTube".to_string()]
}

#[test]
fn sanitize_tag_examples() {
    assert_eq!(sanitize_tag("  Desarrollo Web  "), Some("desarrollo-web".to_string()));
    assert_eq!(sanitize_tag("2026"), Some("tag2026".to_string()));
    assert_eq!(sanitize_tag("rust/async"), Some("rust/async".to_string()));
    assert_eq!(sanitize_tag("a  --  b"), Some("a-b".to_string()));
    assert_eq!(sanitize_tag("!!!"), None);
    assert_eq!(sanitize_tag("   "), None);
    assert_eq!(sanitize_tag("/_x_/"), Some("x".to_string()));
    assert_eq!(sanitize_tag("Año 2026"), Some("año-2026".to_string()));
    assert_eq!(sanitize_tag("c++"), Some("c".to_string()));
}

#[test]
fn categories_actions_and_fallbacks() {
    assert!(matches!(category_from_text("tutorial"), VideoCategory::Tutorial));
    assert!(matches!(category_from_text("health"), VideoCategory::Health));
    match category_from_text("cooking") {
        VideoCategory::Other(s) => assert_eq!(s, "cooking"),
        _ => panic!("expected Other"),
    }
    assert_eq!(action_from_text("watch_full"), SuggestedAction::WatchFull);
    assert_eq!(action_from_text("archive"), SuggestedAction::Archive);
    assert_eq!(action_from_text("whatever"), SuggestedAction::SaveForLater);
    assert_eq!(fallback_folder(&VideoCategory::Tutorial), "Learn");
    assert_eq!(fallback_folder(&VideoCategory::Concept), "Ideas");
    assert_eq!(fallback_folder(&VideoCategory::News), "Resources");
    assert_eq!(fallback_folder(&VideoCategory::Entertainment), "Things");
    assert_eq!(fallback_folder(&VideoCategory::Other("x".into())), "Resources/YouTube");
}

#[test]
fn parse_response_reads_fields_and_matches_folder_without_case() {
    let p = Processor::new("http://x/", "m", "", folders(), None);
    let out = p.parse_response(
        r#"{"summary":"S","key_points":["a",3,"b"],"category":"concept","tags":["Big Data","2024"],
            "suggested_action":"read_transcript","target_folder":"  resources/youtube "}"#,
    );
    assert_eq!(out.summary, "S");
    assert_eq!(out.key_points, vec!["a".to_string(), String::new(), "b".to_string()]);
    assert!(matches!(out.classification.category, VideoCategory::Concept));
    assert_eq!(out.classification.tags, vec!["big-data".to_string(), "tag2024".to_string()]);
    assert_eq!(out.classification.suggested_action, SuggestedAction::ReadTranscript);
    assert_eq!(out.target_folder, "Resources/YouTube");
}

#[test]
fn parse_response_unknown_folder_falls_back_by_category() {
    let p = Processor::new("http://x", "m", "", folders(), None);
    let out = p.parse_response(r#"{"category":"tutorial","target_folder":"Nowhere"}"#);
    assert_eq!(out.target_folder, "Learn");
    assert_eq!(out.summary, "No summary generated.");
    assert!(out.key_points.is_empty());
    assert_eq!(out.classification.suggested_action, SuggestedAction::SaveForLater);
    let out = p.parse_response(r#"{}"#);
    assert_eq!(out.target_folder, "Resources/YouTube");
    match out.classification.category {
        VideoCategory::Other(s) => assert_eq!(s, "other"),
        _ => panic!("expected Other"),
    }
}

#[test]
fn parse_response_recovers_json_inside_text() {
    let p = Processor::new("http://x", "m", "", folders(), None);
    let out = p.parse_response("```json\n{\"summary\":\"Dentro\",\"target_folder\":\"ideas\"}\n```");
    assert_eq!(out.summary, "Dentro");
    assert_eq!(out.target_folder, "Ideas");
}

#[test]
fn parse_response_without_json_gives_defaults() {
    let p = Processor::new("http://x", "m", "", folders(), None);
    for raw in ["no json here", "} {", "{ not json }", "null"] {
        let out = p.parse_response(raw);
        assert_eq!(out.summary, "No se pudo generar resumen.");
        assert_eq!(out.target_folder, "Resources/YouTube");
        assert!(out.classification.tags.is_empty());
        match out.classification.category {
            VideoCategory::Other(s) => assert_eq!(s, "unknown"),
            _ => panic!("expected Other"),
        }
    }
}

#[test]
fn processor_settings() {
    let p = Processor::new("http://host:8080///", "llama", "sk-1", folders(), None);
    assert_eq!(p.base_url(), "http://host:8080");
    assert_eq!(p.completions_url(), "http://host:8080/v1/chat/completions");
    assert_eq!(p.model(), "llama");
    assert_eq!(p.api_key(), "sk-1");
    assert_eq!(p.max_transcript_chars(), 25000);
    let q = Processor::new("http://h", "m", "", vec![], Some(10));
    assert_eq!(q.max_transcript_chars(), 10);
}

#[test]
fn transcript_is_truncated_by_characters() {
    assert_eq!(truncate_transcript("ñandú", 3), "ñan\n...[TRUNCATED at 3 chars]");
    assert_eq!(truncate_transcript("abc", 3), "abc");
    assert_eq!(truncate_transcript("", 0), "");
}

#[test]
fn durations_as_shown() {
    assert_eq!(format_duration(None, "unknown", "1.0h"), "unknown");
    assert_eq!(format_duration(Some(59), "unknown", "x"), "59s");
    assert_eq!(format_duration(Some(60), "unknown", "x"), "60s");
    assert_eq!(format_duration(Some(61), "unknown", "x"), "1m");
    assert_eq!(format_duration(Some(3600), "unknown", "x"), "60m");
    assert_eq!(format_duration(Some(3601), "unknown", "1.0h"), "1.0h");
}

#[test]
fn retries_back_off_two_four_eight() {
    assert_eq!(retry_delay_secs(0), Some(2));
    assert_eq!(retry_delay_secs(1), Some(4));
    assert_eq!(retry_delay_secs(2), Some(8));
    assert_eq!(retry_delay_secs(3), None);
}

#[test]
fn prompts_wrap_untrusted_input() {
    assert_eq!(folders_list(&folders()), "  - \"Learn\"\n  - \"Ideas\"\n  - \"Resources/YouTube\"");
    let user = classify_user_content("T<1>", "C", "5m", "D&", Some("hello"), 3);
    assert_eq!(
        user,
        format!(
            "Analyze this YouTube video and return a JSON object.\n\n<video_title>T&lt;1&gt;</video_title>\n<video_channel>C</video_channel>\n<video_duration>5m</video_duration>\n<video_description>D&amp;</video_description>\n<video_transcript>hel\n...[TRUNCATED at 3 chars]</video_transcript>\n{}",
            CLASSIFY_REMINDER
        )
    );
    let pat = pattern_user_content("T", "C", "1s", "D", None, 10);
    assert!(pat.starts_with("Title: <video_title>T</video_title>\nChannel: <video_channel>C</video_channel>\nDuration: <video_duration>1s</video_duration>\n\nDescription:\n<video_description>D</video_description>\n"));
    assert!(!pat.contains("Transcript:"));
}

#[test]
fn messages_for_classification_and_patterns() {
    let p = Processor::new("http://x", "m", "", folders(), Some(100));
    let v = video_from_item("id".into(), "i".into(), "T".into(), "C".into(), "D".into(), "P".into()).unwrap();
    let msgs = p.build_messages(&v, "unknown", None);
    assert_eq!(msgs.len(), 2);
    assert_eq!(msgs[0].role, "system");
    assert_eq!(
        msgs[0].content,
        format!("{}{}{}", SYSTEM_PROMPT_HEAD, "  - \"Learn\"\n  - \"Ideas\"\n  - \"Resources/YouTube\"", SYSTEM_PROMPT_TAIL)
    );
    assert_eq!(msgs[1].role, "user");
    assert!(msgs[1].content.contains("<video_title>T</video_title>"));
    let pm = p.pattern_messages(&v, "unknown", Some("tr"), "Be brief.");
    assert_eq!(pm[0].content, format!("{}Be brief.", PATTERN_WARNING));
    assert!(pm[1].content.contains("\nTranscript:\n<video_transcript>tr</video_transcript>\n"));
}

#[test]
fn completion_replies() {
    let ok_body = r#"{"choices":[{"message":{"role":"assistant","content":"hola"}}]}"#;
    assert_eq!(completion_reply(true, "200 OK", ok_body), Ok("hola".to_string()));
    assert_eq!(
        completion_reply(false, "500 Internal Server Error", "boom"),
        Err("LLM API error (HTTP 500 Internal Server Error): boom".to_string())
    );
    assert_eq!(
        completion_reply(true, "200 OK", "<html>"),
        Err("Failed to parse LLM API response JSON".to_string())
    );
    assert_eq!(
        completion_reply(true, "200 OK", r#"{"choices":[]}"#),
        Err("No content in LLM response".to_string())
    );
    assert_eq!(
        completion_reply(true, "200 OK", r#"{"choices":[{"message":{"content":7}}]}"#),
        Err("No content in LLM response".to_string())
    );
}

#[test]
fn chat_request_body_is_the_json_request() {
    let p = Processor::new("http://x", "llama \"3\"", "", vec![], None);
    let v = video_from_item("id".into(), "i".into(), "T".into(), "C".into(), "D".into(), "P".into()).unwrap();
    let msgs = p.build_messages(&v, "1s", None);
    let body = p.chat_request_body(&msgs);
    let parsed: serde_json::Value = serde_json::from_str(&body).unwrap();
    assert_eq!(parsed["model"], "llama \"3\"");
    assert_eq!(parsed["stream"], false);
    assert_eq!(parsed["temperature"].as_f64(), Some(0.1));
    assert_eq!(parsed["messages"][0]["role"], "system");
    assert_eq!(parsed["messages"][1]["content"].as_str(), Some(msgs[1].content.as_str()));
    assert!(body.starts_with("{\"messages\":[{\"content\":"));
    assert!(body.ends_with(",\"model\":\"llama \\\"3\\\"\",\"stream\":false,\"temperature\":0.1}"));
}
