use yt2action::pipeline::{move_action, record_move, record_task, room_left, task_action, SideAction};
use yt2action::pipeline::{
    action_emoji, append_pattern_output, effective_project_id, elapsed_text, extract_video_id,
    failure_result, list_line, parse_position, patterns_to_run, playlist_index, read_video_metadata,
    records_in_state, report, select_for_processing, single_outcome, success_result, upload_date, valid_folders,
    youtube_link, MetadataError, HEAVY_RULE, LIGHT_RULE,
};
use yt2action::types::{
    Classification, ProcessState, ProcessedVideo, SuggestedAction, Video, VideoCategory,
};
use yt2action::youtube::video_from_item;

fn video(id: &str) -> Video {
    video_from_item(
        id.to_string(),
        String::new(),
        format!("T{id}"),
        "C".to_string(),
        String::new(),
        String::new(),
    )
    .unwrap()
}

#[test]
fn video_ids_from_urls() {
    assert_eq!(extract_video_id("https://www.youtube.com/watch?v=abc123&t=10s"), "abc123");
    assert_eq!(extract_video_id("  https://youtube.com/watch?v=xyz  "), "xyz");
    assert_eq!(extract_video_id("https://youtu.be/q1w2e3?si=share"), "q1w2e3");
    assert_eq!(extract_video_id("  dQw4w9WgXcQ "), "dQw4w9WgXcQ");
    assert_eq!(extract_video_id("3"), "3");
    assert_eq!(extract_video_id("https://youtube.com/watch?list=PL"), "https://youtube.com/watch?list=PL");
}

#[test]
fn positions_parse_like_usize() {
    assert_eq!(parse_position("3"), Some(3));
    assert_eq!(parse_position("+7"), Some(7));
    assert_eq!(parse_position("007"), Some(7));
    assert_eq!(parse_position(""), None);
    assert_eq!(parse_position("+"), None);
    assert_eq!(parse_position("-1"), None);
    assert_eq!(parse_position("12a"), None);
    assert_eq!(parse_position("99999999999999999999999"), None);
    assert_eq!(playlist_index(1, 3), Some(0));
    assert_eq!(playlist_index(3, 3), Some(2));
    assert_eq!(playlist_index(0, 3), None);
    assert_eq!(playlist_index(4, 3), None);
}

#[test]
fn upload_dates_are_dashed() {
    assert_eq!(upload_date("20240305"), Some("2024-03-05".to_string()));
    assert_eq!(upload_date("2024"), Some("2024".to_string()));
    assert_eq!(upload_date(""), Some(String::new()));
    // Eight bytes, but byte 4 falls inside "é".
    assert_eq!(upload_date("202é305"), None);
}

#[test]
fn metadata_from_yt_dlp() {
    let v = read_video_metadata(
        r#"{"id":"vid9","title":"Hola","uploader":"Up","description":"D","duration":125,
            "view_count":7,"like_count":2,"comment_count":1,"upload_date":"20230102"}"#,
        "asked",
    )
    .ok()
    .unwrap();
    assert_eq!(v.id, "vid9");
    assert_eq!(v.title, "Hola");
    assert_eq!(v.channel, "Up");
    assert_eq!(v.description, "D");
    assert_eq!(v.published_at, "2023-01-02");
    assert_eq!(v.duration_seconds, Some(125));
    assert_eq!(v.view_count, Some(7));
    assert_eq!(v.like_count, Some(2));
    assert_eq!(v.dislike_count, None);
    assert_eq!(v.comment_count, Some(1));
    assert_eq!(v.playlist_item_id, "");
    let w = read_video_metadata(r#"{"channel":"Ch","uploader":"Up"}"#, "asked").ok().unwrap();
    assert_eq!(w.id, "asked");
    assert_eq!(w.channel, "Ch");
    assert_eq!(w.published_at, "");
    assert_eq!(w.duration_seconds, None);
    assert!(matches!(read_video_metadata("not json", "a"), Err(MetadataError::NotJson)));
    assert!(matches!(
        read_video_metadata(r#"{"upload_date":"202é305"}"#, "a"),
        Err(MetadataError::SplitDate)
    ));
}

#[test]
fn folders_offered_to_the_model() {
    let extra = vec!["Knowledge/Tutorials".to_string(), "Learn".to_string(), "Knowledge/Tutorials".to_string()];
    assert_eq!(
        valid_folders(&extra),
        vec!["Learn", "Ideas", "Resources", "Health", "Things", "Resources/YouTube", "Knowledge/Tutorials"]
    );
}

#[test]
fn pattern_outputs_are_joined() {
    let first = append_pattern_output(None, "summarize", "A");
    assert_eq!(first, "A");
    let both = append_pattern_output(Some(first), "extract_wisdom", "B");
    assert_eq!(both, "A\n\n---\n\n# Patrón: extract_wisdom\n\nB");
    let cli = vec!["x".to_string()];
    let pl = vec!["y".to_string(), "z".to_string()];
    assert_eq!(patterns_to_run(&cli, &pl), cli);
    assert_eq!(patterns_to_run(&vec![], &pl), pl);
}

#[test]
fn project_and_links() {
    assert_eq!(effective_project_id(&Some("P".into()), &Some("G".into())), "P");
    assert_eq!(effective_project_id(&None, &Some("G".into())), "G");
    assert_eq!(effective_project_id(&None, &None), "INBOX_PROJECT");
    assert_eq!(youtube_link("id1"), "https://youtube.com/watch?v=id1");
    assert_eq!(list_line(2, "3m", "Title", "Chan"), "2. [3m] Title — Chan");
    assert!(records_in_state(&None, false));
    assert!(!records_in_state(&None, true));
    assert!(!records_in_state(&Some("PL".into()), false));
}

#[test]
fn selection_skips_processed_unless_forced() {
    let vs = vec![video("a"), video("b"), video("c"), video("d")];
    let mut st = ProcessState::new();
    st.mark_processed("b".to_string());
    assert_eq!(select_for_processing(&vs, &st, false, 2), vec![0, 2]);
    assert_eq!(select_for_processing(&vs, &st, false, 10), vec![0, 2, 3]);
    assert_eq!(select_for_processing(&vs, &st, true, 2), vec![0, 1]);
    assert_eq!(select_for_processing(&vs, &st, false, 0), Vec::<usize>::new());
}

fn processed(v: Video) -> ProcessedVideo {
    ProcessedVideo {
        video: v,
        transcript: None,
        summary: "S".to_string(),
        key_points: vec![],
        classification: Classification {
            category: VideoCategory::Tool,
            tags: vec!["rust".to_string(), "cli".to_string()],
            suggested_action: SuggestedAction::WatchFull,
        },
        target_folder: "Resources".to_string(),
        local_video_path: None,
        fabric_output: None,
    }
}

#[test]
fn results_and_report() {
    let v = video("a");
    let p = processed(video("a"));
    let mut ok = success_result(&v, &p, vec![("summarize".to_string(), "1.5s".to_string())]);
    assert_eq!(ok.video_url, "https://youtube.com/watch?v=a");
    assert_eq!(ok.target_folder, "Resources");
    assert_eq!(ok.suggested_action, SuggestedAction::WatchFull);
    ok.note_path = Some("/vault/Resources/ta.md".to_string());
    ok.moved_to_processed = true;
    let bad = failure_result(&video("b"), "boom".to_string());
    assert_eq!(bad.suggested_action, SuggestedAction::SaveForLater);
    assert!(bad.tags.is_empty());
    assert_eq!(bad.error, Some("boom".to_string()));
    let text = report(&vec![ok, bad], Some("/vault"), None, false, "2m 5s");
    let expected = format!(
        "\n{h}\n           📋 REPORTE DE PROCESAMIENTO\n{h}\n\n  ✅  1. Ta\n     🔗  https://youtube.com/watch?v=a\n     📝  /vault/Resources/ta.md\n     📁  Movido a playlist de procesados\n     👀  Sugerencia: Ver completo (vale la pena)\n     🏷️  rust, cli\n     🧠  Tiempos de patrones:\n         - summarize: 1.5s\n\n  ❌  2. Tb\n     🔗  https://youtube.com/watch?v=b\n     💾  Sugerencia: Guardar para después\n     ❌  Error: boom\n\n{l}\n  Total: 1 procesado | 1 error\n  📁  Vault: /vault\n  ⏱️   Tiempo total de ejecución: 2m 5s\n{h}\n\n",
        h = HEAVY_RULE,
        l = LIGHT_RULE
    );
    assert_eq!(text, expected);
    let empty = report(&vec![], None, Some("PLdone"), true, "0.3s");
    assert!(empty.contains("(MODO SIMULACIÓN)"));
    assert!(empty.contains("  Total: 0 procesados | 0 errores\n"));
    assert!(empty.contains("  📁  Playlist destino: PLdone\n"));
}

#[test]
fn elapsed_and_advice() {
    assert_eq!(elapsed_text(125, "125.0s"), "2m 5s");
    assert_eq!(elapsed_text(59, "59.4s"), "59.4s");
    assert_eq!(action_emoji(&SuggestedAction::Archive), Some("📦  Sugerencia: Archivar (referencia)"));
    assert_eq!(action_emoji(&SuggestedAction::ReadTranscript), Some("📖  Sugerencia: Solo leer resumen"));
}

#[test]
fn run_control_and_side_actions() {
    assert_eq!(room_left(5, 0), Some(5));
    assert_eq!(room_left(5, 3), Some(2));
    assert_eq!(room_left(5, 5), None);
    assert_eq!(room_left(0, 0), None);
    assert_eq!(task_action(None, false, false), SideAction::Skip);
    assert_eq!(task_action(Some(true), false, false), SideAction::Perform);
    assert_eq!(task_action(None, true, true), SideAction::Simulate);
    assert_eq!(task_action(Some(false), true, false), SideAction::Skip);
    assert_eq!(move_action(&None, false), SideAction::Skip);
    assert_eq!(move_action(&Some("PL".into()), true), SideAction::Simulate);
    assert_eq!(move_action(&Some("PL".into()), false), SideAction::Perform);
    let mut r = failure_result(&video("x"), "e".into());
    record_task(&mut r, SideAction::Simulate, None);
    assert_eq!(r.sp_task_id.as_deref(), Some("SIMULATED_TASK_ID"));
    let mut r = failure_result(&video("x"), "e".into());
    record_task(&mut r, SideAction::Perform, None);
    assert_eq!(r.sp_task_id, None);
    record_task(&mut r, SideAction::Perform, Some("t9".into()));
    assert_eq!(r.sp_task_id.as_deref(), Some("t9"));
    record_move(&mut r, SideAction::Perform, false);
    assert!(!r.moved_to_processed);
    record_move(&mut r, SideAction::Simulate, false);
    assert!(r.moved_to_processed);
    assert_eq!(r.error.as_deref(), Some("e"));
}

#[test]
fn single_video_outcome() {
    let p = processed(video("a"));
    let text = single_outcome(&p, &Some("/v/n.md".to_string()), false);
    let expected = format!(
        "{h}\n  ✅ PROCESAMIENTO EXITOSO\n{h}\n  📝  Nota: /v/n.md\n  🔗  https://youtube.com/watch?v=a\n  🏷️  rust, cli\n  💡  Ver completo\n\n  Resumen:\n    S\n\n{h}\n",
        h = HEAVY_RULE
    );
    assert_eq!(text, expected);
    let dry = single_outcome(&p, &None, true);
    assert!(dry.contains("(MODO SIMULACIÓN)"));
    assert!(dry.contains("  📝  Categoría: Resources\n"));
}
