use yt2action::processor::{ParsedOutput, Processor};
use yt2action::sp_api::{
    choose_token, first_token, health_reply_of, resolve_project, sp_task_for, token_from_env, token_paths, SpClient, SpProject,
};
use yt2action::types::ProcessedVideo;
use yt2action::youtube::video_from_item;

#[test]
fn token_paths_cover_flatpak_and_native() {
    let paths = token_paths("/home/x");
    assert_eq!(paths.len(), 2);
    assert!(paths[0].contains(".var/app/com.super_productivity"));
    assert!(paths[1].ends_with(".config/superProductivity/local-rest-api-token"));
    assert_eq!(
        paths[1],
        "/home/x/.config/superProductivity/local-rest-api-token"
    );
}

#[test]
fn first_token_skips_missing_and_blank() {
    assert_eq!(first_token(&vec![None]), None);
    assert_eq!(
        first_token(&vec![None, Some("  \n".to_string()), Some("  abc123\n".to_string())]),
        Some("abc123".to_string())
    );
    assert_eq!(first_token(&vec![]), None);
}

#[test]
fn env_token_wins_only_when_not_blank() {
    assert_eq!(token_from_env(Some("  t0k \n")), Some("t0k".to_string()));
    assert_eq!(token_from_env(Some("   ")), None);
    assert_eq!(token_from_env(None), None);
}

#[test]
fn env_token_comes_before_files() {
    let files = vec![None, Some(" file-tok ".to_string())];
    assert_eq!(choose_token(Some(" env-tok "), &files), Some("env-tok".to_string()));
    assert_eq!(choose_token(Some("  "), &files), Some("file-tok".to_string()));
    assert_eq!(choose_token(None, &files), Some("file-tok".to_string()));
    assert_eq!(choose_token(None, &vec![None]), None);
}

#[test]
fn sp_client_urls_and_hints() {
    let with = SpClient::new(true);
    assert_eq!(with.url("/tasks"), "http://127.0.0.1:3876/tasks");
    assert_eq!(
        with.auth_hint("/p/tok"),
        "el token no fue aceptado — si lo regeneraste en SP, se relee solo de /p/tok"
    );
    let without = SpClient::new(false);
    assert_eq!(
        without.auth_hint("/p/tok"),
        "no encontré el token de la API de SP (busqué en /p/tok y en SP_API_TOKEN). Habilitá la API en Settings → Misc y volvé a intentar"
    );
}

#[test]
fn task_reply_cases() {
    let c = SpClient::new(true);
    assert_eq!(c.task_reply(true, Some("t1".into()), None, None, "/p"), Ok("t1".to_string()));
    assert_eq!(c.task_reply(true, None, None, None, "/p"), Ok("unknown".to_string()));
    assert_eq!(
        c.task_reply(false, None, Some("boom".into()), None, "/p"),
        Err("SP API error: boom".to_string())
    );
    assert_eq!(
        c.task_reply(false, None, None, None, "/p"),
        Err("SP API error: unknown".to_string())
    );
    assert_eq!(
        c.task_reply(false, None, Some("x".into()), Some("UNAUTHORIZED".into()), "/p"),
        Err("SP API 401: el token no fue aceptado — si lo regeneraste en SP, se relee solo de /p".to_string())
    );
    assert_eq!(
        c.projects_error(Some("nope".into()), Some("OTHER".into()), "/p"),
        "SP API error listing projects: nope"
    );
    assert!(c
        .projects_error(None, Some("UNAUTHORIZED".into()), "/p")
        .starts_with("SP API 401 listando proyectos: "));
}

fn project(title: Option<&str>, id: Option<&str>) -> SpProject {
    SpProject { title: title.map(String::from), id: id.map(String::from) }
}

#[test]
fn resolve_project_by_title_then_id() {
    let ps = vec![
        project(Some("Inbox"), None),
        project(Some("Learning"), Some("p-learn")),
        project(Some("INBOX"), Some("p-inbox")),
        project(None, Some("RAW_ID")),
    ];
    assert_eq!(resolve_project(&ps, "inbox"), Some("p-inbox".to_string()));
    assert_eq!(resolve_project(&ps, "LEARNING"), Some("p-learn".to_string()));
    assert_eq!(resolve_project(&ps, "RAW_ID"), Some("RAW_ID".to_string()));
    assert_eq!(resolve_project(&ps, "missing"), None);
}

#[test]
fn sp_task_notes_list_key_points_and_link() {
    let proc = Processor::new("http://x", "m", "", vec!["Learn".to_string()], None);
    let parsed: ParsedOutput = proc.parse_response(
        r#"{"summary":"Resumen.","key_points":["uno","dos"],"tags":["Rust"]}"#,
    );
    let v = video_from_item(
        "vid1".into(),
        "it".into(),
        "Título".into(),
        "c".into(),
        "d".into(),
        "p".into(),
    )
    .unwrap();
    let p = ProcessedVideo::from_parsed(v, None, parsed);
    let task = sp_task_for(&p, "proj".to_string());
    assert_eq!(task.title, "[📺] Título");
    assert_eq!(
        task.notes,
        "Resumen.\n\n## Puntos clave\n- uno\n- dos\n\n🔗 https://youtube.com/watch?v=vid1"
    );
    assert_eq!(task.project_id, "proj");
    assert_eq!(task.tag_ids, vec!["rust".to_string()]);
}

#[test]
fn sp_replies_are_read() {
    let c = SpClient::new(true);
    assert_eq!(c.task_reply_of(r#"{"ok":true,"data":{"id":"t1"}}"#, "/p"), Ok("t1".to_string()));
    assert_eq!(c.task_reply_of(r#"{"ok":true}"#, "/p"), Ok("unknown".to_string()));
    assert_eq!(
        c.task_reply_of(r#"{"ok":false,"error":{"message":"bad","code":"X"}}"#, "/p"),
        Err("SP API error: bad".to_string())
    );
    assert!(c
        .task_reply_of(r#"{"error":{"code":"UNAUTHORIZED"}}"#, "/p")
        .unwrap_err()
        .starts_with("SP API 401: "));
    assert_eq!(c.task_reply_of("nope", "/p"), Err("Failed to parse SP response".to_string()));
    let ps = c
        .projects_reply_of(r#"{"ok":true,"data":[{"title":"Inbox","id":"p1"},{"id":7}]}"#, "/p")
        .ok()
        .unwrap();
    assert_eq!(ps.len(), 2);
    assert_eq!(ps[0].title.as_deref(), Some("Inbox"));
    assert_eq!(ps[0].id.as_deref(), Some("p1"));
    assert_eq!(ps[1].title, None);
    assert_eq!(ps[1].id, None);
    assert!(matches!(
        c.projects_reply_of(r#"{"ok":false,"error":{"message":"m"}}"#, "/p"),
        Err(e) if e == "SP API error listing projects: m"
    ));
    assert_eq!(health_reply_of(r#"{"ok":true}"#), Some(true));
    assert_eq!(health_reply_of(r#"{"ok":"yes"}"#), Some(false));
    assert_eq!(health_reply_of("x"), None);
}
