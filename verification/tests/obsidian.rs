use yt2action::obsidian::{
    category_debug, fabric_section, key_points_list, local_link, note_content, note_file_name,
    note_folder, published_date, safe_folder, slugify, transcript_paragraph_of, yaml_tags,
};
use yt2action::types::{Classification, ProcessedVideo, SuggestedAction, Video, VideoCategory};

fn processed() -> ProcessedVideo {
    ProcessedVideo {
        video: Video {
            id: "abc123".to_string(),
            playlist_item_id: "it".to_string(),
            title: "Mi <b>Video</b> \"Top\"".to_string(),
            channel: "Canal".to_string(),
            description: "d".to_string(),
            published_at: "2024-03-05T10:00:00Z".to_string(),
            duration_seconds: Some(125),
            view_count: Some(10),
            like_count: None,
            dislike_count: None,
            comment_count: Some(2),
        },
        transcript: Some("  hola <i>mundo</i>  \n\n  adiós\r\n".to_string()),
        summary: "Ver [[nota]]".to_string(),
        key_points: vec!["uno".to_string(), "obsidian://x".to_string()],
        classification: Classification {
            category: VideoCategory::Other("misc".to_string()),
            tags: vec!["rust".to_string(), "a\"b".to_string()],
            suggested_action: SuggestedAction::Archive,
        },
        target_folder: "Learn".to_string(),
        local_video_path: Some("/v/abc123.mp4".to_string()),
        fabric_output: Some("INPUT:\nIdeas <% x %>".to_string()),
    }
}

#[test]
fn slugs_keep_letters_digits_and_spanish_accents() {
    assert_eq!(slugify("Mi Video Interesante!"), "mi-video-interesante");
    assert_eq!(slugify("  ¿Qué es Ñandú?  "), "qué-es-ñandú");
    assert_eq!(slugify("Rust 2024 -- Edition"), "rust-2024-edition");
    assert_eq!(slugify("!!!"), "");
    assert_eq!(note_file_name("Hello, World"), "hello-world.md");
}

#[test]
fn folders_cannot_leave_the_vault() {
    assert_eq!(safe_folder("Learn/Rust"), "Learn/Rust");
    assert_eq!(safe_folder("../etc"), "Resources/YouTube");
    assert_eq!(safe_folder("/abs"), "Resources/YouTube");
    let p = processed();
    assert_eq!(note_folder(&p, None), "Learn");
    assert_eq!(note_folder(&p, Some("Proyectos/Rust")), "Proyectos/Rust");
    assert_eq!(note_folder(&p, Some("a/../b")), "Resources/YouTube");
}

#[test]
fn published_date_takes_ten_bytes() {
    assert_eq!(published_date("2024-03-05T10:00:00Z"), Some("2024-03-05".to_string()));
    assert_eq!(published_date("2024"), Some("2024".to_string()));
    // The tenth byte falls inside "é": no date can be cut.
    assert_eq!(published_date("2024-03-0é"), None);
}

#[test]
fn note_pieces() {
    assert_eq!(category_debug(&VideoCategory::Tutorial), "Tutorial");
    assert_eq!(category_debug(&VideoCategory::Other("a \"b\"".to_string())), "Other(\"a \\\"b\\\"\")");
    assert_eq!(yaml_tags(&vec!["x".to_string(), "y\"z".to_string()]), "\"x\", \"y\\\"z\"");
    assert_eq!(local_link(&None), "");
    assert_eq!(local_link(&Some("/p".to_string())), "**Video local:** `/p`");
    assert_eq!(key_points_list(&vec!["a".to_string(), "[[b]]".to_string()]), "- a\n- \\[\\[b\\]\\]");
    assert_eq!(
        transcript_paragraph_of(&Some("  l1 \r\n\n <b>l2</b>\n".to_string())),
        "l1 l2"
    );
    assert_eq!(
        transcript_paragraph_of(&None),
        "No disponible — el video no tenía subtítulos."
    );
    assert_eq!(fabric_section(&None), "");
    assert_eq!(
        fabric_section(&Some("INPUT:\nfoo INPUT: ```dataview".to_string())),
        "\n## Análisis Profundo\n\nfoo  ` ` `dataview\n"
    );
}

#[test]
fn note_content_is_complete() {
    let p = processed();
    let note = note_content(&p, "2025-01-01", "2m", "2024-03-05");
    let expected = "---
title: \"Mi <b>Video</b> \\\"Top\\\"\"
url: https://youtube.com/watch?v=abc123
channel: \"Canal\"
duration: 2m
published: 2024-03-05
date_added: 2025-01-01
category: Other(\\\"misc\\\")
tags: [\"rust\", \"a\\\"b\"]
views: 10
likes: 0
dislikes: 0
comments: 2
---

# Mi Video \"Top\"

[![Poster](https://img.youtube.com/vi/abc123/maxresdefault.jpg)](https://youtube.com/watch?v=abc123)

**Canal:** Canal
**Duración:** 2m
**Publicado:** 2024-03-05
**Link:** https://youtube.com/watch?v=abc123
**Métricas:** 10 vistas | 0 likes | 2 comentarios
**Video local:** `/v/abc123.mp4`

## Resumen

Ver \\[\\[nota\\]\\]

## Puntos Clave

- uno
- obsidian[:]//x

## Análisis Profundo

Ideas \\<% x \\%>

## Transcripción

hola mundo adiós
";
    assert_eq!(note, expected);
}

#[test]
fn slugs_hold_only_slug_characters() {
    let s = slugify("¡Hola, Mundo! C++ & Rust — 2024 ÉXITO");
    assert!(s.chars().all(|c| matches!(c, 'a'..='z' | '0'..='9' | 'á' | 'é' | 'í' | 'ó' | 'ú' | 'ñ' | '-')));
    assert_eq!(s, "hola-mundo-c-rust-2024-éxito");
}

#[test]
fn lines_like_str_lines() {
    use_lines("a\nb\r\nc\n", &["a", "b", "c"]);
    use_lines("", &[]);
    use_lines("x\r", &["x\r"]);
    use_lines("\n\n", &["", ""]);
}

fn use_lines(t: &str, expected: &[&str]) {
    let got = yt2action::obsidian::text_lines(t);
    let want: Vec<String> = t.lines().map(|s| s.to_string()).collect();
    assert_eq!(got, want);
    assert_eq!(got, expected.iter().map(|s| s.to_string()).collect::<Vec<_>>());
}
