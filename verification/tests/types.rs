use yt2action::types::{ProcessState, SuggestedAction};

#[test]
fn marking_is_idempotent_and_keeps_earlier_ids() {
    let mut st = ProcessState::new();
    assert!(!st.is_processed("a"));
    st.mark_processed("a".to_string());
    st.mark_processed("b".to_string());
    st.mark_processed("a".to_string());
    assert!(st.is_processed("a"));
    assert!(st.is_processed("b"));
    assert!(!st.is_processed("c"));
    assert_eq!(st.processed_ids, vec!["a".to_string(), "b".to_string()]);
    let d = ProcessState::default();
    assert!(d.processed_ids.is_empty());
}

#[test]
fn action_labels() {
    assert_eq!(SuggestedAction::WatchFull.label(), "Ver completo");
    assert_eq!(SuggestedAction::ReadTranscript.label(), "Leer resumen");
    assert_eq!(SuggestedAction::SaveForLater.label(), "Guardar para después");
    assert_eq!(SuggestedAction::Archive.label(), "Archivar");
}

#[test]
fn a_sequence_of_marks_records_each_id_once() {
    let mut st = ProcessState::new();
    for id in ["a", "b", "a", "c", "b"] {
        st.mark_processed(id.to_string());
    }
    assert_eq!(st.processed_ids, vec!["a", "b", "c"]);
    for id in ["a", "b", "c"] {
        assert!(st.is_processed(id));
    }
    assert!(!st.is_processed("d"));
}
