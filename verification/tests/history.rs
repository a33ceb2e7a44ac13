use maolan_editor::document::DocumentSnapshot;
use maolan_editor::edits::AudioEdits;
use maolan_editor::history::EditHistory;

fn snapshot(sample: f32) -> DocumentSnapshot<f32, f32> {
    DocumentSnapshot {
        samples: vec![sample],
        edits: AudioEdits::default(),
        edit_actions: Vec::new(),
        markers: Vec::new(),
    }
}

#[test]
fn history_tracks_dirty_state_against_save_point() {
    let mut history = EditHistory::new(snapshot(1.0));
    assert!(!history.is_dirty());
    history.record(snapshot(1.0), snapshot(2.0));
    assert!(history.is_dirty());
    history.mark_saved();
    assert!(!history.is_dirty());
}

#[test]
fn history_undo_redo_restores_states() {
    let mut history = EditHistory::new(snapshot(1.0));
    history.record(snapshot(1.0), snapshot(2.0));
    history.record(snapshot(2.0), snapshot(3.0));

    let undone = history.undo().expect("can undo");
    assert_eq!(undone.samples, vec![2.0f32]);

    let undone_again = history.undo().expect("can undo again");
    assert_eq!(undone_again.samples, vec![1.0f32]);
    assert!(history.undo().is_none());

    let redone = history.redo().expect("can redo");
    assert_eq!(redone.samples, vec![2.0f32]);
}

#[test]
fn history_record_clears_redo_stack() {
    let mut history = EditHistory::new(snapshot(1.0));
    history.record(snapshot(1.0), snapshot(2.0));
    history.undo();
    history.record(snapshot(1.0), snapshot(3.0));
    assert!(history.redo().is_none());
}

#[test]
fn history_undo_back_to_save_point_is_clean() {
    let mut history = EditHistory::new(snapshot(1.0));
    history.record(snapshot(1.0), snapshot(2.0));
    assert!(history.is_dirty());
    history.undo();
    assert!(!history.is_dirty());
    history.redo();
    assert!(history.is_dirty());
}

#[test]
fn history_keeps_at_most_a_thousand_steps() {
    let mut history = EditHistory::new(snapshot(0.0));
    for i in 0..1001 {
        history.record(snapshot(i as f32), snapshot(i as f32 + 1.0));
    }
    let mut steps = 0;
    let mut oldest = None;
    while let Some(s) = history.undo() {
        steps += 1;
        oldest = Some(s.samples[0]);
    }
    assert_eq!(steps, 1000);
    assert_eq!(oldest, Some(1.0));
}

#[test]
fn default_history_has_nothing_to_undo() {
    let mut history: EditHistory<DocumentSnapshot<f32, f32>> = EditHistory::default();
    assert!(!history.is_dirty());
    assert!(history.undo().is_none());
    assert!(history.redo().is_none());
}
