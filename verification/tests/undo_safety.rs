use fm_application::operation_planner::{EntryKind, Location};
use fm_application::search::Timestamp;
use fm_application::undo::{
    UndoEvidence, move_undo_evidence,
};
use fm_application::undo::{
    EntryFacts, EntryFingerprint, Inspection, UndoAction, UndoRefusal, action_for_item,
    check_content_unchanged, check_original_absent, check_output_unchanged, fingerprint_matches,
    undo_plan_items,
};

fn location(uri: &str) -> Location {
    Location {
        provider_id: "file".to_owned(),
        uri: uri.to_owned(),
    }
}

fn fingerprint(uri: &str, hash: Option<&str>) -> EntryFingerprint {
    EntryFingerprint {
        entry_id: 1,
        location: location(uri),
        stable_id: false,
        kind: EntryKind::File,
        size: Some(10),
        modified_at: Some(Timestamp { seconds: 5, nanos: 0 }),
        content_hash: hash.map(str::to_owned),
    }
}

fn facts(size: Option<u64>) -> EntryFacts {
    EntryFacts {
        id: 99,
        kind: EntryKind::File,
        size,
        modified_at: Some(Timestamp { seconds: 5, nanos: 0 }),
    }
}

fn unsafe_text(result: Result<impl std::fmt::Debug, UndoRefusal>) -> String {
    match result {
        Err(UndoRefusal::Unsafe(text)) => text,
        other => panic!("expected an unsafe refusal, got {other:?}"),
    }
}

#[test]
fn undo_requires_the_output_as_it_was_left() {
    let expected = fingerprint("file:///a", Some("hash"));
    assert!(fingerprint_matches(&expected, &facts(Some(10))));
    assert_eq!(check_output_unchanged(&expected, Inspection::Found(facts(Some(10)))), Ok(true));
    assert_eq!(
        unsafe_text(check_output_unchanged(&expected, Inspection::Found(facts(Some(11))))),
        "The operation output changed after completion, so it cannot be undone safely."
    );
    assert_eq!(
        unsafe_text(check_output_unchanged(&expected, Inspection::NotFound)),
        "The operation output is missing, so it cannot be undone safely."
    );
    assert_eq!(
        check_output_unchanged(&expected, Inspection::Failed),
        Err(UndoRefusal::ProviderFailure)
    );
    let mut stable = fingerprint("file:///a", None);
    stable.stable_id = true;
    assert!(!fingerprint_matches(&stable, &facts(Some(10))));
    assert_eq!(check_content_unchanged("hash", Some("hash")), Ok(()));
    assert_eq!(
        unsafe_text(check_content_unchanged("hash", Some("other"))),
        "The operation output content changed after completion, so it cannot be undone safely."
    );
}

#[test]
fn undo_never_overwrites_a_later_change() {
    assert_eq!(check_original_absent(Inspection::NotFound), Ok(()));
    assert_eq!(
        unsafe_text(check_original_absent(Inspection::Found(facts(None)))),
        "The original path is occupied, so undo would overwrite a later change."
    );
}

#[test]
fn created_entries_are_removed_children_first() {
    let actions = vec![
        UndoAction::MoveBack {
            original: location("file:///orig"),
            original_fingerprint: fingerprint("file:///orig", None),
            current: fingerprint("file:///moved", None),
        },
        UndoAction::RemoveCreated {
            entries: vec![
                fingerprint("file:///dir", None),
                fingerprint("file:///dir/child", None),
            ],
        },
        UndoAction::RestoreTrash {
            original: location("file:///gone"),
            trashed: fingerprint("file:///trash/gone", None),
        },
    ];
    assert_eq!(
        undo_plan_items(&actions),
        vec![
            location("file:///moved"),
            location("file:///dir/child"),
            location("file:///dir"),
            location("file:///trash/gone"),
        ]
    );
    assert_eq!(action_for_item(&actions, &location("file:///dir")), Some(1));
    assert_eq!(action_for_item(&actions, &location("file:///trash/gone")), Some(2));
    assert_eq!(action_for_item(&actions, &location("file:///elsewhere")), None);
}

#[test]
fn move_undo_evidence_follows_how_the_move_went() {
    match move_undo_evidence(location("file:///a"), None, false, None, UndoEvidence::Unavailable("x".to_owned()), None, true) {
        Ok(UndoEvidence::Unavailable(text)) => {
            assert_eq!(text, "The move did not retain its original source fingerprint.")
        }
        other => panic!("unexpected evidence {other:?}"),
    }
    match move_undo_evidence(
        location("file:///a"),
        Some(fingerprint("file:///a", None)),
        false,
        Some(fingerprint("file:///b/a", None)),
        UndoEvidence::Unavailable("x".to_owned()),
        None,
        true,
    ) {
        Ok(UndoEvidence::Available(actions)) => {
            assert_eq!(actions.len(), 1);
            assert!(matches!(actions[0], UndoAction::MoveBack { .. }));
        }
        other => panic!("unexpected evidence {other:?}"),
    }
    let copy_plan = UndoEvidence::Available(vec![UndoAction::RemoveCreated {
        entries: vec![fingerprint("sftp://x/b/a", None), fingerprint("sftp://x/b/a/c", None)],
    }]);
    match move_undo_evidence(
        location("file:///a"),
        Some(fingerprint("file:///a", None)),
        true,
        None,
        copy_plan,
        Some(location("sftp://x/b/a")),
        true,
    ) {
        Ok(UndoEvidence::Available(actions)) => match &actions[0] {
            UndoAction::CrossProviderMoveBack { current_root, current_entries, .. } => {
                assert_eq!(current_root.location, location("sftp://x/b/a"));
                assert_eq!(current_entries.len(), 2);
            }
            other => panic!("unexpected action {other:?}"),
        },
        other => panic!("unexpected evidence {other:?}"),
    }
    let renamed = move_undo_evidence(
        location("file:///a"),
        Some(fingerprint("file:///a", None)),
        true,
        None,
        UndoEvidence::Available(Vec::new()),
        Some(location("sftp://x/b/a (copy 1)")),
        false,
    );
    assert!(matches!(renamed, Ok(UndoEvidence::Unavailable(_))));
    let missing = move_undo_evidence(
        location("file:///a"),
        Some(fingerprint("file:///a", None)),
        true,
        None,
        UndoEvidence::Available(Vec::new()),
        Some(location("sftp://x/b/a")),
        true,
    );
    assert!(matches!(missing, Err(text) if text == "move root fingerprint is missing"));
}
