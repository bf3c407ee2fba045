use synth_core::notes::NoteStack;

fn held(stack: &NoteStack) -> Vec<u8> {
    let mut out = Vec::new();
    let mut i = 0;
    while i < stack.count() {
        out.push(stack.note_at(i));
        i += 1;
    }
    out
}

#[test]
fn note_on_appends_in_press_order() {
    let mut s = NoteStack::new();
    s.note_on(60);
    s.note_on(64);
    s.note_on(67);
    assert_eq!(held(&s), vec![60, 64, 67]);
    assert!(s.any_held());
    assert_eq!(s.last_note(), 67);
}

#[test]
fn note_on_repress_moves_to_end_without_duplicate() {
    let mut s = NoteStack::new();
    s.note_on(60);
    s.note_on(64);
    s.note_on(60);
    assert_eq!(held(&s), vec![64, 60]);
    assert_eq!(s.last_note(), 60);
}

#[test]
fn note_off_removes_and_updates_last() {
    let mut s = NoteStack::new();
    s.note_on(60);
    s.note_on(64);
    s.note_on(67);
    s.note_off(67);
    assert_eq!(held(&s), vec![60, 64]);
    assert!(s.any_held());
    assert_eq!(s.last_note(), 64);
}

#[test]
fn note_off_absent_is_noop() {
    let mut s = NoteStack::new();
    s.note_on(60);
    s.note_off(72);
    assert_eq!(held(&s), vec![60]);
    assert!(s.any_held());
}

#[test]
fn any_held_false_iff_empty() {
    let mut s = NoteStack::new();
    assert!(!s.any_held());
    s.note_on(12);
    assert!(s.any_held());
    s.note_off(12);
    assert!(!s.any_held());
    assert_eq!(s.last_note(), 0);
}

#[test]
fn interleaving_never_duplicates() {
    let mut s = NoteStack::new();
    let ops: [(bool, u8); 12] = [
        (true, 60),
        (true, 62),
        (true, 60),
        (false, 62),
        (true, 64),
        (true, 64),
        (false, 60),
        (true, 62),
        (true, 60),
        (false, 99),
        (true, 62),
        (true, 67),
    ];
    for (on, n) in ops {
        if on {
            s.note_on(n);
        } else {
            s.note_off(n);
        }
        let keys = held(&s);
        for a in 0..keys.len() {
            for b in (a + 1)..keys.len() {
                assert_ne!(keys[a], keys[b]);
            }
        }
        assert_eq!(s.any_held(), !keys.is_empty());
    }
    assert_eq!(held(&s), vec![64, 60, 62, 67]);
}
