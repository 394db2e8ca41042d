use midi_keymap::{BindingEngine, HostAction, Outcome, Phase, Role, NOTE_OFF, ROLE_COUNT};

const NOTE_ON: u8 = 144;

fn learned(codes: [u8; 5]) -> BindingEngine {
    let mut e = BindingEngine::new();
    for c in codes {
        e.handle(&[NOTE_ON, c, 100]);
    }
    e
}

const ROLES: [Role; 5] = [
    Role::Format,
    Role::Build,
    Role::JumpToDefinition,
    Role::ShowDefinition,
    Role::Enter,
];

#[test]
fn new_engine_learns_format_first() {
    let e = BindingEngine::new();
    assert_eq!(e.phase(), Phase::Learning(0));
    assert_eq!(e.expected_role(), Some(Role::Format));
    for r in ROLES {
        assert_eq!(e.learned_code(r), None);
    }
}

#[test]
fn five_note_ons_fill_roles_in_order() {
    let mut e = BindingEngine::new();
    let bytes = [7u8, 3, 99, 0, 127];
    for (i, b) in bytes.iter().enumerate() {
        assert_eq!(e.phase(), Phase::Learning(i));
        assert_eq!(e.expected_role(), Some(ROLES[i]));
        let r = e.handle(&[NOTE_ON, *b]);
        assert_eq!(r, Outcome::Learned { role: ROLES[i], code: *b });
    }
    assert_eq!(e.phase(), Phase::Dispatching);
    assert_eq!(e.expected_role(), None);
    for i in 0..ROLE_COUNT {
        assert_eq!(e.learned_code(ROLES[i]), Some(bytes[i]));
    }
}

#[test]
fn note_off_is_inert_in_every_phase() {
    let mut e = BindingEngine::new();
    for step in 0..=ROLE_COUNT {
        let before: Vec<Option<u8>> = ROLES.iter().map(|r| e.learned_code(*r)).collect();
        let phase = e.phase();
        assert_eq!(e.handle(&[NOTE_OFF, 42, 0]), Outcome::Ignored);
        assert_eq!(e.phase(), phase);
        let after: Vec<Option<u8>> = ROLES.iter().map(|r| e.learned_code(*r)).collect();
        assert_eq!(before, after);
        if step < ROLE_COUNT {
            e.handle(&[NOTE_ON, 42]);
        }
    }
    assert_eq!(e.phase(), Phase::Dispatching);
    assert_eq!(e.handle(&[NOTE_OFF, 42]), Outcome::Ignored);
}

#[test]
fn each_role_dispatches_its_own_action() {
    let mut e = learned([1, 2, 3, 4, 5]);
    let expected = [
        HostAction::ToggleFormat,
        HostAction::ToggleBuild,
        HostAction::Jump,
        HostAction::PeekDefinition,
        HostAction::Confirm,
    ];
    for i in 0..ROLE_COUNT {
        let r = e.handle(&[NOTE_ON, (i + 1) as u8]);
        assert_eq!(r, Outcome::Dispatched(expected[i]));
        assert_eq!(r, Outcome::Dispatched(ROLES[i].action()));
    }
    assert_eq!(e.phase(), Phase::Dispatching);
}

#[test]
fn unknown_code_dispatches_nothing() {
    let mut e = learned([1, 2, 3, 4, 5]);
    assert_eq!(e.handle(&[NOTE_ON, 6]), Outcome::Unmatched);
    assert_eq!(e.handle(&[NOTE_ON, 0]), Outcome::Unmatched);
    assert_eq!(e.learned_code(Role::Enter), Some(5));
}

#[test]
fn shared_code_fires_earlier_role_only() {
    let mut e = learned([9, 20, 9, 40, 50]);
    assert_eq!(e.learned_code(Role::JumpToDefinition), Some(9));
    let r = e.handle(&[NOTE_ON, 9]);
    assert_eq!(r, Outcome::Dispatched(HostAction::ToggleFormat));
    assert_ne!(r, Outcome::Dispatched(HostAction::Jump));
}

#[test]
fn all_roles_sharing_one_code_fire_format() {
    let mut e = learned([60, 60, 60, 60, 60]);
    assert_eq!(e.handle(&[NOTE_ON, 60]), Outcome::Dispatched(HostAction::ToggleFormat));
}

#[test]
fn short_messages_are_ignored_in_every_phase() {
    let mut e = BindingEngine::new();
    for step in 0..=ROLE_COUNT {
        let phase = e.phase();
        assert_eq!(e.handle(&[]), Outcome::Ignored);
        assert_eq!(e.handle(&[NOTE_ON]), Outcome::Ignored);
        assert_eq!(e.handle(&[NOTE_OFF]), Outcome::Ignored);
        assert_eq!(e.phase(), phase);
        if step < ROLE_COUNT {
            e.handle(&[NOTE_ON, step as u8]);
        }
    }
    assert_eq!(e.learned_code(Role::Format), Some(0));
    assert_eq!(e.learned_code(Role::Enter), Some(4));
}

#[test]
fn repeated_note_offs_never_advance_learning() {
    let mut e = BindingEngine::new();
    e.handle(&[NOTE_ON, 11]);
    for k in 0..1000u32 {
        assert_eq!(e.handle(&[NOTE_OFF, (k % 256) as u8, 64]), Outcome::Ignored);
    }
    assert_eq!(e.phase(), Phase::Learning(1));
    assert_eq!(e.learned_code(Role::Format), Some(11));
    assert_eq!(e.learned_code(Role::Build), None);
}

#[test]
fn learn_then_jump_end_to_end() {
    let mut e = BindingEngine::new();
    for c in [10u8, 20, 30, 40, 50] {
        e.handle(&[NOTE_ON, c, 127]);
    }
    assert_eq!(e.phase(), Phase::Dispatching);
    assert_eq!(e.learned_code(Role::Format), Some(10));
    assert_eq!(e.learned_code(Role::Build), Some(20));
    assert_eq!(e.learned_code(Role::JumpToDefinition), Some(30));
    assert_eq!(e.learned_code(Role::ShowDefinition), Some(40));
    assert_eq!(e.learned_code(Role::Enter), Some(50));
    assert_eq!(e.handle(&[NOTE_ON, 30, 127]), Outcome::Dispatched(HostAction::Jump));
}

#[test]
fn learning_ignores_status_other_than_note_off() {
    let mut e = BindingEngine::new();
    assert_eq!(
        e.handle(&[176, 7]),
        Outcome::Learned { role: Role::Format, code: 7 }
    );
    assert_eq!(e.phase(), Phase::Learning(1));
}

#[test]
fn role_index_and_names() {
    for (i, r) in ROLES.iter().enumerate() {
        assert_eq!(r.index(), i);
        assert_eq!(Role::from_index(i), *r);
    }
    assert_eq!(Role::Format.name(), "Format");
    assert_eq!(Role::Build.name(), "Build");
    assert_eq!(Role::JumpToDefinition.name(), "Opening Definition");
    assert_eq!(Role::ShowDefinition.name(), "Inline Def");
    assert_eq!(Role::Enter.name(), "Enter");
}
