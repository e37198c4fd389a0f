use rustyengine::event::{Key, KeyCommand, Modifiers, MovementCounts, MovementEvent, MovementPlan};

#[test]
fn arrows_rotate_and_letters_move() {
    assert_eq!(MovementEvent::from_key(Key::Up, Modifiers::Plain), KeyCommand::Move(MovementEvent::RotateUp));
    assert_eq!(MovementEvent::from_key(Key::Down, Modifiers::Plain), KeyCommand::Move(MovementEvent::RotateDown));
    assert_eq!(MovementEvent::from_key(Key::Left, Modifiers::Plain), KeyCommand::Move(MovementEvent::RotateLeft));
    assert_eq!(MovementEvent::from_key(Key::Right, Modifiers::Plain), KeyCommand::Move(MovementEvent::RotateRight));
    assert_eq!(MovementEvent::from_key(Key::Char('w'), Modifiers::Plain), KeyCommand::Move(MovementEvent::MoveForward));
    assert_eq!(MovementEvent::from_key(Key::Char('s'), Modifiers::Plain), KeyCommand::Move(MovementEvent::MoveBack));
    assert_eq!(MovementEvent::from_key(Key::Char('a'), Modifiers::Plain), KeyCommand::Move(MovementEvent::MoveLeft));
    assert_eq!(MovementEvent::from_key(Key::Char('d'), Modifiers::Plain), KeyCommand::Move(MovementEvent::MoveRight));
}

#[test]
fn control_c_quits() {
    assert_eq!(MovementEvent::from_key(Key::Char('c'), Modifiers::Control), KeyCommand::Quit);
    assert_eq!(MovementEvent::from_key(Key::Char('c'), Modifiers::Plain), KeyCommand::Move(MovementEvent::Still));
}

#[test]
fn other_keys_move_nothing() {
    assert_eq!(MovementEvent::from_key(Key::Up, Modifiers::Control), KeyCommand::Move(MovementEvent::Still));
    assert_eq!(MovementEvent::from_key(Key::Char('w'), Modifiers::Other), KeyCommand::Move(MovementEvent::Still));
    assert_eq!(MovementEvent::from_key(Key::Other, Modifiers::Plain), KeyCommand::Move(MovementEvent::Still));
    assert_eq!(MovementEvent::from_key(Key::Char('q'), Modifiers::Plain), KeyCommand::Move(MovementEvent::Still));
}

#[test]
fn counts_settle_into_net_movements() {
    let mut counts = MovementCounts::new();
    for _ in 0..6 {
        counts.push(MovementEvent::RotateUp);
    }
    for _ in 0..2 {
        counts.push(MovementEvent::RotateDown);
    }
    for _ in 0..3 {
        counts.push(MovementEvent::RotateRight);
        counts.push(MovementEvent::MoveForward);
        counts.push(MovementEvent::MoveBack);
    }
    counts.push(MovementEvent::MoveLeft);
    counts.push(MovementEvent::Still);
    let plan = counts.settle();
    assert_eq!(
        plan,
        MovementPlan {
            rotate_up: 2,
            rotate_down: 0,
            rotate_left: 0,
            rotate_right: 1,
            forward: 1,
            back: 3,
            left: 1,
            right: 0,
        }
    );
    assert_eq!(counts, MovementCounts::new());
}

#[test]
fn counts_saturate() {
    let mut counts = MovementCounts::new();
    counts.move_back = usize::MAX;
    counts.push(MovementEvent::MoveBack);
    assert_eq!(counts.move_back, usize::MAX);
}
