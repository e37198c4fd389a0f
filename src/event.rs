//! Movement events and the translation of key presses into them.
use vstd::prelude::*;

verus! {

/// A movement of the camera requested by the user.
#[derive(Clone, Copy, Debug, PartialEq, Eq, Structural)]
pub enum MovementEvent {
    RotateUp,
    RotateDown,
    RotateLeft,
    RotateRight,
    MoveForward,
    MoveBack,
    MoveLeft,
    MoveRight,
    /// A key that moves nothing.
    Still,
}

/// The key of a key press, as far as the translation reads it.
#[derive(Clone, Copy, Debug, PartialEq, Eq, Structural)]
pub enum Key {
    Up,
    Down,
    Left,
    Right,
    Char(char),
    /// Any other key.
    Other,
}

/// The modifier keys held during a key press.
#[derive(Clone, Copy, Debug, PartialEq, Eq, Structural)]
pub enum Modifiers {
    /// No modifier.
    Plain,
    /// Control alone.
    Control,
    /// Any other combination.
    Other,
}

/// What a key press asks for: a movement event, or to quit.
#[derive(Clone, Copy, Debug, PartialEq, Eq, Structural)]
pub enum KeyCommand {
    Move(MovementEvent),
    Quit,
}

/// Arrow keys rotate, `w`/`s`/`a`/`d` move, Ctrl-C quits; with any other
/// key or modifier nothing moves.
pub open spec fn command_of(key: Key, modifiers: Modifiers) -> KeyCommand {
    match (key, modifiers) {
        (Key::Up, Modifiers::Plain) => KeyCommand::Move(MovementEvent::RotateUp),
        (Key::Down, Modifiers::Plain) => KeyCommand::Move(MovementEvent::RotateDown),
        (Key::Left, Modifiers::Plain) => KeyCommand::Move(MovementEvent::RotateLeft),
        (Key::Right, Modifiers::Plain) => KeyCommand::Move(MovementEvent::RotateRight),
        (Key::Char('w'), Modifiers::Plain) => KeyCommand::Move(MovementEvent::MoveForward),
        (Key::Char('s'), Modifiers::Plain) => KeyCommand::Move(MovementEvent::MoveBack),
        (Key::Char('a'), Modifiers::Plain) => KeyCommand::Move(MovementEvent::MoveLeft),
        (Key::Char('d'), Modifiers::Plain) => KeyCommand::Move(MovementEvent::MoveRight),
        (Key::Char('c'), Modifiers::Control) => KeyCommand::Quit,
        _ => KeyCommand::Move(MovementEvent::Still),
    }
}

impl MovementEvent {
    /// Translates a key press.
    pub fn from_key(key: Key, modifiers: Modifiers) -> (r: KeyCommand)
        ensures
            r == command_of(key, modifiers),
    {
        match modifiers {
            Modifiers::Plain => match key {
                Key::Up => KeyCommand::Move(MovementEvent::RotateUp),
                Key::Down => KeyCommand::Move(MovementEvent::RotateDown),
                Key::Left => KeyCommand::Move(MovementEvent::RotateLeft),
                Key::Right => KeyCommand::Move(MovementEvent::RotateRight),
                Key::Char(c) => {
                    if c == 'w' {
                        KeyCommand::Move(MovementEvent::MoveForward)
                    } else if c == 's' {
                        KeyCommand::Move(MovementEvent::MoveBack)
                    } else if c == 'a' {
                        KeyCommand::Move(MovementEvent::MoveLeft)
                    } else if c == 'd' {
                        KeyCommand::Move(MovementEvent::MoveRight)
                    } else {
                        KeyCommand::Move(MovementEvent::Still)
                    }
                },
                Key::Other => KeyCommand::Move(MovementEvent::Still),
            },
            Modifiers::Control => {
                if key == Key::Char('c') {
                    KeyCommand::Quit
                } else {
                    KeyCommand::Move(MovementEvent::Still)
                }
            },
            Modifiers::Other => KeyCommand::Move(MovementEvent::Still),
        }
    }
}


/// Movement events counted since the last settling.
#[derive(Clone, Copy, Debug, PartialEq, Eq, Structural)]
pub struct MovementCounts {
    pub rotate_up: usize,
    pub rotate_down: usize,
    pub rotate_left: usize,
    pub rotate_right: usize,
    pub move_forward: usize,
    pub move_back: usize,
    pub move_left: usize,
    pub move_right: usize,
}

/// What a batch of counted events amounts to: net rotations (at most one of
/// each opposite pair is non-zero) and the counts behind the two steps.
#[derive(Clone, Copy, Debug, PartialEq, Eq, Structural)]
pub struct MovementPlan {
    pub rotate_up: usize,
    pub rotate_down: usize,
    pub rotate_left: usize,
    pub rotate_right: usize,
    pub forward: usize,
    pub back: usize,
    pub left: usize,
    pub right: usize,
}

/// `a + 1`, held at `usize::MAX`.
pub open spec fn bump(a: usize) -> usize {
    if a == usize::MAX {
        a
    } else {
        (a + 1) as usize
    }
}

/// The counts after one more `event`.
pub open spec fn pushed(c: MovementCounts, event: MovementEvent) -> MovementCounts {
    match event {
        MovementEvent::RotateUp => MovementCounts { rotate_up: bump(c.rotate_up), ..c },
        MovementEvent::RotateDown => MovementCounts { rotate_down: bump(c.rotate_down), ..c },
        MovementEvent::RotateLeft => MovementCounts { rotate_left: bump(c.rotate_left), ..c },
        MovementEvent::RotateRight => MovementCounts { rotate_right: bump(c.rotate_right), ..c },
        MovementEvent::MoveForward => MovementCounts { move_forward: bump(c.move_forward), ..c },
        MovementEvent::MoveBack => MovementCounts { move_back: bump(c.move_back), ..c },
        MovementEvent::MoveLeft => MovementCounts { move_left: bump(c.move_left), ..c },
        MovementEvent::MoveRight => MovementCounts { move_right: bump(c.move_right), ..c },
        MovementEvent::Still => c,
    }
}

/// Halves the four rotation counts and the forward count, then cancels
/// opposite rotations against each other.
pub open spec fn plan_of(c: MovementCounts) -> MovementPlan {
    let up = c.rotate_up / 2;
    let down = c.rotate_down / 2;
    let left = c.rotate_left / 2;
    let right = c.rotate_right / 2;
    MovementPlan {
        rotate_up: if up > down { (up - down) as usize } else { 0 },
        rotate_down: if down > up { (down - up) as usize } else { 0 },
        rotate_left: if left > right { (left - right) as usize } else { 0 },
        rotate_right: if right > left { (right - left) as usize } else { 0 },
        forward: c.move_forward / 2,
        back: c.move_back,
        left: c.move_left,
        right: c.move_right,
    }
}

impl MovementCounts {
    pub open spec fn is_empty(&self) -> bool {
        *self == MovementCounts {
            rotate_up: 0,
            rotate_down: 0,
            rotate_left: 0,
            rotate_right: 0,
            move_forward: 0,
            move_back: 0,
            move_left: 0,
            move_right: 0,
        }
    }

    /// No event counted yet.
    pub fn new() -> (r: Self)
        ensures
            r.is_empty(),
    {
        MovementCounts {
            rotate_up: 0,
            rotate_down: 0,
            rotate_left: 0,
            rotate_right: 0,
            move_forward: 0,
            move_back: 0,
            move_left: 0,
            move_right: 0,
        }
    }

    /// Counts one more event.
    pub fn push(&mut self, event: MovementEvent)
        ensures
            *final(self) == pushed(*old(self), event),
    {
        match event {
            MovementEvent::RotateUp => self.rotate_up = self.rotate_up.saturating_add(1),
            MovementEvent::RotateDown => self.rotate_down = self.rotate_down.saturating_add(1),
            MovementEvent::RotateLeft => self.rotate_left = self.rotate_left.saturating_add(1),
            MovementEvent::RotateRight => self.rotate_right = self.rotate_right.saturating_add(1),
            MovementEvent::MoveForward => self.move_forward = self.move_forward.saturating_add(1),
            MovementEvent::MoveBack => self.move_back = self.move_back.saturating_add(1),
            MovementEvent::MoveLeft => self.move_left = self.move_left.saturating_add(1),
            MovementEvent::MoveRight => self.move_right = self.move_right.saturating_add(1),
            MovementEvent::Still => {},
        }
    }

    /// What the counted events amount to; the counts start over.
    pub fn settle(&mut self) -> (r: MovementPlan)
        ensures
            r == plan_of(*old(self)),
            final(self).is_empty(),
    {
        let up = self.rotate_up / 2;
        let down = self.rotate_down / 2;
        let left = self.rotate_left / 2;
        let right = self.rotate_right / 2;
        let plan = MovementPlan {
            rotate_up: if up > down { up - down } else { 0 },
            rotate_down: if down > up { down - up } else { 0 },
            rotate_left: if left > right { left - right } else { 0 },
            rotate_right: if right > left { right - left } else { 0 },
            forward: self.move_forward / 2,
            back: self.move_back,
            left: self.move_left,
            right: self.move_right,
        };
        *self = MovementCounts::new();
        plan
    }
}

} // verus!
