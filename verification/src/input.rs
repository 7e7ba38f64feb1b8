//! Input capture state and raw-to-logical event translation.
//!
//! A background worker (owned by the host) blocks on the terminal event
//! source and feeds this state: key events queue up in arrival order,
//! while only the most recent unconsumed resize is kept. Once per tick the
//! consumer drains everything at once; each raw key press becomes a
//! synthetic pressed/released pair, since the underlying source reports no
//! independent releases.

use vstd::prelude::*;

verus! {

/// A new terminal size, in cells.
#[derive(Clone, Copy, PartialEq, Eq, Structural, Debug, Default)]
pub struct TerminalResize {
    pub width: u16,
    pub height: u16,
}

/// A raw key symbol as the terminal event source reports it.
#[derive(Clone, Copy, PartialEq, Eq, Structural, Debug)]
pub enum TermKeyCode {
    Backspace,
    Enter,
    Left,
    Right,
    Up,
    Down,
    Home,
    End,
    PageUp,
    PageDown,
    Tab,
    BackTab,
    Delete,
    Insert,
    F(u8),
    Char(char),
    Null,
    Esc,
    CapsLock,
    ScrollLock,
    NumLock,
    PrintScreen,
    Pause,
    Menu,
    KeypadBegin,
    Media,
    Modifier,
}

/// A logical key of the application.
#[derive(Clone, Copy, PartialEq, Eq, Structural, Debug)]
pub enum KeyCode {
    Back,
    Return,
    Left,
    Right,
    Up,
    Down,
    Home,
    End,
    PageUp,
    PageDown,
    Tab,
    Delete,
    Insert,
    Escape,
    Numlock,
    Pause,
    Key1,
    Key2,
    Key3,
    Key4,
    Key5,
    Key6,
    Key7,
    Key8,
    Key9,
    Key0,
    A,
    B,
    C,
    D,
    E,
    F,
    G,
    H,
    I,
    J,
    K,
    L,
    M,
    N,
    O,
    P,
    Q,
    R,
    S,
    T,
    U,
    V,
    W,
    X,
    Y,
    Z,
}

/// Whether a key event is the press or the synthetic release.
#[derive(Clone, Copy, PartialEq, Eq, Structural, Debug)]
pub enum ButtonState {
    Pressed,
    Released,
}

/// One logical keyboard event.
#[derive(Clone, Copy, PartialEq, Eq, Structural, Debug)]
pub struct KeyboardInput {
    /// Hardware scan code; the terminal source does not provide one.
    pub scan_code: u32,
    pub key_code: Option<KeyCode>,
    pub state: ButtonState,
}

/// The characters the key table maps: ASCII digits and letters.
pub open spec fn char_supported(c: char) -> bool {
    ||| '0' <= c <= '9'
    ||| 'a' <= c <= 'z'
    ||| 'A' <= c <= 'Z'
}

/// The raw keys the translation table maps.
pub open spec fn key_supported(k: TermKeyCode) -> bool {
    match k {
        TermKeyCode::Backspace => true,
        TermKeyCode::Enter => true,
        TermKeyCode::Left => true,
        TermKeyCode::Right => true,
        TermKeyCode::Up => true,
        TermKeyCode::Down => true,
        TermKeyCode::Home => true,
        TermKeyCode::End => true,
        TermKeyCode::PageUp => true,
        TermKeyCode::PageDown => true,
        TermKeyCode::Tab => true,
        TermKeyCode::Delete => true,
        TermKeyCode::Insert => true,
        TermKeyCode::Char(c) => char_supported(c),
        TermKeyCode::Esc => true,
        TermKeyCode::NumLock => true,
        TermKeyCode::Pause => true,
        _ => false,
    }
}

/// The digit-and-letter lookup table, as a function.
pub open spec fn char_key(c: char) -> KeyCode {
    if c == '1' { KeyCode::Key1 }
    else if c == '2' { KeyCode::Key2 }
    else if c == '3' { KeyCode::Key3 }
    else if c == '4' { KeyCode::Key4 }
    else if c == '5' { KeyCode::Key5 }
    else if c == '6' { KeyCode::Key6 }
    else if c == '7' { KeyCode::Key7 }
    else if c == '8' { KeyCode::Key8 }
    else if c == '9' { KeyCode::Key9 }
    else if c == '0' { KeyCode::Key0 }
    else if c == 'a' || c == 'A' { KeyCode::A }
    else if c == 'b' || c == 'B' { KeyCode::B }
    else if c == 'c' || c == 'C' { KeyCode::C }
    else if c == 'd' || c == 'D' { KeyCode::D }
    else if c == 'e' || c == 'E' { KeyCode::E }
    else if c == 'f' || c == 'F' { KeyCode::F }
    else if c == 'g' || c == 'G' { KeyCode::G }
    else if c == 'h' || c == 'H' { KeyCode::H }
    else if c == 'i' || c == 'I' { KeyCode::I }
    else if c == 'j' || c == 'J' { KeyCode::J }
    else if c == 'k' || c == 'K' { KeyCode::K }
    else if c == 'l' || c == 'L' { KeyCode::L }
    else if c == 'm' || c == 'M' { KeyCode::M }
    else if c == 'n' || c == 'N' { KeyCode::N }
    else if c == 'o' || c == 'O' { KeyCode::O }
    else if c == 'p' || c == 'P' { KeyCode::P }
    else if c == 'q' || c == 'Q' { KeyCode::Q }
    else if c == 'r' || c == 'R' { KeyCode::R }
    else if c == 's' || c == 'S' { KeyCode::S }
    else if c == 't' || c == 'T' { KeyCode::T }
    else if c == 'u' || c == 'U' { KeyCode::U }
    else if c == 'v' || c == 'V' { KeyCode::V }
    else if c == 'w' || c == 'W' { KeyCode::W }
    else if c == 'x' || c == 'X' { KeyCode::X }
    else if c == 'y' || c == 'Y' { KeyCode::Y }
    else { KeyCode::Z }
}

/// The raw-to-logical key table, as a function.
pub open spec fn logical_key(k: TermKeyCode) -> KeyCode {
    match k {
        TermKeyCode::Backspace => KeyCode::Back,
        TermKeyCode::Enter => KeyCode::Return,
        TermKeyCode::Left => KeyCode::Left,
        TermKeyCode::Right => KeyCode::Right,
        TermKeyCode::Up => KeyCode::Up,
        TermKeyCode::Down => KeyCode::Down,
        TermKeyCode::Home => KeyCode::Home,
        TermKeyCode::End => KeyCode::End,
        TermKeyCode::PageUp => KeyCode::PageUp,
        TermKeyCode::PageDown => KeyCode::PageDown,
        TermKeyCode::Tab => KeyCode::Tab,
        TermKeyCode::Delete => KeyCode::Delete,
        TermKeyCode::Insert => KeyCode::Insert,
        TermKeyCode::Char(c) => char_key(c),
        TermKeyCode::Esc => KeyCode::Escape,
        TermKeyCode::NumLock => KeyCode::Numlock,
        TermKeyCode::Pause => KeyCode::Pause,
        _ => KeyCode::Escape,
    }
}

/// Map a digit or letter to its logical key; letters fold case.
pub fn charcode_to_key_code(c: char) -> (r: KeyCode)
    requires
        char_supported(c),
    ensures
        r == char_key(c),
{
    match c {
        '1' => KeyCode::Key1,
        '2' => KeyCode::Key2,
        '3' => KeyCode::Key3,
        '4' => KeyCode::Key4,
        '5' => KeyCode::Key5,
        '6' => KeyCode::Key6,
        '7' => KeyCode::Key7,
        '8' => KeyCode::Key8,
        '9' => KeyCode::Key9,
        '0' => KeyCode::Key0,
        'a' | 'A' => KeyCode::A,
        'b' | 'B' => KeyCode::B,
        'c' | 'C' => KeyCode::C,
        'd' | 'D' => KeyCode::D,
        'e' | 'E' => KeyCode::E,
        'f' | 'F' => KeyCode::F,
        'g' | 'G' => KeyCode::G,
        'h' | 'H' => KeyCode::H,
        'i' | 'I' => KeyCode::I,
        'j' | 'J' => KeyCode::J,
        'k' | 'K' => KeyCode::K,
        'l' | 'L' => KeyCode::L,
        'm' | 'M' => KeyCode::M,
        'n' | 'N' => KeyCode::N,
        'o' | 'O' => KeyCode::O,
        'p' | 'P' => KeyCode::P,
        'q' | 'Q' => KeyCode::Q,
        'r' | 'R' => KeyCode::R,
        's' | 'S' => KeyCode::S,
        't' | 'T' => KeyCode::T,
        'u' | 'U' => KeyCode::U,
        'v' | 'V' => KeyCode::V,
        'w' | 'W' => KeyCode::W,
        'x' | 'X' => KeyCode::X,
        'y' | 'Y' => KeyCode::Y,
        _ => KeyCode::Z,
    }
}

/// Translate one raw key to its logical key. Keys outside the table are
/// left out by precondition: the table has no entry for them, so nothing
/// is owed of them.
pub fn terminal_keycode_to_logical(in_code: &TermKeyCode) -> (r: Option<KeyCode>)
    requires
        key_supported(*in_code),
    ensures
        r == Some(logical_key(*in_code)),
{
    Some(
        match in_code {
            TermKeyCode::Backspace => KeyCode::Back,
            TermKeyCode::Enter => KeyCode::Return,
            TermKeyCode::Left => KeyCode::Left,
            TermKeyCode::Right => KeyCode::Right,
            TermKeyCode::Up => KeyCode::Up,
            TermKeyCode::Down => KeyCode::Down,
            TermKeyCode::Home => KeyCode::Home,
            TermKeyCode::End => KeyCode::End,
            TermKeyCode::PageUp => KeyCode::PageUp,
            TermKeyCode::PageDown => KeyCode::PageDown,
            TermKeyCode::Tab => KeyCode::Tab,
            TermKeyCode::Delete => KeyCode::Delete,
            TermKeyCode::Insert => KeyCode::Insert,
            TermKeyCode::Char(c) => charcode_to_key_code(*c),
            TermKeyCode::Esc => KeyCode::Escape,
            TermKeyCode::NumLock => KeyCode::Numlock,
            TermKeyCode::Pause => KeyCode::Pause,
            _ => KeyCode::Escape,
        },
    )
}

/// The logical pressed event a raw key turns into.
pub open spec fn pressed_event(k: TermKeyCode) -> KeyboardInput {
    KeyboardInput { scan_code: 0, key_code: Some(logical_key(k)), state: ButtonState::Pressed }
}

/// The logical released event a raw key turns into.
pub open spec fn released_event(k: TermKeyCode) -> KeyboardInput {
    KeyboardInput { scan_code: 0, key_code: Some(logical_key(k)), state: ButtonState::Released }
}

/// The shared input-capture state: buffered raw key events in arrival
/// order, plus at most one pending resize (the latest overwrites earlier
/// unconsumed ones).
pub struct TerminalState {
    pub key_buffer: Vec<TermKeyCode>,
    pub resize: Option<TerminalResize>,
}

impl TerminalState {
    /// An empty queue with no pending resize.
    pub fn new() -> (r: Self)
        ensures
            r.key_buffer@ == Seq::<TermKeyCode>::empty(),
            r.resize is None,
    {
        TerminalState { key_buffer: Vec::new(), resize: None }
    }

    /// A key event arrives: append it, keeping arrival order.
    pub fn push_key(&mut self, k: TermKeyCode)
        ensures
            final(self).key_buffer@ == old(self).key_buffer@.push(k),
            final(self).resize == old(self).resize,
    {
        self.key_buffer.push(k);
    }

    /// A resize arrives: only the most recent one matters.
    pub fn set_resize(&mut self, r: TerminalResize)
        ensures
            final(self).resize == Some(r),
            final(self).key_buffer@ == old(self).key_buffer@,
    {
        self.resize = Some(r);
    }

    /// Take everything buffered, leaving the state empty. Every raw key
    /// yields exactly two logical events — pressed, then released, with
    /// the same key — in arrival order; the pending resize, if any, is
    /// handed out once.
    pub fn drain(&mut self) -> (r: (Vec<KeyboardInput>, Option<TerminalResize>))
        requires
            forall|i: int|
                0 <= i < old(self).key_buffer@.len() ==> key_supported(
                    #[trigger] old(self).key_buffer@[i],
                ),
        ensures
            final(self).key_buffer@ == Seq::<TermKeyCode>::empty(),
            final(self).resize is None,
            r.1 == old(self).resize,
            r.0@.len() == 2 * old(self).key_buffer@.len(),
            forall|i: int|
                0 <= i < old(self).key_buffer@.len() ==> r.0@[2 * i] == pressed_event(
                    #[trigger] old(self).key_buffer@[i],
                ) && r.0@[2 * i + 1] == released_event(old(self).key_buffer@[i]),
    {
        let mut events: Vec<KeyboardInput> = Vec::new();
        let n = self.key_buffer.len();
        let mut i: usize = 0;
        while i < n
            invariant
                i <= n,
                n == self.key_buffer@.len(),
                self == old(self),
                forall|j: int|
                    0 <= j < n ==> key_supported(#[trigger] self.key_buffer@[j]),
                events@.len() == 2 * i,
                forall|j: int|
                    0 <= j < i ==> events@[2 * j] == pressed_event(
                        #[trigger] self.key_buffer@[j],
                    ) && events@[2 * j + 1] == released_event(self.key_buffer@[j]),
            decreases n - i,
        {
            let k = self.key_buffer[i];
            let code = terminal_keycode_to_logical(&k);
            events.push(KeyboardInput { scan_code: 0, key_code: code, state: ButtonState::Pressed });
            events.push(
                KeyboardInput { scan_code: 0, key_code: code, state: ButtonState::Released },
            );
            i = i + 1;
        }
        let resize = self.resize.take();
        self.key_buffer.clear();
        (events, resize)
    }
}

/// Whether a batch of logical events asks the application to exit: any
/// escape or `q` key event does, whatever its press state.
pub fn should_exit(events: &Vec<KeyboardInput>) -> (r: bool)
    ensures
        r == exists|i: int|
            0 <= i < events@.len() && (#[trigger] events@[i].key_code == Some(KeyCode::Escape)
                || events@[i].key_code == Some(KeyCode::Q)),
{
    let mut i: usize = 0;
    while i < events.len()
        invariant
            i <= events@.len(),
            forall|j: int|
                0 <= j < i ==> !(#[trigger] events@[j].key_code == Some(KeyCode::Escape)
                    || events@[j].key_code == Some(KeyCode::Q)),
        decreases events@.len() - i,
    {
        match events[i].key_code {
            Some(KeyCode::Escape) => {
                proof {
                    assert(events@[i as int].key_code == Some(KeyCode::Escape));
                }
                return true;
            },
            Some(KeyCode::Q) => {
                proof {
                    assert(events@[i as int].key_code == Some(KeyCode::Q));
                }
                return true;
            },
            _ => {},
        }
        i = i + 1;
    }
    false
}

} // verus!
