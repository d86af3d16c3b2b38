use vstd::prelude::*;

verus! {

/// One of the sixteen keys of the hexadecimal keypad.
#[derive(Clone, Copy, Debug, PartialEq, Eq, Structural)]
pub enum Key {
    Key0,
    Key1,
    Key2,
    Key3,
    Key4,
    Key5,
    Key6,
    Key7,
    Key8,
    Key9,
    A,
    B,
    C,
    D,
    E,
    F,
}

/// The hexadecimal digit that a key stands for.
pub open spec fn key_value(key: Key) -> u8 {
    match key {
        Key::Key0 => 0x0,
        Key::Key1 => 0x1,
        Key::Key2 => 0x2,
        Key::Key3 => 0x3,
        Key::Key4 => 0x4,
        Key::Key5 => 0x5,
        Key::Key6 => 0x6,
        Key::Key7 => 0x7,
        Key::Key8 => 0x8,
        Key::Key9 => 0x9,
        Key::A => 0xA,
        Key::B => 0xB,
        Key::C => 0xC,
        Key::D => 0xD,
        Key::E => 0xE,
        Key::F => 0xF,
    }
}

/// The keypad as plain values: the key pressed last, while it is still held,
/// and which of the sixteen keys are down.
pub ghost struct KeypadState {
    pub last: Option<u8>,
    pub down: Seq<bool>,
}

/// Whether key `key` is down; a value past 0xF names no key and is never down.
pub open spec fn key_down(s: KeypadState, key: int) -> bool {
    0 <= key < 16 && s.down[key]
}

/// The keypad.
pub struct Keypad {
    last_key: Option<Key>,
    pressed: [bool; 16],
}

impl View for Keypad {
    type V = KeypadState;

    closed spec fn view(&self) -> KeypadState {
        KeypadState {
            last: match self.last_key {
                Some(k) => Some(key_value(k)),
                None => None,
            },
            down: self.pressed@,
        }
    }
}

impl Keypad {
    pub proof fn lemma_down_len(&self)
        ensures
            self@.down.len() == 16,
    {
    }

    /// A keypad with no key down.
    pub fn new() -> (r: Keypad)
        ensures
            r@.last == None::<u8>,
            r@.down == Seq::new(16, |k: int| false),
    {
        let r = Keypad { last_key: None, pressed: [false; 16] };
        assert(r@.down =~= Seq::new(16, |k: int| false));
        r
    }

    pub fn pressed(&mut self, key: Key)
        ensures
            final(self)@.last == Some(key_value(key)),
            final(self)@.down == old(self)@.down.update(key_value(key) as int, true),
    {
        self.last_key = Some(key);
        self.pressed[Self::map(key) as usize] = true;
    }

    /// Marks `key` as up; if it was the key pressed last, no key counts as
    /// pressed last any more.
    pub fn released(&mut self, key: Key)
        ensures
            final(self)@.last == (if old(self)@.last == Some(key_value(key)) {
                None
            } else {
                old(self)@.last
            }),
            final(self)@.down == old(self)@.down.update(key_value(key) as int, false),
    {
        if let Some(current_key) = self.last_key {
            if current_key == key {
                self.last_key = None;
            }
        }
        self.pressed[Self::map(key) as usize] = false;
    }

    /// The key pressed last, while it is held.
    pub fn read(&self) -> (r: Option<u8>)
        ensures
            r == self@.last,
    {
        match self.last_key {
            Some(k) => Some(Self::map(k)),
            None => None,
        }
    }

    /// Whether key `key` is down; false for a value past 0xF.
    pub fn is_pressed(&self, key: u8) -> (r: bool)
        ensures
            r == key_down(self@, key as int),
    {
        if key < 16 {
            self.pressed[key as usize]
        } else {
            false
        }
    }

    pub fn map(key: Key) -> (r: u8)
        ensures
            r == key_value(key),
            r < 16,
    {
        match key {
            Key::Key0 => 0x0,
            Key::Key1 => 0x1,
            Key::Key2 => 0x2,
            Key::Key3 => 0x3,
            Key::Key4 => 0x4,
            Key::Key5 => 0x5,
            Key::Key6 => 0x6,
            Key::Key7 => 0x7,
            Key::Key8 => 0x8,
            Key::Key9 => 0x9,
            Key::A => 0xA,
            Key::B => 0xB,
            Key::C => 0xC,
            Key::D => 0xD,
            Key::E => 0xE,
            Key::F => 0xF,
        }
    }
}

} // verus!
