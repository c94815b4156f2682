use vstd::prelude::*;

verus! {

/// A terminal event the external driver observed and hands in. The
/// driver owns polling and blocking; the key state machine here owns
/// everything that follows from an event.
#[derive(Clone, Copy, Debug, PartialEq, Eq, Structural)]
pub enum KeyEvent {
    /// No input was available.
    Idle,
    /// The exit key was pressed.
    Exit,
    /// A character key was pressed.
    Chr(char),
}

/// The hexadecimal key a keyboard character maps to, if any: the 4x4 pad
///   1 2 3 C
///   4 5 6 D
///   7 8 9 E
///   A 0 B F
/// sits on the 1-2-3-4, q-w-e-r, a-s-d-f, z-x-c-v rows.
pub open spec fn spec_key_for_char(c: char) -> Option<u8> {
    if c == '1' {
        Some(0x1)
    } else if c == '2' {
        Some(0x2)
    } else if c == '3' {
        Some(0x3)
    } else if c == '4' {
        Some(0xC)
    } else if c == 'q' {
        Some(0x4)
    } else if c == 'w' {
        Some(0x5)
    } else if c == 'e' {
        Some(0x6)
    } else if c == 'r' {
        Some(0xD)
    } else if c == 'a' {
        Some(0x7)
    } else if c == 's' {
        Some(0x8)
    } else if c == 'd' {
        Some(0x9)
    } else if c == 'f' {
        Some(0xE)
    } else if c == 'z' {
        Some(0xA)
    } else if c == 'x' {
        Some(0x0)
    } else if c == 'c' {
        Some(0xB)
    } else if c == 'v' {
        Some(0xF)
    } else {
        None
    }
}

/// Map a keyboard character to its hexadecimal key.
pub fn key_for_char(c: char) -> (r: Option<u8>)
    ensures
        r == spec_key_for_char(c),
{
    match c {
        '1' => Some(0x1),
        '2' => Some(0x2),
        '3' => Some(0x3),
        '4' => Some(0xC),
        'q' => Some(0x4),
        'w' => Some(0x5),
        'e' => Some(0x6),
        'r' => Some(0xD),
        'a' => Some(0x7),
        's' => Some(0x8),
        'd' => Some(0x9),
        'f' => Some(0xE),
        'z' => Some(0xA),
        'x' => Some(0x0),
        'c' => Some(0xB),
        'v' => Some(0xF),
        _ => None,
    }
}

/// No key is down.
pub open spec fn no_keys() -> Seq<bool> {
    Seq::new(16, |i: int| false)
}

/// What the engine reads from an input capability: per-key down/up state
/// and a single-use latch holding the most recent unconsumed press.
pub trait Get: Sized {
    /// Which of the sixteen keys are currently down.
    spec fn keys(&self) -> Seq<bool>;

    /// The most recent unconsumed key press, if any.
    spec fn latch(&self) -> Option<u8>;

    /// Whether the exit key has been pressed.
    spec fn esc(&self) -> bool;

    /// The implementation's internal invariant.
    spec fn get_inv(&self) -> bool;

    /// Whether the exit key was pressed.
    fn pressed_esc(&self) -> (r: bool)
        requires
            self.get_inv(),
        ensures
            r == self.esc(),
    ;

    /// Whether key `key` is down; keys above 15 never are.
    fn pressed_key(&self, key: u8) -> (r: bool)
        requires
            self.get_inv(),
        ensures
            r == (key <= 0xF && self.keys()[key as int]),
    ;

    /// Hand out the latched key press, if any, and clear the latch: each
    /// press is returned at most once.
    fn last_press(&mut self) -> (r: Option<u8>)
        requires
            old(self).get_inv(),
        ensures
            final(self).get_inv(),
            r == old(self).latch(),
            r is Some ==> r.unwrap() <= 0xF,
            final(self).latch() is None,
            final(self).keys() == old(self).keys(),
            final(self).esc() == old(self).esc(),
    ;
}

/// What the external driver feeds into an input capability.
pub trait Feed: Sized + Get {
    /// One tick of key decay: keys may only go up, and neither the latch
    /// nor the exit flag moves.
    fn decrement_keys(&mut self)
        requires
            old(self).get_inv(),
        ensures
            final(self).get_inv(),
            final(self).latch() == old(self).latch(),
            final(self).esc() == old(self).esc(),
            forall|k: int| 0 <= k < 16 ==> (final(self).keys()[k] ==> old(self).keys()[k]),
    ;

    /// Feed one observed terminal event in.
    fn update_keys(&mut self, ev: KeyEvent)
        requires
            old(self).get_inv(),
        ensures
            final(self).get_inv(),
    ;
}

/// An input capability that never reports anything.
pub struct NullInput {}

impl NullInput {
    pub fn new() -> (r: NullInput)
        ensures
            r.get_inv(),
            r.keys() == no_keys(),
            r.latch() is None,
            !r.esc(),
    {
        NullInput {  }
    }
}

impl Get for NullInput {
    open spec fn keys(&self) -> Seq<bool> {
        no_keys()
    }

    open spec fn latch(&self) -> Option<u8> {
        None
    }

    open spec fn esc(&self) -> bool {
        false
    }

    open spec fn get_inv(&self) -> bool {
        true
    }

    fn pressed_esc(&self) -> (r: bool) {
        false
    }

    fn pressed_key(&self, key: u8) -> (r: bool) {
        false
    }

    fn last_press(&mut self) -> (r: Option<u8>) {
        None
    }
}

impl Feed for NullInput {
    fn decrement_keys(&mut self) {
    }

    fn update_keys(&mut self, _ev: KeyEvent) {
    }
}

/// How many decay ticks a key stays down after a press; terminals report
/// presses, not releases, so a press is held down for a few frames.
pub const KEY_STICKY_FRAMES: u8 = 8;

/// The key state machine behind a real terminal: per-key stickiness
/// counters, the exit flag, and the single-use latch. The driver feeds
/// it events; the engine reads it through `Get`.
pub struct NcursesInput {
    keys: Vec<u8>,
    exit: bool,
    last: Option<u8>,
}

impl NcursesInput {
    /// The per-key stickiness counters; a key is down while its counter
    /// is positive.
    pub closed spec fn counts(&self) -> Seq<u8> {
        self.keys@
    }

    pub fn new() -> (r: NcursesInput)
        ensures
            r.get_inv(),
            r.counts() == Seq::new(16, |i: int| 0u8),
            r.keys() == no_keys(),
            r.latch() is None,
            !r.esc(),
    {
        let r = NcursesInput { keys: vec![0u8; 16], exit: false, last: None };
        proof {
            assert(r.counts() =~= Seq::new(16, |i: int| 0u8));
            assert(r.keys() =~= no_keys());
        }
        r
    }
}

impl Get for NcursesInput {
    closed spec fn keys(&self) -> Seq<bool> {
        Seq::new(16, |i: int| self.keys@[i] > 0)
    }

    closed spec fn latch(&self) -> Option<u8> {
        self.last
    }

    closed spec fn esc(&self) -> bool {
        self.exit
    }

    closed spec fn get_inv(&self) -> bool {
        self.keys@.len() == 16 && (self.last is Some ==> self.last.unwrap() <= 0xF)
    }

    fn pressed_esc(&self) -> (r: bool) {
        self.exit
    }

    fn pressed_key(&self, key: u8) -> (r: bool) {
        if key > 0xF {
            return false;
        }
        self.keys[key as usize] > 0
    }

    fn last_press(&mut self) -> (r: Option<u8>) {
        let r = self.last;
        self.last = None;
        r
    }
}

impl Feed for NcursesInput {
    fn decrement_keys(&mut self) {
        NcursesInput::tick_keys(self)
    }

    fn update_keys(&mut self, ev: KeyEvent) {
        NcursesInput::apply_event(self, ev)
    }
}

impl NcursesInput {
    /// Decrement every positive stickiness counter by one.
    pub fn tick_keys(&mut self)
        requires
            old(self).get_inv(),
        ensures
            final(self).get_inv(),
            final(self).latch() == old(self).latch(),
            final(self).esc() == old(self).esc(),
            forall|k: int|
                0 <= k < 16 ==> final(self).counts()[k] == (if old(self).counts()[k] > 0 {
                    (old(self).counts()[k] - 1) as u8
                } else {
                    0u8
                }),
            forall|k: int| 0 <= k < 16 ==> (final(self).keys()[k] ==> old(self).keys()[k]),
    {
        let mut k: usize = 0;
        while k < 16
            invariant
                self.keys@.len() == 16,
                self.exit == old(self).exit,
                self.last == old(self).last,
                k <= 16,
                forall|j: int|
                    0 <= j < k ==> self.keys@[j] == (if old(self).counts()[j] > 0 {
                        (old(self).counts()[j] - 1) as u8
                    } else {
                        0u8
                    }),
                forall|j: int| k <= j < 16 ==> self.keys@[j] == old(self).counts()[j],
            decreases 16 - k,
        {
            let cur = self.keys[k];
            if cur > 0 {
                self.keys[k] = cur - 1;
            }
            k = k + 1;
        }
    }

    /// Apply one observed terminal event: the exit key raises the exit
    /// flag; a mapped character latches its key and makes it sticky;
    /// anything else changes nothing.
    pub fn apply_event(&mut self, ev: KeyEvent)
        requires
            old(self).get_inv(),
        ensures
            final(self).get_inv(),
            ev is Idle ==> *final(self) == *old(self),
            ev is Exit ==> final(self).esc() && final(self).counts() == old(self).counts()
                && final(self).latch() == old(self).latch(),
            ev matches KeyEvent::Chr(c) ==> match spec_key_for_char(c) {
                Some(k) => final(self).latch() == Some(k) && final(self).counts() == old(
                    self,
                ).counts().update(k as int, KEY_STICKY_FRAMES) && final(self).esc() == old(
                    self,
                ).esc(),
                None => *final(self) == *old(self),
            },
    {
        match ev {
            KeyEvent::Idle => {
            },
            KeyEvent::Exit => {
                self.exit = true;
            },
            KeyEvent::Chr(c) => {
                match key_for_char(c) {
                    Some(k) => {
                        self.last = Some(k);
                        self.keys[k as usize] = KEY_STICKY_FRAMES;
                    },
                    None => {
                    },
                }
            },
        }
    }
}

} // verus!
