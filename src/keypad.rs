use vstd::prelude::*;

verus! {

/// Number of keys on the hex keypad.
pub const KEY_COUNT: usize = 16;

/// The host keyboard keys that stand for the sixteen hex keys, in the
/// COSMAC VIP layout (1 2 3 4 / Q W E R / A S D F / Z X C V).
#[derive(Debug, Clone, Copy, PartialEq, Eq, Structural)]
pub enum HostKey {
    Num1,
    Num2,
    Num3,
    Num4,
    Q,
    W,
    E,
    R,
    A,
    S,
    D,
    F,
    Z,
    X,
    C,
    V,
}

/// The hex value that a host key stands for.
pub open spec fn host_key_value(k: HostKey) -> u8 {
    match k {
        HostKey::X => 0x0,
        HostKey::Num1 => 0x1,
        HostKey::Num2 => 0x2,
        HostKey::Num3 => 0x3,
        HostKey::Q => 0x4,
        HostKey::W => 0x5,
        HostKey::E => 0x6,
        HostKey::A => 0x7,
        HostKey::S => 0x8,
        HostKey::D => 0x9,
        HostKey::Z => 0xA,
        HostKey::C => 0xB,
        HostKey::Num4 => 0xC,
        HostKey::R => 0xD,
        HostKey::F => 0xE,
        HostKey::V => 0xF,
    }
}

/// The hex value that a host key stands for.
pub fn key_value(k: HostKey) -> (r: u8)
    ensures
        r == host_key_value(k),
        r < KEY_COUNT,
{
    match k {
        HostKey::X => 0x0,
        HostKey::Num1 => 0x1,
        HostKey::Num2 => 0x2,
        HostKey::Num3 => 0x3,
        HostKey::Q => 0x4,
        HostKey::W => 0x5,
        HostKey::E => 0x6,
        HostKey::A => 0x7,
        HostKey::S => 0x8,
        HostKey::D => 0x9,
        HostKey::Z => 0xA,
        HostKey::C => 0xB,
        HostKey::Num4 => 0xC,
        HostKey::R => 0xD,
        HostKey::F => 0xE,
        HostKey::V => 0xF,
    }
}

/// The abstract keypad: which keys are down, and the wait-for-key state.
pub ghost struct KeypadState {
    pub keys: Seq<bool>,
    /// A wait-for-key instruction is waiting for `down` to be released.
    pub waiting: bool,
    /// Register that receives the key when the wait ends.
    pub register: int,
    /// The key captured when the wait began.
    pub down: u8,
}

/// The first key that is down, if any.
pub open spec fn first_down(keys: Seq<bool>) -> Option<u8> {
    if exists|k: int| 0 <= k < KEY_COUNT && keys[k] {
        let k = choose|k: int| 0 <= k < KEY_COUNT && keys[k] && forall|j: int| 0 <= j < k ==> !keys[j];
        Some(k as u8)
    } else {
        None
    }
}

/// Sixteen key states, plus the state of a pending wait for a key.
pub struct Keypad {
    keys: [bool; 16],
    waiting: bool,
    register: usize,
    down: u8,
}

impl View for Keypad {
    type V = KeypadState;

    closed spec fn view(&self) -> KeypadState {
        KeypadState {
            keys: self.keys@,
            waiting: self.waiting,
            register: self.register as int,
            down: self.down,
        }
    }
}

impl Keypad {
    #[verifier::type_invariant]
    spec fn inv(&self) -> bool {
        self.register < KEY_COUNT && self.down < KEY_COUNT
    }

    /// All keys up, not waiting.
    pub fn new() -> (r: Self)
        ensures
            r@ == (KeypadState {
                keys: Seq::new(KEY_COUNT as nat, |k: int| false),
                waiting: false,
                register: 0,
                down: 0,
            }),
    {
        let r = Self { keys: [false; 16], waiting: false, register: 0, down: 0 };
        assert(r@.keys =~= Seq::new(KEY_COUNT as nat, |k: int| false));
        r
    }

    /// Whether hex key `key` is down.
    pub fn is_down(&self, key: u8) -> (r: bool)
        requires
            key < KEY_COUNT,
        ensures
            r == self@.keys[key as int],
    {
        self.keys[key as usize]
    }

    /// Records hex key `key` as down or up.
    pub fn set_down(&mut self, key: u8, down: bool)
        requires
            key < KEY_COUNT,
        ensures
            final(self)@ == (KeypadState { keys: old(self)@.keys.update(key as int, down), ..old(self)@ }),
    {
        proof {
            use_type_invariant(&*self);
        }
        self.keys[key as usize] = down;
    }

    /// Records the hex key that a host key stands for as down or up.
    pub fn update(&mut self, key: HostKey, down: bool)
        ensures
            final(self)@ == (KeypadState {
                keys: old(self)@.keys.update(host_key_value(key) as int, down),
                ..old(self)@
            }),
    {
        let k = key_value(key);
        self.set_down(k, down);
    }

    /// The lowest-numbered key that is down, if any.
    pub fn wait_for_key(&self) -> (r: Option<u8>)
        ensures
            r == first_down(self@.keys),
    {
        let mut k: u8 = 0;
        while k < 16
            invariant
                k <= 16,
                self@.keys.len() == KEY_COUNT,
                forall|j: int| 0 <= j < k ==> !self@.keys[j],
            decreases 16 - k,
        {
            if self.keys[k as usize] {
                proof {
                    let c = choose|c: int| 0 <= c < KEY_COUNT && self@.keys[c] && forall|j: int| 0 <= j < c ==> !self@.keys[j];
                    assert(0 <= c < KEY_COUNT && self@.keys[c]);
                    assert(c == k as int);
                }
                return Some(k);
            }
            k = k + 1;
        }
        None
    }

    /// Whether a wait for a key is pending.
    pub fn is_waiting(&self) -> (r: bool)
        ensures
            r == self@.waiting,
    {
        self.waiting
    }

    /// The register that receives the key when the pending wait ends.
    pub fn register(&self) -> (r: usize)
        ensures
            r == self@.register,
            r < KEY_COUNT,
    {
        proof {
            use_type_invariant(self);
        }
        self.register
    }

    /// The key captured when the pending wait began.
    pub fn held_key(&self) -> (r: u8)
        ensures
            r == self@.down,
            r < KEY_COUNT,
    {
        proof {
            use_type_invariant(self);
        }
        self.down
    }

    /// Starts waiting for `key` to be released, to store it in `register`.
    pub fn begin_wait(&mut self, register: usize, key: u8)
        requires
            register < KEY_COUNT,
            key < KEY_COUNT,
        ensures
            final(self)@ == (KeypadState {
                waiting: true,
                register: register as int,
                down: key,
                ..old(self)@
            }),
    {
        proof {
            use_type_invariant(&*self);
        }
        self.waiting = true;
        self.register = register;
        self.down = key;
    }

    /// Ends the pending wait.
    pub fn end_wait(&mut self)
        ensures
            final(self)@ == (KeypadState { waiting: false, ..old(self)@ }),
    {
        proof {
            use_type_invariant(&*self);
        }
        self.waiting = false;
    }
}

} // verus!
