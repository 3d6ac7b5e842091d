use vstd::prelude::*;

verus! {

/// Most keys a single click can hold; the keyboard report has this many slots.
pub const MAX_KEYS: usize = 6;

/// The keys this client can press.
#[derive(Debug, Clone, Copy, PartialEq, Eq, Structural)]
pub enum KeyboardKey {
    A,
    B,
    C,
    D,
    E,
    F,
    G,
    H,
    I,
    J,
    K,
    L,
    M,
    N,
    O,
    P,
    Q,
    R,
    S,
    T,
    U,
    V,
    W,
    X,
    Y,
    Z,
    Num1,
    Num2,
    Num3,
    Num4,
    Num5,
    Num6,
    Num7,
    Num8,
    Num9,
    Num0,
    Enter,
    Esc,
    Del,
    Tab,
    Space,
}

/// HID usage code of a key (keyboard/keypad usage page).
pub open spec fn key_usage(k: KeyboardKey) -> u8 {
    match k {
        KeyboardKey::A => 0x04,
        KeyboardKey::B => 0x05,
        KeyboardKey::C => 0x06,
        KeyboardKey::D => 0x07,
        KeyboardKey::E => 0x08,
        KeyboardKey::F => 0x09,
        KeyboardKey::G => 0x0A,
        KeyboardKey::H => 0x0B,
        KeyboardKey::I => 0x0C,
        KeyboardKey::J => 0x0D,
        KeyboardKey::K => 0x0E,
        KeyboardKey::L => 0x0F,
        KeyboardKey::M => 0x10,
        KeyboardKey::N => 0x11,
        KeyboardKey::O => 0x12,
        KeyboardKey::P => 0x13,
        KeyboardKey::Q => 0x14,
        KeyboardKey::R => 0x15,
        KeyboardKey::S => 0x16,
        KeyboardKey::T => 0x17,
        KeyboardKey::U => 0x18,
        KeyboardKey::V => 0x19,
        KeyboardKey::W => 0x1A,
        KeyboardKey::X => 0x1B,
        KeyboardKey::Y => 0x1C,
        KeyboardKey::Z => 0x1D,
        KeyboardKey::Num1 => 0x1E,
        KeyboardKey::Num2 => 0x1F,
        KeyboardKey::Num3 => 0x20,
        KeyboardKey::Num4 => 0x21,
        KeyboardKey::Num5 => 0x22,
        KeyboardKey::Num6 => 0x23,
        KeyboardKey::Num7 => 0x24,
        KeyboardKey::Num8 => 0x25,
        KeyboardKey::Num9 => 0x26,
        KeyboardKey::Num0 => 0x27,
        KeyboardKey::Enter => 0x28,
        KeyboardKey::Esc => 0x29,
        KeyboardKey::Del => 0x2A,
        KeyboardKey::Tab => 0x2B,
        KeyboardKey::Space => 0x2C,
    }
}

impl KeyboardKey {
    /// The key's usage code as it goes into a keyboard report.
    pub fn id(&self) -> (r: u8)
        ensures
            r == key_usage(*self),
    {
        match self {
            KeyboardKey::A => 0x04,
            KeyboardKey::B => 0x05,
            KeyboardKey::C => 0x06,
            KeyboardKey::D => 0x07,
            KeyboardKey::E => 0x08,
            KeyboardKey::F => 0x09,
            KeyboardKey::G => 0x0A,
            KeyboardKey::H => 0x0B,
            KeyboardKey::I => 0x0C,
            KeyboardKey::J => 0x0D,
            KeyboardKey::K => 0x0E,
            KeyboardKey::L => 0x0F,
            KeyboardKey::M => 0x10,
            KeyboardKey::N => 0x11,
            KeyboardKey::O => 0x12,
            KeyboardKey::P => 0x13,
            KeyboardKey::Q => 0x14,
            KeyboardKey::R => 0x15,
            KeyboardKey::S => 0x16,
            KeyboardKey::T => 0x17,
            KeyboardKey::U => 0x18,
            KeyboardKey::V => 0x19,
            KeyboardKey::W => 0x1A,
            KeyboardKey::X => 0x1B,
            KeyboardKey::Y => 0x1C,
            KeyboardKey::Z => 0x1D,
            KeyboardKey::Num1 => 0x1E,
            KeyboardKey::Num2 => 0x1F,
            KeyboardKey::Num3 => 0x20,
            KeyboardKey::Num4 => 0x21,
            KeyboardKey::Num5 => 0x22,
            KeyboardKey::Num6 => 0x23,
            KeyboardKey::Num7 => 0x24,
            KeyboardKey::Num8 => 0x25,
            KeyboardKey::Num9 => 0x26,
            KeyboardKey::Num0 => 0x27,
            KeyboardKey::Enter => 0x28,
            KeyboardKey::Esc => 0x29,
            KeyboardKey::Del => 0x2A,
            KeyboardKey::Tab => 0x2B,
            KeyboardKey::Space => 0x2C,
        }
    }
}

/// The eight modifier keys, one bit each in the report's modifier byte.
#[derive(Debug, Clone, Copy, PartialEq, Eq, Structural)]
pub enum KeyboardModifierKey {
    LeftControl,
    LeftShift,
    LeftAlt,
    LeftWindows,
    RightControl,
    RightShift,
    RightAlt,
    RightWindows,
}

/// Bit of a modifier in the modifier byte: left control is bit 0, right
/// windows bit 7.
pub open spec fn modifier_bit(m: KeyboardModifierKey) -> u8 {
    match m {
        KeyboardModifierKey::LeftControl => 1,
        KeyboardModifierKey::LeftShift => 2,
        KeyboardModifierKey::LeftAlt => 4,
        KeyboardModifierKey::LeftWindows => 8,
        KeyboardModifierKey::RightControl => 16,
        KeyboardModifierKey::RightShift => 32,
        KeyboardModifierKey::RightAlt => 64,
        KeyboardModifierKey::RightWindows => 128,
    }
}

impl KeyboardModifierKey {
    /// The modifier's single-bit mask.
    pub fn mask(&self) -> (r: u8)
        ensures
            r == modifier_bit(*self),
    {
        match self {
            KeyboardModifierKey::LeftControl => 1,
            KeyboardModifierKey::LeftShift => 2,
            KeyboardModifierKey::LeftAlt => 4,
            KeyboardModifierKey::LeftWindows => 8,
            KeyboardModifierKey::RightControl => 16,
            KeyboardModifierKey::RightShift => 32,
            KeyboardModifierKey::RightAlt => 64,
            KeyboardModifierKey::RightWindows => 128,
        }
    }
}

/// What a click is: the modifiers in the order they were added (repeats
/// kept) and the keys in order.
pub struct ClickModel {
    pub modifiers: Seq<KeyboardModifierKey>,
    pub keys: Seq<KeyboardKey>,
}

impl ClickModel {
    pub open spec fn valid(self) -> bool {
        self.keys.len() <= MAX_KEYS
    }

    pub open spec fn with_modifier(self, m: KeyboardModifierKey) -> ClickModel {
        ClickModel { modifiers: self.modifiers.push(m), keys: self.keys }
    }

    /// A key beyond the sixth is dropped: the report has no slot for it.
    pub open spec fn with_key(self, k: KeyboardKey) -> ClickModel {
        if self.keys.len() < MAX_KEYS {
            ClickModel { modifiers: self.modifiers, keys: self.keys.push(k) }
        } else {
            self
        }
    }

    pub open spec fn empty() -> ClickModel {
        ClickModel { modifiers: Seq::empty(), keys: Seq::empty() }
    }
}

/// The OR of the masks of all modifiers in `mods`.
pub open spec fn modifier_mask(mods: Seq<KeyboardModifierKey>) -> u8
    decreases mods.len(),
{
    if mods.len() == 0 {
        0
    } else {
        modifier_mask(mods.drop_last()) | modifier_bit(mods.last())
    }
}

/// Keys and modifiers pressed together. Holds at most six keys: adding a
/// seventh leaves the click unchanged.
#[derive(Debug, PartialEq, Eq)]
pub struct KeysClick {
    modifiers: Vec<KeyboardModifierKey>,
    keys: Vec<KeyboardKey>,
}

impl View for KeysClick {
    type V = ClickModel;

    closed spec fn view(&self) -> ClickModel {
        ClickModel { modifiers: self.modifiers@, keys: self.keys@ }
    }
}

impl KeysClick {
    #[verifier::type_invariant]
    spec fn inv(self) -> bool {
        self.keys.len() <= MAX_KEYS
    }

    /// A click of the one key `key`.
    pub fn new(key: KeyboardKey) -> (r: KeysClick)
        ensures
            r@ == ClickModel::empty().with_key(key),
    {
        KeysClick::empty().add_key(key)
    }

    /// The click with nothing pressed: sending it releases every key.
    pub fn empty() -> (r: KeysClick)
        ensures
            r@ == ClickModel::empty(),
    {
        let r = KeysClick { modifiers: Vec::new(), keys: Vec::with_capacity(MAX_KEYS) };
        assert(r@.modifiers =~= Seq::empty());
        assert(r@.keys =~= Seq::empty());
        r
    }

    /// Adds a modifier after those already held.
    pub fn add_modifier(self, modifier: KeyboardModifierKey) -> (r: KeysClick)
        ensures
            r@ == self@.with_modifier(modifier),
    {
        proof {
            use_type_invariant(&self);
        }
        let KeysClick { mut modifiers, keys } = self;
        modifiers.push(modifier);
        KeysClick { modifiers, keys }
    }

    /// Adds a key after those already pressed, unless six are pressed already.
    pub fn add_key(self, key: KeyboardKey) -> (r: KeysClick)
        ensures
            r@ == self@.with_key(key),
    {
        proof {
            use_type_invariant(&self);
        }
        let KeysClick { modifiers, mut keys } = self;
        if keys.len() < MAX_KEYS {
            keys.push(key);
        }
        KeysClick { modifiers, keys }
    }

    /// The modifiers, in the order they were added.
    pub fn modifiers(&self) -> (r: &Vec<KeyboardModifierKey>)
        ensures
            r@ == self@.modifiers,
    {
        &self.modifiers
    }

    /// The keys, in the order they were added.
    pub fn keys(&self) -> (r: &Vec<KeyboardKey>)
        ensures
            r@ == self@.keys,
            r@.len() <= MAX_KEYS,
    {
        proof {
            use_type_invariant(self);
        }
        &self.keys
    }

    /// The modifier byte of the click: the OR of its modifiers' bits.
    pub fn modifier_mask(&self) -> (r: u8)
        ensures
            r == modifier_mask(self@.modifiers),
    {
        let mut acc: u8 = 0;
        let mut i: usize = 0;
        while i < self.modifiers.len()
            invariant
                i <= self.modifiers@.len(),
                acc == modifier_mask(self.modifiers@.take(i as int)),
            decreases self.modifiers@.len() - i,
        {
            assert(self.modifiers@.take(i + 1).drop_last() =~= self.modifiers@.take(i as int));
            acc = acc | self.modifiers[i].mask();
            i = i + 1;
        }
        assert(self.modifiers@.take(i as int) =~= self.modifiers@);
        acc
    }
}

impl Clone for KeysClick {
    fn clone(&self) -> (r: KeysClick)
        ensures
            r@ == self@,
    {
        proof {
            use_type_invariant(self);
        }
        KeysClick { modifiers: self.modifiers.clone(), keys: self.keys.clone() }
    }
}

/// Adding a modifier that is already held leaves the modifier byte as it was.
pub proof fn lemma_modifier_idempotent(c: ClickModel, m: KeyboardModifierKey)
    ensures
        modifier_mask(c.with_modifier(m).with_modifier(m).modifiers) == modifier_mask(
            c.with_modifier(m).modifiers,
        ),
{
    let once = c.with_modifier(m).modifiers;
    let twice = c.with_modifier(m).with_modifier(m).modifiers;
    assert(twice.drop_last() =~= once);
    assert(once.drop_last() =~= c.modifiers);
    let x = modifier_mask(c.modifiers);
    let b = modifier_bit(m);
    assert((x | b) | b == x | b) by (bit_vector);
}

} // verus!
