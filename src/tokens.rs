use vstd::prelude::*;
use crate::keyboard::{ClickModel, KeyboardKey, KeyboardModifierKey, KeysClick};

verus! {

/// Canonical token of a key.
pub open spec fn key_token(k: KeyboardKey) -> Seq<char> {
    match k {
        KeyboardKey::A => "a"@,
        KeyboardKey::B => "b"@,
        KeyboardKey::C => "c"@,
        KeyboardKey::D => "d"@,
        KeyboardKey::E => "e"@,
        KeyboardKey::F => "f"@,
        KeyboardKey::G => "g"@,
        KeyboardKey::H => "h"@,
        KeyboardKey::I => "i"@,
        KeyboardKey::J => "j"@,
        KeyboardKey::K => "k"@,
        KeyboardKey::L => "l"@,
        KeyboardKey::M => "m"@,
        KeyboardKey::N => "n"@,
        KeyboardKey::O => "o"@,
        KeyboardKey::P => "p"@,
        KeyboardKey::Q => "q"@,
        KeyboardKey::R => "r"@,
        KeyboardKey::S => "s"@,
        KeyboardKey::T => "t"@,
        KeyboardKey::U => "u"@,
        KeyboardKey::V => "v"@,
        KeyboardKey::W => "w"@,
        KeyboardKey::X => "x"@,
        KeyboardKey::Y => "y"@,
        KeyboardKey::Z => "z"@,
        KeyboardKey::Num1 => "1"@,
        KeyboardKey::Num2 => "2"@,
        KeyboardKey::Num3 => "3"@,
        KeyboardKey::Num4 => "4"@,
        KeyboardKey::Num5 => "5"@,
        KeyboardKey::Num6 => "6"@,
        KeyboardKey::Num7 => "7"@,
        KeyboardKey::Num8 => "8"@,
        KeyboardKey::Num9 => "9"@,
        KeyboardKey::Num0 => "0"@,
        KeyboardKey::Enter => "enter"@,
        KeyboardKey::Esc => "esc"@,
        KeyboardKey::Del => "del"@,
        KeyboardKey::Tab => "tab"@,
        KeyboardKey::Space => "space"@,
    }
}

/// Canonical token of a modifier.
pub open spec fn modifier_token(m: KeyboardModifierKey) -> Seq<char> {
    match m {
        KeyboardModifierKey::LeftControl => "left-ctrl"@,
        KeyboardModifierKey::LeftShift => "left-shift"@,
        KeyboardModifierKey::LeftAlt => "left-alt"@,
        KeyboardModifierKey::LeftWindows => "left-win"@,
        KeyboardModifierKey::RightControl => "right-ctrl"@,
        KeyboardModifierKey::RightShift => "right-shift"@,
        KeyboardModifierKey::RightAlt => "right-alt"@,
        KeyboardModifierKey::RightWindows => "right-win"@,
    }
}

impl KeyboardKey {
    /// The key's canonical token.
    pub fn token(&self) -> (r: &'static str)
        ensures
            r@ == key_token(*self),
    {
        match self {
            KeyboardKey::A => "a",
            KeyboardKey::B => "b",
            KeyboardKey::C => "c",
            KeyboardKey::D => "d",
            KeyboardKey::E => "e",
            KeyboardKey::F => "f",
            KeyboardKey::G => "g",
            KeyboardKey::H => "h",
            KeyboardKey::I => "i",
            KeyboardKey::J => "j",
            KeyboardKey::K => "k",
            KeyboardKey::L => "l",
            KeyboardKey::M => "m",
            KeyboardKey::N => "n",
            KeyboardKey::O => "o",
            KeyboardKey::P => "p",
            KeyboardKey::Q => "q",
            KeyboardKey::R => "r",
            KeyboardKey::S => "s",
            KeyboardKey::T => "t",
            KeyboardKey::U => "u",
            KeyboardKey::V => "v",
            KeyboardKey::W => "w",
            KeyboardKey::X => "x",
            KeyboardKey::Y => "y",
            KeyboardKey::Z => "z",
            KeyboardKey::Num1 => "1",
            KeyboardKey::Num2 => "2",
            KeyboardKey::Num3 => "3",
            KeyboardKey::Num4 => "4",
            KeyboardKey::Num5 => "5",
            KeyboardKey::Num6 => "6",
            KeyboardKey::Num7 => "7",
            KeyboardKey::Num8 => "8",
            KeyboardKey::Num9 => "9",
            KeyboardKey::Num0 => "0",
            KeyboardKey::Enter => "enter",
            KeyboardKey::Esc => "esc",
            KeyboardKey::Del => "del",
            KeyboardKey::Tab => "tab",
            KeyboardKey::Space => "space",
        }
    }
}

impl KeyboardModifierKey {
    /// The modifier's canonical token.
    pub fn token(&self) -> (r: &'static str)
        ensures
            r@ == modifier_token(*self),
    {
        match self {
            KeyboardModifierKey::LeftControl => "left-ctrl",
            KeyboardModifierKey::LeftShift => "left-shift",
            KeyboardModifierKey::LeftAlt => "left-alt",
            KeyboardModifierKey::LeftWindows => "left-win",
            KeyboardModifierKey::RightControl => "right-ctrl",
            KeyboardModifierKey::RightShift => "right-shift",
            KeyboardModifierKey::RightAlt => "right-alt",
            KeyboardModifierKey::RightWindows => "right-win",
        }
    }
}

/// `t` holds no token separator.
pub open spec fn no_separator(t: Seq<char>) -> bool {
    forall|i: int| 0 <= i < t.len() ==> t[i] != '+'
}

/// Picks a key out by the length and the first and last characters of its
/// token, which tell all keys apart.
spec fn key_by_shape(t: Seq<char>) -> Option<KeyboardKey> {
    if t.len() == 1 {
        match t[0] {
            'a' => Some(KeyboardKey::A),
            'b' => Some(KeyboardKey::B),
            'c' => Some(KeyboardKey::C),
            'd' => Some(KeyboardKey::D),
            'e' => Some(KeyboardKey::E),
            'f' => Some(KeyboardKey::F),
            'g' => Some(KeyboardKey::G),
            'h' => Some(KeyboardKey::H),
            'i' => Some(KeyboardKey::I),
            'j' => Some(KeyboardKey::J),
            'k' => Some(KeyboardKey::K),
            'l' => Some(KeyboardKey::L),
            'm' => Some(KeyboardKey::M),
            'n' => Some(KeyboardKey::N),
            'o' => Some(KeyboardKey::O),
            'p' => Some(KeyboardKey::P),
            'q' => Some(KeyboardKey::Q),
            'r' => Some(KeyboardKey::R),
            's' => Some(KeyboardKey::S),
            't' => Some(KeyboardKey::T),
            'u' => Some(KeyboardKey::U),
            'v' => Some(KeyboardKey::V),
            'w' => Some(KeyboardKey::W),
            'x' => Some(KeyboardKey::X),
            'y' => Some(KeyboardKey::Y),
            'z' => Some(KeyboardKey::Z),
            '1' => Some(KeyboardKey::Num1),
            '2' => Some(KeyboardKey::Num2),
            '3' => Some(KeyboardKey::Num3),
            '4' => Some(KeyboardKey::Num4),
            '5' => Some(KeyboardKey::Num5),
            '6' => Some(KeyboardKey::Num6),
            '7' => Some(KeyboardKey::Num7),
            '8' => Some(KeyboardKey::Num8),
            '9' => Some(KeyboardKey::Num9),
            '0' => Some(KeyboardKey::Num0),
            _ => None,
        }
    } else if t.len() == 5 && t[0] == 'e' {
        Some(KeyboardKey::Enter)
    } else if t.len() == 5 {
        Some(KeyboardKey::Space)
    } else if t.len() == 3 && t[0] == 'e' {
        Some(KeyboardKey::Esc)
    } else if t.len() == 3 && t[0] == 'd' {
        Some(KeyboardKey::Del)
    } else {
        Some(KeyboardKey::Tab)
    }
}

/// Picks a modifier out by the length and the first and last characters of
/// its token.
spec fn modifier_by_shape(t: Seq<char>) -> KeyboardModifierKey {
    if t[0] == 'l' {
        if t.len() == 9 {
            KeyboardModifierKey::LeftControl
        } else if t.len() == 10 {
            KeyboardModifierKey::LeftShift
        } else if t[t.len() - 1] == 't' {
            KeyboardModifierKey::LeftAlt
        } else {
            KeyboardModifierKey::LeftWindows
        }
    } else {
        if t.len() == 10 {
            KeyboardModifierKey::RightControl
        } else if t.len() == 11 {
            KeyboardModifierKey::RightShift
        } else if t[t.len() - 1] == 't' {
            KeyboardModifierKey::RightAlt
        } else {
            KeyboardModifierKey::RightWindows
        }
    }
}

/// Facts about the token tables: every token is non-empty and holds no
/// separator, key tokens are at most five characters and modifier tokens at
/// least eight, and a token's shape tells which key or modifier it is.
proof fn lemma_token_shapes()
    ensures
        forall|k: KeyboardKey|
            {
                let t = #[trigger] key_token(k);
                &&& 1 <= t.len() <= 5
                &&& no_separator(t)
                &&& key_by_shape(t) == Some(k)
            },
        forall|m: KeyboardModifierKey|
            {
                let t = #[trigger] modifier_token(m);
                &&& 8 <= t.len()
                &&& no_separator(t)
                &&& modifier_by_shape(t) == m
            },
{
    reveal_strlit("a");
    reveal_strlit("b");
    reveal_strlit("c");
    reveal_strlit("d");
    reveal_strlit("e");
    reveal_strlit("f");
    reveal_strlit("g");
    reveal_strlit("h");
    reveal_strlit("i");
    reveal_strlit("j");
    reveal_strlit("k");
    reveal_strlit("l");
    reveal_strlit("m");
    reveal_strlit("n");
    reveal_strlit("o");
    reveal_strlit("p");
    reveal_strlit("q");
    reveal_strlit("r");
    reveal_strlit("s");
    reveal_strlit("t");
    reveal_strlit("u");
    reveal_strlit("v");
    reveal_strlit("w");
    reveal_strlit("x");
    reveal_strlit("y");
    reveal_strlit("z");
    reveal_strlit("1");
    reveal_strlit("2");
    reveal_strlit("3");
    reveal_strlit("4");
    reveal_strlit("5");
    reveal_strlit("6");
    reveal_strlit("7");
    reveal_strlit("8");
    reveal_strlit("9");
    reveal_strlit("0");
    reveal_strlit("enter");
    reveal_strlit("esc");
    reveal_strlit("del");
    reveal_strlit("tab");
    reveal_strlit("space");
    reveal_strlit("left-ctrl");
    reveal_strlit("left-shift");
    reveal_strlit("left-alt");
    reveal_strlit("left-win");
    reveal_strlit("right-ctrl");
    reveal_strlit("right-shift");
    reveal_strlit("right-alt");
    reveal_strlit("right-win");
}

/// The two tables have no token in common, and neither has a token twice.
pub proof fn lemma_tokens_distinct()
    ensures
        forall|a: KeyboardKey, b: KeyboardKey| key_token(a) == key_token(b) ==> a == b,
        forall|a: KeyboardModifierKey, b: KeyboardModifierKey|
            modifier_token(a) == modifier_token(b) ==> a == b,
        forall|k: KeyboardKey, m: KeyboardModifierKey| key_token(k) != modifier_token(m),
{
    lemma_token_shapes();
}

/// The key whose token is `t`, if any.
pub open spec fn key_of_token(t: Seq<char>) -> Option<KeyboardKey> {
    if exists|k: KeyboardKey| key_token(k) == t {
        Some(choose|k: KeyboardKey| key_token(k) == t)
    } else {
        None
    }
}

/// The modifier whose token is `t`, if any.
pub open spec fn modifier_of_token(t: Seq<char>) -> Option<KeyboardModifierKey> {
    if exists|m: KeyboardModifierKey| modifier_token(m) == t {
        Some(choose|m: KeyboardModifierKey| modifier_token(m) == t)
    } else {
        None
    }
}

/// A key token is read back as its key and as no modifier, and a modifier
/// token the other way round.
pub proof fn lemma_token_lookup()
    ensures
        forall|k: KeyboardKey|
            key_of_token(#[trigger] key_token(k)) == Some(k) && modifier_of_token(key_token(k))
                is None,
        forall|m: KeyboardModifierKey|
            modifier_of_token(#[trigger] modifier_token(m)) == Some(m) && key_of_token(
                modifier_token(m),
            ) is None,
{
    lemma_tokens_distinct();
    assert forall|k: KeyboardKey| key_of_token(#[trigger] key_token(k)) == Some(k) by {
        let t = key_token(k);
        assert(exists|c: KeyboardKey| key_token(c) == t);
    }
    assert forall|m: KeyboardModifierKey| modifier_of_token(#[trigger] modifier_token(m)) == Some(
        m,
    ) by {
        let t = modifier_token(m);
        assert(exists|c: KeyboardModifierKey| modifier_token(c) == t);
    }
}

/// Whether two strings hold the same characters.
fn same_chars(a: &str, b: &str) -> (r: bool)
    ensures
        r == (a@ == b@),
{
    let n = a.unicode_len();
    if n != b.unicode_len() {
        return false;
    }
    let mut i: usize = 0;
    while i < n
        invariant
            n == a@.len() == b@.len(),
            i <= n,
            forall|j: int| 0 <= j < i ==> a@[j] == b@[j],
        decreases n - i,
    {
        if a.get_char(i) != b.get_char(i) {
            return false;
        }
        i = i + 1;
    }
    assert(a@ =~= b@);
    true
}

impl KeyboardKey {
    /// The key whose canonical token is exactly `s`.
    pub fn from_token(s: &str) -> (r: Option<KeyboardKey>)
        ensures
            r == key_of_token(s@),
    {
        proof {
            lemma_tokens_distinct();
        }
        let r = if same_chars(s, KeyboardKey::A.token()) {
            Some(KeyboardKey::A)
        } else if same_chars(s, KeyboardKey::B.token()) {
            Some(KeyboardKey::B)
        } else if same_chars(s, KeyboardKey::C.token()) {
            Some(KeyboardKey::C)
        } else if same_chars(s, KeyboardKey::D.token()) {
            Some(KeyboardKey::D)
        } else if same_chars(s, KeyboardKey::E.token()) {
            Some(KeyboardKey::E)
        } else if same_chars(s, KeyboardKey::F.token()) {
            Some(KeyboardKey::F)
        } else if same_chars(s, KeyboardKey::G.token()) {
            Some(KeyboardKey::G)
        } else if same_chars(s, KeyboardKey::H.token()) {
            Some(KeyboardKey::H)
        } else if same_chars(s, KeyboardKey::I.token()) {
            Some(KeyboardKey::I)
        } else if same_chars(s, KeyboardKey::J.token()) {
            Some(KeyboardKey::J)
        } else if same_chars(s, KeyboardKey::K.token()) {
            Some(KeyboardKey::K)
        } else if same_chars(s, KeyboardKey::L.token()) {
            Some(KeyboardKey::L)
        } else if same_chars(s, KeyboardKey::M.token()) {
            Some(KeyboardKey::M)
        } else if same_chars(s, KeyboardKey::N.token()) {
            Some(KeyboardKey::N)
        } else if same_chars(s, KeyboardKey::O.token()) {
            Some(KeyboardKey::O)
        } else if same_chars(s, KeyboardKey::P.token()) {
            Some(KeyboardKey::P)
        } else if same_chars(s, KeyboardKey::Q.token()) {
            Some(KeyboardKey::Q)
        } else if same_chars(s, KeyboardKey::R.token()) {
            Some(KeyboardKey::R)
        } else if same_chars(s, KeyboardKey::S.token()) {
            Some(KeyboardKey::S)
        } else if same_chars(s, KeyboardKey::T.token()) {
            Some(KeyboardKey::T)
        } else if same_chars(s, KeyboardKey::U.token()) {
            Some(KeyboardKey::U)
        } else if same_chars(s, KeyboardKey::V.token()) {
            Some(KeyboardKey::V)
        } else if same_chars(s, KeyboardKey::W.token()) {
            Some(KeyboardKey::W)
        } else if same_chars(s, KeyboardKey::X.token()) {
            Some(KeyboardKey::X)
        } else if same_chars(s, KeyboardKey::Y.token()) {
            Some(KeyboardKey::Y)
        } else if same_chars(s, KeyboardKey::Z.token()) {
            Some(KeyboardKey::Z)
        } else if same_chars(s, KeyboardKey::Num1.token()) {
            Some(KeyboardKey::Num1)
        } else if same_chars(s, KeyboardKey::Num2.token()) {
            Some(KeyboardKey::Num2)
        } else if same_chars(s, KeyboardKey::Num3.token()) {
            Some(KeyboardKey::Num3)
        } else if same_chars(s, KeyboardKey::Num4.token()) {
            Some(KeyboardKey::Num4)
        } else if same_chars(s, KeyboardKey::Num5.token()) {
            Some(KeyboardKey::Num5)
        } else if same_chars(s, KeyboardKey::Num6.token()) {
            Some(KeyboardKey::Num6)
        } else if same_chars(s, KeyboardKey::Num7.token()) {
            Some(KeyboardKey::Num7)
        } else if same_chars(s, KeyboardKey::Num8.token()) {
            Some(KeyboardKey::Num8)
        } else if same_chars(s, KeyboardKey::Num9.token()) {
            Some(KeyboardKey::Num9)
        } else if same_chars(s, KeyboardKey::Num0.token()) {
            Some(KeyboardKey::Num0)
        } else if same_chars(s, KeyboardKey::Enter.token()) {
            Some(KeyboardKey::Enter)
        } else if same_chars(s, KeyboardKey::Esc.token()) {
            Some(KeyboardKey::Esc)
        } else if same_chars(s, KeyboardKey::Del.token()) {
            Some(KeyboardKey::Del)
        } else if same_chars(s, KeyboardKey::Tab.token()) {
            Some(KeyboardKey::Tab)
        } else if same_chars(s, KeyboardKey::Space.token()) {
            Some(KeyboardKey::Space)
        } else {
            None
        };
        proof {
            if r is None {
                assert(!exists|k: KeyboardKey| key_token(k) == s@);
            } else {
                assert(key_token(r->Some_0) == s@);
            }
        }
        r
    }
}

impl KeyboardModifierKey {
    /// The modifier whose canonical token is exactly `s`.
    pub fn from_token(s: &str) -> (r: Option<KeyboardModifierKey>)
        ensures
            r == modifier_of_token(s@),
    {
        proof {
            lemma_tokens_distinct();
        }
        let r = if same_chars(s, KeyboardModifierKey::LeftControl.token()) {
            Some(KeyboardModifierKey::LeftControl)
        } else if same_chars(s, KeyboardModifierKey::LeftShift.token()) {
            Some(KeyboardModifierKey::LeftShift)
        } else if same_chars(s, KeyboardModifierKey::LeftAlt.token()) {
            Some(KeyboardModifierKey::LeftAlt)
        } else if same_chars(s, KeyboardModifierKey::LeftWindows.token()) {
            Some(KeyboardModifierKey::LeftWindows)
        } else if same_chars(s, KeyboardModifierKey::RightControl.token()) {
            Some(KeyboardModifierKey::RightControl)
        } else if same_chars(s, KeyboardModifierKey::RightShift.token()) {
            Some(KeyboardModifierKey::RightShift)
        } else if same_chars(s, KeyboardModifierKey::RightAlt.token()) {
            Some(KeyboardModifierKey::RightAlt)
        } else if same_chars(s, KeyboardModifierKey::RightWindows.token()) {
            Some(KeyboardModifierKey::RightWindows)
        } else {
            None
        };
        proof {
            if r is None {
                assert(!exists|m: KeyboardModifierKey| modifier_token(m) == s@);
            } else {
                assert(modifier_token(r->Some_0) == s@);
            }
        }
        r
    }
}

/// What a token of a click's text stands for.
#[derive(Debug, Clone, Copy, PartialEq, Eq, Structural)]
pub enum TokenMeaning {
    Modifier(KeyboardModifierKey),
    Key(KeyboardKey),
}

/// Why a text is not a click.
#[derive(Debug, Clone, Copy, PartialEq, Eq, Structural)]
pub enum ParseError {
    /// The text is empty.
    Empty,
    /// A token is neither a key nor a modifier.
    InvalidToken,
}

impl ParseError {
    /// A short description of the error.
    pub fn message(&self) -> &'static str {
        match self {
            ParseError::Empty => "Input is empty",
            ParseError::InvalidToken => "Invalid input",
        }
    }
}

/// The meaning of a token spelled exactly: a modifier or a key, never both
/// and never neither.
pub open spec fn meaning_of(t: Seq<char>) -> Option<TokenMeaning> {
    match (modifier_of_token(t), key_of_token(t)) {
        (Some(m), None) => Some(TokenMeaning::Modifier(m)),
        (None, Some(k)) => Some(TokenMeaning::Key(k)),
        _ => None,
    }
}

/// The lowercase form of a string, as Unicode defines it.
pub uninterp spec fn lower_of(s: Seq<char>) -> Seq<char>;

/// Relies on `str::to_lowercase`: the lowercase form depends on the
/// characters alone.
#[verifier::external_body]
fn lowercase(s: &str) -> (r: String)
    ensures
        r@ == lower_of(s@),
{
    s.to_lowercase()
}

/// The meaning of a token regardless of letter case. A canonical token is
/// taken as it stands (it is lowercase already); any other is lowercased
/// first.
pub open spec fn token_meaning(t: Seq<char>) -> Option<TokenMeaning> {
    if meaning_of(t) is Some {
        meaning_of(t)
    } else {
        meaning_of(lower_of(t))
    }
}

/// The meaning of the token `s`, spelled exactly.
pub fn meaning(s: &str) -> (r: Option<TokenMeaning>)
    ensures
        r == meaning_of(s@),
{
    let m = KeyboardModifierKey::from_token(s);
    let k = KeyboardKey::from_token(s);
    match (m, k) {
        (Some(m), None) => Some(TokenMeaning::Modifier(m)),
        (None, Some(k)) => Some(TokenMeaning::Key(k)),
        _ => None,
    }
}

/// The meaning of the token `s` in any letter case.
pub fn classify_token(s: &str) -> (r: Option<TokenMeaning>)
    ensures
        r == token_meaning(s@),
{
    let exact = meaning(s);
    if exact.is_some() {
        exact
    } else {
        let lowered = lowercase(s);
        meaning(lowered.as_str())
    }
}

/// The pieces of `s` between separators, as `str::split` on `+` gives them:
/// one more piece than there are separators, empty pieces included.
pub open spec fn split_tokens(s: Seq<char>) -> Seq<Seq<char>>
    decreases s.len(),
{
    if s.len() == 0 {
        seq![Seq::empty()]
    } else {
        let prev = split_tokens(s.drop_last());
        if s.last() == '+' {
            prev.push(Seq::empty())
        } else {
            prev.update(prev.len() - 1, prev.last().push(s.last()))
        }
    }
}

/// The click that a sequence of tokens adds up to, left to right, or `None`
/// if one of them has no meaning.
pub open spec fn click_of_tokens(ts: Seq<Seq<char>>) -> Option<ClickModel>
    decreases ts.len(),
{
    if ts.len() == 0 {
        Some(ClickModel::empty())
    } else {
        match click_of_tokens(ts.drop_last()) {
            None => None,
            Some(c) => match token_meaning(ts.last()) {
                None => None,
                Some(TokenMeaning::Modifier(m)) => Some(c.with_modifier(m)),
                Some(TokenMeaning::Key(k)) => Some(c.with_key(k)),
            },
        }
    }
}

/// What parsing the text `s` gives.
pub open spec fn parse_click(s: Seq<char>) -> Result<ClickModel, ParseError> {
    if s.len() == 0 {
        Err(ParseError::Empty)
    } else {
        match click_of_tokens(split_tokens(s)) {
            Some(c) => Ok(c),
            None => Err(ParseError::InvalidToken),
        }
    }
}

proof fn lemma_split_nonempty(s: Seq<char>)
    ensures
        split_tokens(s).len() >= 1,
    decreases s.len(),
{
    if s.len() > 0 {
        lemma_split_nonempty(s.drop_last());
    }
}

impl KeysClick {
    /// Applies one token to a click under construction.
    fn apply_token(click: KeysClick, token: &str) -> (r: Option<KeysClick>)
        ensures
            r matches Some(c) ==> token_meaning(token@) matches Some(tm) && c@ == match tm {
                TokenMeaning::Modifier(m) => click@.with_modifier(m),
                TokenMeaning::Key(k) => click@.with_key(k),
            },
            r is None ==> token_meaning(token@) is None,
    {
        match classify_token(token) {
            Some(TokenMeaning::Modifier(m)) => Some(click.add_modifier(m)),
            Some(TokenMeaning::Key(k)) => Some(click.add_key(k)),
            None => None,
        }
    }

    /// Reads a click from its text: modifier and key tokens joined by `+`,
    /// in any letter case. Modifiers and keys are added in the order of
    /// their tokens; keys beyond the sixth are dropped.
    pub fn parse(value: &str) -> (r: Result<KeysClick, ParseError>)
        ensures
            match r {
                Ok(c) => parse_click(value@) == Ok::<ClickModel, ParseError>(c@),
                Err(e) => parse_click(value@) == Err::<ClickModel, ParseError>(e),
            },
    {
        let n = value.unicode_len();
        if n == 0 {
            return Err(ParseError::Empty);
        }
        let mut click = KeysClick::empty();
        let mut failed = false;
        let mut start: usize = 0;
        let mut i: usize = 0;
        let ghost mut done: Seq<Seq<char>> = Seq::empty();
        assert(value@.take(0) =~= Seq::<char>::empty());
        assert(value@.subrange(0, 0) =~= Seq::<char>::empty());
        assert(split_tokens(Seq::<char>::empty()) =~= done.push(Seq::empty()));
        while i < n
            invariant
                n == value@.len(),
                start <= i <= n,
                split_tokens(value@.take(i as int)) == done.push(
                    value@.subrange(start as int, i as int),
                ),
                failed ==> click_of_tokens(done) is None,
                !failed ==> click_of_tokens(done) == Some(click@),
            decreases n - i,
        {
            let ghost prev = value@.take(i as int);
            assert(value@.take(i + 1).drop_last() =~= prev);
            let c = value.get_char(i);
            if c == '+' {
                let token = value.substring_char(start, i);
                proof {
                    assert(done.push(token@).drop_last() =~= done);
                }
                if !failed {
                    match KeysClick::apply_token(click, token) {
                        Some(next) => {
                            click = next;
                        },
                        None => {
                            failed = true;
                            click = KeysClick::empty();
                        },
                    }
                }
                proof {
                    done = done.push(token@);
                    assert(value@.subrange(i + 1, i + 1) =~= Seq::<char>::empty());
                }
                start = i + 1;
            } else {
                proof {
                    lemma_split_nonempty(prev);
                    assert(value@.subrange(start as int, i as int).push(c) =~= value@.subrange(
                        start as int,
                        i + 1,
                    ));
                    assert(done.push(value@.subrange(start as int, i as int)).update(
                        done.len() as int,
                        value@.subrange(start as int, i + 1),
                    ) =~= done.push(value@.subrange(start as int, i + 1)));
                }
            }
            i = i + 1;
        }
        assert(value@.take(n as int) =~= value@);
        let token = value.substring_char(start, n);
        assert(done.push(token@).drop_last() =~= done);
        if failed {
            return Err(ParseError::InvalidToken);
        }
        match KeysClick::apply_token(click, token) {
            Some(c) => Ok(c),
            None => Err(ParseError::InvalidToken),
        }
    }
}

/// The parts in order, with `sep` between each two.
pub open spec fn join_with(parts: Seq<Seq<char>>, sep: Seq<char>) -> Seq<char>
    decreases parts.len(),
{
    if parts.len() == 0 {
        Seq::empty()
    } else if parts.len() == 1 {
        parts[0]
    } else {
        join_with(parts.drop_last(), sep) + sep + parts.last()
    }
}

/// The characters of each string.
pub open spec fn strings_view(v: Seq<String>) -> Seq<Seq<char>> {
    v.map_values(|s: String| s@)
}

/// The tokens of a click: its modifiers' tokens, then its keys' tokens.
pub open spec fn click_tokens(c: ClickModel) -> Seq<Seq<char>> {
    c.modifiers.map_values(|m: KeyboardModifierKey| modifier_token(m)) + c.keys.map_values(
        |k: KeyboardKey| key_token(k),
    )
}

/// The text of a click: its tokens joined by `+`.
pub open spec fn format_click(c: ClickModel) -> Seq<char> {
    join_with(click_tokens(c), seq!['+'])
}

/// Relies on `itertools::concat`: the items of `first`, then those of
/// `second`, each vector extending the one before.
#[verifier::external_body]
fn concat_lists(first: Vec<String>, second: Vec<String>) -> (r: Vec<String>)
    ensures
        r@ == first@ + second@,
{
    itertools::concat(vec![first, second])
}

/// Relies on `itertools::join`: each part written out in order, with `sep`
/// between each two; empty for no parts.
#[verifier::external_body]
fn join_parts(parts: &Vec<String>, sep: &str) -> (r: String)
    ensures
        r@ == join_with(strings_view(parts@), sep@),
{
    itertools::join(parts, sep)
}

impl KeysClick {
    /// The click's text: modifier tokens, then key tokens, in the order they
    /// were added, joined by `+`.
    pub fn to_token_string(&self) -> (r: String)
        ensures
            r@ == format_click(self@),
    {
        let mods = self.modifiers();
        let mut mod_parts: Vec<String> = Vec::new();
        let mut i: usize = 0;
        while i < mods.len()
            invariant
                i <= mods@.len(),
                strings_view(mod_parts@) =~= mods@.take(i as int).map_values(
                    |m: KeyboardModifierKey| modifier_token(m),
                ),
            decreases mods@.len() - i,
        {
            let part = String::from_str(mods[i].token());
            let ghost before = mod_parts@;
            mod_parts.push(part);
            assert(mods@.take(i + 1) =~= mods@.take(i as int).push(mods@[i as int]));
            assert(mod_parts@ =~= before.push(part));
            assert(strings_view(mod_parts@) =~= strings_view(before).push(part@));
            i = i + 1;
        }
        assert(mods@.take(i as int) =~= mods@);
        let keys = self.keys();
        let mut key_parts: Vec<String> = Vec::new();
        let mut j: usize = 0;
        while j < keys.len()
            invariant
                j <= keys@.len(),
                strings_view(key_parts@) =~= keys@.take(j as int).map_values(
                    |k: KeyboardKey| key_token(k),
                ),
            decreases keys@.len() - j,
        {
            let part = String::from_str(keys[j].token());
            let ghost before = key_parts@;
            key_parts.push(part);
            assert(keys@.take(j + 1) =~= keys@.take(j as int).push(keys@[j as int]));
            assert(key_parts@ =~= before.push(part));
            assert(strings_view(key_parts@) =~= strings_view(before).push(part@));
            j = j + 1;
        }
        assert(keys@.take(j as int) =~= keys@);
        let ghost mv = strings_view(mod_parts@);
        let ghost kv = strings_view(key_parts@);
        let all = concat_lists(mod_parts, key_parts);
        assert(strings_view(all@) =~= mv + kv);
        let sep = "+";
        proof {
            reveal_strlit("+");
        }
        assert(sep@ =~= seq!['+']);
        join_parts(&all, sep)
    }
}

/// Appending separator-free text to `x` extends the last piece of `x`.
proof fn lemma_split_extend(x: Seq<char>, y: Seq<char>)
    requires
        no_separator(y),
    ensures
        split_tokens(x + y) == split_tokens(x).drop_last().push(split_tokens(x).last() + y),
    decreases y.len(),
{
    lemma_split_nonempty(x);
    let sx = split_tokens(x);
    if y.len() == 0 {
        assert(x + y =~= x);
        assert(sx.last() + y =~= sx.last());
        assert(sx.drop_last().push(sx.last()) =~= sx);
    } else {
        let y0 = y.drop_last();
        assert(no_separator(y0));
        lemma_split_extend(x, y0);
        assert((x + y).drop_last() =~= x + y0);
        assert((x + y).last() == y.last());
        assert((sx.last() + y0).push(y.last()) =~= sx.last() + y);
        let prev = split_tokens(x + y0);
        assert(prev.update(prev.len() - 1, prev.last().push(y.last())) =~= sx.drop_last().push(
            sx.last() + y,
        ));
    }
}

/// Splitting the join of separator-free parts gives the parts back.
proof fn lemma_split_join(parts: Seq<Seq<char>>)
    requires
        parts.len() >= 1,
        forall|i: int| 0 <= i < parts.len() ==> no_separator(#[trigger] parts[i]),
    ensures
        split_tokens(join_with(parts, seq!['+'])) == parts,
    decreases parts.len(),
{
    let sep = seq!['+'];
    if parts.len() == 1 {
        lemma_split_extend(Seq::empty(), parts[0]);
        assert(Seq::<char>::empty() + parts[0] =~= parts[0]);
        assert(split_tokens(Seq::<char>::empty()) =~= seq![Seq::<char>::empty()]);
        assert(seq![Seq::<char>::empty()].drop_last().push(parts[0]) =~= parts);
    } else {
        let init = parts.drop_last();
        assert forall|i: int| 0 <= i < init.len() implies no_separator(#[trigger] init[i]) by {
            assert(init[i] == parts[i]);
        }
        lemma_split_join(init);
        let head = join_with(init, sep);
        let x = head + sep;
        assert(x.drop_last() =~= head);
        assert(split_tokens(x) == init.push(Seq::empty()));
        assert(no_separator(parts[parts.len() - 1]));
        lemma_split_extend(x, parts.last());
        assert(Seq::<char>::empty() + parts.last() =~= parts.last());
        assert(init.push(Seq::empty()).drop_last() =~= init);
        assert(init.push(parts.last()) =~= parts);
    }
}

/// Reading back the tokens of a click rebuilds the click.
proof fn lemma_click_of_click_tokens(c: ClickModel)
    requires
        c.valid(),
    ensures
        click_of_tokens(click_tokens(c)) == Some(c),
    decreases c.modifiers.len() + c.keys.len(),
{
    lemma_token_lookup();
    lemma_tokens_distinct();
    let ts = click_tokens(c);
    if c.keys.len() > 0 {
        let prev = ClickModel { modifiers: c.modifiers, keys: c.keys.drop_last() };
        lemma_click_of_click_tokens(prev);
        let k = c.keys.last();
        assert(ts.drop_last() =~= click_tokens(prev));
        assert(ts.last() == key_token(k));
        assert(meaning_of(key_token(k)) == Some(TokenMeaning::Key(k)));
        assert(prev.keys.push(k) =~= c.keys);
    } else if c.modifiers.len() > 0 {
        let prev = ClickModel { modifiers: c.modifiers.drop_last(), keys: c.keys };
        lemma_click_of_click_tokens(prev);
        let m = c.modifiers.last();
        assert(ts.drop_last() =~= click_tokens(prev));
        assert(ts.last() == modifier_token(m));
        assert(meaning_of(modifier_token(m)) == Some(TokenMeaning::Modifier(m)));
        assert(prev.modifiers.push(m) =~= c.modifiers);
    } else {
        assert(ts =~= Seq::empty());
        assert(c.modifiers =~= Seq::empty());
        assert(c.keys =~= Seq::empty());
    }
}

/// Reading the text of a click that holds at least one modifier or key gives
/// the same click back: same modifiers and keys, in the same order.
pub proof fn lemma_parse_format_round_trip(c: ClickModel)
    requires
        c.valid(),
        c.modifiers.len() + c.keys.len() > 0,
    ensures
        parse_click(format_click(c)) == Ok::<ClickModel, ParseError>(c),
{
    lemma_token_shapes();
    let ts = click_tokens(c);
    assert forall|i: int| 0 <= i < ts.len() implies no_separator(#[trigger] ts[i]) by {
        if i < c.modifiers.len() {
            assert(ts[i] == modifier_token(c.modifiers[i]));
        } else {
            assert(ts[i] == key_token(c.keys[i - c.modifiers.len()]));
        }
    }
    lemma_split_join(ts);
    lemma_click_of_click_tokens(c);
    let s = format_click(c);
    if s.len() == 0 {
        assert(s =~= Seq::<char>::empty());
        assert(split_tokens(s) =~= seq![Seq::<char>::empty()]);
        if c.modifiers.len() > 0 {
            assert(ts[0] == modifier_token(c.modifiers[0]));
        } else {
            assert(ts[0] == key_token(c.keys[0]));
        }
        assert(ts[0].len() == 0);
    }
}

/// The key a token names in any letter case: as it stands when it is a
/// canonical key token, else after lowercasing.
pub open spec fn key_in_any_case(t: Seq<char>) -> Option<KeyboardKey> {
    if key_of_token(t) is Some {
        key_of_token(t)
    } else {
        key_of_token(lower_of(t))
    }
}

/// The modifier a token names in any letter case.
pub open spec fn modifier_in_any_case(t: Seq<char>) -> Option<KeyboardModifierKey> {
    if modifier_of_token(t) is Some {
        modifier_of_token(t)
    } else {
        modifier_of_token(lower_of(t))
    }
}

impl KeyboardKey {
    /// Reads a key from its token in any letter case.
    pub fn parse(value: &str) -> (r: Result<KeyboardKey, ParseError>)
        ensures
            value@.len() == 0 ==> r == Err::<KeyboardKey, ParseError>(ParseError::Empty),
            value@.len() > 0 ==> r == match key_in_any_case(value@) {
                Some(k) => Ok::<KeyboardKey, ParseError>(k),
                None => Err(ParseError::InvalidToken),
            },
    {
        if value.unicode_len() == 0 {
            return Err(ParseError::Empty);
        }
        let found = match KeyboardKey::from_token(value) {
            Some(k) => Some(k),
            None => KeyboardKey::from_token(lowercase(value).as_str()),
        };
        match found {
            Some(k) => Ok(k),
            None => Err(ParseError::InvalidToken),
        }
    }
}

impl KeyboardModifierKey {
    /// Reads a modifier from its token in any letter case.
    pub fn parse(value: &str) -> (r: Result<KeyboardModifierKey, ParseError>)
        ensures
            value@.len() == 0 ==> r == Err::<KeyboardModifierKey, ParseError>(ParseError::Empty),
            value@.len() > 0 ==> r == match modifier_in_any_case(value@) {
                Some(m) => Ok::<KeyboardModifierKey, ParseError>(m),
                None => Err(ParseError::InvalidToken),
            },
    {
        if value.unicode_len() == 0 {
            return Err(ParseError::Empty);
        }
        let found = match KeyboardModifierKey::from_token(value) {
            Some(m) => Some(m),
            None => KeyboardModifierKey::from_token(lowercase(value).as_str()),
        };
        match found {
            Some(m) => Ok(m),
            None => Err(ParseError::InvalidToken),
        }
    }
}

} // verus!
