use vstd::prelude::*;

verus! {

/// The identity of a pressed key, without modifiers.
#[derive(Clone, Copy, Debug, PartialEq, Eq, Hash, Structural)]
pub enum KeyCode {
    Char(char),
    F(u8),
    Enter,
    Esc,
    Backspace,
    Delete,
    Home,
    End,
    Left,
    Right,
    Up,
    Down,
    Tab,
    PageUp,
    PageDown,
}

/// The set of modifier keys held together with a key code; a subset of
/// {Shift, Control, Alt}.
#[derive(Clone, Copy, Debug, PartialEq, Eq, Hash, Structural)]
pub struct KeyModifiers {
    pub shift: bool,
    pub control: bool,
    pub alt: bool,
}

impl KeyModifiers {
    /// The empty modifier set.
    pub fn none() -> (r: KeyModifiers)
        ensures
            r == (KeyModifiers { shift: false, control: false, alt: false }),
    {
        KeyModifiers { shift: false, control: false, alt: false }
    }

    /// The modifier set holding only Control.
    pub fn control() -> (r: KeyModifiers)
        ensures
            r == (KeyModifiers { shift: false, control: true, alt: false }),
    {
        KeyModifiers { shift: false, control: true, alt: false }
    }

    /// The modifier set holding only Alt.
    pub fn alt() -> (r: KeyModifiers)
        ensures
            r == (KeyModifiers { shift: false, control: false, alt: true }),
    {
        KeyModifiers { shift: false, control: false, alt: true }
    }
}

/// An atomic, already-normalized input event: one key identity together with
/// its modifier set.  Values are compared structurally.
#[derive(Clone, Copy, Debug, PartialEq, Eq, Hash, Structural)]
pub struct KeyCombination {
    pub code: KeyCode,
    pub modifiers: KeyModifiers,
}

impl KeyCombination {
    /// Builds the combination of one key code with the given modifiers.
    pub fn one_key(code: KeyCode, modifiers: KeyModifiers) -> (r: KeyCombination)
        ensures
            r == (KeyCombination { code, modifiers }),
    {
        KeyCombination { code, modifiers }
    }
}

/// Whether the event is a printable character: a character key pressed
/// without Control and without Alt.  Such events are the ones the Insert and
/// Search passthrough rules act on.
pub open spec fn is_printable(k: KeyCombination) -> bool {
    k.code is Char && !k.modifiers.control && !k.modifiers.alt
}

/// Whether `p` is a positional prefix of `c`: `p` is no longer than `c` and
/// equals `c` elementwise over its whole length.
pub open spec fn is_chord_prefix(p: Seq<KeyCombination>, c: Seq<KeyCombination>) -> bool {
    p.len() <= c.len() && forall|i: int| 0 <= i < p.len() ==> p[i] == c[i]
}

/// Decides whether `p@` is a positional prefix of `c@`.
pub fn chord_prefix_of(p: &Vec<KeyCombination>, c: &Vec<KeyCombination>) -> (r: bool)
    ensures
        r == is_chord_prefix(p@, c@),
{
    if p.len() > c.len() {
        return false;
    }
    let mut i: usize = 0;
    while i < p.len()
        invariant
            i <= p.len(),
            p.len() <= c.len(),
            forall|j: int| 0 <= j < i ==> p@[j] == c@[j],
        decreases p.len() - i,
    {
        if p[i] != c[i] {
            return false;
        }
        i += 1;
    }
    true
}

/// Decides whether two chords are equal: same length and pairwise-equal
/// elements in order.
pub fn chord_eq(a: &Vec<KeyCombination>, b: &Vec<KeyCombination>) -> (r: bool)
    ensures
        r == (a@ == b@),
{
    if a.len() != b.len() {
        return false;
    }
    let mut i: usize = 0;
    while i < a.len()
        invariant
            i <= a.len(),
            a.len() == b.len(),
            forall|j: int| 0 <= j < i ==> a@[j] == b@[j],
        decreases a.len() - i,
    {
        if a[i] != b[i] {
            proof {
                assert(a@[i as int] != b@[i as int]);
            }
            return false;
        }
        i += 1;
    }
    proof {
        assert(a@ =~= b@);
    }
    true
}

} // verus!
