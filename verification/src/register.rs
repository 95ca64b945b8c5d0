use vstd::prelude::*;

use crate::key::{chord_eq, KeyCombination};
use crate::mode::EditorMode;

verus! {

/// The mathematical identity of a binding: the mode it is scoped to and the
/// chord that triggers it.  The registry holds at most one action per such
/// key.
#[verifier::ext_equal]
pub ghost struct BindingKey {
    pub mode: EditorMode,
    pub keys: Seq<KeyCombination>,
}

/// A (mode, chord) pair under which an action can be registered.  The chord
/// is an ordered, non-empty sequence of key combinations; order and length
/// are significant.
#[derive(Clone, Debug, PartialEq, Eq, Hash)]
pub struct KeyCombinationRegister {
    pub(crate) keys: Vec<KeyCombination>,
    pub(crate) mode: EditorMode,
}

impl View for KeyCombinationRegister {
    type V = BindingKey;

    closed spec fn view(&self) -> BindingKey {
        BindingKey { mode: self.mode, keys: self.keys@ }
    }
}

impl KeyCombinationRegister {
    /// Builds a binding key from a non-empty chord and a mode.
    pub fn new(key: Vec<KeyCombination>, mode: EditorMode) -> (r: Self)
        requires
            key@.len() >= 1,
        ensures
            r@ == (BindingKey { mode, keys: key@ }),
    {
        Self { keys: key, mode }
    }

    /// A binding key scoped to Normal mode.
    pub fn n(key: Vec<KeyCombination>) -> (r: Self)
        requires
            key@.len() >= 1,
        ensures
            r@ == (BindingKey { mode: EditorMode::Normal, keys: key@ }),
    {
        Self::new(key, EditorMode::Normal)
    }

    /// A binding key scoped to Visual mode.
    pub fn v(key: Vec<KeyCombination>) -> (r: Self)
        requires
            key@.len() >= 1,
        ensures
            r@ == (BindingKey { mode: EditorMode::Visual, keys: key@ }),
    {
        Self::new(key, EditorMode::Visual)
    }

    /// A binding key scoped to Insert mode.
    pub fn i(key: Vec<KeyCombination>) -> (r: Self)
        requires
            key@.len() >= 1,
        ensures
            r@ == (BindingKey { mode: EditorMode::Insert, keys: key@ }),
    {
        Self::new(key, EditorMode::Insert)
    }

    /// A binding key scoped to Search mode.
    pub fn s(key: Vec<KeyCombination>) -> (r: Self)
        requires
            key@.len() >= 1,
        ensures
            r@ == (BindingKey { mode: EditorMode::Search, keys: key@ }),
    {
        Self::new(key, EditorMode::Search)
    }
}

/// What a register value denotes: its mode and the view of its chord.
pub(crate) broadcast proof fn lemma_register_view(r: KeyCombinationRegister)
    ensures
        (#[trigger] r@) == (BindingKey { mode: r.mode, keys: r.keys@ }),
{
}

/// Decides whether two binding keys denote the same (mode, chord) pair.
pub fn binding_key_eq(a: &KeyCombinationRegister, b: &KeyCombinationRegister) -> (r: bool)
    ensures
        r == (a@ == b@),
{
    let same = a.mode == b.mode && chord_eq(&a.keys, &b.keys);
    proof {
        if same {
            assert(a@ =~= b@);
        }
    }
    same
}

} // verus!
