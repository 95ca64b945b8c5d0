use vstd::prelude::*;

verus! {

/// The exclusive editing context.  Exactly one mode is active at a time; it
/// scopes which bindings are live and whether raw characters bypass the
/// binding table entirely.
#[derive(Clone, Copy, Debug, PartialEq, Eq, Hash, Structural)]
pub enum EditorMode {
    Normal,
    Insert,
    Visual,
    Search,
}

} // verus!
