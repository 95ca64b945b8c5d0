use vstd::prelude::*;

use crate::mode::EditorMode;

verus! {

/// The enumerable identifier of one atomic editing effect, together with its
/// captured parameters.  The dispatcher resolves chords to actions built from
/// these effects; executing an effect is modeled in [`crate::state`].
#[derive(Clone, Copy, Debug, PartialEq, Eq, Structural)]
pub enum Effect {
    SwitchMode(EditorMode),
    MoveForward(usize),
    MoveBackward(usize),
    MoveUp(usize),
    MoveDown(usize),
    MoveWordForward(usize),
    MoveWordBackward(usize),
    MoveWordForwardToEndOfWord(usize),
    MoveToStartOfLine,
    MoveToFirst,
    MoveToEndOfLine,
    MoveToFirstRow,
    MoveToLastRow,
    MoveHalfPageUp,
    MoveHalfPageDown,
    MoveToMatchingBracket,
    InsertChar(char),
    LineBreak(usize),
    AppendNewline(usize),
    InsertNewline(usize),
    RemoveChar(usize),
    DeleteChar(usize),
    DeleteCharForward(usize),
    DeleteLine(usize),
    DeleteToEndOfLine,
    DeleteToFirstCharOfLine,
    JoinLineWithLineBelow,
    SelectLine,
    SelectInnerWord,
    SelectInnerBetween(char, char),
    ChangeInnerWord,
    ChangeInnerBetween(char, char),
    ChangeSelection,
    DeleteSelection,
    CopySelection,
    CopyLine,
    Paste,
    PasteOverSelection,
    Undo,
    Redo,
    StartSearch,
    StopSearch,
    FindFirst,
    FindNext,
    FindPrevious,
    AppendCharToSearch(char),
    RemoveCharFromSearch,
    SelectCurrentSearch,
}

/// A command value: either one atomic effect, or an ordered list of
/// sub-actions executed in sequence.  Composition is not transactional: each
/// child observes the mutations of the previous one.
#[derive(Debug, PartialEq, Eq)]
pub enum Action {
    Atomic(Effect),
    Composed(Vec<Action>),
}

/// The ordered sequence of atomic effects that executing `a` performs:
/// composed actions contribute the effects of their children in declared
/// order.
pub open spec fn action_effects(a: Action) -> Seq<Effect>
    decreases a,
{
    match a {
        Action::Atomic(e) => seq![e],
        Action::Composed(children) => list_effects(children@),
    }
}

/// The ordered sequence of atomic effects of a list of actions, in list
/// order.
pub open spec fn list_effects(actions: Seq<Action>) -> Seq<Effect>
    decreases actions,
{
    if actions.len() == 0 {
        Seq::empty()
    } else {
        action_effects(actions[0]) + list_effects(actions.drop_first())
    }
}

/// The effects of a list grow by the effects of the appended action, at the
/// end: declared order is execution order.
pub proof fn lemma_list_effects_push(actions: Seq<Action>, a: Action)
    ensures
        list_effects(actions.push(a)) == list_effects(actions) + action_effects(a),
    decreases actions.len(),
{
    if actions.len() == 0 {
        assert(actions.push(a).drop_first() =~= Seq::<Action>::empty());
        assert(list_effects(actions.push(a).drop_first()) =~= Seq::<Effect>::empty());
        assert(actions.push(a)[0] == a);
        assert(list_effects(actions.push(a)) =~= list_effects(actions) + action_effects(a));
    } else {
        assert(actions.push(a).drop_first() =~= actions.drop_first().push(a));
        lemma_list_effects_push(actions.drop_first(), a);
        assert(list_effects(actions.push(a)) =~= list_effects(actions) + action_effects(a));
    }
}

impl Action {
    /// Wraps one atomic effect as an action.
    pub fn atom(e: Effect) -> (r: Action)
        ensures
            r == Action::Atomic(e),
            action_effects(r) == seq![e],
    {
        Action::Atomic(e)
    }
}

} // verus!
