use vstd::prelude::*;

use crate::action::{action_effects, list_effects, Action, Effect};
use crate::handler::{
    dispatch_step, insert_passthrough, search_passthrough, waits_for_more, DispatcherV,
    KeyCombinationHandler,
};
use crate::key::{is_chord_prefix, KeyCode, KeyCombination, KeyModifiers};
use crate::mode::EditorMode;
use crate::register::{BindingKey, KeyCombinationRegister};
use crate::laws::{dispatch_all, lemma_registered_chord_fires};
use crate::state::{
    apply_effect, apply_effects, delete_lines, delete_one_line, line_len, EditorStateV,
};

verus! {

broadcast use crate::register::lemma_register_view;

/// A plain character key: no modifiers held.
pub open spec fn plain_key(c: char) -> KeyCombination {
    KeyCombination {
        code: KeyCode::Char(c),
        modifiers: KeyModifiers { shift: false, control: false, alt: false },
    }
}

/// A character key with Control held.
pub open spec fn control_key(c: char) -> KeyCombination {
    KeyCombination {
        code: KeyCode::Char(c),
        modifiers: KeyModifiers { shift: false, control: true, alt: false },
    }
}

/// A character key with Alt held.
pub open spec fn alt_key(c: char) -> KeyCombination {
    KeyCombination {
        code: KeyCode::Char(c),
        modifiers: KeyModifiers { shift: false, control: false, alt: true },
    }
}

/// A non-character key without modifiers.
pub open spec fn bare_key(code: KeyCode) -> KeyCombination {
    KeyCombination { code, modifiers: KeyModifiers { shift: false, control: false, alt: false } }
}

/// A non-character key with Alt held.
pub open spec fn alt_bare_key(code: KeyCode) -> KeyCombination {
    KeyCombination { code, modifiers: KeyModifiers { shift: false, control: false, alt: true } }
}

/// A one-key Normal-mode binding key.
pub open spec fn n1(k: KeyCombination) -> BindingKey {
    BindingKey { mode: EditorMode::Normal, keys: seq![k] }
}

/// A two-key Normal-mode binding key.
pub open spec fn n2(k1: KeyCombination, k2: KeyCombination) -> BindingKey {
    BindingKey { mode: EditorMode::Normal, keys: seq![k1, k2] }
}

/// A three-key Normal-mode binding key.
pub open spec fn n3(k1: KeyCombination, k2: KeyCombination, k3: KeyCombination) -> BindingKey {
    BindingKey { mode: EditorMode::Normal, keys: seq![k1, k2, k3] }
}

/// A one-key Visual-mode binding key.
pub open spec fn v1(k: KeyCombination) -> BindingKey {
    BindingKey { mode: EditorMode::Visual, keys: seq![k] }
}

/// A two-key Visual-mode binding key.
pub open spec fn v2(k1: KeyCombination, k2: KeyCombination) -> BindingKey {
    BindingKey { mode: EditorMode::Visual, keys: seq![k1, k2] }
}

/// A one-key Insert-mode binding key.
pub open spec fn i1(k: KeyCombination) -> BindingKey {
    BindingKey { mode: EditorMode::Insert, keys: seq![k] }
}

/// A one-key Search-mode binding key.
pub open spec fn s1(k: KeyCombination) -> BindingKey {
    BindingKey { mode: EditorMode::Search, keys: seq![k] }
}

/// A plain (unmodified) key.
fn kc(code: KeyCode) -> (r: KeyCombination)
    ensures
        r == bare_key(code),
{
    KeyCombination::one_key(code, KeyModifiers::none())
}

/// A plain character key.
fn ch(c: char) -> (r: KeyCombination)
    ensures
        r == plain_key(c),
{
    KeyCombination::one_key(KeyCode::Char(c), KeyModifiers::none())
}

/// A character key with Control held.
fn ctl(c: char) -> (r: KeyCombination)
    ensures
        r == control_key(c),
{
    KeyCombination::one_key(KeyCode::Char(c), KeyModifiers::control())
}

/// A character key with Alt held.
fn met(c: char) -> (r: KeyCombination)
    ensures
        r == alt_key(c),
{
    KeyCombination::one_key(KeyCode::Char(c), KeyModifiers::alt())
}

/// An atomic action: its meaning is its one effect.
fn atom(e: Effect) -> (r: Action)
    ensures
        r == Action::Atomic(e),
        action_effects(r) == seq![e],
{
    Action::Atomic(e)
}

/// A composition of two effects, executed in order.
fn seq2(a: Effect, b: Effect) -> (r: Action)
    ensures
        action_effects(r) == seq![a, b],
{
    let children = vec![Action::Atomic(a), Action::Atomic(b)];
    let ghost cv = children@;
    let r = Action::Composed(children);
    proof {
        lemma_effects_of_atoms(cv, seq![a, b]);
    }
    r
}

/// A composition of three effects, executed in order.
fn seq3(a: Effect, b: Effect, c: Effect) -> (r: Action)
    ensures
        action_effects(r) == seq![a, b, c],
{
    let children = vec![Action::Atomic(a), Action::Atomic(b), Action::Atomic(c)];
    let ghost cv = children@;
    let r = Action::Composed(children);
    proof {
        lemma_effects_of_atoms(cv, seq![a, b, c]);
    }
    r
}

/// A composition of four effects, executed in order.
fn seq4(a: Effect, b: Effect, c: Effect, d: Effect) -> (r: Action)
    ensures
        action_effects(r) == seq![a, b, c, d],
{
    let children = vec![
        Action::Atomic(a),
        Action::Atomic(b),
        Action::Atomic(c),
        Action::Atomic(d),
    ];
    let ghost cv = children@;
    let r = Action::Composed(children);
    proof {
        lemma_effects_of_atoms(cv, seq![a, b, c, d]);
    }
    r
}

/// A list of atomic actions means exactly its effects, in order.
proof fn lemma_effects_of_atoms(children: Seq<Action>, effects: Seq<Effect>)
    requires
        children.len() == effects.len(),
        forall|i: int| 0 <= i < children.len() ==> children[i] == Action::Atomic(effects[i]),
    ensures
        list_effects(children) == effects,
    decreases children.len(),
{
    if children.len() == 0 {
        assert(list_effects(children) =~= effects);
    } else {
        assert(children[0] == Action::Atomic(effects[0]));
        assert(action_effects(children[0]) == seq![effects[0]]);
        lemma_effects_of_atoms(children.drop_first(), effects.drop_first());
        assert(list_effects(children) =~= effects);
    }
}

/// The vim-style bindings for entering and leaving the modes, and the search lifecycle, over a base registry.
pub open spec fn vim_mode_switch_map(m: Map<BindingKey, Seq<Effect>>) -> Map<
    BindingKey,
    Seq<Effect>,
> {
    m.insert(
        i1(bare_key(KeyCode::Esc)),
        seq![Effect::SwitchMode(EditorMode::Normal)],
    ).insert(
        v1(bare_key(KeyCode::Esc)),
        seq![Effect::SwitchMode(EditorMode::Normal)],
    ).insert(
        n1(plain_key('i')),
        seq![Effect::SwitchMode(EditorMode::Insert)],
    ).insert(
        n1(plain_key('v')),
        seq![Effect::SwitchMode(EditorMode::Visual)],
    ).insert(
        n1(plain_key('/')),
        seq![Effect::StartSearch, Effect::SwitchMode(EditorMode::Search)],
    ).insert(
        s1(bare_key(KeyCode::Enter)),
        seq![Effect::FindFirst, Effect::SwitchMode(EditorMode::Normal)],
    ).insert(
        n1(plain_key('n')),
        seq![Effect::FindNext],
    ).insert(
        n1(plain_key('N')),
        seq![Effect::FindPrevious],
    ).insert(
        s1(bare_key(KeyCode::Esc)),
        seq![Effect::StopSearch, Effect::SwitchMode(EditorMode::Normal)],
    ).insert(
        s1(bare_key(KeyCode::Backspace)),
        seq![Effect::RemoveCharFromSearch],
    )
}

/// Registers the vim-style bindings for entering and leaving the modes, and the search lifecycle.
fn add_vim_mode_switch(h: &mut KeyCombinationHandler)
    requires
        old(h).wf(),
    ensures
        final(h).wf(),
        final(h)@ == (DispatcherV { register: vim_mode_switch_map(old(h)@.register), ..old(h)@ }),
{
    let k1 = KeyCombinationRegister::i(vec![kc(KeyCode::Esc)]);
    proof {
        assert(k1@ =~= i1(bare_key(KeyCode::Esc)));
    }
    h.insert(k1, atom(Effect::SwitchMode(EditorMode::Normal)));
    let k2 = KeyCombinationRegister::v(vec![kc(KeyCode::Esc)]);
    proof {
        assert(k2@ =~= v1(bare_key(KeyCode::Esc)));
    }
    h.insert(k2, atom(Effect::SwitchMode(EditorMode::Normal)));
    let k3 = KeyCombinationRegister::n(vec![ch('i')]);
    proof {
        assert(k3@ =~= n1(plain_key('i')));
    }
    h.insert(k3, atom(Effect::SwitchMode(EditorMode::Insert)));
    let k4 = KeyCombinationRegister::n(vec![ch('v')]);
    proof {
        assert(k4@ =~= n1(plain_key('v')));
    }
    h.insert(k4, atom(Effect::SwitchMode(EditorMode::Visual)));
    let k5 = KeyCombinationRegister::n(vec![ch('/')]);
    proof {
        assert(k5@ =~= n1(plain_key('/')));
    }
    h.insert(k5, seq2(Effect::StartSearch, Effect::SwitchMode(EditorMode::Search)));
    let k6 = KeyCombinationRegister::s(vec![kc(KeyCode::Enter)]);
    proof {
        assert(k6@ =~= s1(bare_key(KeyCode::Enter)));
    }
    h.insert(k6, seq2(Effect::FindFirst, Effect::SwitchMode(EditorMode::Normal)));
    let k7 = KeyCombinationRegister::n(vec![ch('n')]);
    proof {
        assert(k7@ =~= n1(plain_key('n')));
    }
    h.insert(k7, atom(Effect::FindNext));
    let k8 = KeyCombinationRegister::n(vec![ch('N')]);
    proof {
        assert(k8@ =~= n1(plain_key('N')));
    }
    h.insert(k8, atom(Effect::FindPrevious));
    let k9 = KeyCombinationRegister::s(vec![kc(KeyCode::Esc)]);
    proof {
        assert(k9@ =~= s1(bare_key(KeyCode::Esc)));
    }
    h.insert(k9, seq2(Effect::StopSearch, Effect::SwitchMode(EditorMode::Normal)));
    let k10 = KeyCombinationRegister::s(vec![kc(KeyCode::Backspace)]);
    proof {
        assert(k10@ =~= s1(bare_key(KeyCode::Backspace)));
    }
    h.insert(k10, atom(Effect::RemoveCharFromSearch));
    proof {
        assert(h@ =~= (DispatcherV { register: vim_mode_switch_map(old(h)@.register), ..old(h)@ }));
    }
}

/// The vim-style bindings for single-column motions, and append, over a base registry.
pub open spec fn vim_char_motion_map(m: Map<BindingKey, Seq<Effect>>) -> Map<
    BindingKey,
    Seq<Effect>,
> {
    m.insert(
        n1(plain_key('a')),
        seq![Effect::SwitchMode(EditorMode::Insert), Effect::MoveForward(1)],
    ).insert(
        n1(plain_key('l')),
        seq![Effect::MoveForward(1)],
    ).insert(
        v1(plain_key('l')),
        seq![Effect::MoveForward(1)],
    ).insert(
        n1(bare_key(KeyCode::Right)),
        seq![Effect::MoveForward(1)],
    ).insert(
        v1(bare_key(KeyCode::Right)),
        seq![Effect::MoveForward(1)],
    ).insert(
        i1(bare_key(KeyCode::Right)),
        seq![Effect::MoveForward(1)],
    ).insert(
        n1(plain_key('h')),
        seq![Effect::MoveBackward(1)],
    ).insert(
        v1(plain_key('h')),
        seq![Effect::MoveBackward(1)],
    ).insert(
        n1(bare_key(KeyCode::Left)),
        seq![Effect::MoveBackward(1)],
    ).insert(
        v1(bare_key(KeyCode::Left)),
        seq![Effect::MoveBackward(1)],
    ).insert(
        i1(bare_key(KeyCode::Left)),
        seq![Effect::MoveBackward(1)],
    )
}

/// Registers the vim-style bindings for single-column motions, and append.
fn add_vim_char_motion(h: &mut KeyCombinationHandler)
    requires
        old(h).wf(),
    ensures
        final(h).wf(),
        final(h)@ == (DispatcherV { register: vim_char_motion_map(old(h)@.register), ..old(h)@ }),
{
    let k1 = KeyCombinationRegister::n(vec![ch('a')]);
    proof {
        assert(k1@ =~= n1(plain_key('a')));
    }
    h.insert(k1, seq2(Effect::SwitchMode(EditorMode::Insert), Effect::MoveForward(1)));
    let k2 = KeyCombinationRegister::n(vec![ch('l')]);
    proof {
        assert(k2@ =~= n1(plain_key('l')));
    }
    h.insert(k2, atom(Effect::MoveForward(1)));
    let k3 = KeyCombinationRegister::v(vec![ch('l')]);
    proof {
        assert(k3@ =~= v1(plain_key('l')));
    }
    h.insert(k3, atom(Effect::MoveForward(1)));
    let k4 = KeyCombinationRegister::n(vec![kc(KeyCode::Right)]);
    proof {
        assert(k4@ =~= n1(bare_key(KeyCode::Right)));
    }
    h.insert(k4, atom(Effect::MoveForward(1)));
    let k5 = KeyCombinationRegister::v(vec![kc(KeyCode::Right)]);
    proof {
        assert(k5@ =~= v1(bare_key(KeyCode::Right)));
    }
    h.insert(k5, atom(Effect::MoveForward(1)));
    let k6 = KeyCombinationRegister::i(vec![kc(KeyCode::Right)]);
    proof {
        assert(k6@ =~= i1(bare_key(KeyCode::Right)));
    }
    h.insert(k6, atom(Effect::MoveForward(1)));
    let k7 = KeyCombinationRegister::n(vec![ch('h')]);
    proof {
        assert(k7@ =~= n1(plain_key('h')));
    }
    h.insert(k7, atom(Effect::MoveBackward(1)));
    let k8 = KeyCombinationRegister::v(vec![ch('h')]);
    proof {
        assert(k8@ =~= v1(plain_key('h')));
    }
    h.insert(k8, atom(Effect::MoveBackward(1)));
    let k9 = KeyCombinationRegister::n(vec![kc(KeyCode::Left)]);
    proof {
        assert(k9@ =~= n1(bare_key(KeyCode::Left)));
    }
    h.insert(k9, atom(Effect::MoveBackward(1)));
    let k10 = KeyCombinationRegister::v(vec![kc(KeyCode::Left)]);
    proof {
        assert(k10@ =~= v1(bare_key(KeyCode::Left)));
    }
    h.insert(k10, atom(Effect::MoveBackward(1)));
    let k11 = KeyCombinationRegister::i(vec![kc(KeyCode::Left)]);
    proof {
        assert(k11@ =~= i1(bare_key(KeyCode::Left)));
    }
    h.insert(k11, atom(Effect::MoveBackward(1)));
    proof {
        assert(h@ =~= (DispatcherV { register: vim_char_motion_map(old(h)@.register), ..old(h)@ }));
    }
}

/// The vim-style bindings for row motions, over a base registry.
pub open spec fn vim_vertical_motion_map(m: Map<BindingKey, Seq<Effect>>) -> Map<
    BindingKey,
    Seq<Effect>,
> {
    m.insert(
        n1(plain_key('k')),
        seq![Effect::MoveUp(1)],
    ).insert(
        v1(plain_key('k')),
        seq![Effect::MoveUp(1)],
    ).insert(
        n1(bare_key(KeyCode::Up)),
        seq![Effect::MoveUp(1)],
    ).insert(
        v1(bare_key(KeyCode::Up)),
        seq![Effect::MoveUp(1)],
    ).insert(
        i1(bare_key(KeyCode::Up)),
        seq![Effect::MoveUp(1)],
    ).insert(
        n1(plain_key('j')),
        seq![Effect::MoveDown(1)],
    ).insert(
        v1(plain_key('j')),
        seq![Effect::MoveDown(1)],
    ).insert(
        n1(bare_key(KeyCode::Down)),
        seq![Effect::MoveDown(1)],
    ).insert(
        v1(bare_key(KeyCode::Down)),
        seq![Effect::MoveDown(1)],
    ).insert(
        i1(bare_key(KeyCode::Down)),
        seq![Effect::MoveDown(1)],
    )
}

/// Registers the vim-style bindings for row motions.
fn add_vim_vertical_motion(h: &mut KeyCombinationHandler)
    requires
        old(h).wf(),
    ensures
        final(h).wf(),
        final(h)@ == (DispatcherV { register: vim_vertical_motion_map(old(h)@.register), ..old(h)@ }),
{
    let k1 = KeyCombinationRegister::n(vec![ch('k')]);
    proof {
        assert(k1@ =~= n1(plain_key('k')));
    }
    h.insert(k1, atom(Effect::MoveUp(1)));
    let k2 = KeyCombinationRegister::v(vec![ch('k')]);
    proof {
        assert(k2@ =~= v1(plain_key('k')));
    }
    h.insert(k2, atom(Effect::MoveUp(1)));
    let k3 = KeyCombinationRegister::n(vec![kc(KeyCode::Up)]);
    proof {
        assert(k3@ =~= n1(bare_key(KeyCode::Up)));
    }
    h.insert(k3, atom(Effect::MoveUp(1)));
    let k4 = KeyCombinationRegister::v(vec![kc(KeyCode::Up)]);
    proof {
        assert(k4@ =~= v1(bare_key(KeyCode::Up)));
    }
    h.insert(k4, atom(Effect::MoveUp(1)));
    let k5 = KeyCombinationRegister::i(vec![kc(KeyCode::Up)]);
    proof {
        assert(k5@ =~= i1(bare_key(KeyCode::Up)));
    }
    h.insert(k5, atom(Effect::MoveUp(1)));
    let k6 = KeyCombinationRegister::n(vec![ch('j')]);
    proof {
        assert(k6@ =~= n1(plain_key('j')));
    }
    h.insert(k6, atom(Effect::MoveDown(1)));
    let k7 = KeyCombinationRegister::v(vec![ch('j')]);
    proof {
        assert(k7@ =~= v1(plain_key('j')));
    }
    h.insert(k7, atom(Effect::MoveDown(1)));
    let k8 = KeyCombinationRegister::n(vec![kc(KeyCode::Down)]);
    proof {
        assert(k8@ =~= n1(bare_key(KeyCode::Down)));
    }
    h.insert(k8, atom(Effect::MoveDown(1)));
    let k9 = KeyCombinationRegister::v(vec![kc(KeyCode::Down)]);
    proof {
        assert(k9@ =~= v1(bare_key(KeyCode::Down)));
    }
    h.insert(k9, atom(Effect::MoveDown(1)));
    let k10 = KeyCombinationRegister::i(vec![kc(KeyCode::Down)]);
    proof {
        assert(k10@ =~= i1(bare_key(KeyCode::Down)));
    }
    h.insert(k10, atom(Effect::MoveDown(1)));
    proof {
        assert(h@ =~= (DispatcherV { register: vim_vertical_motion_map(old(h)@.register), ..old(h)@ }));
    }
}

/// The vim-style bindings for word motions and line positions, over a base registry.
pub open spec fn vim_word_and_line_motion_map(m: Map<BindingKey, Seq<Effect>>) -> Map<
    BindingKey,
    Seq<Effect>,
> {
    m.insert(
        n1(plain_key('w')),
        seq![Effect::MoveWordForward(1)],
    ).insert(
        v1(plain_key('w')),
        seq![Effect::MoveWordForward(1)],
    ).insert(
        n1(plain_key('e')),
        seq![Effect::MoveWordForwardToEndOfWord(1)],
    ).insert(
        v1(plain_key('e')),
        seq![Effect::MoveWordForwardToEndOfWord(1)],
    ).insert(
        n1(plain_key('b')),
        seq![Effect::MoveWordBackward(1)],
    ).insert(
        v1(plain_key('b')),
        seq![Effect::MoveWordBackward(1)],
    ).insert(
        n1(plain_key('0')),
        seq![Effect::MoveToStartOfLine],
    ).insert(
        n1(plain_key('_')),
        seq![Effect::MoveToFirst],
    ).insert(
        n1(plain_key('$')),
        seq![Effect::MoveToEndOfLine],
    ).insert(
        v1(plain_key('0')),
        seq![Effect::MoveToStartOfLine],
    ).insert(
        v1(plain_key('_')),
        seq![Effect::MoveToFirst],
    ).insert(
        v1(plain_key('$')),
        seq![Effect::MoveToEndOfLine],
    )
}

/// Registers the vim-style bindings for word motions and line positions.
fn add_vim_word_and_line_motion(h: &mut KeyCombinationHandler)
    requires
        old(h).wf(),
    ensures
        final(h).wf(),
        final(h)@ == (DispatcherV { register: vim_word_and_line_motion_map(old(h)@.register), ..old(h)@ }),
{
    let k1 = KeyCombinationRegister::n(vec![ch('w')]);
    proof {
        assert(k1@ =~= n1(plain_key('w')));
    }
    h.insert(k1, atom(Effect::MoveWordForward(1)));
    let k2 = KeyCombinationRegister::v(vec![ch('w')]);
    proof {
        assert(k2@ =~= v1(plain_key('w')));
    }
    h.insert(k2, atom(Effect::MoveWordForward(1)));
    let k3 = KeyCombinationRegister::n(vec![ch('e')]);
    proof {
        assert(k3@ =~= n1(plain_key('e')));
    }
    h.insert(k3, atom(Effect::MoveWordForwardToEndOfWord(1)));
    let k4 = KeyCombinationRegister::v(vec![ch('e')]);
    proof {
        assert(k4@ =~= v1(plain_key('e')));
    }
    h.insert(k4, atom(Effect::MoveWordForwardToEndOfWord(1)));
    let k5 = KeyCombinationRegister::n(vec![ch('b')]);
    proof {
        assert(k5@ =~= n1(plain_key('b')));
    }
    h.insert(k5, atom(Effect::MoveWordBackward(1)));
    let k6 = KeyCombinationRegister::v(vec![ch('b')]);
    proof {
        assert(k6@ =~= v1(plain_key('b')));
    }
    h.insert(k6, atom(Effect::MoveWordBackward(1)));
    let k7 = KeyCombinationRegister::n(vec![ch('0')]);
    proof {
        assert(k7@ =~= n1(plain_key('0')));
    }
    h.insert(k7, atom(Effect::MoveToStartOfLine));
    let k8 = KeyCombinationRegister::n(vec![ch('_')]);
    proof {
        assert(k8@ =~= n1(plain_key('_')));
    }
    h.insert(k8, atom(Effect::MoveToFirst));
    let k9 = KeyCombinationRegister::n(vec![ch('$')]);
    proof {
        assert(k9@ =~= n1(plain_key('$')));
    }
    h.insert(k9, atom(Effect::MoveToEndOfLine));
    let k10 = KeyCombinationRegister::v(vec![ch('0')]);
    proof {
        assert(k10@ =~= v1(plain_key('0')));
    }
    h.insert(k10, atom(Effect::MoveToStartOfLine));
    let k11 = KeyCombinationRegister::v(vec![ch('_')]);
    proof {
        assert(k11@ =~= v1(plain_key('_')));
    }
    h.insert(k11, atom(Effect::MoveToFirst));
    let k12 = KeyCombinationRegister::v(vec![ch('$')]);
    proof {
        assert(k12@ =~= v1(plain_key('$')));
    }
    h.insert(k12, atom(Effect::MoveToEndOfLine));
    proof {
        assert(h@ =~= (DispatcherV { register: vim_word_and_line_motion_map(old(h)@.register), ..old(h)@ }));
    }
}

/// The vim-style bindings for half-page scrolling, and Home and End, over a base registry.
pub open spec fn vim_paging_map(m: Map<BindingKey, Seq<Effect>>) -> Map<
    BindingKey,
    Seq<Effect>,
> {
    m.insert(
        n1(control_key('d')),
        seq![Effect::MoveHalfPageDown],
    ).insert(
        v1(control_key('d')),
        seq![Effect::MoveHalfPageDown],
    ).insert(
        n1(control_key('u')),
        seq![Effect::MoveHalfPageUp],
    ).insert(
        v1(control_key('u')),
        seq![Effect::MoveHalfPageUp],
    ).insert(
        i1(bare_key(KeyCode::Home)),
        seq![Effect::MoveToStartOfLine],
    ).insert(
        n1(bare_key(KeyCode::Home)),
        seq![Effect::MoveToStartOfLine],
    ).insert(
        v1(bare_key(KeyCode::Home)),
        seq![Effect::MoveToStartOfLine],
    ).insert(
        i1(bare_key(KeyCode::End)),
        seq![Effect::MoveToEndOfLine],
    ).insert(
        n1(bare_key(KeyCode::End)),
        seq![Effect::MoveToEndOfLine],
    ).insert(
        v1(bare_key(KeyCode::End)),
        seq![Effect::MoveToEndOfLine],
    )
}

/// Registers the vim-style bindings for half-page scrolling, and Home and End.
fn add_vim_paging(h: &mut KeyCombinationHandler)
    requires
        old(h).wf(),
    ensures
        final(h).wf(),
        final(h)@ == (DispatcherV { register: vim_paging_map(old(h)@.register), ..old(h)@ }),
{
    let k1 = KeyCombinationRegister::n(vec![ctl('d')]);
    proof {
        assert(k1@ =~= n1(control_key('d')));
    }
    h.insert(k1, atom(Effect::MoveHalfPageDown));
    let k2 = KeyCombinationRegister::v(vec![ctl('d')]);
    proof {
        assert(k2@ =~= v1(control_key('d')));
    }
    h.insert(k2, atom(Effect::MoveHalfPageDown));
    let k3 = KeyCombinationRegister::n(vec![ctl('u')]);
    proof {
        assert(k3@ =~= n1(control_key('u')));
    }
    h.insert(k3, atom(Effect::MoveHalfPageUp));
    let k4 = KeyCombinationRegister::v(vec![ctl('u')]);
    proof {
        assert(k4@ =~= v1(control_key('u')));
    }
    h.insert(k4, atom(Effect::MoveHalfPageUp));
    let k5 = KeyCombinationRegister::i(vec![kc(KeyCode::Home)]);
    proof {
        assert(k5@ =~= i1(bare_key(KeyCode::Home)));
    }
    h.insert(k5, atom(Effect::MoveToStartOfLine));
    let k6 = KeyCombinationRegister::n(vec![kc(KeyCode::Home)]);
    proof {
        assert(k6@ =~= n1(bare_key(KeyCode::Home)));
    }
    h.insert(k6, atom(Effect::MoveToStartOfLine));
    let k7 = KeyCombinationRegister::v(vec![kc(KeyCode::Home)]);
    proof {
        assert(k7@ =~= v1(bare_key(KeyCode::Home)));
    }
    h.insert(k7, atom(Effect::MoveToStartOfLine));
    let k8 = KeyCombinationRegister::i(vec![kc(KeyCode::End)]);
    proof {
        assert(k8@ =~= i1(bare_key(KeyCode::End)));
    }
    h.insert(k8, atom(Effect::MoveToEndOfLine));
    let k9 = KeyCombinationRegister::n(vec![kc(KeyCode::End)]);
    proof {
        assert(k9@ =~= n1(bare_key(KeyCode::End)));
    }
    h.insert(k9, atom(Effect::MoveToEndOfLine));
    let k10 = KeyCombinationRegister::v(vec![kc(KeyCode::End)]);
    proof {
        assert(k10@ =~= v1(bare_key(KeyCode::End)));
    }
    h.insert(k10, atom(Effect::MoveToEndOfLine));
    proof {
        assert(h@ =~= (DispatcherV { register: vim_paging_map(old(h)@.register), ..old(h)@ }));
    }
}

/// The vim-style bindings for insert-mode entry points and whole-buffer motions, over a base registry.
pub open spec fn vim_buffer_motion_map(m: Map<BindingKey, Seq<Effect>>) -> Map<
    BindingKey,
    Seq<Effect>,
> {
    m.insert(
        i1(control_key('u')),
        seq![Effect::DeleteToFirstCharOfLine],
    ).insert(
        n1(plain_key('I')),
        seq![Effect::SwitchMode(EditorMode::Insert), Effect::MoveToFirst],
    ).insert(
        n1(plain_key('A')),
        seq![Effect::SwitchMode(EditorMode::Insert), Effect::MoveToEndOfLine, Effect::MoveForward(1)],
    ).insert(
        n2(plain_key('g'), plain_key('g')),
        seq![Effect::MoveToFirstRow],
    ).insert(
        v2(plain_key('g'), plain_key('g')),
        seq![Effect::MoveToFirstRow],
    ).insert(
        n1(plain_key('G')),
        seq![Effect::MoveToLastRow],
    ).insert(
        v1(plain_key('G')),
        seq![Effect::MoveToLastRow],
    ).insert(
        n1(plain_key('%')),
        seq![Effect::MoveToMatchingBracket],
    ).insert(
        v1(plain_key('%')),
        seq![Effect::MoveToMatchingBracket],
    ).insert(
        n1(plain_key('o')),
        seq![Effect::SwitchMode(EditorMode::Insert), Effect::AppendNewline(1)],
    ).insert(
        n1(plain_key('O')),
        seq![Effect::SwitchMode(EditorMode::Insert), Effect::InsertNewline(1)],
    ).insert(
        i1(bare_key(KeyCode::Enter)),
        seq![Effect::LineBreak(1)],
    )
}

/// Registers the vim-style bindings for insert-mode entry points and whole-buffer motions.
fn add_vim_buffer_motion(h: &mut KeyCombinationHandler)
    requires
        old(h).wf(),
    ensures
        final(h).wf(),
        final(h)@ == (DispatcherV { register: vim_buffer_motion_map(old(h)@.register), ..old(h)@ }),
{
    let k1 = KeyCombinationRegister::i(vec![ctl('u')]);
    proof {
        assert(k1@ =~= i1(control_key('u')));
    }
    h.insert(k1, atom(Effect::DeleteToFirstCharOfLine));
    let k2 = KeyCombinationRegister::n(vec![ch('I')]);
    proof {
        assert(k2@ =~= n1(plain_key('I')));
    }
    h.insert(k2, seq2(Effect::SwitchMode(EditorMode::Insert), Effect::MoveToFirst));
    let k3 = KeyCombinationRegister::n(vec![ch('A')]);
    proof {
        assert(k3@ =~= n1(plain_key('A')));
    }
    h.insert(k3, seq3(Effect::SwitchMode(EditorMode::Insert), Effect::MoveToEndOfLine, Effect::MoveForward(1)));
    let k4 = KeyCombinationRegister::n(vec![ch('g'), ch('g')]);
    proof {
        assert(k4@ =~= n2(plain_key('g'), plain_key('g')));
    }
    h.insert(k4, atom(Effect::MoveToFirstRow));
    let k5 = KeyCombinationRegister::v(vec![ch('g'), ch('g')]);
    proof {
        assert(k5@ =~= v2(plain_key('g'), plain_key('g')));
    }
    h.insert(k5, atom(Effect::MoveToFirstRow));
    let k6 = KeyCombinationRegister::n(vec![ch('G')]);
    proof {
        assert(k6@ =~= n1(plain_key('G')));
    }
    h.insert(k6, atom(Effect::MoveToLastRow));
    let k7 = KeyCombinationRegister::v(vec![ch('G')]);
    proof {
        assert(k7@ =~= v1(plain_key('G')));
    }
    h.insert(k7, atom(Effect::MoveToLastRow));
    let k8 = KeyCombinationRegister::n(vec![ch('%')]);
    proof {
        assert(k8@ =~= n1(plain_key('%')));
    }
    h.insert(k8, atom(Effect::MoveToMatchingBracket));
    let k9 = KeyCombinationRegister::v(vec![ch('%')]);
    proof {
        assert(k9@ =~= v1(plain_key('%')));
    }
    h.insert(k9, atom(Effect::MoveToMatchingBracket));
    let k10 = KeyCombinationRegister::n(vec![ch('o')]);
    proof {
        assert(k10@ =~= n1(plain_key('o')));
    }
    h.insert(k10, seq2(Effect::SwitchMode(EditorMode::Insert), Effect::AppendNewline(1)));
    let k11 = KeyCombinationRegister::n(vec![ch('O')]);
    proof {
        assert(k11@ =~= n1(plain_key('O')));
    }
    h.insert(k11, seq2(Effect::SwitchMode(EditorMode::Insert), Effect::InsertNewline(1)));
    let k12 = KeyCombinationRegister::i(vec![kc(KeyCode::Enter)]);
    proof {
        assert(k12@ =~= i1(bare_key(KeyCode::Enter)));
    }
    h.insert(k12, atom(Effect::LineBreak(1)));
    proof {
        assert(h@ =~= (DispatcherV { register: vim_buffer_motion_map(old(h)@.register), ..old(h)@ }));
    }
}

/// The vim-style bindings for character, line and selection deletion, over a base registry.
pub open spec fn vim_deletion_map(m: Map<BindingKey, Seq<Effect>>) -> Map<
    BindingKey,
    Seq<Effect>,
> {
    m.insert(
        n1(plain_key('x')),
        seq![Effect::RemoveChar(1)],
    ).insert(
        n1(bare_key(KeyCode::Delete)),
        seq![Effect::RemoveChar(1)],
    ).insert(
        i1(bare_key(KeyCode::Backspace)),
        seq![Effect::DeleteChar(1)],
    ).insert(
        i1(bare_key(KeyCode::Delete)),
        seq![Effect::DeleteCharForward(1)],
    ).insert(
        n2(plain_key('d'), plain_key('d')),
        seq![Effect::DeleteLine(1)],
    ).insert(
        n1(plain_key('D')),
        seq![Effect::DeleteToEndOfLine],
    ).insert(
        v1(plain_key('d')),
        seq![Effect::DeleteSelection, Effect::SwitchMode(EditorMode::Normal)],
    ).insert(
        n1(plain_key('J')),
        seq![Effect::JoinLineWithLineBelow],
    )
}

/// Registers the vim-style bindings for character, line and selection deletion.
fn add_vim_deletion(h: &mut KeyCombinationHandler)
    requires
        old(h).wf(),
    ensures
        final(h).wf(),
        final(h)@ == (DispatcherV { register: vim_deletion_map(old(h)@.register), ..old(h)@ }),
{
    let k1 = KeyCombinationRegister::n(vec![ch('x')]);
    proof {
        assert(k1@ =~= n1(plain_key('x')));
    }
    h.insert(k1, atom(Effect::RemoveChar(1)));
    let k2 = KeyCombinationRegister::n(vec![kc(KeyCode::Delete)]);
    proof {
        assert(k2@ =~= n1(bare_key(KeyCode::Delete)));
    }
    h.insert(k2, atom(Effect::RemoveChar(1)));
    let k3 = KeyCombinationRegister::i(vec![kc(KeyCode::Backspace)]);
    proof {
        assert(k3@ =~= i1(bare_key(KeyCode::Backspace)));
    }
    h.insert(k3, atom(Effect::DeleteChar(1)));
    let k4 = KeyCombinationRegister::i(vec![kc(KeyCode::Delete)]);
    proof {
        assert(k4@ =~= i1(bare_key(KeyCode::Delete)));
    }
    h.insert(k4, atom(Effect::DeleteCharForward(1)));
    let k5 = KeyCombinationRegister::n(vec![ch('d'), ch('d')]);
    proof {
        assert(k5@ =~= n2(plain_key('d'), plain_key('d')));
    }
    h.insert(k5, atom(Effect::DeleteLine(1)));
    let k6 = KeyCombinationRegister::n(vec![ch('D')]);
    proof {
        assert(k6@ =~= n1(plain_key('D')));
    }
    h.insert(k6, atom(Effect::DeleteToEndOfLine));
    let k7 = KeyCombinationRegister::v(vec![ch('d')]);
    proof {
        assert(k7@ =~= v1(plain_key('d')));
    }
    h.insert(k7, seq2(Effect::DeleteSelection, Effect::SwitchMode(EditorMode::Normal)));
    let k8 = KeyCombinationRegister::n(vec![ch('J')]);
    proof {
        assert(k8@ =~= n1(plain_key('J')));
    }
    h.insert(k8, atom(Effect::JoinLineWithLineBelow));
    proof {
        assert(h@ =~= (DispatcherV { register: vim_deletion_map(old(h)@.register), ..old(h)@ }));
    }
}

/// The vim-style bindings for selecting the inner word or between delimiters, over a base registry.
pub open spec fn vim_select_inner_map(m: Map<BindingKey, Seq<Effect>>) -> Map<
    BindingKey,
    Seq<Effect>,
> {
    m.insert(
        v2(plain_key('i'), plain_key('w')),
        seq![Effect::SelectInnerWord],
    ).insert(
        v2(plain_key('i'), plain_key('"')),
        seq![Effect::SelectInnerBetween('"', '"')],
    ).insert(
        v2(plain_key('i'), plain_key('\'')),
        seq![Effect::SelectInnerBetween('\'', '\'')],
    ).insert(
        v2(plain_key('i'), plain_key('(')),
        seq![Effect::SelectInnerBetween('(', ')')],
    ).insert(
        v2(plain_key('i'), plain_key(')')),
        seq![Effect::SelectInnerBetween('(', ')')],
    ).insert(
        v2(plain_key('i'), plain_key('{')),
        seq![Effect::SelectInnerBetween('{', '}')],
    ).insert(
        v2(plain_key('i'), plain_key('}')),
        seq![Effect::SelectInnerBetween('{', '}')],
    ).insert(
        v2(plain_key('i'), plain_key('[')),
        seq![Effect::SelectInnerBetween('[', ']')],
    ).insert(
        v2(plain_key('i'), plain_key(']')),
        seq![Effect::SelectInnerBetween('[', ']')],
    )
}

/// Registers the vim-style bindings for selecting the inner word or between delimiters.
fn add_vim_select_inner(h: &mut KeyCombinationHandler)
    requires
        old(h).wf(),
    ensures
        final(h).wf(),
        final(h)@ == (DispatcherV { register: vim_select_inner_map(old(h)@.register), ..old(h)@ }),
{
    let k1 = KeyCombinationRegister::v(vec![ch('i'), ch('w')]);
    proof {
        assert(k1@ =~= v2(plain_key('i'), plain_key('w')));
    }
    h.insert(k1, atom(Effect::SelectInnerWord));
    let k2 = KeyCombinationRegister::v(vec![ch('i'), ch('"')]);
    proof {
        assert(k2@ =~= v2(plain_key('i'), plain_key('"')));
    }
    h.insert(k2, atom(Effect::SelectInnerBetween('"', '"')));
    let k3 = KeyCombinationRegister::v(vec![ch('i'), ch('\'')]);
    proof {
        assert(k3@ =~= v2(plain_key('i'), plain_key('\'')));
    }
    h.insert(k3, atom(Effect::SelectInnerBetween('\'', '\'')));
    let k4 = KeyCombinationRegister::v(vec![ch('i'), ch('(')]);
    proof {
        assert(k4@ =~= v2(plain_key('i'), plain_key('(')));
    }
    h.insert(k4, atom(Effect::SelectInnerBetween('(', ')')));
    let k5 = KeyCombinationRegister::v(vec![ch('i'), ch(')')]);
    proof {
        assert(k5@ =~= v2(plain_key('i'), plain_key(')')));
    }
    h.insert(k5, atom(Effect::SelectInnerBetween('(', ')')));
    let k6 = KeyCombinationRegister::v(vec![ch('i'), ch('{')]);
    proof {
        assert(k6@ =~= v2(plain_key('i'), plain_key('{')));
    }
    h.insert(k6, atom(Effect::SelectInnerBetween('{', '}')));
    let k7 = KeyCombinationRegister::v(vec![ch('i'), ch('}')]);
    proof {
        assert(k7@ =~= v2(plain_key('i'), plain_key('}')));
    }
    h.insert(k7, atom(Effect::SelectInnerBetween('{', '}')));
    let k8 = KeyCombinationRegister::v(vec![ch('i'), ch('[')]);
    proof {
        assert(k8@ =~= v2(plain_key('i'), plain_key('[')));
    }
    h.insert(k8, atom(Effect::SelectInnerBetween('[', ']')));
    let k9 = KeyCombinationRegister::v(vec![ch('i'), ch(']')]);
    proof {
        assert(k9@ =~= v2(plain_key('i'), plain_key(']')));
    }
    h.insert(k9, atom(Effect::SelectInnerBetween('[', ']')));
    proof {
        assert(h@ =~= (DispatcherV { register: vim_select_inner_map(old(h)@.register), ..old(h)@ }));
    }
}

/// The vim-style bindings for changing the inner word or between delimiters, over a base registry.
pub open spec fn vim_change_inner_map(m: Map<BindingKey, Seq<Effect>>) -> Map<
    BindingKey,
    Seq<Effect>,
> {
    m.insert(
        n3(plain_key('c'), plain_key('i'), plain_key('w')),
        seq![Effect::SwitchMode(EditorMode::Insert), Effect::ChangeInnerWord],
    ).insert(
        n3(plain_key('c'), plain_key('i'), plain_key('"')),
        seq![Effect::SwitchMode(EditorMode::Insert), Effect::ChangeInnerBetween('"', '"')],
    ).insert(
        n3(plain_key('c'), plain_key('i'), plain_key('\'')),
        seq![Effect::SwitchMode(EditorMode::Insert), Effect::ChangeInnerBetween('\'', '\'')],
    ).insert(
        n3(plain_key('c'), plain_key('i'), plain_key('(')),
        seq![Effect::SwitchMode(EditorMode::Insert), Effect::ChangeInnerBetween('(', ')')],
    ).insert(
        n3(plain_key('c'), plain_key('i'), plain_key(')')),
        seq![Effect::SwitchMode(EditorMode::Insert), Effect::ChangeInnerBetween('(', ')')],
    ).insert(
        n3(plain_key('c'), plain_key('i'), plain_key('{')),
        seq![Effect::SwitchMode(EditorMode::Insert), Effect::ChangeInnerBetween('{', '}')],
    ).insert(
        n3(plain_key('c'), plain_key('i'), plain_key('}')),
        seq![Effect::SwitchMode(EditorMode::Insert), Effect::ChangeInnerBetween('{', '}')],
    ).insert(
        n3(plain_key('c'), plain_key('i'), plain_key('[')),
        seq![Effect::SwitchMode(EditorMode::Insert), Effect::ChangeInnerBetween('[', ']')],
    ).insert(
        n3(plain_key('c'), plain_key('i'), plain_key(']')),
        seq![Effect::SwitchMode(EditorMode::Insert), Effect::ChangeInnerBetween('[', ']')],
    )
}

/// Registers the vim-style bindings for changing the inner word or between delimiters.
fn add_vim_change_inner(h: &mut KeyCombinationHandler)
    requires
        old(h).wf(),
    ensures
        final(h).wf(),
        final(h)@ == (DispatcherV { register: vim_change_inner_map(old(h)@.register), ..old(h)@ }),
{
    let k1 = KeyCombinationRegister::n(vec![ch('c'), ch('i'), ch('w')]);
    proof {
        assert(k1@ =~= n3(plain_key('c'), plain_key('i'), plain_key('w')));
    }
    h.insert(k1, seq2(Effect::SwitchMode(EditorMode::Insert), Effect::ChangeInnerWord));
    let k2 = KeyCombinationRegister::n(vec![ch('c'), ch('i'), ch('"')]);
    proof {
        assert(k2@ =~= n3(plain_key('c'), plain_key('i'), plain_key('"')));
    }
    h.insert(k2, seq2(Effect::SwitchMode(EditorMode::Insert), Effect::ChangeInnerBetween('"', '"')));
    let k3 = KeyCombinationRegister::n(vec![ch('c'), ch('i'), ch('\'')]);
    proof {
        assert(k3@ =~= n3(plain_key('c'), plain_key('i'), plain_key('\'')));
    }
    h.insert(k3, seq2(Effect::SwitchMode(EditorMode::Insert), Effect::ChangeInnerBetween('\'', '\'')));
    let k4 = KeyCombinationRegister::n(vec![ch('c'), ch('i'), ch('(')]);
    proof {
        assert(k4@ =~= n3(plain_key('c'), plain_key('i'), plain_key('(')));
    }
    h.insert(k4, seq2(Effect::SwitchMode(EditorMode::Insert), Effect::ChangeInnerBetween('(', ')')));
    let k5 = KeyCombinationRegister::n(vec![ch('c'), ch('i'), ch(')')]);
    proof {
        assert(k5@ =~= n3(plain_key('c'), plain_key('i'), plain_key(')')));
    }
    h.insert(k5, seq2(Effect::SwitchMode(EditorMode::Insert), Effect::ChangeInnerBetween('(', ')')));
    let k6 = KeyCombinationRegister::n(vec![ch('c'), ch('i'), ch('{')]);
    proof {
        assert(k6@ =~= n3(plain_key('c'), plain_key('i'), plain_key('{')));
    }
    h.insert(k6, seq2(Effect::SwitchMode(EditorMode::Insert), Effect::ChangeInnerBetween('{', '}')));
    let k7 = KeyCombinationRegister::n(vec![ch('c'), ch('i'), ch('}')]);
    proof {
        assert(k7@ =~= n3(plain_key('c'), plain_key('i'), plain_key('}')));
    }
    h.insert(k7, seq2(Effect::SwitchMode(EditorMode::Insert), Effect::ChangeInnerBetween('{', '}')));
    let k8 = KeyCombinationRegister::n(vec![ch('c'), ch('i'), ch('[')]);
    proof {
        assert(k8@ =~= n3(plain_key('c'), plain_key('i'), plain_key('[')));
    }
    h.insert(k8, seq2(Effect::SwitchMode(EditorMode::Insert), Effect::ChangeInnerBetween('[', ']')));
    let k9 = KeyCombinationRegister::n(vec![ch('c'), ch('i'), ch(']')]);
    proof {
        assert(k9@ =~= n3(plain_key('c'), plain_key('i'), plain_key(']')));
    }
    h.insert(k9, seq2(Effect::SwitchMode(EditorMode::Insert), Effect::ChangeInnerBetween('[', ']')));
    proof {
        assert(h@ =~= (DispatcherV { register: vim_change_inner_map(old(h)@.register), ..old(h)@ }));
    }
}

/// The vim-style bindings for changing and selecting, undo and redo, copy and paste, over a base registry.
pub open spec fn vim_clipboard_map(m: Map<BindingKey, Seq<Effect>>) -> Map<
    BindingKey,
    Seq<Effect>,
> {
    m.insert(
        v1(plain_key('c')),
        seq![Effect::SwitchMode(EditorMode::Insert), Effect::ChangeSelection],
    ).insert(
        v1(plain_key('x')),
        seq![Effect::ChangeSelection, Effect::SwitchMode(EditorMode::Normal)],
    ).insert(
        n1(plain_key('V')),
        seq![Effect::SelectLine],
    ).insert(
        n1(plain_key('u')),
        seq![Effect::Undo],
    ).insert(
        n1(plain_key('r')),
        seq![Effect::Redo],
    ).insert(
        v1(plain_key('y')),
        seq![Effect::CopySelection, Effect::SwitchMode(EditorMode::Normal)],
    ).insert(
        n2(plain_key('y'), plain_key('y')),
        seq![Effect::CopyLine],
    ).insert(
        n1(plain_key('p')),
        seq![Effect::Paste],
    ).insert(
        v1(plain_key('p')),
        seq![Effect::PasteOverSelection, Effect::SwitchMode(EditorMode::Normal)],
    )
}

/// Registers the vim-style bindings for changing and selecting, undo and redo, copy and paste.
fn add_vim_clipboard(h: &mut KeyCombinationHandler)
    requires
        old(h).wf(),
    ensures
        final(h).wf(),
        final(h)@ == (DispatcherV { register: vim_clipboard_map(old(h)@.register), ..old(h)@ }),
{
    let k1 = KeyCombinationRegister::v(vec![ch('c')]);
    proof {
        assert(k1@ =~= v1(plain_key('c')));
    }
    h.insert(k1, seq2(Effect::SwitchMode(EditorMode::Insert), Effect::ChangeSelection));
    let k2 = KeyCombinationRegister::v(vec![ch('x')]);
    proof {
        assert(k2@ =~= v1(plain_key('x')));
    }
    h.insert(k2, seq2(Effect::ChangeSelection, Effect::SwitchMode(EditorMode::Normal)));
    let k3 = KeyCombinationRegister::n(vec![ch('V')]);
    proof {
        assert(k3@ =~= n1(plain_key('V')));
    }
    h.insert(k3, atom(Effect::SelectLine));
    let k4 = KeyCombinationRegister::n(vec![ch('u')]);
    proof {
        assert(k4@ =~= n1(plain_key('u')));
    }
    h.insert(k4, atom(Effect::Undo));
    let k5 = KeyCombinationRegister::n(vec![ch('r')]);
    proof {
        assert(k5@ =~= n1(plain_key('r')));
    }
    h.insert(k5, atom(Effect::Redo));
    let k6 = KeyCombinationRegister::v(vec![ch('y')]);
    proof {
        assert(k6@ =~= v1(plain_key('y')));
    }
    h.insert(k6, seq2(Effect::CopySelection, Effect::SwitchMode(EditorMode::Normal)));
    let k7 = KeyCombinationRegister::n(vec![ch('y'), ch('y')]);
    proof {
        assert(k7@ =~= n2(plain_key('y'), plain_key('y')));
    }
    h.insert(k7, atom(Effect::CopyLine));
    let k8 = KeyCombinationRegister::n(vec![ch('p')]);
    proof {
        assert(k8@ =~= n1(plain_key('p')));
    }
    h.insert(k8, atom(Effect::Paste));
    let k9 = KeyCombinationRegister::v(vec![ch('p')]);
    proof {
        assert(k9@ =~= v1(plain_key('p')));
    }
    h.insert(k9, seq2(Effect::PasteOverSelection, Effect::SwitchMode(EditorMode::Normal)));
    proof {
        assert(h@ =~= (DispatcherV { register: vim_clipboard_map(old(h)@.register), ..old(h)@ }));
    }
}

/// The emacs-style bindings for the search lifecycle, over a base registry.
pub open spec fn emacs_search_map(m: Map<BindingKey, Seq<Effect>>) -> Map<
    BindingKey,
    Seq<Effect>,
> {
    m.insert(
        i1(control_key('s')),
        seq![Effect::StartSearch, Effect::SwitchMode(EditorMode::Search)],
    ).insert(
        s1(control_key('s')),
        seq![Effect::FindNext],
    ).insert(
        s1(control_key('r')),
        seq![Effect::FindPrevious],
    ).insert(
        s1(bare_key(KeyCode::Enter)),
        seq![Effect::SelectCurrentSearch, Effect::SwitchMode(EditorMode::Insert)],
    ).insert(
        s1(control_key('g')),
        seq![Effect::StopSearch, Effect::SwitchMode(EditorMode::Insert)],
    ).insert(
        s1(bare_key(KeyCode::Backspace)),
        seq![Effect::RemoveCharFromSearch],
    )
}

/// Registers the emacs-style bindings for the search lifecycle.
fn add_emacs_search(h: &mut KeyCombinationHandler)
    requires
        old(h).wf(),
    ensures
        final(h).wf(),
        final(h)@ == (DispatcherV { register: emacs_search_map(old(h)@.register), ..old(h)@ }),
{
    let k1 = KeyCombinationRegister::i(vec![ctl('s')]);
    proof {
        assert(k1@ =~= i1(control_key('s')));
    }
    h.insert(k1, seq2(Effect::StartSearch, Effect::SwitchMode(EditorMode::Search)));
    let k2 = KeyCombinationRegister::s(vec![ctl('s')]);
    proof {
        assert(k2@ =~= s1(control_key('s')));
    }
    h.insert(k2, atom(Effect::FindNext));
    let k3 = KeyCombinationRegister::s(vec![ctl('r')]);
    proof {
        assert(k3@ =~= s1(control_key('r')));
    }
    h.insert(k3, atom(Effect::FindPrevious));
    let k4 = KeyCombinationRegister::s(vec![kc(KeyCode::Enter)]);
    proof {
        assert(k4@ =~= s1(bare_key(KeyCode::Enter)));
    }
    h.insert(k4, seq2(Effect::SelectCurrentSearch, Effect::SwitchMode(EditorMode::Insert)));
    let k5 = KeyCombinationRegister::s(vec![ctl('g')]);
    proof {
        assert(k5@ =~= s1(control_key('g')));
    }
    h.insert(k5, seq2(Effect::StopSearch, Effect::SwitchMode(EditorMode::Insert)));
    let k6 = KeyCombinationRegister::s(vec![kc(KeyCode::Backspace)]);
    proof {
        assert(k6@ =~= s1(bare_key(KeyCode::Backspace)));
    }
    h.insert(k6, atom(Effect::RemoveCharFromSearch));
    proof {
        assert(h@ =~= (DispatcherV { register: emacs_search_map(old(h)@.register), ..old(h)@ }));
    }
}

/// The emacs-style bindings for single-column and row motions, over a base registry.
pub open spec fn emacs_char_motion_map(m: Map<BindingKey, Seq<Effect>>) -> Map<
    BindingKey,
    Seq<Effect>,
> {
    m.insert(
        i1(control_key('f')),
        seq![Effect::MoveForward(1)],
    ).insert(
        i1(bare_key(KeyCode::Right)),
        seq![Effect::MoveForward(1)],
    ).insert(
        i1(control_key('b')),
        seq![Effect::MoveBackward(1)],
    ).insert(
        i1(bare_key(KeyCode::Left)),
        seq![Effect::MoveBackward(1)],
    ).insert(
        i1(control_key('p')),
        seq![Effect::MoveUp(1)],
    ).insert(
        i1(bare_key(KeyCode::Up)),
        seq![Effect::MoveUp(1)],
    ).insert(
        i1(control_key('n')),
        seq![Effect::MoveDown(1)],
    ).insert(
        i1(bare_key(KeyCode::Down)),
        seq![Effect::MoveDown(1)],
    )
}

/// Registers the emacs-style bindings for single-column and row motions.
fn add_emacs_char_motion(h: &mut KeyCombinationHandler)
    requires
        old(h).wf(),
    ensures
        final(h).wf(),
        final(h)@ == (DispatcherV { register: emacs_char_motion_map(old(h)@.register), ..old(h)@ }),
{
    let k1 = KeyCombinationRegister::i(vec![ctl('f')]);
    proof {
        assert(k1@ =~= i1(control_key('f')));
    }
    h.insert(k1, atom(Effect::MoveForward(1)));
    let k2 = KeyCombinationRegister::i(vec![kc(KeyCode::Right)]);
    proof {
        assert(k2@ =~= i1(bare_key(KeyCode::Right)));
    }
    h.insert(k2, atom(Effect::MoveForward(1)));
    let k3 = KeyCombinationRegister::i(vec![ctl('b')]);
    proof {
        assert(k3@ =~= i1(control_key('b')));
    }
    h.insert(k3, atom(Effect::MoveBackward(1)));
    let k4 = KeyCombinationRegister::i(vec![kc(KeyCode::Left)]);
    proof {
        assert(k4@ =~= i1(bare_key(KeyCode::Left)));
    }
    h.insert(k4, atom(Effect::MoveBackward(1)));
    let k5 = KeyCombinationRegister::i(vec![ctl('p')]);
    proof {
        assert(k5@ =~= i1(control_key('p')));
    }
    h.insert(k5, atom(Effect::MoveUp(1)));
    let k6 = KeyCombinationRegister::i(vec![kc(KeyCode::Up)]);
    proof {
        assert(k6@ =~= i1(bare_key(KeyCode::Up)));
    }
    h.insert(k6, atom(Effect::MoveUp(1)));
    let k7 = KeyCombinationRegister::i(vec![ctl('n')]);
    proof {
        assert(k7@ =~= i1(control_key('n')));
    }
    h.insert(k7, atom(Effect::MoveDown(1)));
    let k8 = KeyCombinationRegister::i(vec![kc(KeyCode::Down)]);
    proof {
        assert(k8@ =~= i1(bare_key(KeyCode::Down)));
    }
    h.insert(k8, atom(Effect::MoveDown(1)));
    proof {
        assert(h@ =~= (DispatcherV { register: emacs_char_motion_map(old(h)@.register), ..old(h)@ }));
    }
}

/// The emacs-style bindings for word, page, buffer and line motions, over a base registry.
pub open spec fn emacs_long_motion_map(m: Map<BindingKey, Seq<Effect>>) -> Map<
    BindingKey,
    Seq<Effect>,
> {
    m.insert(
        i1(alt_key('f')),
        seq![Effect::MoveWordForward(1)],
    ).insert(
        i1(alt_key('b')),
        seq![Effect::MoveWordBackward(1)],
    ).insert(
        i1(control_key('v')),
        seq![Effect::MoveHalfPageDown],
    ).insert(
        i1(alt_key('v')),
        seq![Effect::MoveHalfPageUp],
    ).insert(
        i1(alt_key('<')),
        seq![Effect::MoveToFirstRow],
    ).insert(
        i1(alt_key('>')),
        seq![Effect::MoveToLastRow],
    ).insert(
        i1(control_key('a')),
        seq![Effect::MoveToStartOfLine],
    ).insert(
        i1(bare_key(KeyCode::Home)),
        seq![Effect::MoveToStartOfLine],
    ).insert(
        i1(bare_key(KeyCode::End)),
        seq![Effect::MoveToEndOfLine],
    ).insert(
        i1(control_key('e')),
        seq![Effect::MoveToEndOfLine],
    )
}

/// Registers the emacs-style bindings for word, page, buffer and line motions.
fn add_emacs_long_motion(h: &mut KeyCombinationHandler)
    requires
        old(h).wf(),
    ensures
        final(h).wf(),
        final(h)@ == (DispatcherV { register: emacs_long_motion_map(old(h)@.register), ..old(h)@ }),
{
    let k1 = KeyCombinationRegister::i(vec![met('f')]);
    proof {
        assert(k1@ =~= i1(alt_key('f')));
    }
    h.insert(k1, atom(Effect::MoveWordForward(1)));
    let k2 = KeyCombinationRegister::i(vec![met('b')]);
    proof {
        assert(k2@ =~= i1(alt_key('b')));
    }
    h.insert(k2, atom(Effect::MoveWordBackward(1)));
    let k3 = KeyCombinationRegister::i(vec![ctl('v')]);
    proof {
        assert(k3@ =~= i1(control_key('v')));
    }
    h.insert(k3, atom(Effect::MoveHalfPageDown));
    let k4 = KeyCombinationRegister::i(vec![met('v')]);
    proof {
        assert(k4@ =~= i1(alt_key('v')));
    }
    h.insert(k4, atom(Effect::MoveHalfPageUp));
    let k5 = KeyCombinationRegister::i(vec![met('<')]);
    proof {
        assert(k5@ =~= i1(alt_key('<')));
    }
    h.insert(k5, atom(Effect::MoveToFirstRow));
    let k6 = KeyCombinationRegister::i(vec![met('>')]);
    proof {
        assert(k6@ =~= i1(alt_key('>')));
    }
    h.insert(k6, atom(Effect::MoveToLastRow));
    let k7 = KeyCombinationRegister::i(vec![ctl('a')]);
    proof {
        assert(k7@ =~= i1(control_key('a')));
    }
    h.insert(k7, atom(Effect::MoveToStartOfLine));
    let k8 = KeyCombinationRegister::i(vec![kc(KeyCode::Home)]);
    proof {
        assert(k8@ =~= i1(bare_key(KeyCode::Home)));
    }
    h.insert(k8, atom(Effect::MoveToStartOfLine));
    let k9 = KeyCombinationRegister::i(vec![kc(KeyCode::End)]);
    proof {
        assert(k9@ =~= i1(bare_key(KeyCode::End)));
    }
    h.insert(k9, atom(Effect::MoveToEndOfLine));
    let k10 = KeyCombinationRegister::i(vec![ctl('e')]);
    proof {
        assert(k10@ =~= i1(control_key('e')));
    }
    h.insert(k10, atom(Effect::MoveToEndOfLine));
    proof {
        assert(h@ =~= (DispatcherV { register: emacs_long_motion_map(old(h)@.register), ..old(h)@ }));
    }
}

/// The emacs-style bindings for kills, line breaks, undo and redo, and yank, over a base registry.
pub open spec fn emacs_editing_map(m: Map<BindingKey, Seq<Effect>>) -> Map<
    BindingKey,
    Seq<Effect>,
> {
    m.insert(
        i1(control_key('u')),
        seq![Effect::DeleteToFirstCharOfLine],
    ).insert(
        i1(control_key('k')),
        seq![Effect::DeleteToEndOfLine],
    ).insert(
        i1(control_key('o')),
        seq![Effect::LineBreak(1), Effect::MoveUp(1), Effect::MoveToEndOfLine],
    ).insert(
        i1(bare_key(KeyCode::Enter)),
        seq![Effect::LineBreak(1)],
    ).insert(
        i1(control_key('j')),
        seq![Effect::LineBreak(1)],
    ).insert(
        i1(bare_key(KeyCode::Backspace)),
        seq![Effect::DeleteChar(1)],
    ).insert(
        i1(control_key('h')),
        seq![Effect::DeleteChar(1)],
    ).insert(
        i1(control_key('d')),
        seq![Effect::DeleteCharForward(1)],
    ).insert(
        i1(alt_key('d')),
        seq![Effect::SwitchMode(EditorMode::Visual), Effect::MoveWordForwardToEndOfWord(1), Effect::DeleteSelection, Effect::SwitchMode(EditorMode::Insert)],
    ).insert(
        i1(alt_bare_key(KeyCode::Backspace)),
        seq![Effect::SwitchMode(EditorMode::Visual), Effect::MoveWordBackward(1), Effect::DeleteSelection, Effect::SwitchMode(EditorMode::Insert)],
    ).insert(
        i1(control_key('/')),
        seq![Effect::Undo],
    ).insert(
        i1(control_key('r')),
        seq![Effect::Redo],
    ).insert(
        i1(control_key('y')),
        seq![Effect::Paste],
    )
}

/// Registers the emacs-style bindings for kills, line breaks, undo and redo, and yank.
fn add_emacs_editing(h: &mut KeyCombinationHandler)
    requires
        old(h).wf(),
    ensures
        final(h).wf(),
        final(h)@ == (DispatcherV { register: emacs_editing_map(old(h)@.register), ..old(h)@ }),
{
    let k1 = KeyCombinationRegister::i(vec![ctl('u')]);
    proof {
        assert(k1@ =~= i1(control_key('u')));
    }
    h.insert(k1, atom(Effect::DeleteToFirstCharOfLine));
    let k2 = KeyCombinationRegister::i(vec![ctl('k')]);
    proof {
        assert(k2@ =~= i1(control_key('k')));
    }
    h.insert(k2, atom(Effect::DeleteToEndOfLine));
    let k3 = KeyCombinationRegister::i(vec![ctl('o')]);
    proof {
        assert(k3@ =~= i1(control_key('o')));
    }
    h.insert(k3, seq3(Effect::LineBreak(1), Effect::MoveUp(1), Effect::MoveToEndOfLine));
    let k4 = KeyCombinationRegister::i(vec![kc(KeyCode::Enter)]);
    proof {
        assert(k4@ =~= i1(bare_key(KeyCode::Enter)));
    }
    h.insert(k4, atom(Effect::LineBreak(1)));
    let k5 = KeyCombinationRegister::i(vec![ctl('j')]);
    proof {
        assert(k5@ =~= i1(control_key('j')));
    }
    h.insert(k5, atom(Effect::LineBreak(1)));
    let k6 = KeyCombinationRegister::i(vec![kc(KeyCode::Backspace)]);
    proof {
        assert(k6@ =~= i1(bare_key(KeyCode::Backspace)));
    }
    h.insert(k6, atom(Effect::DeleteChar(1)));
    let k7 = KeyCombinationRegister::i(vec![ctl('h')]);
    proof {
        assert(k7@ =~= i1(control_key('h')));
    }
    h.insert(k7, atom(Effect::DeleteChar(1)));
    let k8 = KeyCombinationRegister::i(vec![ctl('d')]);
    proof {
        assert(k8@ =~= i1(control_key('d')));
    }
    h.insert(k8, atom(Effect::DeleteCharForward(1)));
    let k9 = KeyCombinationRegister::i(vec![met('d')]);
    proof {
        assert(k9@ =~= i1(alt_key('d')));
    }
    h.insert(k9, seq4(Effect::SwitchMode(EditorMode::Visual), Effect::MoveWordForwardToEndOfWord(1), Effect::DeleteSelection, Effect::SwitchMode(EditorMode::Insert)));
    let k10 = KeyCombinationRegister::i(vec![KeyCombination::one_key(KeyCode::Backspace, KeyModifiers::alt())]);
    proof {
        assert(k10@ =~= i1(alt_bare_key(KeyCode::Backspace)));
    }
    h.insert(k10, seq4(Effect::SwitchMode(EditorMode::Visual), Effect::MoveWordBackward(1), Effect::DeleteSelection, Effect::SwitchMode(EditorMode::Insert)));
    let k11 = KeyCombinationRegister::i(vec![ctl('/')]);
    proof {
        assert(k11@ =~= i1(control_key('/')));
    }
    h.insert(k11, atom(Effect::Undo));
    let k12 = KeyCombinationRegister::i(vec![ctl('r')]);
    proof {
        assert(k12@ =~= i1(control_key('r')));
    }
    h.insert(k12, atom(Effect::Redo));
    let k13 = KeyCombinationRegister::i(vec![ctl('y')]);
    proof {
        assert(k13@ =~= i1(control_key('y')));
    }
    h.insert(k13, atom(Effect::Paste));
    proof {
        assert(h@ =~= (DispatcherV { register: emacs_editing_map(old(h)@.register), ..old(h)@ }));
    }
}
/// The complete vim-style registry over a base registry: every binding the
/// vim preset registers, in registration order.
pub open spec fn vim_map(m: Map<BindingKey, Seq<Effect>>) -> Map<BindingKey, Seq<Effect>> {
    vim_clipboard_map(vim_change_inner_map(vim_select_inner_map(vim_deletion_map(vim_buffer_motion_map(vim_paging_map(vim_word_and_line_motion_map(vim_vertical_motion_map(vim_char_motion_map(vim_mode_switch_map(m))))))))))
}

/// The complete emacs-style registry over a base registry: every binding the
/// emacs preset registers, in registration order.
pub open spec fn emacs_map(m: Map<BindingKey, Seq<Effect>>) -> Map<BindingKey, Seq<Effect>> {
    emacs_editing_map(emacs_long_motion_map(emacs_char_motion_map(emacs_search_map(m))))
}

/// Registers the full vim-style keymap.
fn vim_keybindings(h: &mut KeyCombinationHandler)
    requires
        old(h).wf(),
    ensures
        final(h).wf(),
        final(h)@ == (DispatcherV { register: vim_map(old(h)@.register), ..old(h)@ }),
{
    add_vim_mode_switch(h);
    add_vim_char_motion(h);
    add_vim_vertical_motion(h);
    add_vim_word_and_line_motion(h);
    add_vim_paging(h);
    add_vim_buffer_motion(h);
    add_vim_deletion(h);
    add_vim_select_inner(h);
    add_vim_change_inner(h);
    add_vim_clipboard(h);
}

/// Registers the full emacs-style keymap.
fn emacs_keybindings(h: &mut KeyCombinationHandler)
    requires
        old(h).wf(),
    ensures
        final(h).wf(),
        final(h)@ == (DispatcherV { register: emacs_map(old(h)@.register), ..old(h)@ }),
{
    add_emacs_search(h);
    add_emacs_char_motion(h);
    add_emacs_long_motion(h);
    add_emacs_editing(h);
}

impl KeyCombinationHandler {
    /// A dispatcher populated with exactly the vim-style keymap — the ensures
    /// fixes the whole registry as [`vim_map`] — with no pending chord;
    /// literal characters in Insert mode are inserted without taking an undo
    /// checkpoint.
    pub fn vim_mode() -> (r: KeyCombinationHandler)
        ensures
            r.wf(),
            r@.pending == Seq::<KeyCombination>::empty(),
            r@.capture_on_insert == false,
            r@.register == vim_map(Map::empty()),
    {
        let mut h = KeyCombinationHandler::empty(false);
        vim_keybindings(&mut h);
        h
    }

    /// A dispatcher populated with exactly the emacs-style keymap — the
    /// ensures fixes the whole registry as [`emacs_map`] — with no pending
    /// chord; every literal character inserted in Insert mode first takes an
    /// undo checkpoint.
    pub fn emacs_mode() -> (r: KeyCombinationHandler)
        ensures
            r.wf(),
            r@.pending == Seq::<KeyCombination>::empty(),
            r@.capture_on_insert == true,
            r@.register == emacs_map(Map::empty()),
    {
        let mut h = KeyCombinationHandler::empty(true);
        emacs_keybindings(&mut h);
        h
    }
}

/// Two binding keys differ when their modes, their chord lengths, or their
/// chords' first keys differ.
proof fn lemma_binding_neq(k1: BindingKey, k2: BindingKey)
    requires
        k1.mode != k2.mode || k1.keys.len() != k2.keys.len() || (k1.keys.len() > 0
            && k2.keys.len() > 0 && k1.keys[0] != k2.keys[0]),
    ensures
        k1 != k2,
{
}

/// The emacs keymap's "forward" control-chord, dispatched while Insert mode
/// is active, resolves through the registry to the one-column forward motion
/// and takes no undo checkpoint: checkpointing is confined to the
/// literal-character passthrough branch, never to registry-resolved motions.
/// When the cursor has room on its line, it moves exactly one column
/// forward; at the end of the line the motion clamps there.
pub proof fn lemma_emacs_forward_chord_takes_no_checkpoint(d: DispatcherV, s: EditorStateV)
    requires
        d.register == emacs_map(Map::empty()),
        d.pending == Seq::<KeyCombination>::empty(),
        s.mode == EditorMode::Insert,
    ensures
        dispatch_step(d, control_key('f'), s).0.pending == Seq::<KeyCombination>::empty(),
        dispatch_step(d, control_key('f'), s).1.checkpoints == s.checkpoints,
        dispatch_step(d, control_key('f'), s).1.lines == s.lines,
        dispatch_step(d, control_key('f'), s).1.mode == s.mode,
        s.col < line_len(s.lines, s.row) ==> dispatch_step(d, control_key('f'), s).1.col == s.col
            + 1,
{
    let k = control_key('f');
    assert(!insert_passthrough(s.mode, k));
    assert(!search_passthrough(s.mode, k));
    let p = d.pending.push(k);
    let bk = BindingKey { mode: s.mode, keys: p };
    assert(bk =~= i1(control_key('f')));
    assert(d.register.dom().contains(bk));
    lemma_binding_neq(i1(control_key('f')), i1(bare_key(KeyCode::Right)));
    lemma_binding_neq(i1(control_key('f')), i1(control_key('b')));
    lemma_binding_neq(i1(control_key('f')), i1(bare_key(KeyCode::Left)));
    lemma_binding_neq(i1(control_key('f')), i1(control_key('p')));
    lemma_binding_neq(i1(control_key('f')), i1(bare_key(KeyCode::Up)));
    lemma_binding_neq(i1(control_key('f')), i1(control_key('n')));
    lemma_binding_neq(i1(control_key('f')), i1(bare_key(KeyCode::Down)));
    lemma_binding_neq(i1(control_key('f')), i1(alt_key('f')));
    lemma_binding_neq(i1(control_key('f')), i1(alt_key('b')));
    lemma_binding_neq(i1(control_key('f')), i1(control_key('v')));
    lemma_binding_neq(i1(control_key('f')), i1(alt_key('v')));
    lemma_binding_neq(i1(control_key('f')), i1(alt_key('<')));
    lemma_binding_neq(i1(control_key('f')), i1(alt_key('>')));
    lemma_binding_neq(i1(control_key('f')), i1(control_key('a')));
    lemma_binding_neq(i1(control_key('f')), i1(bare_key(KeyCode::Home)));
    lemma_binding_neq(i1(control_key('f')), i1(bare_key(KeyCode::End)));
    lemma_binding_neq(i1(control_key('f')), i1(control_key('e')));
    lemma_binding_neq(i1(control_key('f')), i1(control_key('u')));
    lemma_binding_neq(i1(control_key('f')), i1(control_key('k')));
    lemma_binding_neq(i1(control_key('f')), i1(control_key('o')));
    lemma_binding_neq(i1(control_key('f')), i1(bare_key(KeyCode::Enter)));
    lemma_binding_neq(i1(control_key('f')), i1(control_key('j')));
    lemma_binding_neq(i1(control_key('f')), i1(bare_key(KeyCode::Backspace)));
    lemma_binding_neq(i1(control_key('f')), i1(control_key('h')));
    lemma_binding_neq(i1(control_key('f')), i1(control_key('d')));
    lemma_binding_neq(i1(control_key('f')), i1(alt_key('d')));
    lemma_binding_neq(i1(control_key('f')), i1(alt_bare_key(KeyCode::Backspace)));
    lemma_binding_neq(i1(control_key('f')), i1(control_key('/')));
    lemma_binding_neq(i1(control_key('f')), i1(control_key('r')));
    lemma_binding_neq(i1(control_key('f')), i1(control_key('y')));
    assert(d.register[bk] == seq![Effect::MoveForward(1)]);
    let es = seq![Effect::MoveForward(1)];
    assert(es.drop_first() =~= Seq::<Effect>::empty());
    let s1 = apply_effect(s, Effect::MoveForward(1));
    assert(apply_effects(s1, Seq::<Effect>::empty()) == s1);
    assert(apply_effects(s, es) == s1);
}

/// The vim keymap binds no one-key `d` chord in Normal mode: the plain `d`
/// key opens the two-key line-deletion chord instead.
#[verifier::rlimit(60)]
proof fn lemma_vim_map_no_single_d()
    ensures
        !vim_map(Map::empty()).dom().contains(n1(plain_key('d'))),
{
    let m1 = vim_mode_switch_map(Map::<BindingKey, Seq<Effect>>::empty());
    assert(!m1.dom().contains(n1(plain_key('d')))) by {
        lemma_binding_neq(n1(plain_key('d')), i1(bare_key(KeyCode::Esc)));
        lemma_binding_neq(n1(plain_key('d')), v1(bare_key(KeyCode::Esc)));
        lemma_binding_neq(n1(plain_key('d')), n1(plain_key('i')));
        lemma_binding_neq(n1(plain_key('d')), n1(plain_key('v')));
        lemma_binding_neq(n1(plain_key('d')), n1(plain_key('/')));
        lemma_binding_neq(n1(plain_key('d')), s1(bare_key(KeyCode::Enter)));
        lemma_binding_neq(n1(plain_key('d')), n1(plain_key('n')));
        lemma_binding_neq(n1(plain_key('d')), n1(plain_key('N')));
        lemma_binding_neq(n1(plain_key('d')), s1(bare_key(KeyCode::Esc)));
        lemma_binding_neq(n1(plain_key('d')), s1(bare_key(KeyCode::Backspace)));
    }
    let m2 = vim_char_motion_map(m1);
    assert(!m2.dom().contains(n1(plain_key('d')))) by {
        lemma_binding_neq(n1(plain_key('d')), n1(plain_key('a')));
        lemma_binding_neq(n1(plain_key('d')), n1(plain_key('l')));
        lemma_binding_neq(n1(plain_key('d')), v1(plain_key('l')));
        lemma_binding_neq(n1(plain_key('d')), n1(bare_key(KeyCode::Right)));
        lemma_binding_neq(n1(plain_key('d')), v1(bare_key(KeyCode::Right)));
        lemma_binding_neq(n1(plain_key('d')), i1(bare_key(KeyCode::Right)));
        lemma_binding_neq(n1(plain_key('d')), n1(plain_key('h')));
        lemma_binding_neq(n1(plain_key('d')), v1(plain_key('h')));
        lemma_binding_neq(n1(plain_key('d')), n1(bare_key(KeyCode::Left)));
        lemma_binding_neq(n1(plain_key('d')), v1(bare_key(KeyCode::Left)));
        lemma_binding_neq(n1(plain_key('d')), i1(bare_key(KeyCode::Left)));
    }
    let m3 = vim_vertical_motion_map(m2);
    assert(!m3.dom().contains(n1(plain_key('d')))) by {
        lemma_binding_neq(n1(plain_key('d')), n1(plain_key('k')));
        lemma_binding_neq(n1(plain_key('d')), v1(plain_key('k')));
        lemma_binding_neq(n1(plain_key('d')), n1(bare_key(KeyCode::Up)));
        lemma_binding_neq(n1(plain_key('d')), v1(bare_key(KeyCode::Up)));
        lemma_binding_neq(n1(plain_key('d')), i1(bare_key(KeyCode::Up)));
        lemma_binding_neq(n1(plain_key('d')), n1(plain_key('j')));
        lemma_binding_neq(n1(plain_key('d')), v1(plain_key('j')));
        lemma_binding_neq(n1(plain_key('d')), n1(bare_key(KeyCode::Down)));
        lemma_binding_neq(n1(plain_key('d')), v1(bare_key(KeyCode::Down)));
        lemma_binding_neq(n1(plain_key('d')), i1(bare_key(KeyCode::Down)));
    }
    let m4 = vim_word_and_line_motion_map(m3);
    assert(!m4.dom().contains(n1(plain_key('d')))) by {
        lemma_binding_neq(n1(plain_key('d')), n1(plain_key('w')));
        lemma_binding_neq(n1(plain_key('d')), v1(plain_key('w')));
        lemma_binding_neq(n1(plain_key('d')), n1(plain_key('e')));
        lemma_binding_neq(n1(plain_key('d')), v1(plain_key('e')));
        lemma_binding_neq(n1(plain_key('d')), n1(plain_key('b')));
        lemma_binding_neq(n1(plain_key('d')), v1(plain_key('b')));
        lemma_binding_neq(n1(plain_key('d')), n1(plain_key('0')));
        lemma_binding_neq(n1(plain_key('d')), n1(plain_key('_')));
        lemma_binding_neq(n1(plain_key('d')), n1(plain_key('$')));
        lemma_binding_neq(n1(plain_key('d')), v1(plain_key('0')));
        lemma_binding_neq(n1(plain_key('d')), v1(plain_key('_')));
        lemma_binding_neq(n1(plain_key('d')), v1(plain_key('$')));
    }
    let m5 = vim_paging_map(m4);
    assert(!m5.dom().contains(n1(plain_key('d')))) by {
        lemma_binding_neq(n1(plain_key('d')), n1(control_key('d')));
        lemma_binding_neq(n1(plain_key('d')), v1(control_key('d')));
        lemma_binding_neq(n1(plain_key('d')), n1(control_key('u')));
        lemma_binding_neq(n1(plain_key('d')), v1(control_key('u')));
        lemma_binding_neq(n1(plain_key('d')), i1(bare_key(KeyCode::Home)));
        lemma_binding_neq(n1(plain_key('d')), n1(bare_key(KeyCode::Home)));
        lemma_binding_neq(n1(plain_key('d')), v1(bare_key(KeyCode::Home)));
        lemma_binding_neq(n1(plain_key('d')), i1(bare_key(KeyCode::End)));
        lemma_binding_neq(n1(plain_key('d')), n1(bare_key(KeyCode::End)));
        lemma_binding_neq(n1(plain_key('d')), v1(bare_key(KeyCode::End)));
    }
    let m6 = vim_buffer_motion_map(m5);
    assert(!m6.dom().contains(n1(plain_key('d')))) by {
        lemma_binding_neq(n1(plain_key('d')), i1(control_key('u')));
        lemma_binding_neq(n1(plain_key('d')), n1(plain_key('I')));
        lemma_binding_neq(n1(plain_key('d')), n1(plain_key('A')));
        lemma_binding_neq(n1(plain_key('d')), n2(plain_key('g'), plain_key('g')));
        lemma_binding_neq(n1(plain_key('d')), v2(plain_key('g'), plain_key('g')));
        lemma_binding_neq(n1(plain_key('d')), n1(plain_key('G')));
        lemma_binding_neq(n1(plain_key('d')), v1(plain_key('G')));
        lemma_binding_neq(n1(plain_key('d')), n1(plain_key('%')));
        lemma_binding_neq(n1(plain_key('d')), v1(plain_key('%')));
        lemma_binding_neq(n1(plain_key('d')), n1(plain_key('o')));
        lemma_binding_neq(n1(plain_key('d')), n1(plain_key('O')));
        lemma_binding_neq(n1(plain_key('d')), i1(bare_key(KeyCode::Enter)));
    }
    let m7 = vim_deletion_map(m6);
    assert(!m7.dom().contains(n1(plain_key('d')))) by {
        lemma_binding_neq(n1(plain_key('d')), n1(plain_key('x')));
        lemma_binding_neq(n1(plain_key('d')), n1(bare_key(KeyCode::Delete)));
        lemma_binding_neq(n1(plain_key('d')), i1(bare_key(KeyCode::Backspace)));
        lemma_binding_neq(n1(plain_key('d')), i1(bare_key(KeyCode::Delete)));
        lemma_binding_neq(n1(plain_key('d')), n2(plain_key('d'), plain_key('d')));
        lemma_binding_neq(n1(plain_key('d')), n1(plain_key('D')));
        lemma_binding_neq(n1(plain_key('d')), v1(plain_key('d')));
        lemma_binding_neq(n1(plain_key('d')), n1(plain_key('J')));
    }
    let m8 = vim_select_inner_map(m7);
    assert(!m8.dom().contains(n1(plain_key('d')))) by {
        lemma_binding_neq(n1(plain_key('d')), v2(plain_key('i'), plain_key('w')));
        lemma_binding_neq(n1(plain_key('d')), v2(plain_key('i'), plain_key('"')));
        lemma_binding_neq(n1(plain_key('d')), v2(plain_key('i'), plain_key('\'')));
        lemma_binding_neq(n1(plain_key('d')), v2(plain_key('i'), plain_key('(')));
        lemma_binding_neq(n1(plain_key('d')), v2(plain_key('i'), plain_key(')')));
        lemma_binding_neq(n1(plain_key('d')), v2(plain_key('i'), plain_key('{')));
        lemma_binding_neq(n1(plain_key('d')), v2(plain_key('i'), plain_key('}')));
        lemma_binding_neq(n1(plain_key('d')), v2(plain_key('i'), plain_key('[')));
        lemma_binding_neq(n1(plain_key('d')), v2(plain_key('i'), plain_key(']')));
    }
    let m9 = vim_change_inner_map(m8);
    assert(!m9.dom().contains(n1(plain_key('d')))) by {
        lemma_binding_neq(n1(plain_key('d')), n3(plain_key('c'), plain_key('i'), plain_key('w')));
        lemma_binding_neq(n1(plain_key('d')), n3(plain_key('c'), plain_key('i'), plain_key('"')));
        lemma_binding_neq(n1(plain_key('d')), n3(plain_key('c'), plain_key('i'), plain_key('\'')));
        lemma_binding_neq(n1(plain_key('d')), n3(plain_key('c'), plain_key('i'), plain_key('(')));
        lemma_binding_neq(n1(plain_key('d')), n3(plain_key('c'), plain_key('i'), plain_key(')')));
        lemma_binding_neq(n1(plain_key('d')), n3(plain_key('c'), plain_key('i'), plain_key('{')));
        lemma_binding_neq(n1(plain_key('d')), n3(plain_key('c'), plain_key('i'), plain_key('}')));
        lemma_binding_neq(n1(plain_key('d')), n3(plain_key('c'), plain_key('i'), plain_key('[')));
        lemma_binding_neq(n1(plain_key('d')), n3(plain_key('c'), plain_key('i'), plain_key(']')));
    }
    let m10 = vim_clipboard_map(m9);
    assert(!m10.dom().contains(n1(plain_key('d')))) by {
        lemma_binding_neq(n1(plain_key('d')), v1(plain_key('c')));
        lemma_binding_neq(n1(plain_key('d')), v1(plain_key('x')));
        lemma_binding_neq(n1(plain_key('d')), n1(plain_key('V')));
        lemma_binding_neq(n1(plain_key('d')), n1(plain_key('u')));
        lemma_binding_neq(n1(plain_key('d')), n1(plain_key('r')));
        lemma_binding_neq(n1(plain_key('d')), v1(plain_key('y')));
        lemma_binding_neq(n1(plain_key('d')), n2(plain_key('y'), plain_key('y')));
        lemma_binding_neq(n1(plain_key('d')), n1(plain_key('p')));
        lemma_binding_neq(n1(plain_key('d')), v1(plain_key('p')));
    }
    assert(vim_map(Map::empty()) == m10);
}
/// The vim keymap binds no one-key `g` chord in Normal mode: the plain `g`
/// key opens the two-key first-row chord instead.
#[verifier::rlimit(60)]
proof fn lemma_vim_map_no_single_g()
    ensures
        !vim_map(Map::empty()).dom().contains(n1(plain_key('g'))),
{
    let m1 = vim_mode_switch_map(Map::<BindingKey, Seq<Effect>>::empty());
    assert(!m1.dom().contains(n1(plain_key('g')))) by {
        lemma_binding_neq(n1(plain_key('g')), i1(bare_key(KeyCode::Esc)));
        lemma_binding_neq(n1(plain_key('g')), v1(bare_key(KeyCode::Esc)));
        lemma_binding_neq(n1(plain_key('g')), n1(plain_key('i')));
        lemma_binding_neq(n1(plain_key('g')), n1(plain_key('v')));
        lemma_binding_neq(n1(plain_key('g')), n1(plain_key('/')));
        lemma_binding_neq(n1(plain_key('g')), s1(bare_key(KeyCode::Enter)));
        lemma_binding_neq(n1(plain_key('g')), n1(plain_key('n')));
        lemma_binding_neq(n1(plain_key('g')), n1(plain_key('N')));
        lemma_binding_neq(n1(plain_key('g')), s1(bare_key(KeyCode::Esc)));
        lemma_binding_neq(n1(plain_key('g')), s1(bare_key(KeyCode::Backspace)));
    }
    let m2 = vim_char_motion_map(m1);
    assert(!m2.dom().contains(n1(plain_key('g')))) by {
        lemma_binding_neq(n1(plain_key('g')), n1(plain_key('a')));
        lemma_binding_neq(n1(plain_key('g')), n1(plain_key('l')));
        lemma_binding_neq(n1(plain_key('g')), v1(plain_key('l')));
        lemma_binding_neq(n1(plain_key('g')), n1(bare_key(KeyCode::Right)));
        lemma_binding_neq(n1(plain_key('g')), v1(bare_key(KeyCode::Right)));
        lemma_binding_neq(n1(plain_key('g')), i1(bare_key(KeyCode::Right)));
        lemma_binding_neq(n1(plain_key('g')), n1(plain_key('h')));
        lemma_binding_neq(n1(plain_key('g')), v1(plain_key('h')));
        lemma_binding_neq(n1(plain_key('g')), n1(bare_key(KeyCode::Left)));
        lemma_binding_neq(n1(plain_key('g')), v1(bare_key(KeyCode::Left)));
        lemma_binding_neq(n1(plain_key('g')), i1(bare_key(KeyCode::Left)));
    }
    let m3 = vim_vertical_motion_map(m2);
    assert(!m3.dom().contains(n1(plain_key('g')))) by {
        lemma_binding_neq(n1(plain_key('g')), n1(plain_key('k')));
        lemma_binding_neq(n1(plain_key('g')), v1(plain_key('k')));
        lemma_binding_neq(n1(plain_key('g')), n1(bare_key(KeyCode::Up)));
        lemma_binding_neq(n1(plain_key('g')), v1(bare_key(KeyCode::Up)));
        lemma_binding_neq(n1(plain_key('g')), i1(bare_key(KeyCode::Up)));
        lemma_binding_neq(n1(plain_key('g')), n1(plain_key('j')));
        lemma_binding_neq(n1(plain_key('g')), v1(plain_key('j')));
        lemma_binding_neq(n1(plain_key('g')), n1(bare_key(KeyCode::Down)));
        lemma_binding_neq(n1(plain_key('g')), v1(bare_key(KeyCode::Down)));
        lemma_binding_neq(n1(plain_key('g')), i1(bare_key(KeyCode::Down)));
    }
    let m4 = vim_word_and_line_motion_map(m3);
    assert(!m4.dom().contains(n1(plain_key('g')))) by {
        lemma_binding_neq(n1(plain_key('g')), n1(plain_key('w')));
        lemma_binding_neq(n1(plain_key('g')), v1(plain_key('w')));
        lemma_binding_neq(n1(plain_key('g')), n1(plain_key('e')));
        lemma_binding_neq(n1(plain_key('g')), v1(plain_key('e')));
        lemma_binding_neq(n1(plain_key('g')), n1(plain_key('b')));
        lemma_binding_neq(n1(plain_key('g')), v1(plain_key('b')));
        lemma_binding_neq(n1(plain_key('g')), n1(plain_key('0')));
        lemma_binding_neq(n1(plain_key('g')), n1(plain_key('_')));
        lemma_binding_neq(n1(plain_key('g')), n1(plain_key('$')));
        lemma_binding_neq(n1(plain_key('g')), v1(plain_key('0')));
        lemma_binding_neq(n1(plain_key('g')), v1(plain_key('_')));
        lemma_binding_neq(n1(plain_key('g')), v1(plain_key('$')));
    }
    let m5 = vim_paging_map(m4);
    assert(!m5.dom().contains(n1(plain_key('g')))) by {
        lemma_binding_neq(n1(plain_key('g')), n1(control_key('d')));
        lemma_binding_neq(n1(plain_key('g')), v1(control_key('d')));
        lemma_binding_neq(n1(plain_key('g')), n1(control_key('u')));
        lemma_binding_neq(n1(plain_key('g')), v1(control_key('u')));
        lemma_binding_neq(n1(plain_key('g')), i1(bare_key(KeyCode::Home)));
        lemma_binding_neq(n1(plain_key('g')), n1(bare_key(KeyCode::Home)));
        lemma_binding_neq(n1(plain_key('g')), v1(bare_key(KeyCode::Home)));
        lemma_binding_neq(n1(plain_key('g')), i1(bare_key(KeyCode::End)));
        lemma_binding_neq(n1(plain_key('g')), n1(bare_key(KeyCode::End)));
        lemma_binding_neq(n1(plain_key('g')), v1(bare_key(KeyCode::End)));
    }
    let m6 = vim_buffer_motion_map(m5);
    assert(!m6.dom().contains(n1(plain_key('g')))) by {
        lemma_binding_neq(n1(plain_key('g')), i1(control_key('u')));
        lemma_binding_neq(n1(plain_key('g')), n1(plain_key('I')));
        lemma_binding_neq(n1(plain_key('g')), n1(plain_key('A')));
        lemma_binding_neq(n1(plain_key('g')), n2(plain_key('g'), plain_key('g')));
        lemma_binding_neq(n1(plain_key('g')), v2(plain_key('g'), plain_key('g')));
        lemma_binding_neq(n1(plain_key('g')), n1(plain_key('G')));
        lemma_binding_neq(n1(plain_key('g')), v1(plain_key('G')));
        lemma_binding_neq(n1(plain_key('g')), n1(plain_key('%')));
        lemma_binding_neq(n1(plain_key('g')), v1(plain_key('%')));
        lemma_binding_neq(n1(plain_key('g')), n1(plain_key('o')));
        lemma_binding_neq(n1(plain_key('g')), n1(plain_key('O')));
        lemma_binding_neq(n1(plain_key('g')), i1(bare_key(KeyCode::Enter)));
    }
    let m7 = vim_deletion_map(m6);
    assert(!m7.dom().contains(n1(plain_key('g')))) by {
        lemma_binding_neq(n1(plain_key('g')), n1(plain_key('x')));
        lemma_binding_neq(n1(plain_key('g')), n1(bare_key(KeyCode::Delete)));
        lemma_binding_neq(n1(plain_key('g')), i1(bare_key(KeyCode::Backspace)));
        lemma_binding_neq(n1(plain_key('g')), i1(bare_key(KeyCode::Delete)));
        lemma_binding_neq(n1(plain_key('g')), n2(plain_key('d'), plain_key('d')));
        lemma_binding_neq(n1(plain_key('g')), n1(plain_key('D')));
        lemma_binding_neq(n1(plain_key('g')), v1(plain_key('d')));
        lemma_binding_neq(n1(plain_key('g')), n1(plain_key('J')));
    }
    let m8 = vim_select_inner_map(m7);
    assert(!m8.dom().contains(n1(plain_key('g')))) by {
        lemma_binding_neq(n1(plain_key('g')), v2(plain_key('i'), plain_key('w')));
        lemma_binding_neq(n1(plain_key('g')), v2(plain_key('i'), plain_key('"')));
        lemma_binding_neq(n1(plain_key('g')), v2(plain_key('i'), plain_key('\'')));
        lemma_binding_neq(n1(plain_key('g')), v2(plain_key('i'), plain_key('(')));
        lemma_binding_neq(n1(plain_key('g')), v2(plain_key('i'), plain_key(')')));
        lemma_binding_neq(n1(plain_key('g')), v2(plain_key('i'), plain_key('{')));
        lemma_binding_neq(n1(plain_key('g')), v2(plain_key('i'), plain_key('}')));
        lemma_binding_neq(n1(plain_key('g')), v2(plain_key('i'), plain_key('[')));
        lemma_binding_neq(n1(plain_key('g')), v2(plain_key('i'), plain_key(']')));
    }
    let m9 = vim_change_inner_map(m8);
    assert(!m9.dom().contains(n1(plain_key('g')))) by {
        lemma_binding_neq(n1(plain_key('g')), n3(plain_key('c'), plain_key('i'), plain_key('w')));
        lemma_binding_neq(n1(plain_key('g')), n3(plain_key('c'), plain_key('i'), plain_key('"')));
        lemma_binding_neq(n1(plain_key('g')), n3(plain_key('c'), plain_key('i'), plain_key('\'')));
        lemma_binding_neq(n1(plain_key('g')), n3(plain_key('c'), plain_key('i'), plain_key('(')));
        lemma_binding_neq(n1(plain_key('g')), n3(plain_key('c'), plain_key('i'), plain_key(')')));
        lemma_binding_neq(n1(plain_key('g')), n3(plain_key('c'), plain_key('i'), plain_key('{')));
        lemma_binding_neq(n1(plain_key('g')), n3(plain_key('c'), plain_key('i'), plain_key('}')));
        lemma_binding_neq(n1(plain_key('g')), n3(plain_key('c'), plain_key('i'), plain_key('[')));
        lemma_binding_neq(n1(plain_key('g')), n3(plain_key('c'), plain_key('i'), plain_key(']')));
    }
    let m10 = vim_clipboard_map(m9);
    assert(!m10.dom().contains(n1(plain_key('g')))) by {
        lemma_binding_neq(n1(plain_key('g')), v1(plain_key('c')));
        lemma_binding_neq(n1(plain_key('g')), v1(plain_key('x')));
        lemma_binding_neq(n1(plain_key('g')), n1(plain_key('V')));
        lemma_binding_neq(n1(plain_key('g')), n1(plain_key('u')));
        lemma_binding_neq(n1(plain_key('g')), n1(plain_key('r')));
        lemma_binding_neq(n1(plain_key('g')), v1(plain_key('y')));
        lemma_binding_neq(n1(plain_key('g')), n2(plain_key('y'), plain_key('y')));
        lemma_binding_neq(n1(plain_key('g')), n1(plain_key('p')));
        lemma_binding_neq(n1(plain_key('g')), v1(plain_key('p')));
    }
    assert(vim_map(Map::empty()) == m10);
}
/// The vim keymap's delete-line chord is bound, to exactly the line
/// deletion.
#[verifier::rlimit(60)]
proof fn lemma_vim_map_delete_line_bound()
    ensures
        vim_map(Map::empty()).dom().contains(n2(plain_key('d'), plain_key('d'))),
        vim_map(Map::empty())[n2(plain_key('d'), plain_key('d'))] == seq![Effect::DeleteLine(1)],
{
    lemma_binding_neq(n2(plain_key('d'), plain_key('d')), i1(bare_key(KeyCode::Esc)));
    lemma_binding_neq(n2(plain_key('d'), plain_key('d')), v1(bare_key(KeyCode::Esc)));
    lemma_binding_neq(n2(plain_key('d'), plain_key('d')), n1(plain_key('i')));
    lemma_binding_neq(n2(plain_key('d'), plain_key('d')), n1(plain_key('v')));
    lemma_binding_neq(n2(plain_key('d'), plain_key('d')), n1(plain_key('/')));
    lemma_binding_neq(n2(plain_key('d'), plain_key('d')), s1(bare_key(KeyCode::Enter)));
    lemma_binding_neq(n2(plain_key('d'), plain_key('d')), n1(plain_key('n')));
    lemma_binding_neq(n2(plain_key('d'), plain_key('d')), n1(plain_key('N')));
    lemma_binding_neq(n2(plain_key('d'), plain_key('d')), s1(bare_key(KeyCode::Esc)));
    lemma_binding_neq(n2(plain_key('d'), plain_key('d')), s1(bare_key(KeyCode::Backspace)));
    lemma_binding_neq(n2(plain_key('d'), plain_key('d')), n1(plain_key('a')));
    lemma_binding_neq(n2(plain_key('d'), plain_key('d')), n1(plain_key('l')));
    lemma_binding_neq(n2(plain_key('d'), plain_key('d')), v1(plain_key('l')));
    lemma_binding_neq(n2(plain_key('d'), plain_key('d')), n1(bare_key(KeyCode::Right)));
    lemma_binding_neq(n2(plain_key('d'), plain_key('d')), v1(bare_key(KeyCode::Right)));
    lemma_binding_neq(n2(plain_key('d'), plain_key('d')), i1(bare_key(KeyCode::Right)));
    lemma_binding_neq(n2(plain_key('d'), plain_key('d')), n1(plain_key('h')));
    lemma_binding_neq(n2(plain_key('d'), plain_key('d')), v1(plain_key('h')));
    lemma_binding_neq(n2(plain_key('d'), plain_key('d')), n1(bare_key(KeyCode::Left)));
    lemma_binding_neq(n2(plain_key('d'), plain_key('d')), v1(bare_key(KeyCode::Left)));
    lemma_binding_neq(n2(plain_key('d'), plain_key('d')), i1(bare_key(KeyCode::Left)));
    lemma_binding_neq(n2(plain_key('d'), plain_key('d')), n1(plain_key('k')));
    lemma_binding_neq(n2(plain_key('d'), plain_key('d')), v1(plain_key('k')));
    lemma_binding_neq(n2(plain_key('d'), plain_key('d')), n1(bare_key(KeyCode::Up)));
    lemma_binding_neq(n2(plain_key('d'), plain_key('d')), v1(bare_key(KeyCode::Up)));
    lemma_binding_neq(n2(plain_key('d'), plain_key('d')), i1(bare_key(KeyCode::Up)));
    lemma_binding_neq(n2(plain_key('d'), plain_key('d')), n1(plain_key('j')));
    lemma_binding_neq(n2(plain_key('d'), plain_key('d')), v1(plain_key('j')));
    lemma_binding_neq(n2(plain_key('d'), plain_key('d')), n1(bare_key(KeyCode::Down)));
    lemma_binding_neq(n2(plain_key('d'), plain_key('d')), v1(bare_key(KeyCode::Down)));
    lemma_binding_neq(n2(plain_key('d'), plain_key('d')), i1(bare_key(KeyCode::Down)));
    lemma_binding_neq(n2(plain_key('d'), plain_key('d')), n1(plain_key('w')));
    lemma_binding_neq(n2(plain_key('d'), plain_key('d')), v1(plain_key('w')));
    lemma_binding_neq(n2(plain_key('d'), plain_key('d')), n1(plain_key('e')));
    lemma_binding_neq(n2(plain_key('d'), plain_key('d')), v1(plain_key('e')));
    lemma_binding_neq(n2(plain_key('d'), plain_key('d')), n1(plain_key('b')));
    lemma_binding_neq(n2(plain_key('d'), plain_key('d')), v1(plain_key('b')));
    lemma_binding_neq(n2(plain_key('d'), plain_key('d')), n1(plain_key('0')));
    lemma_binding_neq(n2(plain_key('d'), plain_key('d')), n1(plain_key('_')));
    lemma_binding_neq(n2(plain_key('d'), plain_key('d')), n1(plain_key('$')));
    lemma_binding_neq(n2(plain_key('d'), plain_key('d')), v1(plain_key('0')));
    lemma_binding_neq(n2(plain_key('d'), plain_key('d')), v1(plain_key('_')));
    lemma_binding_neq(n2(plain_key('d'), plain_key('d')), v1(plain_key('$')));
    lemma_binding_neq(n2(plain_key('d'), plain_key('d')), n1(control_key('d')));
    lemma_binding_neq(n2(plain_key('d'), plain_key('d')), v1(control_key('d')));
    lemma_binding_neq(n2(plain_key('d'), plain_key('d')), n1(control_key('u')));
    lemma_binding_neq(n2(plain_key('d'), plain_key('d')), v1(control_key('u')));
    lemma_binding_neq(n2(plain_key('d'), plain_key('d')), i1(bare_key(KeyCode::Home)));
    lemma_binding_neq(n2(plain_key('d'), plain_key('d')), n1(bare_key(KeyCode::Home)));
    lemma_binding_neq(n2(plain_key('d'), plain_key('d')), v1(bare_key(KeyCode::Home)));
    lemma_binding_neq(n2(plain_key('d'), plain_key('d')), i1(bare_key(KeyCode::End)));
    lemma_binding_neq(n2(plain_key('d'), plain_key('d')), n1(bare_key(KeyCode::End)));
    lemma_binding_neq(n2(plain_key('d'), plain_key('d')), v1(bare_key(KeyCode::End)));
    lemma_binding_neq(n2(plain_key('d'), plain_key('d')), i1(control_key('u')));
    lemma_binding_neq(n2(plain_key('d'), plain_key('d')), n1(plain_key('I')));
    lemma_binding_neq(n2(plain_key('d'), plain_key('d')), n1(plain_key('A')));
    lemma_binding_neq(n2(plain_key('d'), plain_key('d')), n2(plain_key('g'), plain_key('g')));
    lemma_binding_neq(n2(plain_key('d'), plain_key('d')), v2(plain_key('g'), plain_key('g')));
    lemma_binding_neq(n2(plain_key('d'), plain_key('d')), n1(plain_key('G')));
    lemma_binding_neq(n2(plain_key('d'), plain_key('d')), v1(plain_key('G')));
    lemma_binding_neq(n2(plain_key('d'), plain_key('d')), n1(plain_key('%')));
    lemma_binding_neq(n2(plain_key('d'), plain_key('d')), v1(plain_key('%')));
    lemma_binding_neq(n2(plain_key('d'), plain_key('d')), n1(plain_key('o')));
    lemma_binding_neq(n2(plain_key('d'), plain_key('d')), n1(plain_key('O')));
    lemma_binding_neq(n2(plain_key('d'), plain_key('d')), i1(bare_key(KeyCode::Enter)));
    lemma_binding_neq(n2(plain_key('d'), plain_key('d')), n1(plain_key('x')));
    lemma_binding_neq(n2(plain_key('d'), plain_key('d')), n1(bare_key(KeyCode::Delete)));
    lemma_binding_neq(n2(plain_key('d'), plain_key('d')), i1(bare_key(KeyCode::Backspace)));
    lemma_binding_neq(n2(plain_key('d'), plain_key('d')), i1(bare_key(KeyCode::Delete)));
    lemma_binding_neq(n2(plain_key('d'), plain_key('d')), n1(plain_key('D')));
    lemma_binding_neq(n2(plain_key('d'), plain_key('d')), v1(plain_key('d')));
    lemma_binding_neq(n2(plain_key('d'), plain_key('d')), n1(plain_key('J')));
    lemma_binding_neq(n2(plain_key('d'), plain_key('d')), v2(plain_key('i'), plain_key('w')));
    lemma_binding_neq(n2(plain_key('d'), plain_key('d')), v2(plain_key('i'), plain_key('"')));
    lemma_binding_neq(n2(plain_key('d'), plain_key('d')), v2(plain_key('i'), plain_key('\'')));
    lemma_binding_neq(n2(plain_key('d'), plain_key('d')), v2(plain_key('i'), plain_key('(')));
    lemma_binding_neq(n2(plain_key('d'), plain_key('d')), v2(plain_key('i'), plain_key(')')));
    lemma_binding_neq(n2(plain_key('d'), plain_key('d')), v2(plain_key('i'), plain_key('{')));
    lemma_binding_neq(n2(plain_key('d'), plain_key('d')), v2(plain_key('i'), plain_key('}')));
    lemma_binding_neq(n2(plain_key('d'), plain_key('d')), v2(plain_key('i'), plain_key('[')));
    lemma_binding_neq(n2(plain_key('d'), plain_key('d')), v2(plain_key('i'), plain_key(']')));
    lemma_binding_neq(n2(plain_key('d'), plain_key('d')), n3(plain_key('c'), plain_key('i'), plain_key('w')));
    lemma_binding_neq(n2(plain_key('d'), plain_key('d')), n3(plain_key('c'), plain_key('i'), plain_key('"')));
    lemma_binding_neq(n2(plain_key('d'), plain_key('d')), n3(plain_key('c'), plain_key('i'), plain_key('\'')));
    lemma_binding_neq(n2(plain_key('d'), plain_key('d')), n3(plain_key('c'), plain_key('i'), plain_key('(')));
    lemma_binding_neq(n2(plain_key('d'), plain_key('d')), n3(plain_key('c'), plain_key('i'), plain_key(')')));
    lemma_binding_neq(n2(plain_key('d'), plain_key('d')), n3(plain_key('c'), plain_key('i'), plain_key('{')));
    lemma_binding_neq(n2(plain_key('d'), plain_key('d')), n3(plain_key('c'), plain_key('i'), plain_key('}')));
    lemma_binding_neq(n2(plain_key('d'), plain_key('d')), n3(plain_key('c'), plain_key('i'), plain_key('[')));
    lemma_binding_neq(n2(plain_key('d'), plain_key('d')), n3(plain_key('c'), plain_key('i'), plain_key(']')));
    lemma_binding_neq(n2(plain_key('d'), plain_key('d')), v1(plain_key('c')));
    lemma_binding_neq(n2(plain_key('d'), plain_key('d')), v1(plain_key('x')));
    lemma_binding_neq(n2(plain_key('d'), plain_key('d')), n1(plain_key('V')));
    lemma_binding_neq(n2(plain_key('d'), plain_key('d')), n1(plain_key('u')));
    lemma_binding_neq(n2(plain_key('d'), plain_key('d')), n1(plain_key('r')));
    lemma_binding_neq(n2(plain_key('d'), plain_key('d')), v1(plain_key('y')));
    lemma_binding_neq(n2(plain_key('d'), plain_key('d')), n2(plain_key('y'), plain_key('y')));
    lemma_binding_neq(n2(plain_key('d'), plain_key('d')), n1(plain_key('p')));
    lemma_binding_neq(n2(plain_key('d'), plain_key('d')), v1(plain_key('p')));
}

/// The vim keymap's first-row chord is bound, to exactly the first-row
/// motion.
#[verifier::rlimit(60)]
proof fn lemma_vim_map_first_row_bound()
    ensures
        vim_map(Map::empty()).dom().contains(n2(plain_key('g'), plain_key('g'))),
        vim_map(Map::empty())[n2(plain_key('g'), plain_key('g'))] == seq![Effect::MoveToFirstRow],
{
    lemma_binding_neq(n2(plain_key('g'), plain_key('g')), i1(bare_key(KeyCode::Esc)));
    lemma_binding_neq(n2(plain_key('g'), plain_key('g')), v1(bare_key(KeyCode::Esc)));
    lemma_binding_neq(n2(plain_key('g'), plain_key('g')), n1(plain_key('i')));
    lemma_binding_neq(n2(plain_key('g'), plain_key('g')), n1(plain_key('v')));
    lemma_binding_neq(n2(plain_key('g'), plain_key('g')), n1(plain_key('/')));
    lemma_binding_neq(n2(plain_key('g'), plain_key('g')), s1(bare_key(KeyCode::Enter)));
    lemma_binding_neq(n2(plain_key('g'), plain_key('g')), n1(plain_key('n')));
    lemma_binding_neq(n2(plain_key('g'), plain_key('g')), n1(plain_key('N')));
    lemma_binding_neq(n2(plain_key('g'), plain_key('g')), s1(bare_key(KeyCode::Esc)));
    lemma_binding_neq(n2(plain_key('g'), plain_key('g')), s1(bare_key(KeyCode::Backspace)));
    lemma_binding_neq(n2(plain_key('g'), plain_key('g')), n1(plain_key('a')));
    lemma_binding_neq(n2(plain_key('g'), plain_key('g')), n1(plain_key('l')));
    lemma_binding_neq(n2(plain_key('g'), plain_key('g')), v1(plain_key('l')));
    lemma_binding_neq(n2(plain_key('g'), plain_key('g')), n1(bare_key(KeyCode::Right)));
    lemma_binding_neq(n2(plain_key('g'), plain_key('g')), v1(bare_key(KeyCode::Right)));
    lemma_binding_neq(n2(plain_key('g'), plain_key('g')), i1(bare_key(KeyCode::Right)));
    lemma_binding_neq(n2(plain_key('g'), plain_key('g')), n1(plain_key('h')));
    lemma_binding_neq(n2(plain_key('g'), plain_key('g')), v1(plain_key('h')));
    lemma_binding_neq(n2(plain_key('g'), plain_key('g')), n1(bare_key(KeyCode::Left)));
    lemma_binding_neq(n2(plain_key('g'), plain_key('g')), v1(bare_key(KeyCode::Left)));
    lemma_binding_neq(n2(plain_key('g'), plain_key('g')), i1(bare_key(KeyCode::Left)));
    lemma_binding_neq(n2(plain_key('g'), plain_key('g')), n1(plain_key('k')));
    lemma_binding_neq(n2(plain_key('g'), plain_key('g')), v1(plain_key('k')));
    lemma_binding_neq(n2(plain_key('g'), plain_key('g')), n1(bare_key(KeyCode::Up)));
    lemma_binding_neq(n2(plain_key('g'), plain_key('g')), v1(bare_key(KeyCode::Up)));
    lemma_binding_neq(n2(plain_key('g'), plain_key('g')), i1(bare_key(KeyCode::Up)));
    lemma_binding_neq(n2(plain_key('g'), plain_key('g')), n1(plain_key('j')));
    lemma_binding_neq(n2(plain_key('g'), plain_key('g')), v1(plain_key('j')));
    lemma_binding_neq(n2(plain_key('g'), plain_key('g')), n1(bare_key(KeyCode::Down)));
    lemma_binding_neq(n2(plain_key('g'), plain_key('g')), v1(bare_key(KeyCode::Down)));
    lemma_binding_neq(n2(plain_key('g'), plain_key('g')), i1(bare_key(KeyCode::Down)));
    lemma_binding_neq(n2(plain_key('g'), plain_key('g')), n1(plain_key('w')));
    lemma_binding_neq(n2(plain_key('g'), plain_key('g')), v1(plain_key('w')));
    lemma_binding_neq(n2(plain_key('g'), plain_key('g')), n1(plain_key('e')));
    lemma_binding_neq(n2(plain_key('g'), plain_key('g')), v1(plain_key('e')));
    lemma_binding_neq(n2(plain_key('g'), plain_key('g')), n1(plain_key('b')));
    lemma_binding_neq(n2(plain_key('g'), plain_key('g')), v1(plain_key('b')));
    lemma_binding_neq(n2(plain_key('g'), plain_key('g')), n1(plain_key('0')));
    lemma_binding_neq(n2(plain_key('g'), plain_key('g')), n1(plain_key('_')));
    lemma_binding_neq(n2(plain_key('g'), plain_key('g')), n1(plain_key('$')));
    lemma_binding_neq(n2(plain_key('g'), plain_key('g')), v1(plain_key('0')));
    lemma_binding_neq(n2(plain_key('g'), plain_key('g')), v1(plain_key('_')));
    lemma_binding_neq(n2(plain_key('g'), plain_key('g')), v1(plain_key('$')));
    lemma_binding_neq(n2(plain_key('g'), plain_key('g')), n1(control_key('d')));
    lemma_binding_neq(n2(plain_key('g'), plain_key('g')), v1(control_key('d')));
    lemma_binding_neq(n2(plain_key('g'), plain_key('g')), n1(control_key('u')));
    lemma_binding_neq(n2(plain_key('g'), plain_key('g')), v1(control_key('u')));
    lemma_binding_neq(n2(plain_key('g'), plain_key('g')), i1(bare_key(KeyCode::Home)));
    lemma_binding_neq(n2(plain_key('g'), plain_key('g')), n1(bare_key(KeyCode::Home)));
    lemma_binding_neq(n2(plain_key('g'), plain_key('g')), v1(bare_key(KeyCode::Home)));
    lemma_binding_neq(n2(plain_key('g'), plain_key('g')), i1(bare_key(KeyCode::End)));
    lemma_binding_neq(n2(plain_key('g'), plain_key('g')), n1(bare_key(KeyCode::End)));
    lemma_binding_neq(n2(plain_key('g'), plain_key('g')), v1(bare_key(KeyCode::End)));
    lemma_binding_neq(n2(plain_key('g'), plain_key('g')), i1(control_key('u')));
    lemma_binding_neq(n2(plain_key('g'), plain_key('g')), n1(plain_key('I')));
    lemma_binding_neq(n2(plain_key('g'), plain_key('g')), n1(plain_key('A')));
    lemma_binding_neq(n2(plain_key('g'), plain_key('g')), v2(plain_key('g'), plain_key('g')));
    lemma_binding_neq(n2(plain_key('g'), plain_key('g')), n1(plain_key('G')));
    lemma_binding_neq(n2(plain_key('g'), plain_key('g')), v1(plain_key('G')));
    lemma_binding_neq(n2(plain_key('g'), plain_key('g')), n1(plain_key('%')));
    lemma_binding_neq(n2(plain_key('g'), plain_key('g')), v1(plain_key('%')));
    lemma_binding_neq(n2(plain_key('g'), plain_key('g')), n1(plain_key('o')));
    lemma_binding_neq(n2(plain_key('g'), plain_key('g')), n1(plain_key('O')));
    lemma_binding_neq(n2(plain_key('g'), plain_key('g')), i1(bare_key(KeyCode::Enter)));
    lemma_binding_neq(n2(plain_key('g'), plain_key('g')), n1(plain_key('x')));
    lemma_binding_neq(n2(plain_key('g'), plain_key('g')), n1(bare_key(KeyCode::Delete)));
    lemma_binding_neq(n2(plain_key('g'), plain_key('g')), i1(bare_key(KeyCode::Backspace)));
    lemma_binding_neq(n2(plain_key('g'), plain_key('g')), i1(bare_key(KeyCode::Delete)));
    lemma_binding_neq(n2(plain_key('g'), plain_key('g')), n2(plain_key('d'), plain_key('d')));
    lemma_binding_neq(n2(plain_key('g'), plain_key('g')), n1(plain_key('D')));
    lemma_binding_neq(n2(plain_key('g'), plain_key('g')), v1(plain_key('d')));
    lemma_binding_neq(n2(plain_key('g'), plain_key('g')), n1(plain_key('J')));
    lemma_binding_neq(n2(plain_key('g'), plain_key('g')), v2(plain_key('i'), plain_key('w')));
    lemma_binding_neq(n2(plain_key('g'), plain_key('g')), v2(plain_key('i'), plain_key('"')));
    lemma_binding_neq(n2(plain_key('g'), plain_key('g')), v2(plain_key('i'), plain_key('\'')));
    lemma_binding_neq(n2(plain_key('g'), plain_key('g')), v2(plain_key('i'), plain_key('(')));
    lemma_binding_neq(n2(plain_key('g'), plain_key('g')), v2(plain_key('i'), plain_key(')')));
    lemma_binding_neq(n2(plain_key('g'), plain_key('g')), v2(plain_key('i'), plain_key('{')));
    lemma_binding_neq(n2(plain_key('g'), plain_key('g')), v2(plain_key('i'), plain_key('}')));
    lemma_binding_neq(n2(plain_key('g'), plain_key('g')), v2(plain_key('i'), plain_key('[')));
    lemma_binding_neq(n2(plain_key('g'), plain_key('g')), v2(plain_key('i'), plain_key(']')));
    lemma_binding_neq(n2(plain_key('g'), plain_key('g')), n3(plain_key('c'), plain_key('i'), plain_key('w')));
    lemma_binding_neq(n2(plain_key('g'), plain_key('g')), n3(plain_key('c'), plain_key('i'), plain_key('"')));
    lemma_binding_neq(n2(plain_key('g'), plain_key('g')), n3(plain_key('c'), plain_key('i'), plain_key('\'')));
    lemma_binding_neq(n2(plain_key('g'), plain_key('g')), n3(plain_key('c'), plain_key('i'), plain_key('(')));
    lemma_binding_neq(n2(plain_key('g'), plain_key('g')), n3(plain_key('c'), plain_key('i'), plain_key(')')));
    lemma_binding_neq(n2(plain_key('g'), plain_key('g')), n3(plain_key('c'), plain_key('i'), plain_key('{')));
    lemma_binding_neq(n2(plain_key('g'), plain_key('g')), n3(plain_key('c'), plain_key('i'), plain_key('}')));
    lemma_binding_neq(n2(plain_key('g'), plain_key('g')), n3(plain_key('c'), plain_key('i'), plain_key('[')));
    lemma_binding_neq(n2(plain_key('g'), plain_key('g')), n3(plain_key('c'), plain_key('i'), plain_key(']')));
    lemma_binding_neq(n2(plain_key('g'), plain_key('g')), v1(plain_key('c')));
    lemma_binding_neq(n2(plain_key('g'), plain_key('g')), v1(plain_key('x')));
    lemma_binding_neq(n2(plain_key('g'), plain_key('g')), n1(plain_key('V')));
    lemma_binding_neq(n2(plain_key('g'), plain_key('g')), n1(plain_key('u')));
    lemma_binding_neq(n2(plain_key('g'), plain_key('g')), n1(plain_key('r')));
    lemma_binding_neq(n2(plain_key('g'), plain_key('g')), v1(plain_key('y')));
    lemma_binding_neq(n2(plain_key('g'), plain_key('g')), n2(plain_key('y'), plain_key('y')));
    lemma_binding_neq(n2(plain_key('g'), plain_key('g')), n1(plain_key('p')));
    lemma_binding_neq(n2(plain_key('g'), plain_key('g')), v1(plain_key('p')));
}

/// The vim keymap's delete-line scenario: with no chord pending and Normal
/// mode active, dispatching `d` then `d` executes exactly the line deletion
/// — the first `d` only waits, since no one-key `d` binding exists — leaves
/// the pending chord empty, keeps the mode, and shrinks the buffer by one
/// line.
pub proof fn lemma_vim_delete_line_chord(d: DispatcherV, s: EditorStateV)
    requires
        d.register == vim_map(Map::empty()),
        d.pending == Seq::<KeyCombination>::empty(),
        s.mode == EditorMode::Normal,
    ensures
        dispatch_all(d, seq![plain_key('d'), plain_key('d')], s).0 == d,
        dispatch_all(d, seq![plain_key('d'), plain_key('d')], s).1 == apply_effects(
            s,
            seq![Effect::DeleteLine(1)],
        ),
        dispatch_all(d, seq![plain_key('d'), plain_key('d')], s).1.mode == s.mode,
        s.lines.len() >= 1 ==> dispatch_all(d, seq![plain_key('d'), plain_key('d')], s).1.lines.len()
            == s.lines.len() - 1,
{
    lemma_vim_map_no_single_d();
    lemma_vim_map_delete_line_bound();
    let c = seq![plain_key('d'), plain_key('d')];
    let bk = BindingKey { mode: s.mode, keys: c };
    assert(bk =~= n2(plain_key('d'), plain_key('d')));
    assert(forall|j: int|
        1 <= j < c.len() ==> !d.register.dom().contains(
            BindingKey { mode: s.mode, keys: c.subrange(0, j) },
        )) by {
        assert(c.subrange(0, 1) =~= seq![plain_key('d')]);
        assert((BindingKey { mode: s.mode, keys: c.subrange(0, 1) }) =~= n1(plain_key('d')));
    }
    assert(forall|i: int|
        0 <= i < c.len() ==> !insert_passthrough(s.mode, c[i]) && !search_passthrough(
            s.mode,
            c[i],
        ));
    lemma_registered_chord_fires(d, c, s);
    let es = seq![Effect::DeleteLine(1)];
    assert(es.drop_first() =~= Seq::<Effect>::empty());
    let s1 = apply_effect(s, Effect::DeleteLine(1));
    assert(apply_effects(s1, Seq::<Effect>::empty()) == s1);
    assert(apply_effects(s, es) == s1);
    let t = EditorStateV { trace: s.trace.push(Effect::DeleteLine(1)), ..s };
    assert(s1 == delete_lines(t, 1nat));
    if t.lines.len() == 0 {
        assert(delete_lines(t, 1nat) == t);
    } else {
        assert(delete_lines(t, 1nat) == delete_lines(delete_one_line(t), 0nat));
        assert(delete_lines(delete_one_line(t), 0nat) == delete_one_line(t));
    }
}

/// The vim keymap's deterministic prefix handling: with no chord pending and
/// Normal mode active, a single `g` — a strict prefix of the registered
/// two-key first-row chord, with no one-key `g` binding — fires nothing and
/// stays pending; the editor state is untouched.
pub proof fn lemma_vim_prefix_key_waits(d: DispatcherV, s: EditorStateV)
    requires
        d.register == vim_map(Map::empty()),
        d.pending == Seq::<KeyCombination>::empty(),
        s.mode == EditorMode::Normal,
    ensures
        dispatch_step(d, plain_key('g'), s).0 == (DispatcherV {
            pending: seq![plain_key('g')],
            ..d
        }),
        dispatch_step(d, plain_key('g'), s).1 == s,
{
    lemma_vim_map_no_single_g();
    lemma_vim_map_first_row_bound();
    let k = plain_key('g');
    assert(!insert_passthrough(s.mode, k));
    assert(!search_passthrough(s.mode, k));
    let p = d.pending.push(k);
    assert(p =~= seq![k]);
    assert((BindingKey { mode: s.mode, keys: p }) =~= n1(plain_key('g')));
    assert(!d.register.dom().contains(BindingKey { mode: s.mode, keys: p }));
    assert(waits_for_more(d.register, s.mode, p)) by {
        let w = n2(plain_key('g'), plain_key('g'));
        assert(d.register.dom().contains(w));
        assert(w.mode == s.mode);
        assert(p.len() < w.keys.len());
        assert(is_chord_prefix(p, w.keys)) by {
            assert(w.keys[0] == plain_key('g'));
        }
    }
}

impl Default for KeyCombinationHandler {
    /// The default dispatcher carries exactly the vim-style keymap, with
    /// capture off and no pending chord.
    fn default() -> (r: Self)
        ensures
            r.wf(),
            r@.pending == Seq::<KeyCombination>::empty(),
            r@.capture_on_insert == false,
            r@.register == vim_map(Map::empty()),
    {
        Self::vim_mode()
    }
}

} // verus!
