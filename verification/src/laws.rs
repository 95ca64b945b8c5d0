use vstd::prelude::*;

use crate::action::{action_effects, list_effects, Action, Effect};
use crate::handler::{
    dispatch_step, insert_passthrough, literal_char, search_passthrough, waits_for_more,
    DispatcherV,
};
use crate::key::{is_chord_prefix, is_printable, KeyCombination};
use crate::mode::EditorMode;
use crate::register::BindingKey;
use crate::state::{
    apply_action, apply_effect, apply_effects, checkpoints_after, lemma_apply_effect_wf,
    lemma_apply_effects_app, lemma_apply_effects_wf, state_wf, EditorStateV,
};

verus! {

/// The outcome of dispatching a sequence of raw events, first to last.
pub open spec fn dispatch_all(
    d: DispatcherV,
    keys: Seq<KeyCombination>,
    s: EditorStateV,
) -> (DispatcherV, EditorStateV)
    decreases keys.len(),
{
    if keys.len() == 0 {
        (d, s)
    } else {
        let next = dispatch_step(d, keys[0], s);
        dispatch_all(next.0, keys.drop_first(), next.1)
    }
}

/// Running the children of a composition in declared order: each child
/// executes against the state the previous one left behind.
pub open spec fn apply_children(s: EditorStateV, children: Seq<Action>) -> EditorStateV
    decreases children.len(),
{
    if children.len() == 0 {
        s
    } else {
        apply_children(apply_action(s, children[0]), children.drop_first())
    }
}

proof fn lemma_apply_children(s: EditorStateV, children: Seq<Action>)
    ensures
        apply_effects(s, list_effects(children)) == apply_children(s, children),
    decreases children.len(),
{
    if children.len() > 0 {
        lemma_apply_effects_app(
            s,
            action_effects(children[0]),
            list_effects(children.drop_first()),
        );
        lemma_apply_children(apply_action(s, children[0]), children.drop_first());
    }
}

/// Composed actions run their children in declared order, each child
/// observing the mutations of the previous one; composition adds nothing
/// else.
pub proof fn lemma_composed_runs_children_in_order(s: EditorStateV, a: Action)
    requires
        a is Composed,
    ensures
        apply_action(s, a) == apply_children(s, a->Composed_0@),
{
    lemma_apply_children(s, a->Composed_0@);
}

/// Registering an action meaning `a` and then an action meaning `b` under
/// the same (mode, chord) key leaves exactly the registry with `b` under
/// that key: no trace of `a` remains.
pub proof fn lemma_insert_overwrites(
    m: Map<BindingKey, Seq<Effect>>,
    k: BindingKey,
    a: Seq<Effect>,
    b: Seq<Effect>,
)
    ensures
        m.insert(k, a).insert(k, b) == m.insert(k, b),
{
    assert(m.insert(k, a).insert(k, b) =~= m.insert(k, b));
}

/// One dispatch call keeps the editor state's cursor well-formed, whatever
/// the event and whatever the registry holds.
pub proof fn lemma_dispatch_preserves_wf(d: DispatcherV, k: KeyCombination, s: EditorStateV)
    requires
        state_wf(s),
    ensures
        state_wf(dispatch_step(d, k, s).1),
{
    if insert_passthrough(s.mode, k) {
        let s1 = if d.capture_on_insert {
            EditorStateV { checkpoints: checkpoints_after(s.checkpoints), ..s }
        } else {
            s
        };
        lemma_apply_effect_wf(s1, Effect::InsertChar(literal_char(k)));
    } else if search_passthrough(s.mode, k) {
        lemma_apply_effect_wf(s, Effect::AppendCharToSearch(literal_char(k)));
    } else {
        let p = d.pending.push(k);
        let bk = BindingKey { mode: s.mode, keys: p };
        if d.register.dom().contains(bk) {
            lemma_apply_effects_wf(s, d.register[bk]);
        }
    }
}

/// Dispatching a printable character while Insert mode is active never
/// consults the registry: the dispatcher is left untouched (its pending
/// chord included), the literal character is inserted — after an undo
/// checkpoint exactly when the capture policy asks for one — and any two
/// dispatchers with the same capture policy mutate the state identically,
/// whatever their registries hold.
pub proof fn lemma_insert_mode_bypass(
    d: DispatcherV,
    other: DispatcherV,
    k: KeyCombination,
    s: EditorStateV,
)
    requires
        s.mode == EditorMode::Insert,
        is_printable(k),
        other.capture_on_insert == d.capture_on_insert,
    ensures
        dispatch_step(d, k, s).0 == d,
        dispatch_step(d, k, s).1 == apply_effect(
            if d.capture_on_insert {
                EditorStateV { checkpoints: checkpoints_after(s.checkpoints), ..s }
            } else {
                s
            },
            Effect::InsertChar(literal_char(k)),
        ),
        dispatch_step(d, k, s).1 == dispatch_step(other, k, s).1,
{
}

/// Dispatching a printable character while Search mode is active always
/// appends it to the query and never triggers a registry action, whatever
/// the registry holds: the dispatcher is left untouched and any two
/// dispatchers mutate the state identically.
pub proof fn lemma_search_mode_bypass(
    d: DispatcherV,
    other: DispatcherV,
    k: KeyCombination,
    s: EditorStateV,
)
    requires
        s.mode == EditorMode::Search,
        is_printable(k),
    ensures
        dispatch_step(d, k, s).0 == d,
        dispatch_step(d, k, s).1 == apply_effect(s, Effect::AppendCharToSearch(literal_char(k))),
        dispatch_step(d, k, s).1 == dispatch_step(other, k, s).1,
{
}

/// Dispatching a key that starts no registered chord of the active mode,
/// with no chord pending and no passthrough rule firing, performs no state
/// mutation and leaves the pending chord empty.
pub proof fn lemma_unbound_key_is_dropped(d: DispatcherV, k: KeyCombination, s: EditorStateV)
    requires
        d.pending == Seq::<KeyCombination>::empty(),
        !insert_passthrough(s.mode, k),
        !search_passthrough(s.mode, k),
        forall|bk: BindingKey|
            d.register.dom().contains(bk) && bk.mode == s.mode ==> !is_chord_prefix(
                seq![k],
                bk.keys,
            ),
    ensures
        dispatch_all(d, seq![k], s).0 == d,
        dispatch_all(d, seq![k], s).1 == s,
{
    let p = d.pending.push(k);
    assert(p =~= seq![k]);
    let bk = BindingKey { mode: s.mode, keys: p };
    assert(!waits_for_more(d.register, s.mode, p)) by {
        if waits_for_more(d.register, s.mode, p) {
            let w = choose|w: BindingKey|
                d.register.dom().contains(w) && w.mode == s.mode && p.len() < w.keys.len()
                    && is_chord_prefix(p, w.keys);
            assert(!is_chord_prefix(seq![k], w.keys));
        }
    }
    assert(!d.register.dom().contains(bk)) by {
        if d.register.dom().contains(bk) {
            assert(is_chord_prefix(seq![k], bk.keys));
        }
    }
    assert(dispatch_step(d, k, s).0 =~= d);
    assert(dispatch_step(d, k, s).1 == s);
    assert(seq![k][0] == k);
    assert(seq![k].drop_first() =~= Seq::<KeyCombination>::empty());
    assert(dispatch_all(d, Seq::<KeyCombination>::empty(), s) == (d, s));
    assert(dispatch_all(d, seq![k], s).0 == dispatch_all(
        dispatch_step(d, k, s).0,
        seq![k].drop_first(),
        dispatch_step(d, k, s).1,
    ).0);
    assert(dispatch_all(d, seq![k], s).1 == dispatch_all(
        dispatch_step(d, k, s).0,
        seq![k].drop_first(),
        dispatch_step(d, k, s).1,
    ).1);
}

/// Dispatching exactly the keys of a chord registered under the active mode,
/// in order, starting with no chord pending, executes the bound action
/// exactly once — its effects are appended to the trace once, in order — and
/// leaves the pending chord empty.
///
/// The chord must not trigger a passthrough rule (its action would otherwise
/// be shadowed by design), and no strict prefix of it may itself be
/// registered in the mode: an exact match is preferred over a strict-prefix
/// match, so such a prefix would fire its own action part-way through.
pub proof fn lemma_registered_chord_fires(
    d: DispatcherV,
    c: Seq<KeyCombination>,
    s: EditorStateV,
)
    requires
        d.pending == Seq::<KeyCombination>::empty(),
        c.len() >= 1,
        d.register.dom().contains(BindingKey { mode: s.mode, keys: c }),
        forall|j: int|
            1 <= j < c.len() ==> !d.register.dom().contains(
                BindingKey { mode: s.mode, keys: c.subrange(0, j) },
            ),
        forall|i: int|
            0 <= i < c.len() ==> !insert_passthrough(s.mode, c[i]) && !search_passthrough(
                s.mode,
                c[i],
            ),
    ensures
        dispatch_all(d, c, s).0 == d,
        dispatch_all(d, c, s).1 == apply_effects(
            s,
            d.register[BindingKey { mode: s.mode, keys: c }],
        ),
{
    assert(d.pending =~= c.subrange(0, 0));
    lemma_fire_from(d, c, s, 0);
    assert(c.skip(0) =~= c);
}

/// After `j` keys of the chord have been collected as the pending chord,
/// dispatching the rest fires the bound action.
proof fn lemma_fire_from(d: DispatcherV, c: Seq<KeyCombination>, s: EditorStateV, j: int)
    requires
        0 <= j < c.len(),
        d.pending == c.subrange(0, j),
        d.register.dom().contains(BindingKey { mode: s.mode, keys: c }),
        forall|i: int|
            1 <= i < c.len() ==> !d.register.dom().contains(
                BindingKey { mode: s.mode, keys: c.subrange(0, i) },
            ),
        forall|i: int|
            0 <= i < c.len() ==> !insert_passthrough(s.mode, c[i]) && !search_passthrough(
                s.mode,
                c[i],
            ),
    ensures
        dispatch_all(d, c.skip(j), s).0 == (DispatcherV {
            pending: Seq::<KeyCombination>::empty(),
            ..d
        }),
        dispatch_all(d, c.skip(j), s).1 == apply_effects(
            s,
            d.register[BindingKey { mode: s.mode, keys: c }],
        ),
    decreases c.len() - j,
{
    let k = c[j];
    let rest = c.skip(j);
    assert(rest.len() == c.len() - j);
    assert(rest[0] == k);
    assert(rest.drop_first() =~= c.skip(j + 1));
    assert(!insert_passthrough(s.mode, k) && !search_passthrough(s.mode, k));
    let p = d.pending.push(k);
    assert(p =~= c.subrange(0, j + 1));
    let full = BindingKey { mode: s.mode, keys: c };
    if j + 1 < c.len() {
        assert(!d.register.dom().contains(BindingKey { mode: s.mode, keys: p })) by {
            assert(!d.register.dom().contains(
                BindingKey { mode: s.mode, keys: c.subrange(0, j + 1) },
            ));
        }
        assert(waits_for_more(d.register, s.mode, p)) by {
            assert(is_chord_prefix(c.subrange(0, j + 1), c));
            assert(d.register.dom().contains(full) && full.mode == s.mode && p.len()
                < full.keys.len() && is_chord_prefix(p, full.keys));
        }
        let d1 = DispatcherV { pending: p, ..d };
        assert(dispatch_step(d, k, s).0 == d1);
        assert(dispatch_step(d, k, s).1 == s);
        assert(dispatch_all(d, rest, s).0 == dispatch_all(d1, c.skip(j + 1), s).0);
        assert(dispatch_all(d, rest, s).1 == dispatch_all(d1, c.skip(j + 1), s).1);
        assert(d1.pending == c.subrange(0, j + 1));
        lemma_fire_from(d1, c, s, j + 1);
        assert((DispatcherV { pending: Seq::<KeyCombination>::empty(), ..d1 }) =~= (DispatcherV {
            pending: Seq::<KeyCombination>::empty(),
            ..d
        }));
    } else {
        assert(p =~= c);
        let bk = BindingKey { mode: s.mode, keys: p };
        assert(bk =~= full);
        assert(d.register.dom().contains(bk));
        let fired = DispatcherV { pending: Seq::<KeyCombination>::empty(), ..d };
        assert(dispatch_step(d, k, s).0 == fired);
        assert(dispatch_step(d, k, s).1 == apply_effects(s, d.register[full]));
        assert(rest.drop_first() =~= Seq::<KeyCombination>::empty());
        assert(dispatch_all(fired, Seq::<KeyCombination>::empty(), dispatch_step(d, k, s).1)
            == (fired, dispatch_step(d, k, s).1));
        assert(dispatch_all(d, rest, s).0 == fired);
        assert(dispatch_all(d, rest, s).1 == apply_effects(s, d.register[full]));
    }
}

} // verus!
