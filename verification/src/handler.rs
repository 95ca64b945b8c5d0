use vstd::prelude::*;

use crate::action::{action_effects, Action, Effect};
use crate::key::{chord_eq, chord_prefix_of, is_chord_prefix, is_printable, KeyCode, KeyCombination};
use crate::mode::EditorMode;
use crate::register::{binding_key_eq, BindingKey, KeyCombinationRegister};
use crate::state::{apply_effect, apply_effects, checkpoints_after, EditorState, EditorStateV};

verus! {

broadcast use crate::register::lemma_register_view;

/// The mathematical model of the dispatcher: the pending chord collected so
/// far, the registry as a map from binding keys to the bound actions'
/// meanings — each action's ordered effect sequence — and the fixed capture
/// policy.
#[verifier::ext_equal]
pub ghost struct DispatcherV {
    pub pending: Seq<KeyCombination>,
    pub register: Map<BindingKey, Seq<Effect>>,
    pub capture_on_insert: bool,
}

/// No two registry entries carry the same binding key.
pub open spec fn unique_keys(s: Seq<(KeyCombinationRegister, Action)>) -> bool {
    forall|i: int, j: int| 0 <= i < j < s.len() ==> s[i].0@ != s[j].0@
}

/// The map a list of registry entries denotes; a later entry for the same
/// key overwrites an earlier one.
pub open spec fn as_map(s: Seq<(KeyCombinationRegister, Action)>) -> Map<BindingKey, Seq<Effect>>
    decreases s.len(),
{
    if s.len() == 0 {
        Map::empty()
    } else {
        as_map(s.drop_last()).insert(s.last().0@, action_effects(s.last().1))
    }
}

/// A key is in the denoted map exactly when some entry carries it.
pub proof fn lemma_as_map_contains(s: Seq<(KeyCombinationRegister, Action)>, k: BindingKey)
    ensures
        as_map(s).dom().contains(k) <==> exists|i: int| 0 <= i < s.len() && s[i].0@ == k,
    decreases s.len(),
{
    if s.len() == 0 {
    } else {
        lemma_as_map_contains(s.drop_last(), k);
        if as_map(s).dom().contains(k) {
            if k == s.last().0@ {
                assert(s[s.len() - 1].0@ == k);
            } else {
                let i = choose|i: int| 0 <= i < s.drop_last().len() && s.drop_last()[i].0@ == k;
                assert(s[i].0@ == k);
            }
        }
        if exists|i: int| 0 <= i < s.len() && s[i].0@ == k {
            let i = choose|i: int| 0 <= i < s.len() && s[i].0@ == k;
            if i == s.len() - 1 {
                assert(as_map(s).dom().contains(k));
            } else {
                assert(s.drop_last()[i].0@ == k);
                assert(as_map(s).dom().contains(k));
            }
        }
    }
}

/// Under unique keys, the denoted map sends each entry's key to that entry's
/// action.
pub proof fn lemma_as_map_index(s: Seq<(KeyCombinationRegister, Action)>, i: int)
    requires
        unique_keys(s),
        0 <= i < s.len(),
    ensures
        as_map(s).dom().contains(s[i].0@),
        as_map(s)[s[i].0@] == action_effects(s[i].1),
    decreases s.len(),
{
    if i == s.len() - 1 {
    } else {
        assert(unique_keys(s.drop_last()));
        assert(s.drop_last()[i] == s[i]);
        lemma_as_map_index(s.drop_last(), i);
        assert(s[i].0@ != s.last().0@);
    }
}

/// Removing an entry removes exactly its key from the denoted map.
pub proof fn lemma_as_map_remove(s: Seq<(KeyCombinationRegister, Action)>, i: int)
    requires
        unique_keys(s),
        0 <= i < s.len(),
    ensures
        as_map(s.remove(i)) == as_map(s).remove(s[i].0@),
        unique_keys(s.remove(i)),
    decreases s.len(),
{
    let k = s[i].0@;
    assert(unique_keys(s.remove(i))) by {
        assert forall|x: int, y: int| 0 <= x < y < s.remove(i).len() implies s.remove(i)[x].0@
            != s.remove(i)[y].0@ by {
            let x0 = if x < i {
                x
            } else {
                x + 1
            };
            let y0 = if y < i {
                y
            } else {
                y + 1
            };
            assert(s.remove(i)[x] == s[x0]);
            assert(s.remove(i)[y] == s[y0]);
        }
    }
    if i == s.len() - 1 {
        assert(s.remove(i) =~= s.drop_last());
        lemma_as_map_contains(s.drop_last(), k);
        assert(!as_map(s.drop_last()).dom().contains(k)) by {
            if exists|j: int| 0 <= j < s.drop_last().len() && s.drop_last()[j].0@ == k {
                let j = choose|j: int| 0 <= j < s.drop_last().len() && s.drop_last()[j].0@ == k;
                assert(s[j].0@ == s[i].0@);
            }
        }
        assert(as_map(s.drop_last()).insert(k, action_effects(s.last().1)).remove(k) =~= as_map(
            s.drop_last(),
        ));
    } else {
        assert(unique_keys(s.drop_last()));
        lemma_as_map_remove(s.drop_last(), i);
        assert(s.remove(i).drop_last() =~= s.drop_last().remove(i));
        assert(s.remove(i).last() == s.last());
        assert(k != s.last().0@);
        assert(as_map(s.drop_last()).remove(k).insert(s.last().0@, action_effects(s.last().1))
            =~= as_map(s.drop_last()).insert(s.last().0@, action_effects(s.last().1)).remove(k));
        assert(as_map(s.remove(i)) =~= as_map(s).remove(k));
    }
}

/// The dispatcher: the registry of bindings, its own pending chord scoped to
/// the active mode, and the preset-specific capture policy, fixed at
/// construction.
pub struct KeyCombinationHandler {
    lookup: Vec<KeyCombination>,
    register: Vec<(KeyCombinationRegister, Action)>,
    capture_on_insert: bool,
}

impl View for KeyCombinationHandler {
    type V = DispatcherV;

    closed spec fn view(&self) -> DispatcherV {
        DispatcherV {
            pending: self.lookup@,
            register: as_map(self.register@),
            capture_on_insert: self.capture_on_insert,
        }
    }
}

impl KeyCombinationHandler {
    /// Internal consistency: no two entries share a binding key, so the
    /// entry list denotes its map faithfully.
    pub closed spec fn wf(&self) -> bool {
        unique_keys(self.register@)
    }

    /// An empty registry with the given capture policy and no pending chord.
    pub fn empty(capture_on_insert: bool) -> (r: Self)
        ensures
            r.wf(),
            r@ == (DispatcherV {
                pending: Seq::empty(),
                register: Map::empty(),
                capture_on_insert,
            }),
    {
        let r = Self { lookup: Vec::new(), register: Vec::new(), capture_on_insert };
        proof {
            assert(r@ =~= DispatcherV {
                pending: Seq::empty(),
                register: Map::empty(),
                capture_on_insert,
            });
        }
        r
    }

    /// Builds a dispatcher over the given bindings; a later entry for the
    /// same (mode, chord) key overwrites an earlier one.  The capture policy
    /// is fixed for the dispatcher's lifetime.
    pub fn new(register: Vec<(KeyCombinationRegister, Action)>, capture_on_insert: bool) -> (r:
        Self)
        ensures
            r.wf(),
            r@ == (DispatcherV {
                pending: Seq::empty(),
                register: extended_map(Map::empty(), register@),
                capture_on_insert,
            }),
    {
        let mut r = Self::empty(capture_on_insert);
        r.extend(register);
        proof {
            assert(r@ =~= DispatcherV {
                pending: Seq::empty(),
                register: extended_map(Map::empty(), register@),
                capture_on_insert,
            });
        }
        r
    }

    /// The index of the entry carrying the given key, if one exists.
    fn find_entry(&self, key: &KeyCombinationRegister) -> (r: Option<usize>)
        ensures
            match r {
                Some(j) => j < self.register@.len() && self.register@[j as int].0@ == key@,
                None => forall|i: int| 0 <= i < self.register@.len() ==> self.register@[i].0@
                    != key@,
            },
    {
        let n = self.register.len();
        let mut i: usize = 0;
        while i < n
            invariant
                i <= n,
                n == self.register@.len(),
                forall|j: int| 0 <= j < i ==> self.register@[j].0@ != key@,
            decreases n - i,
        {
            let entry = &self.register[i];
            if binding_key_eq(&entry.0, key) {
                return Some(i);
            }
            i += 1;
        }
        None
    }

    /// Registers `action` under `key`; an action already registered there is
    /// overwritten, so the registry keeps at most one action per key.
    /// Registry mutation never fails.
    pub fn insert(&mut self, key: KeyCombinationRegister, action: Action)
        requires
            old(self).wf(),
        ensures
            final(self).wf(),
            final(self)@ == (DispatcherV {
                register: old(self)@.register.insert(key@, action_effects(action)),
                ..old(self)@
            }),
    {
        let ghost eff = action_effects(action);
        let found = self.find_entry(&key);
        match found {
            Some(j) => {
                proof {
                    lemma_as_map_remove(self.register@, j as int);
                }
                let ghost pre = self.register@;
                let _ = self.register.remove(j);
                proof {
                    assert(forall|i: int| 0 <= i < self.register@.len()
                        ==> self.register@[i].0@ != key@) by {
                        assert forall|i: int| 0 <= i < self.register@.len() implies self.register@[i].0@
                            != key@ by {
                            let i0 = if i < j { i } else { i + 1 };
                            assert(self.register@[i] == pre[i0]);
                        }
                    }
                }
                self.push_fresh(key, action);
                proof {
                    assert(as_map(pre).remove(pre[j as int].0@).insert(key@, eff) =~= as_map(
                        pre,
                    ).insert(key@, eff));
                    assert(self@ =~= DispatcherV {
                        register: old(self)@.register.insert(key@, eff),
                        ..old(self)@
                    });
                }
            },
            None => {
                self.push_fresh(key, action);
                proof {
                    assert(self@ =~= DispatcherV {
                        register: old(self)@.register.insert(key@, eff),
                        ..old(self)@
                    });
                }
            },
        }
    }

    /// Appends an entry whose key no other entry carries.
    fn push_fresh(&mut self, key: KeyCombinationRegister, action: Action)
        requires
            old(self).wf(),
            forall|i: int| 0 <= i < old(self).register@.len() ==> old(self).register@[i].0@
                != key@,
        ensures
            final(self).wf(),
            final(self).register@ == old(self).register@.push((key, action)),
            final(self).lookup@ == old(self).lookup@,
            final(self).capture_on_insert == old(self).capture_on_insert,
            final(self)@.register == old(self)@.register.insert(key@, action_effects(action)),
            final(self)@.pending == old(self)@.pending,
            final(self)@.capture_on_insert == old(self)@.capture_on_insert,
    {
        let ghost pre = self.register@;
        self.register.push((key, action));
        proof {
            assert(self.register@.drop_last() =~= pre);
            assert(unique_keys(self.register@)) by {
                assert forall|x: int, y: int| 0 <= x < y < self.register@.len() implies self.register@[x].0@
                    != self.register@[y].0@ by {
                    if y < self.register@.len() - 1 {
                        assert(self.register@[x] == pre[x]);
                        assert(self.register@[y] == pre[y]);
                    } else {
                        assert(self.register@[x] == pre[x]);
                    }
                }
            }
        }
    }

    /// Unregisters the action under `key`; removing an absent key is a
    /// no-op.  Registry mutation never fails.
    pub fn remove(&mut self, key: &KeyCombinationRegister)
        requires
            old(self).wf(),
        ensures
            final(self).wf(),
            final(self)@ == (DispatcherV {
                register: old(self)@.register.remove(key@),
                ..old(self)@
            }),
    {
        let found = self.find_entry(key);
        match found {
            Some(j) => {
                proof {
                    lemma_as_map_remove(self.register@, j as int);
                }
                let _ = self.register.remove(j);
                proof {
                    assert(self@ =~= DispatcherV {
                        register: old(self)@.register.remove(key@),
                        ..old(self)@
                    });
                }
            },
            None => {
                proof {
                    lemma_as_map_contains(self.register@, key@);
                    assert(as_map(self.register@).remove(key@) =~= as_map(self.register@));
                    assert(self@ =~= DispatcherV {
                        register: old(self)@.register.remove(key@),
                        ..old(self)@
                    });
                }
            },
        }
    }

    /// Registers every entry of the list, in list order, each with the same
    /// overwrite semantics as [`Self::insert`].
    pub fn extend(&mut self, entries: Vec<(KeyCombinationRegister, Action)>)
        requires
            old(self).wf(),
        ensures
            final(self).wf(),
            final(self)@ == (DispatcherV {
                register: extended_map(old(self)@.register, entries@),
                ..old(self)@
            }),
    {
        let ghost orig = self@;
        let ghost all = entries@;
        let mut rest = entries;
        while rest.len() > 0
            invariant
                self.wf(),
                extended_map(orig.register, all) == extended_map(self@.register, rest@),
                self@.pending == orig.pending,
                self@.capture_on_insert == orig.capture_on_insert,
            decreases rest.len(),
        {
            let ghost rest0 = rest@;
            let entry = rest.remove(0);
            proof {
                assert(rest@ =~= rest0.drop_first());
            }
            self.insert(entry.0, entry.1);
        }
        proof {
            assert(self@ =~= DispatcherV {
                register: extended_map(orig.register, all),
                ..orig
            });
        }
    }

    /// The capture policy this dispatcher was constructed with.
    pub fn captures_on_insert(&self) -> (r: bool)
        ensures
            r == self@.capture_on_insert,
    {
        self.capture_on_insert
    }

    /// The pending chord collected so far.
    pub fn pending_keys(&self) -> (r: &Vec<KeyCombination>)
        ensures
            r@ == self@.pending,
    {
        &self.lookup
    }

    /// The action registered under `key`, if any: the registry's read
    /// primitive.
    pub fn lookup_action(&self, key: &KeyCombinationRegister) -> (r: Option<&Action>)
        requires
            self.wf(),
        ensures
            match r {
                Some(a) => self@.register.dom().contains(key@) && action_effects(*a)
                    == self@.register[key@],
                None => !self@.register.dom().contains(key@),
            },
    {
        let found = self.find_entry(key);
        proof {
            lemma_as_map_contains(self.register@, key@);
        }
        match found {
            Some(j) => {
                proof {
                    lemma_as_map_index(self.register@, j as int);
                }
                Some(&self.register[j].1)
            },
            None => None,
        }
    }
}

/// Whether the Insert passthrough rule fires: in Insert mode a printable
/// character, or a tab without Control or Alt, is inserted literally and
/// never consults the registry.
pub open spec fn insert_passthrough(mode: EditorMode, k: KeyCombination) -> bool {
    mode == EditorMode::Insert && (is_printable(k) || (k.code == KeyCode::Tab
        && !k.modifiers.control && !k.modifiers.alt))
}

/// Whether the Search passthrough rule fires: in Search mode a printable
/// character is appended to the query and never consults the registry.
pub open spec fn search_passthrough(mode: EditorMode, k: KeyCombination) -> bool {
    mode == EditorMode::Search && is_printable(k)
}

/// The literal character a passthrough event carries.
pub open spec fn literal_char(k: KeyCombination) -> char {
    match k.code {
        KeyCode::Char(c) => c,
        _ => '\t',
    }
}

/// Whether the dispatcher keeps waiting on pending chord `p`: some chord
/// registered in the active mode strictly extends `p`, so a longer binding
/// may still complete.
pub open spec fn waits_for_more(
    m: Map<BindingKey, Seq<Effect>>,
    mode: EditorMode,
    p: Seq<KeyCombination>,
) -> bool {
    exists|bk: BindingKey|
        m.dom().contains(bk) && bk.mode == mode && p.len() < bk.keys.len() && is_chord_prefix(
            p,
            bk.keys,
        )
}

/// The entry-list counterpart of [`waits_for_more`].
pub open spec fn has_strict_extension(
    s: Seq<(KeyCombinationRegister, Action)>,
    mode: EditorMode,
    p: Seq<KeyCombination>,
) -> bool {
    exists|i: int|
        0 <= i < s.len() && s[i].0@.mode == mode && p.len() < s[i].0@.keys.len()
            && is_chord_prefix(p, s[i].0@.keys)
}

/// The entry list strictly extends `p` exactly when its denoted map does.
pub proof fn lemma_strict_extension_bridge(
    s: Seq<(KeyCombinationRegister, Action)>,
    mode: EditorMode,
    p: Seq<KeyCombination>,
)
    ensures
        has_strict_extension(s, mode, p) <==> waits_for_more(as_map(s), mode, p),
{
    if has_strict_extension(s, mode, p) {
        let i = choose|i: int|
            0 <= i < s.len() && s[i].0@.mode == mode && p.len() < s[i].0@.keys.len()
                && is_chord_prefix(p, s[i].0@.keys);
        lemma_as_map_contains(s, s[i].0@);
        assert(as_map(s).dom().contains(s[i].0@));
        assert(waits_for_more(as_map(s), mode, p));
    }
    if waits_for_more(as_map(s), mode, p) {
        let bk = choose|bk: BindingKey|
            as_map(s).dom().contains(bk) && bk.mode == mode && p.len() < bk.keys.len()
                && is_chord_prefix(p, bk.keys);
        lemma_as_map_contains(s, bk);
        let i = choose|i: int| 0 <= i < s.len() && s[i].0@ == bk;
        assert(has_strict_extension(s, mode, p));
    }
}

/// The outcome of one dispatch call: the dispatcher and editor state after
/// processing one raw event.
///
/// The passthrough rules are checked first, against the current mode and the
/// raw event alone; they leave the pending chord untouched.  Otherwise the
/// event is appended to the pending chord, forming the candidate `p`, and
/// the registry is consulted for the active mode:
///
/// - an exact match is preferred over a strict-prefix match: if `p` itself
///   is registered, the pending chord is cleared and the bound action
///   executes, exactly once;
/// - otherwise, while some registered chord strictly extends `p`, the
///   dispatcher keeps `p` pending and performs nothing — a longer binding
///   may still complete;
/// - otherwise no registered chord has `p` as a prefix at all: the pending
///   chord is cleared and the event is dropped with no side effect.
///
/// A strict, non-exact prefix never fires an action by itself, so no
/// tie-break among same-prefix candidates is ever consulted; the exact match
/// is unique because the registry holds at most one action per (mode, chord)
/// key.
pub open spec fn dispatch_step(d: DispatcherV, k: KeyCombination, s: EditorStateV) -> (
    DispatcherV,
    EditorStateV,
) {
    if insert_passthrough(s.mode, k) {
        let s1 = if d.capture_on_insert {
            EditorStateV { checkpoints: checkpoints_after(s.checkpoints), ..s }
        } else {
            s
        };
        (d, apply_effect(s1, Effect::InsertChar(literal_char(k))))
    } else if search_passthrough(s.mode, k) {
        (d, apply_effect(s, Effect::AppendCharToSearch(literal_char(k))))
    } else {
        let p = d.pending.push(k);
        let bk = BindingKey { mode: s.mode, keys: p };
        if d.register.dom().contains(bk) {
            (DispatcherV { pending: Seq::empty(), ..d }, apply_effects(s, d.register[bk]))
        } else if waits_for_more(d.register, s.mode, p) {
            (DispatcherV { pending: p, ..d }, s)
        } else {
            (DispatcherV { pending: Seq::empty(), ..d }, s)
        }
    }
}

impl KeyCombinationHandler {
    /// Appends the event to the pending chord and consults the registry for
    /// the active mode.  Returns the index of the entry to fire, if the
    /// candidate chord is registered exactly; keeps the candidate pending
    /// when only a longer registered chord could still complete.
    fn get(&mut self, c: &KeyCombination, mode: EditorMode) -> (r: Option<usize>)
        requires
            old(self).wf(),
        ensures
            final(self).wf(),
            final(self).register@ == old(self).register@,
            final(self).capture_on_insert == old(self).capture_on_insert,
            ({
                let p = old(self).lookup@.push(*c);
                let bk = BindingKey { mode, keys: p };
                match r {
                    Some(j) => j < old(self).register@.len() && old(self).register@[j as int].0@
                        == bk && final(self).lookup@ == Seq::<KeyCombination>::empty(),
                    None => {
                        &&& forall|i: int|
                            0 <= i < old(self).register@.len() ==> old(self).register@[i].0@ != bk
                        &&& if has_strict_extension(old(self).register@, mode, p) {
                            final(self).lookup@ == p
                        } else {
                            final(self).lookup@ == Seq::<KeyCombination>::empty()
                        }
                    },
                }
            }),
    {
        self.lookup.push(*c);
        let ghost p = self.lookup@;
        let ghost bk = BindingKey { mode, keys: p };
        let ghost entries = self.register@;
        let n = self.register.len();
        let mut i: usize = 0;
        let mut extension = false;
        let mut exact: Option<usize> = None;
        while i < n
            invariant
                i <= n,
                n == entries.len(),
                self.register@ == entries,
                self.lookup@ == p,
                bk == (BindingKey { mode, keys: p }),
                extension == exists|j: int|
                    0 <= j < i && entries[j].0@.mode == mode && p.len() < entries[j].0@.keys.len()
                        && is_chord_prefix(p, entries[j].0@.keys),
                match exact {
                    Some(j) => j < i && entries[j as int].0@ == bk,
                    None => forall|j: int| 0 <= j < i ==> entries[j].0@ != bk,
                },
            decreases n - i,
        {
            let entry = &self.register[i];
            if entry.0.mode == mode {
                if self.lookup.len() < entry.0.keys.len() && chord_prefix_of(
                    &self.lookup,
                    &entry.0.keys,
                ) {
                    extension = true;
                    proof {
                        assert(entries[i as int].0@.mode == mode && p.len() < entries[
                            i as int
                        ].0@.keys.len() && is_chord_prefix(p, entries[i as int].0@.keys));
                    }
                }
                if exact.is_none() && chord_eq(&entry.0.keys, &self.lookup) {
                    exact = Some(i);
                    proof {
                        assert(entries[i as int].0@ =~= bk);
                    }
                }
            }
            proof {
                if exact is None {
                    assert(forall|j: int| 0 <= j < i + 1 ==> entries[j].0@ != bk) by {
                        assert(entries[i as int].0@.mode != mode || entries[i as int].0@.keys
                            != p);
                    }
                }
            }
            i += 1;
        }
        match exact {
            Some(j) => {
                self.lookup.clear();
                Some(j)
            },
            None => {
                if !extension {
                    self.lookup.clear();
                }
                None
            },
        }
    }

    /// Processes one raw input event against the editor state: the
    /// passthrough rules first, then registry lookup and action execution,
    /// as [`dispatch_step`] states.  The host forwards each event here and
    /// re-renders from the mutated state; an unmatched chord is silently
    /// dropped.
    pub fn on_event(&mut self, key: &KeyCombination, state: &mut EditorState)
        requires
            old(self).wf(),
            old(state).wf(),
        ensures
            final(self).wf(),
            final(state).wf(),
            final(self)@ == dispatch_step(old(self)@, *key, old(state)@).0,
            final(state)@ == dispatch_step(old(self)@, *key, old(state)@).1,
    {
        let mode = state.mode;
        let ctrl_or_alt = key.modifiers.control || key.modifiers.alt;
        match key.code {
            KeyCode::Char(c) => {
                if mode == EditorMode::Insert && !ctrl_or_alt {
                    if self.capture_on_insert {
                        state.capture();
                    }
                    state.apply(Effect::InsertChar(c));
                    return;
                }
                if mode == EditorMode::Search && !ctrl_or_alt {
                    state.apply(Effect::AppendCharToSearch(c));
                    return;
                }
            },
            KeyCode::Tab => {
                if mode == EditorMode::Insert && !ctrl_or_alt {
                    if self.capture_on_insert {
                        state.capture();
                    }
                    state.apply(Effect::InsertChar('\t'));
                    return;
                }
            },
            _ => {},
        }
        let ghost p = self.lookup@.push(*key);
        let ghost bk = BindingKey { mode, keys: p };
        let ghost entries = self.register@;
        proof {
            lemma_strict_extension_bridge(entries, mode, p);
            lemma_as_map_contains(entries, bk);
        }
        let found = self.get(key, mode);
        match found {
            Some(j) => {
                proof {
                    lemma_as_map_index(entries, j as int);
                }
                let action = &self.register[j].1;
                action.execute(state);
                proof {
                    assert(self@ =~= dispatch_step(old(self)@, *key, old(state)@).0);
                }
            },
            None => {
                proof {
                    assert(self@ =~= dispatch_step(old(self)@, *key, old(state)@).0);
                }
            },
        }
    }
}

/// The map after registering a list of entries over `m`, in list order, each
/// overwriting any earlier action under its key.
pub open spec fn extended_map(
    m: Map<BindingKey, Seq<Effect>>,
    s: Seq<(KeyCombinationRegister, Action)>,
) -> Map<BindingKey, Seq<Effect>>
    decreases s.len(),
{
    if s.len() == 0 {
        m
    } else {
        extended_map(m.insert(s[0].0@, action_effects(s[0].1)), s.drop_first())
    }
}

/// The last entry of a list always wins: registering it is the final insert.
pub proof fn lemma_extended_map_push(
    m: Map<BindingKey, Seq<Effect>>,
    s: Seq<(KeyCombinationRegister, Action)>,
    e: (KeyCombinationRegister, Action),
)
    ensures
        extended_map(m, s.push(e)) == extended_map(m, s).insert(e.0@, action_effects(e.1)),
    decreases s.len(),
{
    if s.len() == 0 {
        assert(s.push(e)[0] == e);
        assert(s.push(e).drop_first() =~= Seq::<(KeyCombinationRegister, Action)>::empty());
        assert(extended_map(m, s) == m);
        assert(extended_map(
            m.insert(e.0@, action_effects(e.1)),
            Seq::<(KeyCombinationRegister, Action)>::empty(),
        ) == m.insert(e.0@, action_effects(e.1)));
    } else {
        assert(s.push(e)[0] == s[0]);
        assert(s.push(e).drop_first() =~= s.drop_first().push(e));
        lemma_extended_map_push(m.insert(s[0].0@, action_effects(s[0].1)), s.drop_first(), e);
    }
}

} // verus!
