use vstd::prelude::*;

use crate::action::{action_effects, list_effects, lemma_list_effects_push, Action, Effect};
use crate::mode::EditorMode;

verus! {

/// The mathematical model of the editor state: the active mode, the text as
/// a sequence of lines of characters, the cursor, the active search query,
/// the number of undo checkpoints taken, and the history of every atomic
/// effect executed so far, in execution order.
#[verifier::ext_equal]
pub ghost struct EditorStateV {
    pub mode: EditorMode,
    pub lines: Seq<Seq<char>>,
    pub row: nat,
    pub col: nat,
    pub search: Seq<char>,
    pub checkpoints: nat,
    pub trace: Seq<Effect>,
}

/// The length of line `r`, or zero when `r` is out of range.
pub open spec fn line_len(lines: Seq<Seq<char>>, r: nat) -> nat {
    if r < lines.len() {
        lines[r as int].len()
    } else {
        0
    }
}

/// The smaller of two naturals.
pub open spec fn nat_min(a: nat, b: nat) -> nat {
    if a <= b {
        a
    } else {
        b
    }
}

/// Cursor well-formedness: inside an empty buffer the cursor sits at the
/// origin; otherwise it sits on an existing row, at a column no further than
/// one past the last character of that row.
pub open spec fn state_wf(s: EditorStateV) -> bool {
    &&& s.lines.len() == 0 ==> s.row == 0 && s.col == 0
    &&& s.lines.len() > 0 ==> s.row < s.lines.len() && s.col <= s.lines[s.row as int].len()
}

/// Removes the cursor's line from the buffer, then clamps the cursor.
pub open spec fn delete_one_line(s: EditorStateV) -> EditorStateV {
    if s.lines.len() == 0 {
        s
    } else {
        let r = nat_min(s.row, (s.lines.len() - 1) as nat);
        let lines2 = s.lines.remove(r as int);
        let r2 = if lines2.len() == 0 {
            0
        } else {
            nat_min(r, (lines2.len() - 1) as nat)
        };
        EditorStateV { lines: lines2, row: r2, col: nat_min(s.col, line_len(lines2, r2)), ..s }
    }
}

/// Removes up to `n` lines at the cursor, clamping the cursor after each.
pub open spec fn delete_lines(s: EditorStateV, n: nat) -> EditorStateV
    decreases n,
{
    if n == 0 || s.lines.len() == 0 {
        s
    } else {
        delete_lines(delete_one_line(s), (n - 1) as nat)
    }
}

/// Inserts `c` at the cursor and moves the cursor one column forward.  An
/// empty buffer gains its first line.
pub open spec fn insert_char_at_cursor(s: EditorStateV, c: char) -> EditorStateV {
    if s.lines.len() == 0 {
        EditorStateV { lines: seq![seq![c]], row: 0 as nat, col: 1 as nat, ..s }
    } else {
        let r = nat_min(s.row, (s.lines.len() - 1) as nat);
        let line = s.lines[r as int];
        let c0 = nat_min(s.col, line.len());
        EditorStateV {
            lines: s.lines.update(r as int, line.insert(c0 as int, c)),
            row: r,
            col: (c0 + 1) as nat,
            ..s
        }
    }
}

/// The meaning of executing one atomic effect against a state.  Every effect
/// is appended to the trace; the effects this core interprets — mode
/// switches, the plain cursor motions, literal insertion, line deletion and
/// the search-query edits — additionally update the model fields.  The
/// remaining effects' algorithms belong to the external buffer, selection,
/// clipboard, undo and search collaborators (word motions, bracket matching,
/// selections, the other line edits, undo/redo internals, search matching):
/// they leave the model fields unchanged, and only the trace records that
/// they were invoked.
pub open spec fn apply_effect(s: EditorStateV, e: Effect) -> EditorStateV {
    let t = EditorStateV { trace: s.trace.push(e), ..s };
    match e {
        Effect::SwitchMode(m) => EditorStateV { mode: m, ..t },
        Effect::MoveForward(n) => EditorStateV {
            col: nat_min((s.col + n) as nat, line_len(s.lines, s.row)),
            ..t
        },
        Effect::MoveBackward(n) => EditorStateV {
            col: if n <= s.col {
                (s.col - n) as nat
            } else {
                0 as nat
            },
            ..t
        },
        Effect::MoveUp(n) => {
            let r = if n <= s.row {
                (s.row - n) as nat
            } else {
                0 as nat
            };
            EditorStateV { row: r, col: nat_min(s.col, line_len(s.lines, r)), ..t }
        },
        Effect::MoveDown(n) => {
            let r = if s.lines.len() == 0 {
                0 as nat
            } else {
                nat_min((s.row + n) as nat, (s.lines.len() - 1) as nat)
            };
            EditorStateV { row: r, col: nat_min(s.col, line_len(s.lines, r)), ..t }
        },
        Effect::MoveToStartOfLine => EditorStateV { col: 0 as nat, ..t },
        Effect::MoveToEndOfLine => EditorStateV { col: line_len(s.lines, s.row), ..t },
        Effect::MoveToFirstRow => EditorStateV {
            row: 0 as nat,
            col: nat_min(s.col, line_len(s.lines, 0)),
            ..t
        },
        Effect::MoveToLastRow => {
            let r = if s.lines.len() == 0 {
                0 as nat
            } else {
                (s.lines.len() - 1) as nat
            };
            EditorStateV { row: r, col: nat_min(s.col, line_len(s.lines, r)), ..t }
        },
        Effect::InsertChar(c) => insert_char_at_cursor(t, c),
        Effect::DeleteLine(n) => delete_lines(t, n as nat),
        Effect::AppendCharToSearch(c) => EditorStateV { search: s.search.push(c), ..t },
        Effect::RemoveCharFromSearch => EditorStateV {
            search: if s.search.len() > 0 {
                s.search.drop_last()
            } else {
                s.search
            },
            ..t
        },
        Effect::StartSearch => EditorStateV { search: Seq::empty(), ..t },
        Effect::StopSearch => EditorStateV { search: Seq::empty(), ..t },
        _ => t,
    }
}

/// Executing a sequence of effects, first to last.
pub open spec fn apply_effects(s: EditorStateV, es: Seq<Effect>) -> EditorStateV
    decreases es.len(),
{
    if es.len() == 0 {
        s
    } else {
        apply_effects(apply_effect(s, es[0]), es.drop_first())
    }
}

/// The meaning of executing an action: its atomic effects, in order.
pub open spec fn apply_action(s: EditorStateV, a: Action) -> EditorStateV {
    apply_effects(s, action_effects(a))
}

/// Effect sequences execute piecewise: a concatenation runs its first part,
/// then its second part against the intermediate state.
pub proof fn lemma_apply_effects_app(s: EditorStateV, e1: Seq<Effect>, e2: Seq<Effect>)
    ensures
        apply_effects(s, e1 + e2) == apply_effects(apply_effects(s, e1), e2),
    decreases e1.len(),
{
    if e1.len() == 0 {
        assert(e1 + e2 =~= e2);
    } else {
        assert((e1 + e2).drop_first() =~= e1.drop_first() + e2);
        lemma_apply_effects_app(apply_effect(s, e1[0]), e1.drop_first(), e2);
    }
}

/// One effect keeps the cursor well-formed.
pub proof fn lemma_apply_effect_wf(s: EditorStateV, e: Effect)
    requires
        state_wf(s),
    ensures
        state_wf(apply_effect(s, e)),
{
    match e {
        Effect::DeleteLine(n) => {
            lemma_delete_lines_wf(EditorStateV { trace: s.trace.push(e), ..s }, n as nat);
        },
        _ => {},
    }
}

/// A whole effect sequence keeps the cursor well-formed.
pub proof fn lemma_apply_effects_wf(s: EditorStateV, es: Seq<Effect>)
    requires
        state_wf(s),
    ensures
        state_wf(apply_effects(s, es)),
    decreases es.len(),
{
    if es.len() > 0 {
        lemma_apply_effect_wf(s, es[0]);
        lemma_apply_effects_wf(apply_effect(s, es[0]), es.drop_first());
    }
}

/// Deleting lines keeps the cursor well-formed.
pub proof fn lemma_delete_lines_wf(s: EditorStateV, n: nat)
    requires
        state_wf(s),
    ensures
        state_wf(delete_lines(s, n)),
    decreases n,
{
    if n > 0 && s.lines.len() > 0 {
        lemma_delete_lines_wf(delete_one_line(s), (n - 1) as nat);
    }
}

/// Deleting from an empty buffer changes nothing.
pub proof fn lemma_delete_lines_empty(s: EditorStateV, n: nat)
    requires
        s.lines.len() == 0,
    ensures
        delete_lines(s, n) == s,
    decreases n,
{
}

/// The editor state a host owns and hands to the dispatcher: the active
/// mode, the text buffer as lines of characters, the cursor position, the
/// active search query, and the number of undo checkpoints taken so far.
/// The ghost `trace` records every atomic effect executed against this
/// state, in order.
pub struct EditorState {
    pub mode: EditorMode,
    pub lines: Vec<Vec<char>>,
    pub row: usize,
    pub col: usize,
    pub search: Vec<char>,
    pub checkpoints: usize,
    pub trace: Ghost<Seq<Effect>>,
}

impl View for EditorState {
    type V = EditorStateV;

    open spec fn view(&self) -> EditorStateV {
        EditorStateV {
            mode: self.mode,
            lines: self.lines.deep_view(),
            row: self.row as nat,
            col: self.col as nat,
            search: self.search@,
            checkpoints: self.checkpoints as nat,
            trace: self.trace@,
        }
    }
}

impl EditorState {
    /// Cursor well-formedness of the concrete state.
    pub open spec fn wf(&self) -> bool {
        state_wf(self@)
    }

    /// A fresh editor state: the given mode, an empty buffer, the cursor at
    /// the origin, an empty search query, and no checkpoints.
    pub fn new(mode: EditorMode) -> (r: EditorState)
        ensures
            r.wf(),
            r@ == (EditorStateV {
                mode,
                lines: Seq::empty(),
                row: 0 as nat,
                col: 0 as nat,
                search: Seq::empty(),
                checkpoints: 0 as nat,
                trace: Seq::empty(),
            }),
    {
        let r = EditorState {
            mode,
            lines: Vec::new(),
            row: 0,
            col: 0,
            search: Vec::new(),
            checkpoints: 0,
            trace: Ghost(Seq::empty()),
        };
        proof {
            assert(r.lines.deep_view() =~= Seq::<Seq<char>>::empty());
            assert(r@ =~= EditorStateV {
                mode,
                lines: Seq::empty(),
                row: 0 as nat,
                col: 0 as nat,
                search: Seq::empty(),
                checkpoints: 0 as nat,
                trace: Seq::empty(),
            });
        }
        r
    }

    /// Takes an undo checkpoint of the buffer: making the next edit one
    /// undo-able unit is the external undo collaborator's business; the
    /// model counts the checkpoints.
    pub fn capture(&mut self)
        ensures
            final(self)@ == (EditorStateV { checkpoints: checkpoints_after(old(self)@.checkpoints), ..old(self)@ }),
            final(self).wf() == old(self).wf(),
    {
        if self.checkpoints < usize::MAX {
            self.checkpoints = self.checkpoints + 1;
        }
    }

    /// Executes one atomic effect against this state.
    pub fn apply(&mut self, e: Effect)
        requires
            old(self).wf(),
        ensures
            final(self).wf(),
            final(self)@ == apply_effect(old(self)@, e),
    {
        proof {
            self.trace@ = self.trace@.push(e);
        }
        match e {
            Effect::SwitchMode(m) => {
                self.mode = m;
            },
            Effect::MoveForward(n) => {
                let ll = self.cur_line_len();
                if ll - self.col <= n {
                    self.col = ll;
                } else {
                    self.col = self.col + n;
                }
            },
            Effect::MoveBackward(n) => {
                if n <= self.col {
                    self.col = self.col - n;
                } else {
                    self.col = 0;
                }
            },
            Effect::MoveUp(n) => {
                if n <= self.row {
                    self.row = self.row - n;
                } else {
                    self.row = 0;
                }
                self.clamp_col();
            },
            Effect::MoveDown(n) => {
                if self.lines.len() == 0 {
                    self.row = 0;
                } else {
                    let last = self.lines.len() - 1;
                    if last - self.row <= n {
                        self.row = last;
                    } else {
                        self.row = self.row + n;
                    }
                }
                self.clamp_col();
            },
            Effect::MoveToStartOfLine => {
                self.col = 0;
            },
            Effect::MoveToEndOfLine => {
                self.col = self.cur_line_len();
            },
            Effect::MoveToFirstRow => {
                self.row = 0;
                self.clamp_col();
            },
            Effect::MoveToLastRow => {
                if self.lines.len() == 0 {
                    self.row = 0;
                } else {
                    self.row = self.lines.len() - 1;
                }
                self.clamp_col();
            },
            Effect::InsertChar(c) => {
                self.insert_char(c);
            },
            Effect::DeleteLine(n) => {
                self.delete_lines_exec(n);
            },
            Effect::AppendCharToSearch(c) => {
                self.search.push(c);
            },
            Effect::RemoveCharFromSearch => {
                if self.search.len() > 0 {
                    let _ = self.search.pop();
                }
            },
            Effect::StartSearch => {
                self.search.clear();
            },
            Effect::StopSearch => {
                self.search.clear();
            },
            _ => {},
        }
    }

    /// The length of the cursor's line, or zero in an empty buffer.
    fn cur_line_len(&self) -> (r: usize)
        requires
            self.wf(),
        ensures
            r == line_len(self@.lines, self@.row),
    {
        if self.lines.len() == 0 {
            0
        } else {
            self.lines[self.row].len()
        }
    }

    /// Clamps the column to the cursor's line.
    fn clamp_col(&mut self)
        requires
            old(self).lines@.len() > 0 ==> old(self).row < old(self).lines@.len(),
            old(self).lines@.len() == 0 ==> old(self).row == 0,
        ensures
            final(self)@ == (EditorStateV {
                col: nat_min(old(self)@.col, line_len(old(self)@.lines, old(self)@.row)),
                ..old(self)@
            }),
            final(self).wf(),
    {
        let ll = if self.lines.len() == 0 {
            0
        } else {
            self.lines[self.row].len()
        };
        if self.col > ll {
            self.col = ll;
        }
    }

    /// Inserts `c` at the cursor; the first character of an empty buffer
    /// creates its line.
    fn insert_char(&mut self, c: char)
        requires
            old(self).wf(),
        ensures
            final(self).wf(),
            final(self)@ == insert_char_at_cursor(old(self)@, c),
    {
        if self.lines.len() == 0 {
            let mut first: Vec<char> = Vec::new();
            first.push(c);
            proof {
                assert(first.deep_view() =~= seq![c]);
            }
            self.lines.push(first);
            self.row = 0;
            self.col = 1;
            proof {
                assert(self.lines.deep_view() =~= seq![seq![c]]);
                assert(self@ =~= insert_char_at_cursor(old(self)@, c));
            }
        } else {
            let ghost pre = self@;
            let row = self.row;
            let col = self.col;
            let line = &mut self.lines[row];
            proof {
                lemma_char_vec_deep_view(*line);
            }
            line.insert(col, c);
            let new_len = line.len();
            proof {
                lemma_char_vec_deep_view(*line);
                assert(col < new_len);
                assert(self.lines.deep_view() =~= pre.lines.update(
                    row as int,
                    pre.lines[row as int].insert(col as int, c),
                ));
            }
            self.col = col + 1;
            proof {
                assert(self@ =~= insert_char_at_cursor(pre, c));
            }
        }
    }

    /// Removes up to `n` lines at the cursor.
    fn delete_lines_exec(&mut self, n: usize)
        requires
            old(self).wf(),
        ensures
            final(self).wf(),
            final(self)@ == delete_lines(old(self)@, n as nat),
    {
        let ghost target = delete_lines(old(self)@, n as nat);
        let mut k: usize = n;
        while k > 0
            invariant
                self.wf(),
                target == delete_lines(self@, k as nat),
            decreases k,
        {
            if self.lines.len() == 0 {
                proof {
                    lemma_delete_lines_empty(self@, k as nat);
                }
                k = 0;
            } else {
                let ghost pre = self@;
                let r = self.row;
                let _ = self.lines.remove(r);
                proof {
                    assert(self.lines.deep_view() =~= pre.lines.remove(r as int));
                }
                if self.lines.len() == 0 {
                    self.row = 0;
                } else if self.row >= self.lines.len() {
                    self.row = self.lines.len() - 1;
                }
                self.clamp_col();
                proof {
                    assert(self@ =~= delete_one_line(pre));
                }
                k = k - 1;
            }
        }
    }
}

/// A vector of characters views deeply as exactly its shallow view.
pub proof fn lemma_char_vec_deep_view(v: Vec<char>)
    ensures
        v.deep_view() == v@,
{
    assert(v.deep_view() =~= v@);
}

/// The checkpoint counter after one more checkpoint; it saturates at the
/// machine limit.
pub open spec fn checkpoints_after(c: nat) -> nat {
    if c < usize::MAX {
        (c + 1) as nat
    } else {
        c
    }
}

impl Action {
    /// Executes this action against the editor state: an atomic action
    /// performs its effect, a composed action executes each child in
    /// declared order, each child observing the mutations of the previous
    /// one.  There is no rollback.
    pub fn execute(&self, state: &mut EditorState)
        requires
            old(state).wf(),
        ensures
            final(state).wf(),
            final(state)@ == apply_action(old(state)@, *self),
        decreases *self,
    {
        match self {
            Action::Atomic(e) => {
                state.apply(*e);
                proof {
                    let es = seq![*e];
                    assert(es.drop_first() =~= Seq::<Effect>::empty());
                    assert(apply_effects(apply_effect(old(state)@, *e), Seq::<Effect>::empty())
                        == apply_effect(old(state)@, *e));
                    assert(apply_effects(old(state)@, es) == apply_effect(old(state)@, *e));
                    assert(action_effects(*self) == es);
                }
            },
            Action::Composed(children) => {
                let ghost s0 = state@;
                let mut i: usize = 0;
                while i < children.len()
                    invariant
                        old(state).wf(),
                        state.wf(),
                        i <= children.len(),
                        state@ == apply_effects(s0, list_effects(children@.subrange(0, i as int))),
                        *self == Action::Composed(*children),
                        s0 == old(state)@,
                    decreases children.len() - i,
                {
                    let child = &children[i];
                    proof {
                        assert(decreases_to!(*self => self->Composed_0));
                        assert(decreases_to!(self->Composed_0 => children@));
                        assert(decreases_to!(children@ => children@[i as int]));
                        assert(decreases_to!(*self => children@[i as int]));
                    }
                    child.execute(state);
                    proof {
                        let prefix = children@.subrange(0, i as int);
                        assert(children@.subrange(0, i as int + 1) =~= prefix.push(
                            children@[i as int],
                        ));
                        lemma_list_effects_push(prefix, children@[i as int]);
                        lemma_apply_effects_app(
                            s0,
                            list_effects(prefix),
                            action_effects(children@[i as int]),
                        );
                    }
                    i = i + 1;
                }
                proof {
                    assert(children@.subrange(0, children@.len() as int) =~= children@);
                }
            },
        }
    }
}

} // verus!
