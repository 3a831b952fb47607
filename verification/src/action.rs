use vstd::prelude::*;

verus! {

/// One step that the editor can perform.
#[derive(Clone, Debug)]
pub enum Action {
    /// Leave the editor; the flag asks to force it.
    Quit(bool),
    Save,
    /// Switch to the mode named by the first character of the string.
    ChangeMode(String),
    EnterRegister(String),
    LeaveRegister,
    ExecuteCommand,
    /// Move the cursor to column, row.
    MoveTo(usize, usize),
    MoveLeft,
    MoveRight,
    MoveUp,
    MoveDown,
    /// Register, text, column, row.
    InsertIntoRegisterAtPos(String, String, usize, usize),
    /// Register, text.
    InsertIntoRegister(String, String),
    InsertIntoCurrentRegister(String),
    DeletePrevFromRegister(String),
    DeletePrevFromCurrentRegister,
    ClearRegister(String),
    /// Text, column, row.
    InsertIntoBufferAt(String, usize, usize),
    /// Name of the event whose callbacks run.
    EventCallback(String),
    Dummy,
}

/// What a key binding or a command triggers.
#[derive(Debug)]
pub enum KeyAction {
    Single(Action),
    Multiple(Vec<Action>),
    /// A further level of bindings, by key.
    Nested(Vec<(String, KeyAction)>),
}

/// An action with each string taken by its characters.
pub enum ActionView {
    Quit(bool),
    Save,
    ChangeMode(Seq<char>),
    EnterRegister(Seq<char>),
    LeaveRegister,
    ExecuteCommand,
    MoveTo(usize, usize),
    MoveLeft,
    MoveRight,
    MoveUp,
    MoveDown,
    InsertIntoRegisterAtPos(Seq<char>, Seq<char>, usize, usize),
    InsertIntoRegister(Seq<char>, Seq<char>),
    InsertIntoCurrentRegister(Seq<char>),
    DeletePrevFromRegister(Seq<char>),
    DeletePrevFromCurrentRegister,
    ClearRegister(Seq<char>),
    InsertIntoBufferAt(Seq<char>, usize, usize),
    EventCallback(Seq<char>),
    Dummy,
}

impl View for Action {
    type V = ActionView;

    open spec fn view(&self) -> ActionView {
        match self {
            Action::Quit(f) => ActionView::Quit(*f),
            Action::Save => ActionView::Save,
            Action::ChangeMode(m) => ActionView::ChangeMode(m@),
            Action::EnterRegister(r) => ActionView::EnterRegister(r@),
            Action::LeaveRegister => ActionView::LeaveRegister,
            Action::ExecuteCommand => ActionView::ExecuteCommand,
            Action::MoveTo(x, y) => ActionView::MoveTo(*x, *y),
            Action::MoveLeft => ActionView::MoveLeft,
            Action::MoveRight => ActionView::MoveRight,
            Action::MoveUp => ActionView::MoveUp,
            Action::MoveDown => ActionView::MoveDown,
            Action::InsertIntoRegisterAtPos(r, t, x, y) => ActionView::InsertIntoRegisterAtPos(
                r@,
                t@,
                *x,
                *y,
            ),
            Action::InsertIntoRegister(r, t) => ActionView::InsertIntoRegister(r@, t@),
            Action::InsertIntoCurrentRegister(t) => ActionView::InsertIntoCurrentRegister(t@),
            Action::DeletePrevFromRegister(r) => ActionView::DeletePrevFromRegister(r@),
            Action::DeletePrevFromCurrentRegister => ActionView::DeletePrevFromCurrentRegister,
            Action::ClearRegister(r) => ActionView::ClearRegister(r@),
            Action::InsertIntoBufferAt(t, x, y) => ActionView::InsertIntoBufferAt(t@, *x, *y),
            Action::EventCallback(e) => ActionView::EventCallback(e@),
            Action::Dummy => ActionView::Dummy,
        }
    }
}

/// The views of a sequence of actions.
pub open spec fn views(actions: Seq<Action>) -> Seq<ActionView> {
    actions.map_values(|a: Action| a@)
}

impl Action {
    /// A copy of this action, equal to it.
    pub fn duplicate(&self) -> (r: Action)
        ensures
            r == *self,
    {
        match self {
            Action::Quit(force) => Action::Quit(*force),
            Action::Save => Action::Save,
            Action::ChangeMode(m) => Action::ChangeMode(m.clone()),
            Action::EnterRegister(r) => Action::EnterRegister(r.clone()),
            Action::LeaveRegister => Action::LeaveRegister,
            Action::ExecuteCommand => Action::ExecuteCommand,
            Action::MoveTo(x, y) => Action::MoveTo(*x, *y),
            Action::MoveLeft => Action::MoveLeft,
            Action::MoveRight => Action::MoveRight,
            Action::MoveUp => Action::MoveUp,
            Action::MoveDown => Action::MoveDown,
            Action::InsertIntoRegisterAtPos(r, t, x, y) => Action::InsertIntoRegisterAtPos(
                r.clone(),
                t.clone(),
                *x,
                *y,
            ),
            Action::InsertIntoRegister(r, t) => Action::InsertIntoRegister(r.clone(), t.clone()),
            Action::InsertIntoCurrentRegister(t) => Action::InsertIntoCurrentRegister(t.clone()),
            Action::DeletePrevFromRegister(r) => Action::DeletePrevFromRegister(r.clone()),
            Action::DeletePrevFromCurrentRegister => Action::DeletePrevFromCurrentRegister,
            Action::ClearRegister(r) => Action::ClearRegister(r.clone()),
            Action::InsertIntoBufferAt(t, x, y) => Action::InsertIntoBufferAt(t.clone(), *x, *y),
            Action::EventCallback(e) => Action::EventCallback(e.clone()),
            Action::Dummy => Action::Dummy,
        }
    }
}

/// A copy of a sequence of actions, element by element equal to it.
pub fn duplicate_actions(actions: &Vec<Action>) -> (r: Vec<Action>)
    ensures
        r@ == actions@,
{
    let mut r: Vec<Action> = Vec::new();
    let n = actions.len();
    for i in 0..n
        invariant
            n == actions.len(),
            r@ == actions@.take(i as int),
    {
        r.push(actions[i].duplicate());
        assert(actions@.take(i + 1) == actions@.take(i as int).push(actions@[i as int]));
    }
    assert(actions@.take(n as int) == actions@);
    r
}

/// Whether `b` is a copy of `a`: the same variant, the same actions, and for
/// a nested level the same keys in the same order, each with a copy of the
/// same binding.
pub open spec fn same_binding(a: KeyAction, b: KeyAction) -> bool
    decreases a,
{
    match a {
        KeyAction::Single(x) => b matches KeyAction::Single(y) && x@ == y@,
        KeyAction::Multiple(x) => b matches KeyAction::Multiple(y) && views(x@) == views(y@),
        KeyAction::Nested(x) => b matches KeyAction::Nested(y) && x@.len() == y@.len() && forall|
            i: int,
        |
            0 <= i < x@.len() ==> #[trigger] x@[i].0@ == y@[i].0@ && same_binding(
                x@[i].1,
                y@[i].1,
            ),
    }
}

/// A copy of a binding queues the same actions.
pub proof fn lemma_same_binding_plan(a: KeyAction, b: KeyAction)
    requires
        same_binding(a, b),
    ensures
        a.plan() == b.plan(),
{
}

/// Whether the keys of a nested level are pairwise distinct, as the keys of
/// a map are.
pub open spec fn keys_distinct(v: Seq<(String, KeyAction)>) -> bool {
    forall|i: int, j: int| 0 <= i < j < v.len() ==> #[trigger] v[i].0@ != #[trigger] v[j].0@
}

/// Whether every nested level of a binding, at any depth, has distinct keys.
pub open spec fn well_keyed(a: KeyAction) -> bool
    decreases a,
{
    match a {
        KeyAction::Nested(x) => keys_distinct(x@) && forall|i: int|
            0 <= i < x@.len() ==> well_keyed(#[trigger] x@[i].1),
        _ => true,
    }
}

/// The binding that the last entry with key `k` gives, if any entry has it.
pub open spec fn last_binding(entries: Seq<(String, KeyAction)>, k: Seq<char>) -> Option<
    KeyAction,
>
    decreases entries.len(),
{
    if entries.len() == 0 {
        None
    } else if entries.last().0@ == k {
        Some(entries.last().1)
    } else {
        last_binding(entries.drop_last(), k)
    }
}

/// A copy of a binding whose nested levels have distinct keys has them too.
pub proof fn lemma_same_binding_well_keyed(a: KeyAction, b: KeyAction)
    requires
        same_binding(a, b),
        well_keyed(a),
    ensures
        well_keyed(b),
    decreases a,
{
    if let KeyAction::Nested(x) = a {
        let y = b->Nested_0;
        assert forall|i: int| 0 <= i < y@.len() implies well_keyed(#[trigger] y@[i].1) by {
            assert(x@[i].0@ == y@[i].0@);
            vstd::std_specs::vec::axiom_vec_index_decreases(x, i);
            assert(decreases_to!(a => a->Nested_0));
            assert(decreases_to!(a->Nested_0 => x@[i]));
            assert(decreases_to!(x@[i] => x@[i].1));
            lemma_same_binding_well_keyed(x@[i].1, y@[i].1);
        }
        assert forall|i: int, j: int| 0 <= i < j < y@.len() implies #[trigger] y@[i].0@
            != #[trigger] y@[j].0@ by {
            assert(x@[i].0@ == y@[i].0@);
            assert(x@[j].0@ == y@[j].0@);
        }
    }
}

impl KeyAction {
    /// The actions this binding queues, in order; `None` for a nested level,
    /// which does not run as it stands.
    pub open spec fn plan(&self) -> Option<Seq<ActionView>> {
        match self {
            KeyAction::Single(a) => Some(seq![a@]),
            KeyAction::Multiple(v) => Some(views(v@)),
            KeyAction::Nested(_) => None,
        }
    }

    /// A nested level built from entries the way a map is built from them:
    /// each key once, in the order of its first entry, bound to what its last
    /// entry gives.
    pub fn nested(entries: Vec<(String, KeyAction)>) -> (r: KeyAction)
        ensures
            r is Nested,
            keys_distinct(r->Nested_0@),
            forall|j: int|
                0 <= j < r->Nested_0@.len() ==> last_binding(entries@, (#[trigger] r->Nested_0@[j]).0@)
                    == Some(r->Nested_0@[j].1),
            forall|k: Seq<char>|
                #[trigger] last_binding(entries@, k) is Some ==> exists|j: int|
                    0 <= j < r->Nested_0@.len() && (#[trigger] r->Nested_0@[j]).0@ == k,
            (forall|i: int| 0 <= i < entries@.len() ==> well_keyed(#[trigger] entries@[i].1))
                ==> well_keyed(r),
    {
        let ghost all = entries@;
        let mut rest = entries;
        let mut r: Vec<(String, KeyAction)> = Vec::new();
        let ghost mut done: int = 0;
        assert(all.skip(0) =~= all);
        while rest.len() > 0
            invariant
                0 <= done <= all.len(),
                rest@ == all.skip(done),
                keys_distinct(r@),
                forall|j: int|
                    0 <= j < r@.len() ==> last_binding(all.take(done), (#[trigger] r@[j]).0@)
                        == Some(r@[j].1),
                forall|k: Seq<char>|
                    #[trigger] last_binding(all.take(done), k) is Some ==> exists|j: int|
                        0 <= j < r@.len() && (#[trigger] r@[j]).0@ == k,
                forall|j: int| 0 <= j < r@.len() ==> exists|i: int|
                    0 <= i < done && (#[trigger] r@[j]).1 == all[i].1,
            decreases rest@.len(),
        {
            let entry = rest.remove(0);
            let ghost e = entry;
            assert(e == all[done]);
            let ghost r0 = r@;
            let ghost p = all.take(done + 1);
            assert(p.drop_last() =~= all.take(done));
            assert(p.last() == e);
            let n = r.len();
            let mut found: usize = n;
            let mut j: usize = 0;
            while j < n
                invariant_except_break
                    j <= n,
                    found == n,
                    forall|m: int| 0 <= m < j ==> (#[trigger] r@[m]).0@ != entry.0@,
                invariant
                    n == r@.len(),
                    r@ == r0,
                ensures
                    found <= n,
                    found < n ==> r@[found as int].0@ == entry.0@,
                    found == n ==> forall|m: int| 0 <= m < n ==> (#[trigger] r@[m]).0@ != entry.0@,
                decreases n - j,
            {
                if r[j].0 == entry.0 {
                    found = j;
                    break;
                }
                j = j + 1;
            }
            if found < n {
                r.set(found, entry);
                proof {
                    assert forall|m: int, q: int| 0 <= m < q < r@.len() implies #[trigger] r@[m].0@
                        != #[trigger] r@[q].0@ by {
                        assert(r0[m].0@ != r0[q].0@);
                    }
                }
            } else {
                r.push(entry);
                proof {
                    assert forall|m: int, q: int| 0 <= m < q < r@.len() implies #[trigger] r@[m].0@
                        != #[trigger] r@[q].0@ by {
                        if q == r@.len() - 1 {
                            assert(r0[m].0@ != e.0@);
                        } else {
                            assert(r0[m].0@ != r0[q].0@);
                        }
                    }
                }
            }
            proof {
                assert forall|k: Seq<char>| true implies #[trigger] last_binding(p, k) == (if e.0@
                    == k {
                    Some(e.1)
                } else {
                    last_binding(all.take(done), k)
                }) by {}
                let slot: int = if found < n {
                    found as int
                } else {
                    n as int
                };
                assert(r@[slot] == e);
                assert forall|q: int| 0 <= q < r@.len() && q != slot implies (#[trigger] r@[q])
                    == r0[q] && r0[q].0@ != e.0@ by {
                    if found < n {
                        assert(r0[q].0@ != r0[found as int].0@);
                    }
                }
                assert forall|q: int| 0 <= q < r@.len() implies last_binding(p, (#[trigger] r@[q]).0@)
                    == Some(r@[q].1) by {
                    if q != slot {
                        assert(r@[q] == r0[q]);
                        assert(last_binding(p, r0[q].0@) == last_binding(all.take(done), r0[q].0@));
                    }
                }
                assert forall|k: Seq<char>| #[trigger] last_binding(p, k) is Some implies exists|
                    q: int,
                | 0 <= q < r@.len() && (#[trigger] r@[q]).0@ == k by {
                    if k == e.0@ {
                        assert(r@[slot].0@ == k);
                    } else {
                        assert(last_binding(all.take(done), k) is Some);
                        let q = choose|q: int| 0 <= q < r0.len() && (#[trigger] r0[q]).0@ == k;
                        assert(r@[q] == r0[q]);
                    }
                }
                assert forall|q: int| 0 <= q < r@.len() implies exists|i: int|
                    0 <= i < done + 1 && (#[trigger] r@[q]).1 == all[i].1 by {
                    if q == slot {
                        assert(r@[q].1 == all[done].1);
                    } else {
                        assert(r@[q] == r0[q]);
                        let i = choose|i: int| 0 <= i < done && (#[trigger] r0[q]).1 == all[i].1;
                        assert(r@[q].1 == all[i].1);
                    }
                }
                assert(all.skip(done + 1) =~= rest@);
                done = done + 1;
            }
        }
        assert(all.take(done) =~= all);
        let out = KeyAction::Nested(r);
        proof {
            if forall|i: int| 0 <= i < all.len() ==> well_keyed(#[trigger] all[i].1) {
                assert forall|q: int| 0 <= q < r@.len() implies well_keyed(#[trigger] r@[q].1) by {
                    let i = choose|i: int| 0 <= i < done && (#[trigger] r@[q]).1 == all[i].1;
                    assert(well_keyed(all[i].1));
                }
            }
        }
        out
    }

    /// Whether the binding queues actions as it stands, that is, is not a
    /// nested level.
    pub fn plan_exists(&self) -> (b: bool)
        ensures
            b == self.plan() is Some,
    {
        match self {
            KeyAction::Nested(_) => false,
            _ => true,
        }
    }

    /// A copy of this binding: the same variant, actions and keys, all the
    /// way down.
    pub fn duplicate(&self) -> (r: KeyAction)
        ensures
            same_binding(*self, r),
            r.plan() == self.plan(),
            well_keyed(*self) ==> well_keyed(r),
        decreases self,
    {
        let out = match self {
            KeyAction::Single(a) => KeyAction::Single(a.duplicate()),
            KeyAction::Multiple(v) => KeyAction::Multiple(duplicate_actions(v)),
            KeyAction::Nested(v) => {
                let mut r: Vec<(String, KeyAction)> = Vec::new();
                let n = v.len();
                for i in 0..n
                    invariant
                        n == v.len(),
                        *self == KeyAction::Nested(*v),
                        r@.len() == i,
                        forall|j: int|
                            0 <= j < i ==> v@[j].0@ == (#[trigger] r@[j]).0@ && same_binding(
                                v@[j].1,
                                r@[j].1,
                            ),
                {
                    proof {
                        vstd::std_specs::vec::axiom_vec_index_decreases(*v, i as int);
                        assert(decreases_to!(*self => self->Nested_0));
                        assert(decreases_to!(self->Nested_0 => v@[i as int]));
                        assert(decreases_to!(v@[i as int] => v@[i as int].1));
                        assert(decreases_to!(*self => v@[i as int].1));
                    }
                    let entry = &v[i];
                    let key = entry.0.clone();
                    let inner = entry.1.duplicate();
                    r.push((key, inner));
                    assert(r@[i as int].0@ == v@[i as int].0@);
                }
                let out = KeyAction::Nested(r);
                assert forall|j: int| 0 <= j < v@.len() implies #[trigger] v@[j].0@ == r@[j].0@
                    && same_binding(v@[j].1, r@[j].1) by {
                    assert(r@[j].0@ == v@[j].0@);
                }
                out
            },
        };
        proof {
            if well_keyed(*self) {
                lemma_same_binding_well_keyed(*self, out);
            }
        }
        out
    }
}

} // verus!
