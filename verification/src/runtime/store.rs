//! The variables of a running script: the local variables of each
//! running script (one frame per included script, numbered from the
//! frame's base) and the global variables, by name.

use crate::runtime::variable::{variables_view, Variable, VariableView};
use vstd::prelude::*;

verus! {

/// The variable a `set` writes: a local variable of the running script, by
/// its number in the frame, or a global variable, by its name.
#[derive(Debug, PartialEq, Eq)]
pub enum VarTarget {
    Local(usize),
    Global(String),
}

/// The variables of a run: the local variables of all frames, where the
/// running script's frame starts, and the global variables with their
/// names (a later entry for a name stands for it).
pub struct VarStore {
    pub local: Vec<Variable>,
    pub local_base: usize,
    pub global: Vec<(String, Variable)>,
}

/// The global variables as a map from names to values; of two entries
/// with one name, the later one counts.
pub open spec fn globals_map(g: Seq<(String, Variable)>) -> Map<Seq<char>, VariableView>
    decreases g.len(),
{
    if g.len() == 0 {
        Map::empty()
    } else {
        globals_map(g.drop_last()).insert(g.last().0@, g.last().1@)
    }
}

/// Where the local variable `id` of the running script stands, when the
/// frame has it.
pub open spec fn local_index(v: VarStore, id: int) -> Option<int> {
    if 0 <= id && v.local_base + id < v.local@.len() {
        Some(v.local_base + id)
    } else {
        None
    }
}

/// The local variables of the running script after `set` writes `value`
/// to `id`: unchanged when the frame has no such variable.
pub open spec fn locals_after_set(v: VarStore, id: int, value: VariableView) -> Seq<VariableView> {
    match local_index(v, id) {
        Some(k) => variables_view(v.local@).update(k, value),
        None => variables_view(v.local@),
    }
}

/// Whether `w` is `v` after `set` wrote `value` to `target`: a local
/// variable is written in place, a global one takes the value under its
/// name; nothing else changes.
pub open spec fn set_ok(v: VarStore, target: VarTarget, value: VariableView, w: VarStore) -> bool {
    match target {
        VarTarget::Local(id) => {
            &&& variables_view(w.local@) == locals_after_set(v, id as int, value)
            &&& w.local_base == v.local_base
            &&& globals_map(w.global@) == globals_map(v.global@)
        },
        VarTarget::Global(name) => {
            &&& variables_view(w.local@) == variables_view(v.local@)
            &&& w.local_base == v.local_base
            &&& globals_map(w.global@) == globals_map(v.global@).insert(name@, value)
        },
    }
}

proof fn lemma_globals_push(g: Seq<(String, Variable)>, e: (String, Variable))
    ensures
        globals_map(g.push(e)) == globals_map(g).insert(e.0@, e.1@),
{
    assert(g.push(e).drop_last() =~= g);
}

/// Writing over the last entry of a name gives the map with the new value
/// under that name.
proof fn lemma_globals_update(g: Seq<(String, Variable)>, i: int, e: (String, Variable))
    requires
        0 <= i < g.len(),
        g[i].0@ == e.0@,
        forall|j: int| i < j < g.len() ==> g[j].0@ != e.0@,
    ensures
        globals_map(g.update(i, e)) == globals_map(g).insert(e.0@, e.1@),
    decreases g.len(),
{
    let h = g.update(i, e);
    if i == g.len() - 1 {
        assert(h.drop_last() =~= g.drop_last());
        assert(globals_map(h) =~= globals_map(g).insert(e.0@, e.1@));
    } else {
        assert(h.drop_last() =~= g.drop_last().update(i, e));
        lemma_globals_update(g.drop_last(), i, e);
        assert(h.last() == g.last());
        assert(globals_map(h) =~= globals_map(g).insert(e.0@, e.1@));
    }
}

/// The last entry of a name gives its value.
proof fn lemma_globals_get(g: Seq<(String, Variable)>, k: Seq<char>, i: int)
    requires
        0 <= i < g.len(),
        g[i].0@ == k,
        forall|j: int| i < j < g.len() ==> g[j].0@ != k,
    ensures
        globals_map(g).contains_key(k),
        globals_map(g)[k] == g[i].1@,
    decreases g.len(),
{
    if i < g.len() - 1 {
        lemma_globals_get(g.drop_last(), k, i);
    }
}

/// A name no entry has is not in the map.
proof fn lemma_globals_absent(g: Seq<(String, Variable)>, k: Seq<char>)
    requires
        forall|j: int| 0 <= j < g.len() ==> g[j].0@ != k,
    ensures
        !globals_map(g).contains_key(k),
    decreases g.len(),
{
    if g.len() > 0 {
        lemma_globals_absent(g.drop_last(), k);
    }
}

/// The position of the last entry named `name`.
fn last_entry(g: &Vec<(String, Variable)>, name: &str) -> (r: Option<usize>)
    ensures
        match r {
            Some(i) => i < g@.len() && g@[i as int].0@ == name@ && forall|j: int|
                i < j < g@.len() ==> g@[j].0@ != name@,
            None => forall|j: int| 0 <= j < g@.len() ==> g@[j].0@ != name@,
        },
{
    let mut i: usize = g.len();
    while i > 0
        invariant
            i <= g@.len(),
            forall|j: int| i <= j < g@.len() ==> g@[j].0@ != name@,
        decreases i,
    {
        if crate::text::str_eq(g[i - 1].0.as_str(), name) {
            return Some(i - 1);
        }
        i -= 1;
    }
    None
}

impl VarStore {
    /// No variables yet.
    pub fn new() -> (r: VarStore)
        ensures
            r.local@.len() == 0,
            r.local_base == 0,
            globals_map(r.global@) == Map::<Seq<char>, VariableView>::empty(),
    {
        VarStore { local: Vec::new(), local_base: 0, global: Vec::new() }
    }

    /// Writes `value` to `target` (see `set_ok`).
    pub fn set(&mut self, target: VarTarget, value: Variable)
        ensures
            set_ok(*old(self), target, value@, *final(self)),
    {
        let ghost v = value@;
        match target {
            VarTarget::Local(id) => {
                if self.local_base <= self.local.len() && id < self.local.len() - self.local_base {
                    let k = self.local_base + id;
                    self.local.set(k, value);
                    assert(variables_view(self.local@) =~= variables_view(old(self).local@).update(k as int, v));
                }
            },
            VarTarget::Global(name) => {
                let ghost key = name@;
                match last_entry(&self.global, name.as_str()) {
                    Some(i) => {
                        proof {
                            lemma_globals_update(self.global@, i as int, (name, value));
                        }
                        self.global.set(i, (name, value));
                    },
                    None => {
                        proof {
                            lemma_globals_push(self.global@, (name, value));
                        }
                        self.global.push((name, value));
                    },
                }
            },
        }
    }

    /// The value of the global variable `name`, when it has one.
    pub fn global(&self, name: &str) -> (r: Option<&Variable>)
        ensures
            match r {
                Some(x) => globals_map(self.global@).contains_key(name@) && globals_map(self.global@)[name@]
                    == x@,
                None => !globals_map(self.global@).contains_key(name@),
            },
    {
        match last_entry(&self.global, name) {
            Some(i) => {
                proof {
                    lemma_globals_get(self.global@, name@, i as int);
                }
                Some(&self.global[i].1)
            },
            None => {
                proof {
                    lemma_globals_absent(self.global@, name@);
                }
                None
            },
        }
    }

    /// The value of the local variable `id` of the running script, when
    /// the frame has it.
    pub fn local(&self, id: usize) -> (r: Option<&Variable>)
        ensures
            match local_index(*self, id as int) {
                Some(k) => r matches Some(x) && x@ == variables_view(self.local@)[k],
                None => r is None,
            },
    {
        if self.local_base <= self.local.len() && id < self.local.len() - self.local_base {
            Some(&self.local[self.local_base + id])
        } else {
            None
        }
    }

    /// Starts the frame of an included script with `n` empty local
    /// variables; gives the base of the frame that was running.
    pub fn push_frame(&mut self, n: usize) -> (r: usize)
        requires
            old(self).local@.len() + n <= usize::MAX,
        ensures
            r == old(self).local_base,
            final(self).local_base == old(self).local@.len(),
            final(self).local@.len() == old(self).local@.len() + n,
            forall|j: int| 0 <= j < old(self).local@.len() ==> #[trigger] final(self).local@[j] == old(self).local@[j],
            forall|j: int|
                old(self).local@.len() <= j < final(self).local@.len() ==> #[trigger] final(self).local@[j]@
                    == VariableView::String(seq![]),
            globals_map(final(self).global@) == globals_map(old(self).global@),
    {
        let prev = self.local_base;
        let start = self.local.len();
        self.local_base = start;
        let mut i: usize = 0;
        while i < n
            invariant
                i <= n,
                start + n <= usize::MAX,
                self.local_base == start,
                self.local@.len() == start + i,
                forall|j: int| 0 <= j < start ==> #[trigger] self.local@[j] == old(self).local@[j],
                forall|j: int| start <= j < start + i ==> #[trigger] self.local@[j]@ == VariableView::String(seq![]),
                self.global@ == old(self).global@,
                start == old(self).local@.len(),
            decreases n - i,
        {
            let e = Variable::String(String::new());
            proof {
                assert(e@ == VariableView::String(seq![]));
            }
            self.local.push(e);
            i += 1;
        }
        prev
    }

    /// Ends the running frame: its local variables go, and the frame that
    /// started at `prev_base` runs again.
    pub fn pop_frame(&mut self, prev_base: usize)
        ensures
            final(self).local@ == if old(self).local_base <= old(self).local@.len() {
                old(self).local@.take(old(self).local_base as int)
            } else {
                old(self).local@
            },
            final(self).local_base == prev_base,
            globals_map(final(self).global@) == globals_map(old(self).global@),
    {
        if self.local_base <= self.local.len() {
            self.local.truncate(self.local_base);
        }
        self.local_base = prev_base;
    }
}

/// What `set` writes is what a read of the same variable then gives, and
/// the other variables keep their values.
pub proof fn lemma_set_then_read(v: VarStore, target: VarTarget, value: VariableView, w: VarStore)
    requires
        set_ok(v, target, value, w),
    ensures
        match target {
            VarTarget::Local(id) => local_index(w, id as int) == local_index(v, id as int) && match local_index(
                v,
                id as int,
            ) {
                Some(k) => variables_view(w.local@)[k] == value && forall|j: int|
                    0 <= j < w.local@.len() && j != k ==> #[trigger] variables_view(w.local@)[j]
                        == variables_view(v.local@)[j],
                None => variables_view(w.local@) == variables_view(v.local@),
            },
            VarTarget::Global(name) => globals_map(w.global@).contains_key(name@) && globals_map(w.global@)[name@]
                == value && forall|k: Seq<char>|
                k != name@ ==> (#[trigger] globals_map(w.global@).contains_key(k) == globals_map(
                    v.global@,
                ).contains_key(k) && globals_map(w.global@)[k] == globals_map(v.global@)[k]),
        },
{
    match target {
        VarTarget::Local(id) => {
            assert(variables_view(w.local@).len() == w.local@.len());
            assert(variables_view(v.local@).len() == v.local@.len());
        },
        VarTarget::Global(name) => {},
    }
}

} // verus!
