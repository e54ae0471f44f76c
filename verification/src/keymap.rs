//! Modes, actions, and the key dispatcher.
//!
//! A [`KeymapTable`] is an immutable mapping from (mode, key-sequence)
//! to an abstract action, built once before the event loop starts.
//! Construction rejects duplicate (mode, key-sequence) pairs; dispatch
//! is a pure lookup.

use vstd::prelude::*;

use crate::error::Error;

verus! {

/// Interaction mode of the pager.
#[derive(Clone, Copy, PartialEq, Eq, Structural, Debug)]
pub enum Mode {
    /// Lines are written straight to the terminal as they arrive.
    Streaming,
    /// Content is paged through the viewport.
    FullScreen,
    /// Keystrokes are captured as a search pattern; entered from and
    /// returned to `FullScreen`.
    SearchInput,
}

/// Abstract command produced by key dispatch.
#[derive(Clone, Copy, PartialEq, Eq, Structural, Debug)]
pub enum Action {
    Quit,
    ScrollUp,
    ScrollDown,
    ScrollTop,
    ScrollBottom,
    SearchBegin,
    SearchAccept,
    SearchCancel,
    SearchNext,
    SearchPrev,
}

/// One keymap entry: in `mode`, the key-sequence `keys` triggers
/// `action`.
#[derive(Debug)]
pub struct Binding {
    pub mode: Mode,
    pub keys: Vec<u32>,
    pub action: Action,
}

/// Mathematical view of a [`Binding`].
pub struct BindingV {
    pub mode: Mode,
    pub keys: Seq<u32>,
    pub action: Action,
}

impl View for Binding {
    type V = BindingV;

    open spec fn view(&self) -> BindingV {
        BindingV { mode: self.mode, keys: self.keys@, action: self.action }
    }
}

/// Two bindings collide when they share mode and key-sequence.
pub open spec fn collides(a: BindingV, b: BindingV) -> bool {
    a.mode == b.mode && a.keys == b.keys
}

/// No two entries of the table share a (mode, key-sequence) pair.
pub open spec fn distinct_bindings(entries: Seq<BindingV>) -> bool {
    forall|i: int, j: int|
        0 <= i < j < entries.len() ==> !collides(#[trigger] entries[i], #[trigger] entries[j])
}

/// The action bound to `(mode, keys)`, if any. With distinct bindings
/// at most one entry can match, so "first match" is the unique one.
pub open spec fn lookup(entries: Seq<BindingV>, mode: Mode, keys: Seq<u32>) -> Option<Action>
    decreases entries.len(),
{
    if entries.len() == 0 {
        None
    } else if entries[0].mode == mode && entries[0].keys == keys {
        Some(entries[0].action)
    } else {
        lookup(entries.drop_first(), mode, keys)
    }
}

/// Some entry for `mode` has `keys` as a strict prefix of its
/// key-sequence, so the dispatcher should wait for further keys.
pub open spec fn some_binding_extends(entries: Seq<BindingV>, mode: Mode, keys: Seq<u32>) -> bool {
    exists|i: int|
        0 <= i < entries.len() && (#[trigger] entries[i]).mode == mode && keys.len()
            < entries[i].keys.len() && keys.is_prefix_of(entries[i].keys)
}

/// Immutable key-binding table.
pub struct KeymapTable {
    entries: Vec<Binding>,
}

impl View for KeymapTable {
    type V = Seq<BindingV>;

    closed spec fn view(&self) -> Seq<BindingV> {
        self.entries@.map(|i: int, b: Binding| b@)
    }
}

/// Element-wise equality of two key-sequences.
fn keys_eq(a: &Vec<u32>, b: &Vec<u32>) -> (r: bool)
    ensures
        r == (a@ == b@),
{
    if a.len() != b.len() {
        proof {
            assert(a@ != b@);
        }
        return false;
    }
    let mut i: usize = 0;
    while i < a.len()
        invariant
            i <= a@.len(),
            a@.len() == b@.len(),
            forall|k: int| 0 <= k < i ==> a@[k] == b@[k],
        decreases a@.len() - i,
    {
        if a[i] != b[i] {
            proof {
                assert(a@ != b@);
            }
            return false;
        }
        i += 1;
    }
    proof {
        assert(a@ =~= b@);
    }
    true
}

/// `a` is a strict prefix of `b`.
fn keys_strict_prefix(a: &Vec<u32>, b: &Vec<u32>) -> (r: bool)
    ensures
        r == (a@.len() < b@.len() && a@.is_prefix_of(b@)),
{
    if a.len() >= b.len() {
        return false;
    }
    let mut i: usize = 0;
    while i < a.len()
        invariant
            i <= a@.len(),
            a@.len() < b@.len(),
            forall|k: int| 0 <= k < i ==> a@[k] == b@[k],
        decreases a@.len() - i,
    {
        if a[i] != b[i] {
            proof {
                assert(a@ != b@.take(a@.len() as int));
            }
            return false;
        }
        i += 1;
    }
    proof {
        assert(a@ =~= b@.take(a@.len() as int));
    }
    true
}

impl KeymapTable {
    /// Builds the table, failing with [`Error::Configuration`] if two
    /// entries share a (mode, key-sequence) pair. The error carries the
    /// indices of the first colliding pair found; no table is built and
    /// no event can ever be dispatched through a duplicate.
    pub fn new(entries: Vec<Binding>) -> (r: Result<KeymapTable, Error>)
        ensures
            r is Ok <==> distinct_bindings(entries@.map(|i: int, b: Binding| b@)),
            r matches Ok(t) ==> t@ == entries@.map(|i: int, b: Binding| b@),
            r matches Err(e) ==> e matches Error::Configuration { first, second }
                && first < second < entries@.len() && collides(entries@[first as int]@, entries@[second as int]@),
    {
        let ghost v = entries@.map(|i: int, b: Binding| b@);
        let n = entries.len();
        let mut i: usize = 0;
        while i < n
            invariant
                n == entries@.len(),
                i <= n,
                v == entries@.map(|k: int, b: Binding| b@),
                forall|p: int, q: int| 0 <= p < q < n && p < i ==> !collides(#[trigger] v[p], #[trigger] v[q]),
            decreases n - i,
        {
            let mut j: usize = i + 1;
            while j < n
                invariant
                    n == entries@.len(),
                    i < n,
                    i < j <= n,
                    v == entries@.map(|k: int, b: Binding| b@),
                    forall|q: int| i < q < j ==> !collides(v[i as int], #[trigger] v[q]),
                decreases n - j,
            {
                let same_mode = entries[i].mode == entries[j].mode;
                if same_mode && keys_eq(&entries[i].keys, &entries[j].keys) {
                    proof {
                        assert(collides(v[i as int], v[j as int]));
                    }
                    return Err(Error::Configuration { first: i, second: j });
                }
                j += 1;
            }
            i += 1;
        }
        Ok(KeymapTable { entries })
    }

    /// Looks up the action bound to `(mode, keys)`.
    pub fn resolve(&self, mode: Mode, keys: &Vec<u32>) -> (r: Option<Action>)
        ensures
            r == lookup(self@, mode, keys@),
    {
        let n = self.entries.len();
        let mut i: usize = 0;
        proof {
            assert(self@.skip(0) =~= self@);
        }
        while i < n
            invariant
                n == self.entries@.len(),
                i <= n,
                self@ == self.entries@.map(|k: int, b: Binding| b@),
                lookup(self@, mode, keys@) == lookup(self@.skip(i as int), mode, keys@),
            decreases n - i,
        {
            let same_mode = self.entries[i].mode == mode;
            proof {
                assert(self@.skip(i as int)[0] == self@[i as int]);
                assert(self@.skip(i as int).drop_first() =~= self@.skip(i as int + 1));
            }
            if same_mode && keys_eq(&self.entries[i].keys, keys) {
                return Some(self.entries[i].action);
            }
            i += 1;
        }
        proof {
            assert(self@.skip(n as int) =~= Seq::<BindingV>::empty());
        }
        None
    }

    /// True when some entry for `mode` extends `keys`, so the
    /// dispatcher should hold the pending keys and wait.
    pub fn awaits_more(&self, mode: Mode, keys: &Vec<u32>) -> (r: bool)
        ensures
            r == some_binding_extends(self@, mode, keys@),
    {
        let n = self.entries.len();
        let mut i: usize = 0;
        while i < n
            invariant
                n == self.entries@.len(),
                i <= n,
                self@ == self.entries@.map(|k: int, b: Binding| b@),
                forall|k: int|
                    0 <= k < i ==> !((#[trigger] self@[k]).mode == mode && keys@.len()
                        < self@[k].keys.len() && keys@.is_prefix_of(self@[k].keys)),
            decreases n - i,
        {
            let same_mode = self.entries[i].mode == mode;
            if same_mode && keys_strict_prefix(keys, &self.entries[i].keys) {
                proof {
                    assert((self@[i as int]).mode == mode && keys@.len() < self@[i as int].keys.len()
                        && keys@.is_prefix_of(self@[i as int].keys));
                }
                return true;
            }
            i += 1;
        }
        false
    }
}

} // verus!
