//! The todo store: an in-memory, insertion-ordered list of todo records.
//!
//! The store is the single source of truth for todo records. Its invariant
//! holds at all times: every record carries a unique, non-empty id and a
//! `completed` flag that is still false. Callers that need mutual exclusion
//! wrap the store in a lock; both operations here are plain sequential code.

use vstd::prelude::*;
use crate::bytes::bytes_eq;
use crate::todo::{Todo, TodoView};

verus! {

/// Well-formedness of a sequence of todo records: ids are pairwise
/// distinct and non-empty, and no record is completed.
pub open spec fn wf_todos(s: Seq<TodoView>) -> bool {
    &&& forall|i: int, j: int|
        0 <= i < s.len() && 0 <= j < s.len() && i != j ==> s[i].id != s[j].id
    &&& forall|i: int| 0 <= i < s.len() ==> s[i].id.len() > 0
    &&& forall|i: int| 0 <= i < s.len() ==> s[i].completed == false
}

/// The in-memory todo store. Records are kept in insertion order.
pub struct TodoStore {
    items: Vec<Todo>,
}

impl View for TodoStore {
    type V = Seq<TodoView>;

    closed spec fn view(&self) -> Seq<TodoView> {
        self.items.deep_view()
    }
}

/// Relies on `uuid::Uuid::new_v4` and its `Display` impl: a fresh random
/// version-4 UUID rendered in the hyphenated form, which is 36 ASCII
/// bytes of lowercase hex digits and hyphens. Nothing is assumed about
/// which value comes back: two calls may or may not collide.
#[verifier::external_body]
fn fresh_uuid() -> (r: Vec<u8>)
    ensures
        r@.len() == 36,
        forall|i: int|
            0 <= i < r@.len() ==> (r@[i] == 45u8 || (48u8 <= r@[i] <= 57u8) || (97u8 <= r@[i]
                <= 102u8)),
{
    uuid::Uuid::new_v4().to_string().into_bytes()
}

fn contains_id(items: &Vec<Todo>, id: &[u8]) -> (r: bool)
    ensures
        r == exists|i: int|
            0 <= i < items.deep_view().len() && (#[trigger] items.deep_view()[i]).id == id@,
{
    let mut k: usize = 0;
    while k < items.len()
        invariant
            k <= items.len(),
            forall|i: int| 0 <= i < k ==> (#[trigger] items.deep_view()[i]).id != id@,
        decreases items.len() - k,
    {
        if bytes_eq(items[k].id.as_slice(), id) {
            proof {
                assert((items.deep_view()[k as int]).id == id@);
            }
            return true;
        }
        k = k + 1;
    }
    false
}

/// The length of the longest id currently stored (0 when empty).
fn max_id_len(items: &Vec<Todo>) -> (m: usize)
    ensures
        forall|i: int|
            0 <= i < items.deep_view().len() ==> (#[trigger] items.deep_view()[i]).id.len() <= m,
{
    let mut m: usize = 0;
    let mut k: usize = 0;
    while k < items.len()
        invariant
            k <= items.len(),
            forall|i: int| 0 <= i < k ==> (#[trigger] items.deep_view()[i]).id.len() <= m,
        decreases items.len() - k,
    {
        if items[k].id.len() > m {
            m = items[k].id.len();
        }
        k = k + 1;
    }
    m
}

/// Picks an id that no stored record carries. The normal path is a single
/// fresh UUID; if that UUID happens to collide with a stored id, the
/// fallback pads it with hyphens until it is longer than every stored id,
/// which makes it fresh by length alone.
fn pick_fresh_id(items: &Vec<Todo>) -> (id: Vec<u8>)
    ensures
        id@.len() > 0,
        forall|i: int|
            0 <= i < items.deep_view().len() ==> (#[trigger] items.deep_view()[i]).id != id@,
{
    let mut id = fresh_uuid();
    if !contains_id(items, id.as_slice()) {
        proof {
            assert forall|i: int|
                0 <= i < items.deep_view().len() implies (#[trigger] items.deep_view()[i]).id
                != id@ by {
                if items.deep_view()[i].id == id@ {
                    assert(exists|j: int|
                        0 <= j < items.deep_view().len() && (#[trigger] items.deep_view()[j]).id
                            == id@);
                }
            }
        }
        return id;
    }
    let m = max_id_len(items);
    while id.len() <= m
        invariant
            id@.len() > 0,
        decreases m + 1 - id.len(),
    {
        id.push(45u8);
    }
    proof {
        assert forall|i: int|
            0 <= i < items.deep_view().len() implies (#[trigger] items.deep_view()[i]).id
            != id@ by {
            assert(items.deep_view()[i].id.len() <= m);
            assert(id@.len() > m);
        }
    }
    id
}

impl TodoStore {
    /// Holds of every store at all times: the records are well formed.
    #[verifier::type_invariant]
    pub open spec fn well_formed(self) -> bool {
        wf_todos(self@)
    }

    /// Creates an empty store.
    pub fn new() -> (r: TodoStore)
        ensures
            r@ == Seq::<TodoView>::empty(),
    {
        let items: Vec<Todo> = Vec::new();
        proof {
            assert(items.deep_view() =~= Seq::<TodoView>::empty());
        }
        TodoStore { items }
    }

    /// Number of records currently held.
    pub fn len(&self) -> (n: usize)
        ensures
            n == self@.len(),
    {
        self.items.len()
    }

    /// Returns a snapshot copy of all records, in insertion order.
    /// The result is fully determined by the store's current contents,
    /// and those contents are well formed.
    pub fn list(&self) -> (r: Vec<Todo>)
        ensures
            r.deep_view() == self@,
            wf_todos(self@),
    {
        proof {
            use_type_invariant(&*self);
        }
        let mut out: Vec<Todo> = Vec::new();
        let mut k: usize = 0;
        while k < self.items.len()
            invariant
                k <= self.items.len(),
                out.deep_view() =~= self@.take(k as int),
            decreases self.items.len() - k,
        {
            let ghost prev = out.deep_view();
            let c = self.items[k].clone();
            proof {
                assert(c@ == self@[k as int]);
            }
            out.push(c);
            proof {
                assert(out.deep_view() =~= prev.push(c@));
                assert(self@.take(k as int + 1) =~= self@.take(k as int).push(self@[k as int]));
            }
            k = k + 1;
        }
        proof {
            assert(out.deep_view() =~= self@);
        }
        out
    }

    /// Appends a new record with a freshly generated unique id, the given
    /// title and `completed == false`, and returns a copy of it. The new
    /// record goes at the end; its id differs from every id already stored.
    pub fn append(&mut self, title: Vec<u8>) -> (r: Todo)
        ensures
            final(self)@ == old(self)@.push(r@),
            r@.title == title@,
            r@.completed == false,
            r@.id.len() > 0,
            forall|i: int| 0 <= i < old(self)@.len() ==> (#[trigger] old(self)@[i]).id != r@.id,
            wf_todos(final(self)@),
    {
        proof {
            use_type_invariant(&*self);
        }
        let mut items: Vec<Todo> = Vec::new();
        proof {
            assert(items.deep_view() =~= Seq::<TodoView>::empty());
        }
        core::mem::swap(&mut self.items, &mut items);
        let ghost orig: Seq<TodoView> = items.deep_view();
        let id = pick_fresh_id(&items);
        let todo = Todo { id, title, completed: false };
        let r = todo.clone();
        items.push(todo);
        proof {
            assert(items.deep_view() =~= orig.push(r@));
            lemma_append_preserves_wf(orig, r@);
        }
        core::mem::swap(&mut self.items, &mut items);
        r
    }
}

/// Appending a record whose id is fresh, non-empty and not completed
/// keeps the sequence well formed and grows it by exactly one entry.
/// Any number of appends therefore yields exactly that many entries,
/// none lost or duplicated, each with a distinct id.
pub proof fn lemma_append_preserves_wf(s: Seq<TodoView>, t: TodoView)
    requires
        wf_todos(s),
        t.id.len() > 0,
        t.completed == false,
        forall|i: int| 0 <= i < s.len() ==> (#[trigger] s[i]).id != t.id,
    ensures
        wf_todos(s.push(t)),
        s.push(t).len() == s.len() + 1,
        s.push(t)[s.len() as int] == t,
        forall|i: int| 0 <= i < s.len() ==> s.push(t)[i] == s[i],
{
    let s2 = s.push(t);
    assert forall|i: int, j: int|
        0 <= i < s2.len() && 0 <= j < s2.len() && i != j implies s2[i].id != s2[j].id by {
        if i < s.len() && j < s.len() {
            assert(s[i].id != s[j].id);
        }
    }
}

/// Any number of appended records accumulate exactly: starting from well
/// formed contents `s` and adding the records `new` in order — each non
/// empty, not completed, and fresh against `s` and against the records
/// before it, as `append` guarantees of every record it adds — the store
/// holds all of `s` and all of `new`, in order, well formed: no entry
/// lost, none duplicated, ids pairwise distinct.
pub proof fn lemma_appends_accumulate(s: Seq<TodoView>, new: Seq<TodoView>)
    requires
        wf_todos(s),
        forall|k: int|
            0 <= k < new.len() ==> (#[trigger] new[k]).id.len() > 0 && new[k].completed == false,
        forall|k: int, i: int|
            0 <= k < new.len() && 0 <= i < s.len() ==> (#[trigger] s[i]).id != (
            #[trigger] new[k]).id,
        forall|k1: int, k2: int|
            0 <= k1 < new.len() && 0 <= k2 < new.len() && k1 != k2 ==> (#[trigger] new[k1]).id != (
            #[trigger] new[k2]).id,
    ensures
        wf_todos(s + new),
        (s + new).len() == s.len() + new.len(),
        forall|i: int| 0 <= i < s.len() ==> (s + new)[i] == s[i],
        forall|k: int| 0 <= k < new.len() ==> (s + new)[s.len() + k] == new[k],
{
    let c = s + new;
    assert forall|i: int, j: int|
        0 <= i < c.len() && 0 <= j < c.len() && i != j implies c[i].id != c[j].id by {
        if i < s.len() && j < s.len() {
            assert(s[i].id != s[j].id);
        } else if i < s.len() && j >= s.len() {
            assert(s[i].id != new[j - s.len()].id);
        } else if i >= s.len() && j < s.len() {
            assert(s[j].id != new[i - s.len()].id);
        } else {
            assert(new[i - s.len()].id != new[j - s.len()].id);
        }
    }
    assert forall|i: int| 0 <= i < c.len() implies c[i].id.len() > 0 && c[i].completed
        == false by {
        if i < s.len() {
            assert(s[i].id.len() > 0);
        } else {
            assert(new[i - s.len()].id.len() > 0);
        }
    }
}

/// A list snapshot is a pure function of the store's contents: two
/// snapshots of the same contents are identical.
pub proof fn lemma_list_idempotent(s: Seq<TodoView>, r1: Seq<TodoView>, r2: Seq<TodoView>)
    requires
        r1 == s,
        r2 == s,
    ensures
        r1 == r2,
{
}

/// Round trip: the record returned by an append is exactly the entry a
/// later snapshot shows at the end of the sequence, same id included.
pub proof fn lemma_create_round_trip(before: Seq<TodoView>, after: Seq<TodoView>, t: TodoView)
    requires
        after == before.push(t),
    ensures
        after.len() == before.len() + 1,
        after.last() == t,
        after.last().id == t.id,
{
}

} // verus!
