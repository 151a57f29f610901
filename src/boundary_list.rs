use vstd::prelude::*;
use std::collections::VecDeque;

verus! {

/// Why the list refused a mutation. Either one is a sign that the visibility
/// reports raced with the list's state; the list is left as it was.
#[derive(Clone, Copy, Debug, PartialEq, Eq, Structural)]
pub enum BoundaryError {
    /// The identifier lies strictly between the current front and back.
    OutOfOrderInsert,
    /// The identifier is neither the current front nor the current back.
    NotABoundaryElement,
}

/// Every element is at most every later one.
pub open spec fn is_sorted(s: Seq<u32>) -> bool {
    forall|i: int, j: int| 0 <= i <= j < s.len() ==> s[i] <= s[j]
}

/// `v` may enter `s`: the list is empty, or `v` goes before the front or after the back.
pub open spec fn can_insert(s: Seq<u32>, v: u32) -> bool {
    s.len() == 0 || v <= s.first() || v >= s.last()
}

/// `s` after `v` entered it; ties go to the front.
pub open spec fn inserted(s: Seq<u32>, v: u32) -> Seq<u32> {
    if s.len() == 0 || v <= s.first() {
        seq![v] + s
    } else {
        s.push(v)
    }
}

/// `v` may leave `s`: it is the front or the back.
pub open spec fn can_remove(s: Seq<u32>, v: u32) -> bool {
    s.len() > 0 && (s.first() == v || s.last() == v)
}

/// `s` after `v` left it; the front is tried first.
pub open spec fn removed(s: Seq<u32>, v: u32) -> Seq<u32> {
    if s.first() == v {
        s.drop_first()
    } else {
        s.drop_last()
    }
}

/// One mutation of a boundary list.
#[derive(Clone, Copy, Debug, PartialEq, Eq, Structural)]
pub enum ListOp {
    Insert(u32),
    Remove(u32),
}

/// `s` after `op`, where a refused operation leaves it as it was.
pub open spec fn apply_op(s: Seq<u32>, op: ListOp) -> Seq<u32> {
    match op {
        ListOp::Insert(v) => if can_insert(s, v) { inserted(s, v) } else { s },
        ListOp::Remove(v) => if can_remove(s, v) { removed(s, v) } else { s },
    }
}

/// `s` after each of `ops` in turn.
pub open spec fn apply_ops(s: Seq<u32>, ops: Seq<ListOp>) -> Seq<u32>
    decreases ops.len(),
{
    if ops.len() == 0 {
        s
    } else {
        apply_ops(apply_op(s, ops.first()), ops.drop_first())
    }
}

/// An ascending list of item identifiers that only changes at its two ends.
pub struct SortedList {
    items: VecDeque<u32>,
}

impl View for SortedList {
    type V = Seq<u32>;

    closed spec fn view(&self) -> Seq<u32> {
        self.items@
    }
}

impl SortedList {
    /// The list is ascending.
    pub open spec fn wf(&self) -> bool {
        is_sorted(self@)
    }

    /// An empty list.
    pub fn new() -> (r: Self)
        ensures
            r@ == Seq::<u32>::empty(),
            r.wf(),
    {
        SortedList { items: VecDeque::new() }
    }

    /// Empties the list.
    pub fn clear(&mut self)
        ensures
            final(self)@ == Seq::<u32>::empty(),
            final(self).wf(),
    {
        self.items.clear();
    }

    /// The number of identifiers held.
    pub fn len(&self) -> (r: usize)
        ensures
            r == self@.len(),
    {
        self.items.len()
    }

    /// Puts `val` before the front when it is at most the front, else after the
    /// back when it is at least the back; anything else is refused.
    pub fn insert(&mut self, val: u32) -> (r: Result<(), BoundaryError>)
        requires
            old(self).wf(),
        ensures
            final(self).wf(),
            r is Ok <==> can_insert(old(self)@, val),
            r is Ok ==> final(self)@ == inserted(old(self)@, val),
            final(self)@ == apply_op(old(self)@, ListOp::Insert(val)),
            r is Err ==> r == Err::<(), BoundaryError>(BoundaryError::OutOfOrderInsert)
                && final(self)@ == old(self)@,
    {
        let n = self.items.len();
        if n == 0 {
            self.items.push_back(val);
            Ok(())
        } else if val <= self.items[0] {
            self.items.push_front(val);
            proof {
                lemma_inserted_sorted(old(self)@, val);
            }
            Ok(())
        } else if val >= self.items[n - 1] {
            self.items.push_back(val);
            proof {
                lemma_inserted_sorted(old(self)@, val);
            }
            Ok(())
        } else {
            Err(BoundaryError::OutOfOrderInsert)
        }
    }

    /// Takes `val` off the front when it is the front, else off the back when it
    /// is the back; anything else is refused.
    pub fn remove(&mut self, val: u32) -> (r: Result<(), BoundaryError>)
        requires
            old(self).wf(),
        ensures
            final(self).wf(),
            r is Ok <==> can_remove(old(self)@, val),
            r is Ok ==> final(self)@ == removed(old(self)@, val),
            final(self)@ == apply_op(old(self)@, ListOp::Remove(val)),
            r is Err ==> r == Err::<(), BoundaryError>(BoundaryError::NotABoundaryElement)
                && final(self)@ == old(self)@,
    {
        let n = self.items.len();
        if n > 0 && self.items[0] == val {
            let _ = self.items.pop_front();
            proof {
                lemma_removed_sorted(old(self)@, val);
            }
            Ok(())
        } else if n > 0 && self.items[n - 1] == val {
            let _ = self.items.pop_back();
            proof {
                lemma_removed_sorted(old(self)@, val);
            }
            Ok(())
        } else {
            Err(BoundaryError::NotABoundaryElement)
        }
    }

    /// The front, which is the smallest identifier held.
    pub fn get_min(&self) -> (r: Option<u32>)
        ensures
            r == (if self@.len() == 0 { None } else { Some(self@.first()) }),
    {
        if self.items.len() == 0 {
            None
        } else {
            Some(self.items[0])
        }
    }

    /// The back, which is the largest identifier held.
    pub fn get_max(&self) -> (r: Option<u32>)
        ensures
            r == (if self@.len() == 0 { None } else { Some(self@.last()) }),
    {
        let n = self.items.len();
        if n == 0 {
            None
        } else {
            Some(self.items[n - 1])
        }
    }

    /// The identifier at position `idx`, counted from the front.
    pub fn get_idx(&self, idx: usize) -> (r: Option<u32>)
        ensures
            r == (if idx < self@.len() { Some(self@[idx as int]) } else { None }),
    {
        if idx < self.items.len() {
            Some(self.items[idx])
        } else {
            None
        }
    }
}

/// An accepted insertion keeps the list ascending.
pub proof fn lemma_inserted_sorted(s: Seq<u32>, v: u32)
    requires
        is_sorted(s),
        can_insert(s, v),
    ensures
        is_sorted(inserted(s, v)),
{
    let t = inserted(s, v);
    if s.len() == 0 || v <= s.first() {
        assert forall|i: int, j: int| 0 <= i <= j < t.len() implies t[i] <= t[j] by {
            if i > 0 {
                assert(t[i] == s[i - 1] && t[j] == s[j - 1]);
            } else if j > 0 {
                assert(t[j] == s[j - 1]);
                assert(s[0] <= s[j - 1]);
            }
        }
    } else {
        assert forall|i: int, j: int| 0 <= i <= j < t.len() implies t[i] <= t[j] by {
            if j < s.len() {
                assert(t[i] == s[i] && t[j] == s[j]);
            } else if i < s.len() {
                assert(s[i] <= s[s.len() - 1]);
            }
        }
    }
}

/// An accepted removal keeps the list ascending.
pub proof fn lemma_removed_sorted(s: Seq<u32>, v: u32)
    requires
        is_sorted(s),
        can_remove(s, v),
    ensures
        is_sorted(removed(s, v)),
{
    let t = removed(s, v);
    if s.first() == v {
        assert forall|i: int, j: int| 0 <= i <= j < t.len() implies t[i] <= t[j] by {
            assert(t[i] == s[i + 1] && t[j] == s[j + 1]);
        }
    } else {
        assert forall|i: int, j: int| 0 <= i <= j < t.len() implies t[i] <= t[j] by {
            assert(t[i] == s[i] && t[j] == s[j]);
        }
    }
}

/// Whatever inserts and removes are applied to an ascending list, it stays
/// ascending, so its front is its least element and its back its greatest.
pub proof fn lemma_ops_keep_sorted(s: Seq<u32>, ops: Seq<ListOp>)
    requires
        is_sorted(s),
    ensures
        is_sorted(apply_ops(s, ops)),
        apply_ops(s, ops).len() > 0 ==> forall|i: int|
            0 <= i < apply_ops(s, ops).len() ==> apply_ops(s, ops).first() <= #[trigger] apply_ops(
                s,
                ops,
            )[i] <= apply_ops(s, ops).last(),
    decreases ops.len(),
{
    if ops.len() > 0 {
        let t = apply_op(s, ops.first());
        match ops.first() {
            ListOp::Insert(v) => if can_insert(s, v) {
                lemma_inserted_sorted(s, v);
            },
            ListOp::Remove(v) => if can_remove(s, v) {
                lemma_removed_sorted(s, v);
            },
        }
        lemma_ops_keep_sorted(t, ops.drop_first());
    }
    let r = apply_ops(s, ops);
    if r.len() > 0 {
        assert forall|i: int| 0 <= i < r.len() implies r.first() <= #[trigger] r[i] <= r.last() by {
            assert(r[0] <= r[i]);
            assert(r[i] <= r[r.len() - 1]);
        }
    }
}

/// An insertion strictly between the front and the back is refused, and the
/// list stays as it was.
pub proof fn lemma_interior_insert_refused(s: Seq<u32>, v: u32)
    requires
        s.len() > 0,
        s.first() < v < s.last(),
    ensures
        !can_insert(s, v),
        apply_op(s, ListOp::Insert(v)) == s,
{
}

/// A removal of anything but the front or the back is refused, and the list
/// stays as it was.
pub proof fn lemma_non_boundary_remove_refused(s: Seq<u32>, v: u32)
    requires
        s.len() == 0 || (v != s.first() && v != s.last()),
    ensures
        !can_remove(s, v),
        apply_op(s, ListOp::Remove(v)) == s,
{
}

/// Inserting a value and then removing it gives the list back as it was.
pub proof fn lemma_insert_then_remove(s: Seq<u32>, v: u32)
    ensures
        apply_op(apply_op(s, ListOp::Insert(v)), ListOp::Remove(v)) == s,
{
    if can_insert(s, v) {
        let t = inserted(s, v);
        if s.len() == 0 || v <= s.first() {
            assert(t.first() == v);
            assert(t.drop_first() =~= s);
        } else {
            assert(t.first() == s.first());
            assert(t.last() == v);
            assert(t.drop_last() =~= s);
        }
    }
}

} // verus!
