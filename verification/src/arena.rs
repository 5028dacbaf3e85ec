//! The arena and its handles.
//!
//! An [`Arena<T>`] owns an ordered, append-only sequence of `T` values. A
//! [`Handle<T>`] is the only way to refer to a value after insertion: an
//! opaque positive integer tagged at the type level with the element type it
//! addresses. The stored integer is one-based, so the value zero is never a
//! valid handle and stays available as a "no reference" sentinel in data
//! formats built on top of this crate.

use vstd::prelude::*;
use vstd::laws_eq::obeys_concrete_eq;

verus! {

/// The one-based index that a deduplicating insertion of `v` into contents
/// `s` hands back: the position of the first element equal to `v`, or one
/// past the end where there is none.
pub open spec fn dedup_handle_index<T>(s: Seq<T>, v: T) -> int {
    match s.index_of_first(v) {
        Some(i) => i + 1,
        None => s.len() as int + 1,
    }
}

/// The contents after a deduplicating insertion of `v`: unchanged where `v`
/// already occurs, extended by `v` otherwise.
pub open spec fn dedup_contents<T>(s: Seq<T>, v: T) -> Seq<T> {
    if s.contains(v) {
        s
    } else {
        s.push(v)
    }
}

/// A strongly typed reference to one slot of an [`Arena<T>`].
///
/// Handles are plain values: copyable, comparable by their stored index
/// alone, and carrying no lifetime tie to the arena that produced them.
/// A handle is only meaningful relative to that one arena; nothing at run
/// time checks cross-arena use.
#[derive(Debug, Hash)]
pub struct Handle<T> {
    /// One-based position of the referenced slot; never zero.
    index: u32,
    marker: core::marker::PhantomData<T>,
}

impl<T> View for Handle<T> {
    type V = nat;

    /// The mathematical content of a handle: its one-based index.
    closed spec fn view(&self) -> nat {
        self.index as nat
    }
}

impl<T> Handle<T> {
    /// A handle's stored index is never zero.
    #[verifier::type_invariant]
    spec fn inv(self) -> bool {
        self.index >= 1
    }

    /// Builds the handle for a one-based position. Only the arena's own
    /// insertion logic (and the persistence codec) may fabricate handles.
    pub(crate) fn new(index: u32) -> (h: Self)
        requires
            index >= 1,
        ensures
            h@ == index,
    {
        Handle { index, marker: core::marker::PhantomData }
    }

    /// The raw one-based index, as stored.
    pub(crate) fn raw(self) -> (raw: u32)
        ensures
            raw == self@,
            raw >= 1,
    {
        proof {
            use_type_invariant(self);
        }
        self.index
    }

    /// Returns the zero-based position of the referenced element.
    pub fn index(self) -> (i: usize)
        ensures
            i + 1 == self@,
    {
        proof {
            use_type_invariant(self);
        }
        (self.index - 1) as usize
    }
}

impl<T> Clone for Handle<T> {
    fn clone(&self) -> (h: Self)
        ensures
            h@ == self@,
    {
        proof {
            use_type_invariant(self);
        }
        Handle { index: self.index, marker: core::marker::PhantomData }
    }
}

impl<T> Copy for Handle<T> {

}

impl<T> PartialEq for Handle<T> {
    /// Two handles are equal exactly when their stored indices are equal;
    /// the type tag is compile-time only and takes no part in comparison.
    fn eq(&self, other: &Self) -> (r: bool) {
        self.index == other.index
    }
}

impl<T> vstd::std_specs::cmp::PartialEqSpecImpl for Handle<T> {
    open spec fn obeys_eq_spec() -> bool {
        true
    }

    open spec fn eq_spec(&self, other: &Self) -> bool {
        self@ == other@
    }
}

impl<T> Eq for Handle<T> {

}

/// An arena holding one kind of component (a type, a declaration, a
/// function) that other data refers to through [`Handle`]s.
///
/// The arena is append-only: insertion order is preserved, no element is
/// ever removed or renumbered, so a handle handed out once stays valid for
/// the arena's whole lifetime.
#[derive(Debug)]
pub struct Arena<T> {
    /// Values of this arena, in insertion order.
    data: Vec<T>,
}

impl<T> View for Arena<T> {
    type V = Seq<T>;

    /// The mathematical content of an arena: the sequence of its elements
    /// in insertion order. The element at position `i` is the one a handle
    /// with one-based index `i + 1` resolves to.
    closed spec fn view(&self) -> Seq<T> {
        self.data@
    }
}

impl<T> Arena<T> {
    /// Returns an empty arena.
    pub fn new() -> (r: Self)
        ensures
            r@ == Seq::<T>::empty(),
    {
        Arena { data: Vec::new() }
    }

    /// Current element count.
    pub fn len(&self) -> (n: usize)
        ensures
            n == self@.len(),
    {
        self.data.len()
    }

    /// Adds a new value at the end of the arena, returning a handle that
    /// encodes its one-based position. Prior handles are never reused or
    /// renumbered, so the result differs from every handle this arena has
    /// returned before.
    pub fn append(&mut self, value: T) -> (h: Handle<T>)
        requires
            old(self)@.len() < u32::MAX,
        ensures
            final(self)@ == old(self)@.push(value),
            h@ == old(self)@.len() + 1,
    {
        let position = self.data.len() + 1;
        self.data.push(value);
        Handle::new(position as u32)
    }

    /// Adds a value with a check for uniqueness: returns the handle of the
    /// first existing element equal to `value` without growing the arena,
    /// or appends `value` exactly as [`Self::append`] does. Later duplicate
    /// insertions are absorbed into the earliest occurrence, so each
    /// distinct value has one canonical handle per arena.
    pub fn fetch_or_append(&mut self, value: T) -> (h: Handle<T>) where T: PartialEq
        requires
            obeys_concrete_eq::<T>(),
            old(self)@.len() < u32::MAX,
        ensures
            final(self)@ == dedup_contents(old(self)@, value),
            h@ == dedup_handle_index(old(self)@, value),
            old(self)@.contains(value) ==> final(self)@ == old(self)@
                && 1 <= h@ <= old(self)@.len()
                && old(self)@[h@ - 1] == value
                && (forall|j: int| 0 <= j < h@ - 1 ==> old(self)@[j] != value),
            !old(self)@.contains(value) ==> final(self)@ == old(self)@.push(value)
                && h@ == old(self)@.len() + 1,
    {
        let ghost s0 = self@;
        let n = self.data.len();
        let mut i: usize = 0;
        while i < n
            invariant
                self@ == s0,
                n == s0.len(),
                i <= n,
                forall|j: int| 0 <= j < i ==> s0[j] != value,
                obeys_concrete_eq::<T>(),
                s0.len() < u32::MAX,
            decreases n - i,
        {
            if self.data[i] == value {
                proof {
                    reveal(obeys_concrete_eq);
                    s0.index_of_first_ensures(value);
                }
                return Handle::new((i + 1) as u32);
            }
            proof {
                reveal(obeys_concrete_eq);
            }
            i += 1;
        }
        proof {
            s0.index_of_first_ensures(value);
        }
        self.append(value)
    }

    /// Returns every element in insertion order, each paired with the
    /// handle that resolves to it; the handle is reconstructed from the
    /// element's position rather than stored redundantly.
    pub fn iter(&self) -> (r: Vec<(Handle<T>, &T)>)
        requires
            self@.len() <= u32::MAX,
        ensures
            r@.len() == self@.len(),
            forall|i: int| 0 <= i < r@.len() ==> r@[i].0@ == i + 1 && *r@[i].1 == self@[i],
    {
        let mut r: Vec<(Handle<T>, &T)> = Vec::new();
        let mut i: usize = 0;
        let n = self.data.len();
        while i < n
            invariant
                n == self@.len(),
                n <= u32::MAX,
                i <= n,
                r@.len() == i,
                forall|j: int|
                    0 <= j < i ==> (#[trigger] r@[j]).0@ == j + 1 && *r@[j].1 == self@[j],
            decreases n - i,
        {
            let h = Handle::new((i + 1) as u32);
            let ghost prev = r@;
            r.push((h, &self.data[i]));
            proof {
                assert forall|j: int|
                    0 <= j < i + 1 implies (#[trigger] r@[j]).0@ == j + 1
                    && *r@[j].1 == self@[j] by {
                    if j < i {
                        assert(prev[j].0@ == j + 1);
                        assert(*prev[j].1 == self@[j]);
                        assert(r@[j] == prev[j]);
                    } else {
                        assert(r@[j].0 == h);
                    }
                }
            }
            i += 1;
        }
        r
    }

    /// Resolves a handle back to the element whose insertion produced it.
    ///
    /// Using a handle against an arena that never produced it is a contract
    /// violation, not a recoverable condition; the precondition rules out
    /// any handle that reaches past this arena's length.
    pub fn index(&self, handle: Handle<T>) -> (r: &T)
        requires
            handle@ <= self@.len(),
        ensures
            *r == self@[handle@ - 1],
    {
        proof {
            use_type_invariant(handle);
        }
        let i = (handle.index - 1) as usize;
        &self.data[i]
    }
}

impl<T> Default for Arena<T> {
    fn default() -> (r: Self)
        ensures
            r@ == Seq::<T>::empty(),
    {
        Self::new()
    }
}

/// The arena contents after the first `k` appends of a run that inserts the
/// values `vs`, one at a time, into an arena whose contents were `s`.
pub open spec fn append_run_contents<T>(s: Seq<T>, vs: Seq<T>, k: int) -> Seq<T> {
    s + vs.take(k)
}

/// The one-based index encoded by the handle that the `k`-th append of such
/// a run returns (`k` counted from zero): one more than the number of
/// elements already present, as `append`'s postcondition states.
pub open spec fn append_run_handle<T>(s: Seq<T>, k: int) -> int {
    s.len() + k + 1
}

/// Law: over any run of appends, the handles returned are pairwise
/// distinct and strictly increasing in encoded index, matching insertion
/// order. Each append grows the contents by exactly its value, so the
/// `k`-th handle encodes `k` more than the first one does.
pub proof fn lemma_append_handles_increase<T>(s: Seq<T>, vs: Seq<T>, j: int, k: int)
    requires
        0 <= j < k < vs.len(),
    ensures
        append_run_contents(s, vs, j + 1) == append_run_contents(s, vs, j).push(vs[j]),
        append_run_handle(s, j) == append_run_contents(s, vs, j).len() + 1,
        append_run_handle(s, j) < append_run_handle(s, k),
        append_run_handle(s, j) != append_run_handle(s, k),
{
    assert(append_run_contents(s, vs, j + 1) =~= append_run_contents(s, vs, j).push(vs[j]));
}

/// Law: appending two values `v` and `w` with `v != w` yields distinct
/// handles, and the handles resolve to elements that compare unequal.
pub proof fn lemma_append_unequal_values<T>(s: Seq<T>, v: T, w: T)
    requires
        v != w,
    ensures
        s.len() + 1 != s.push(v).len() + 1,
        s.push(v).push(w)[(s.len() + 1) - 1] == v,
        s.push(v).push(w)[(s.push(v).len() + 1) - 1] == w,
        s.push(v).push(w)[(s.len() + 1) - 1] != s.push(v).push(w)[(s.push(v).len() + 1) - 1],
{
}

/// Law: appending the same value `v` twice yields two distinct handles
/// whose referenced elements compare equal; the non-deduplicating path
/// allows duplicates rather than merging them.
pub proof fn lemma_append_duplicate_value<T>(s: Seq<T>, v: T)
    ensures
        s.len() + 1 != s.push(v).len() + 1,
        s.push(v).push(v)[(s.len() + 1) - 1] == v,
        s.push(v).push(v)[(s.push(v).len() + 1) - 1] == v,
        s.push(v).push(v)[(s.len() + 1) - 1] == s.push(v).push(v)[(s.push(v).len() + 1) - 1],
{
}

/// Law: two deduplicating insertions of the same value in a row return the
/// same handle, and the contents grow by exactly one element in total when
/// the value was absent, and by none when it was already present.
pub proof fn lemma_fetch_or_append_twice<T>(s: Seq<T>, v: T)
    ensures
        dedup_handle_index(dedup_contents(s, v), v) == dedup_handle_index(s, v),
        dedup_contents(dedup_contents(s, v), v) == dedup_contents(s, v),
        !s.contains(v) ==> dedup_contents(s, v).len() == s.len() + 1,
        s.contains(v) ==> dedup_contents(s, v) == s,
{
    s.index_of_first_ensures(v);
    if s.contains(v) {
    } else {
        let s1 = s.push(v);
        assert(s1[s.len() as int] == v);
        assert(s1.contains(v));
        s1.index_of_first_ensures(v);
        let i = s1.index_of_first(v).unwrap();
        assert(forall|j: int| 0 <= j < s.len() ==> s1[j] == s[j]);
        assert(i == s.len());
    }
}

/// Law: the handle a deduplicating insertion returns resolves, in the
/// resulting contents, to an element equal to the value inserted.
pub proof fn lemma_dedup_handle_resolves<T>(s: Seq<T>, v: T)
    ensures
        1 <= dedup_handle_index(s, v) <= dedup_contents(s, v).len(),
        dedup_contents(s, v)[dedup_handle_index(s, v) - 1] == v,
{
    s.index_of_first_ensures(v);
}

/// Law: a handle stays valid for the lifetime of its arena. An element in
/// place before a later append or deduplicating insertion is still the one
/// its handle resolves to afterwards; insertions never reorder, renumber
/// or remove existing slots.
pub proof fn lemma_insertions_preserve_resolution<T>(s: Seq<T>, i: int, w: T)
    requires
        0 <= i < s.len(),
    ensures
        s.push(w)[i] == s[i],
        dedup_contents(s, w)[i] == s[i],
{
}

} // verus!
