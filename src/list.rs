use vstd::prelude::*;

use crate::render::{bracketed, render_entries};

verus! {

/// The values of `s`, most recently pushed first.
pub open spec fn newest_first<T>(s: Seq<T>) -> Seq<T> {
    s.reverse()
}

/// Traversal yields the values of nested pushes innermost first: the value pushed
/// `i`-th from the innermost scope comes at position `i`.
pub proof fn lemma_nested_traversal<T>(pushed: Seq<T>)
    ensures
        newest_first(pushed).len() == pushed.len(),
        forall|i: int|
            0 <= i < pushed.len() ==> #[trigger] newest_first(pushed)[i] == pushed[pushed.len() - 1
                - i],
{
}

/// A traversal of an empty list yields nothing.
pub proof fn lemma_empty_traversal<T>()
    ensures
        newest_first(Seq::<T>::empty()) == Seq::<T>::empty(),
{
}

/// Depth: with `n` nested pushes active a traversal has length `n`, and each scope
/// that returns shortens it by exactly one, down to zero when none is left.
pub proof fn lemma_traversal_depth<T>(pushed: Seq<T>)
    ensures
        newest_first(pushed).len() == pushed.len(),
        pushed.len() > 0 ==> newest_first(pushed.drop_last()).len() == newest_first(pushed).len()
            - 1,
        newest_first(pushed).len() == 0 <==> pushed.len() == 0,
{
}

/// The list seen inside a push is the list outside it with the pushed value in front.
pub proof fn lemma_push_traversal<T>(outer: Seq<T>, value: T)
    ensures
        newest_first(outer.push(value)) == seq![value] + newest_first(outer),
{
    assert(newest_first(outer.push(value)) =~= seq![value] + newest_first(outer));
}

/// A stack of values made visible to nested code for the extent of a call.
///
/// Each value is pushed by `with_cons`, stays at the head while the continuation
/// runs, and is taken off and handed back before `with_cons` returns, so nested
/// pushes always come off in reverse order.
pub struct IntrusiveList<T> {
    values: Vec<T>,
}

impl<T> View for IntrusiveList<T> {
    type V = Seq<T>;

    /// The active values, oldest (outermost push) first.
    closed spec fn view(&self) -> Seq<T> {
        self.values@
    }
}

impl<T> Default for IntrusiveList<T> {
    fn default() -> (r: Self)
        ensures
            r@ == Seq::<T>::empty(),
    {
        IntrusiveList { values: Vec::new() }
    }
}

impl<T> IntrusiveList<T> {
    /// Pushes `value`, runs `cont` on the list, pops the value again and hands it
    /// back beside what `cont` returned. The continuation must leave the number of
    /// active values as it found it, which every nested `with_cons` does.
    pub fn with_cons<O, F: FnOnce(&mut Self) -> O>(&mut self, value: T, cont: F) -> (r: (O, T))
        requires
            forall|l: &mut Self| #[trigger] cont.requires((l,)),
            forall|l: &mut Self, o: O| #[trigger] cont.ensures((l,), o) ==> final(l)@.len() == l@.len(),
        ensures
            exists|l: &mut Self|
                l@ == old(self)@.push(value) && cont.ensures((l,), r.0) && final(l)@
                    == final(self)@.push(r.1),
            final(self)@.len() == old(self)@.len(),
            (forall|l: &mut Self, o: O| #[trigger] cont.ensures((l,), o) ==> final(l)@ == l@)
                ==> final(self)@ == old(self)@ && r.1 == value,
    {
        self.values.push(value);
        let o = cont(self);
        let ghost mid = self@;
        proof {
            assert(exists|l: &mut Self|
                cont.ensures((l,), o) && l@ == old(self)@.push(value) && final(l)@ == mid);
        }
        let v = self.values.pop();
        assert(mid =~= self@.push(v.unwrap()));
        (o, v.unwrap())
    }

    /// The value of the innermost active push, if any.
    pub fn head(&self) -> (r: Option<&T>)
        ensures
            self@.len() == 0 ==> r is None,
            self@.len() > 0 ==> r == Some(&self@.last()),
    {
        let n = self.values.len();
        if n == 0 {
            None
        } else {
            Some(&self.values[n - 1])
        }
    }

    /// Exclusive access to the value of the innermost active push, if any.
    pub fn head_mut(&mut self) -> (r: Option<&mut T>)
        ensures
            old(self)@.len() == 0 ==> r is None && final(self)@ == old(self)@,
            old(self)@.len() > 0 ==> (r matches Some(h) && *h == old(self)@.last() && final(self)@
                == old(self)@.update(old(self)@.len() - 1, *final(h))),
    {
        self.values.last_mut()
    }

    /// A cursor over the active values, most recently pushed first.
    pub fn iter(&mut self) -> (r: Iter<'_, T>)
        ensures
            r.wf(),
            final(self)@ == old(self)@,
            r@ == newest_first(old(self)@),
    {
        Iter { values: &self.values, remaining: self.values.len() }
    }

    /// A formatting view of the active values, most recently pushed first.
    pub fn debug(&mut self) -> (r: Dbg<'_, T>)
        ensures
            final(self)@ == old(self)@,
            r@ == newest_first(old(self)@),
    {
        Dbg(&*self)
    }

    /// An exclusive cursor over the active values, most recently pushed first.
    pub fn iter_mut(&mut self) -> (r: IterMut<'_, T>)
        ensures
            r@ == newest_first(old(self)@),
            final(self)@ == final(r.rest)@,
    {
        IterMut { rest: self.values.as_mut_slice() }
    }
}

/// A formatting view of a list, taken while the list is exclusively borrowed.
pub struct Dbg<'a, T>(&'a IntrusiveList<T>);

impl<'a, T> View for Dbg<'a, T> {
    type V = Seq<T>;

    /// The values to render, most recently pushed first.
    closed spec fn view(&self) -> Seq<T> {
        newest_first(self.0@)
    }
}

impl<'a, T> Dbg<'a, T> {
    /// Renders the values, most recently pushed first, each through `entry`.
    pub fn render<F: Fn(&T) -> String>(&self, entry: F) -> (r: String)
        requires
            forall|v: &T| #[trigger] entry.requires((v,)),
        ensures
            exists|parts: Seq<String>|
                parts.len() == self@.len() && (forall|i: int|
                    0 <= i < parts.len() ==> #[trigger] entry.ensures((&self@[i],), parts[i]))
                    && r@ == bracketed(parts.map_values(|p: String| p@)),
    {
        let values = &self.0.values;
        let mut parts: Vec<String> = Vec::new();
        let mut k: usize = values.len();
        while k > 0
            invariant
                k <= values@.len(),
                values@ == self.0@,
                parts@.len() == values@.len() - k,
                forall|i: int|
                    0 <= i < parts@.len() ==> #[trigger] entry.ensures((&self@[i],), parts@[i]),
                forall|v: &T| #[trigger] entry.requires((v,)),
            decreases k,
        {
            k = k - 1;
            let s = entry(&values[k]);
            parts.push(s);
        }
        render_entries(&parts)
    }
}

/// A read-only cursor over the active values, most recently pushed first.
pub struct Iter<'a, T> {
    values: &'a Vec<T>,
    remaining: usize,
}

impl<'a, T> View for Iter<'a, T> {
    type V = Seq<T>;

    /// The values not yet yielded, in the order they will come.
    closed spec fn view(&self) -> Seq<T> {
        newest_first(self.values@.subrange(0, self.remaining as int))
    }
}

impl<'a, T> Iter<'a, T> {
    /// The cursor stays within the list it walks.
    pub closed spec fn wf(&self) -> bool {
        self.remaining <= self.values@.len()
    }

    /// Yields the next value; once the values run out it yields `None` for good.
    pub fn next(&mut self) -> (r: Option<&'a T>)
        requires
            old(self).wf(),
        ensures
            final(self).wf(),
            old(self)@.len() == 0 ==> r is None && final(self)@ == old(self)@,
            old(self)@.len() > 0 ==> r == Some(&old(self)@[0]) && final(self)@ == old(self)@.drop_first(),
    {
        if self.remaining == 0 {
            None
        } else {
            self.remaining = self.remaining - 1;
            Some(&self.values[self.remaining])
        }
    }
}

/// An exclusive cursor over the active values, most recently pushed first.
pub struct IterMut<'a, T> {
    /// The values not yet yielded, oldest first; what is written through it is
    /// what the list holds once the cursor is given up.
    pub rest: &'a mut [T],
}

impl<'a, T> View for IterMut<'a, T> {
    type V = Seq<T>;

    /// The values not yet yielded, in the order they will come.
    closed spec fn view(&self) -> Seq<T> {
        newest_first(self.rest@)
    }
}

impl<'a, T> IterMut<'a, T> {
    /// Yields the next value; once the values run out it yields `None` for good.
    pub fn next(&mut self) -> (r: Option<&'a mut T>)
        ensures
            old(self)@.len() == 0 ==> r is None && final(self)@ == old(self)@ && final(old(self).rest)@
                == final(final(self).rest)@,
            old(self)@.len() > 0 ==> (r matches Some(v) && *v == old(self)@[0] && final(self)@ == old(self)@.drop_first()
                && final(old(self).rest)@ == final(final(self).rest)@.push(*final(v))),
    {
        let mut taken: &'a mut [T] = &mut [];
        std::mem::swap(&mut taken, &mut self.rest);
        let n = taken.len();
        if n == 0 {
            None
        } else {
            let (front, back) = taken.split_at_mut(n - 1);
            self.rest = front;
            back.last_mut()
        }
    }
}

} // verus!
