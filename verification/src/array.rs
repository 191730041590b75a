//! The array type and the operations that take it apart.
use crate::guillotine::Guillotine;
use crate::length::{NatPred, NatSucc, NatTriple};
use crate::slots::{alive, ToSlots};
use crate::storage::{shift_right3, OneNode, TermNode, ToArray, TwoNode, ZeroNode};
use std::marker::PhantomData;
use vstd::prelude::*;

verus! {

/// An array whose length is the number of elements of the shape `L`.
pub struct Array<L: ToArray<T>, T> {
    data: L,
    phantom: PhantomData<T>,
}

impl<L: ToArray<T>, T> View for Array<L, T> {
    type V = Seq<T>;

    /// The elements of the array, in order.
    closed spec fn view(&self) -> Seq<T> {
        self.data.flat()
    }
}

impl<L: ToArray<T> + Clone, T> Clone for Array<L, T> {
    /// An array whose block is a clone of the block of this one.
    fn clone(&self) -> (r: Self)
        ensures
            cloned(self.block(), r.block()),
    {
        Array { data: self.data.clone(), phantom: PhantomData }
    }
}

impl<L: ToArray<T> + Copy, T: Copy> Copy for Array<L, T> {

}

impl<T> Array<TermNode<T>, T> {
    /// The array without elements.
    pub fn new() -> (r: Self)
        ensures
            r@ == Seq::<T>::empty(),
    {
        Array { data: TermNode(PhantomData), phantom: PhantomData }
    }
}

impl<L: ToArray<T>, T> Array<L, T> {
    /// The block that holds the elements.
    pub closed spec fn block(&self) -> L {
        self.data
    }

    /// The elements of an array are those of its block.
    pub proof fn lemma_block(&self)
        ensures
            self@ == self.block().flat(),
    {
    }

    /// An array has as many elements as its shape says.
    pub proof fn lemma_len(&self)
        ensures
            self@.len() == L::count(),
    {
        self.data.lemma_flat_len();
    }

    /// The number of elements.
    pub fn len(&self) -> (n: usize)
        requires
            L::count() <= usize::MAX,
        ensures
            n == self@.len(),
            n == L::count(),
    {
        proof {
            self.data.lemma_flat_len();
        }
        match L::checked_len() {
            Some(n) => n,
            None => vstd::pervasive::unreached(),
        }
    }

    /// The element at position `i`.
    pub fn get(&self, i: usize) -> (r: &T)
        requires
            i < self@.len(),
        ensures
            *r == self@[i as int],
    {
        proof {
            self.data.lemma_flat_len();
        }
        match self.data.get(i) {
            Some(r) => r,
            None => vstd::pervasive::unreached(),
        }
    }

    /// Puts `value` at position `i` and returns the element that was there.
    /// No other element changes.
    pub fn replace(&mut self, i: usize, value: T) -> (r: T)
        requires
            i < old(self)@.len(),
        ensures
            r == old(self)@[i as int],
            final(self)@ == old(self)@.update(i as int, value),
    {
        proof {
            self.data.lemma_flat_len();
        }
        match self.data.replace(i, value) {
            Ok(r) => r,
            Err(_) => vstd::pervasive::unreached(),
        }
    }

    /// The array of the next length that holds the elements of this one and
    /// then `value`.
    pub fn push(self, value: T) -> (r: Array<L::Succ, T>) where L: NatSucc<T>
        ensures
            r@ == self@.push(value),
    {
        Array { data: self.data.push_back(value), phantom: PhantomData }
    }

    /// Builds the array from `values` if there are exactly as many as the
    /// shape asks for, and hands them back unchanged if not.
    pub fn from_vec(values: Vec<T>) -> (r: Result<Self, Vec<T>>)
        ensures
            match r {
                Ok(array) => values@.len() == L::count() && array@ == values@,
                Err(rest) => values@.len() != L::count() && rest == values,
            },
    {
        if L::checked_len() == Some(values.len()) {
            let mut values = values;
            let ghost given = values@;
            let data = L::take_from(&mut values);
            proof {
                data.lemma_flat_len();
                assert(data.flat() =~= given);
            }
            Ok(Array { data, phantom: PhantomData })
        } else {
            Err(values)
        }
    }

    /// The elements of the array as a vector, in order.
    pub fn into_vec(self) -> (r: Vec<T>)
        ensures
            r@ == self@,
    {
        let mut r = Vec::new();
        self.data.append_to(&mut r);
        assert(r@ =~= self@);
        r
    }

    /// Split the array into its first element and an array of the remaining
    /// elements.
    pub fn split_first(self) -> (r: (T, Array<L::Pred, T>)) where
        L: NatPred<T>,
        Self: ArraySplit<L, T>,

        ensures
            r.0 == self@[0],
            r.1@ == self@.skip(1),
            r.1@.len() == self@.len() - 1,
    {
        let r = <Self as ArraySplit<L, T>>::split_first(self);
        proof {
            assert(r.1@ =~= self@.skip(1));
        }
        r
    }

    /// Split the array into its last element and an array of the elements
    /// before it.
    pub fn split_last(self) -> (r: (T, Array<L::Pred, T>)) where
        L: NatPred<T>,
        Self: ArraySplit<L, T>,

        ensures
            r.0 == self@[self@.len() - 1],
            r.1@ == self@.take(self@.len() - 1),
            r.1@.len() == self@.len() - 1,
    {
        let r = <Self as ArraySplit<L, T>>::split_last(self);
        proof {
            assert(r.1@ =~= self@.take(self@.len() - 1));
        }
        r
    }

    /// Splits the first element off the array, then off what remains, and
    /// so on until nothing is left: the elements come in the order of the
    /// array.
    pub fn split_all(self) -> (r: Vec<T>) where Self: ArrayUnroll<L, T>
        ensures
            r@ == self@,
    {
        let mut r = Vec::new();
        <Self as ArrayUnroll<L, T>>::split_all(self, &mut r);
        assert(r@ =~= self@);
        r
    }
}

/// Arrays of a shape that has a predecessor can give up one element.
pub trait ArraySplit<L: NatPred<T>, T> {
    /// Split the array into its first element and the remaining elements.
    fn split_first(array: Array<L, T>) -> (r: (T, Array<L::Pred, T>))
        ensures
            array@ == seq![r.0] + r.1@,
    ;

    /// Split the array into its last element and the elements before it.
    fn split_last(array: Array<L, T>) -> (r: (T, Array<L::Pred, T>))
        ensures
            array@ == r.1@.push(r.0),
    ;
}

/// First digit zero: the array is three blocks and has no element outside
/// them. Each block gives up one element and becomes a block of the
/// predecessor shape; two elements then stand in front of the three blocks,
/// and shifting moves the others to their places.
impl<T, N: NatPred<T>> ArraySplit<ZeroNode<T, N>, T> for Array<ZeroNode<T, N>, T> where
    Array<N, T>: ArraySplit<N, T>,
 {
    fn split_first(array: Self) -> (r: (T, Array<TwoNode<T, N::Pred>, T>)) {
        let (a, b, c) = array.data.next;
        let (head, a1) = <Array<N, T> as ArraySplit<N, T>>::split_first(
            Array { data: a, phantom: PhantomData },
        );
        let (b0, b1) = <Array<N, T> as ArraySplit<N, T>>::split_first(
            Array { data: b, phantom: PhantomData },
        );
        let (c0, c1) = <Array<N, T> as ArraySplit<N, T>>::split_first(
            Array { data: c, phantom: PhantomData },
        );
        let (b2, y) = b1.data.shift_left(c0);
        let (first, a2) = a1.data.shift_left(b0);
        let (second, x) = a2.shift_left(b2);
        let tail = TwoNode { first, second, next: (x, y, c1.data) };
        proof {
            let (sa, sb, sc) = (a1.data.flat(), b1.data.flat(), c1.data.flat());
            let (sx, sy, sa2) = (x.flat(), y.flat(), a2.flat());
            assert(array@ == (seq![head] + sa) + (seq![b0] + sb) + (seq![c0] + sc));
            assert(tail.flat() == seq![first, second] + (sx + sy + sc));
            assert(seq![first, second] + (sx + sy + sc) =~= seq![first] + (seq![second] + sx)
                + sy + sc);
            assert(seq![first] + sa2.push(b2) + sy =~= (seq![first] + sa2) + (seq![b2] + sy));
            assert(sa.push(b0) + sb.push(c0) + sc =~= sa + (seq![b0] + sb) + (seq![c0] + sc));
            assert(seq![head] + (sa + (seq![b0] + sb) + (seq![c0] + sc)) =~= (seq![head] + sa)
                + (seq![b0] + sb) + (seq![c0] + sc));
        }
        (head, Array { data: tail, phantom: PhantomData })
    }

    fn split_last(array: Self) -> (r: (T, Array<TwoNode<T, N::Pred>, T>)) {
        let (a, b, c) = array.data.next;
        let (last, c1) = <Array<N, T> as ArraySplit<N, T>>::split_last(
            Array { data: c, phantom: PhantomData },
        );
        let (b0, b1) = <Array<N, T> as ArraySplit<N, T>>::split_first(
            Array { data: b, phantom: PhantomData },
        );
        let (first, a1) = <Array<N, T> as ArraySplit<N, T>>::split_first(
            Array { data: a, phantom: PhantomData },
        );
        let (second, x) = a1.data.shift_left(b0);
        let tail = TwoNode { first, second, next: (x, b1.data, c1.data) };
        proof {
            let (sa, sb, sc) = (a1.data.flat(), b1.data.flat(), c1.data.flat());
            assert(array@ == (seq![first] + sa) + (seq![b0] + sb) + sc.push(last));
            assert((seq![first] + sa) + (seq![b0] + sb) =~= seq![first] + sa.push(b0) + sb);
            assert(array@ =~= tail.flat().push(last));
        }
        (last, Array { data: tail, phantom: PhantomData })
    }
}

/// First digit one: the element in front of the three blocks is the first
/// of the array, and the three blocks are what remains. The last element
/// leaves at the end of the third block when the blocks are shifted to the
/// right behind the first element.
impl<T, N: NatTriple<T>> ArraySplit<OneNode<T, N>, T> for Array<OneNode<T, N>, T> {
    fn split_first(array: Self) -> (r: (T, Array<N::Triple, T>)) {
        let OneNode { first, next } = array.data;
        let tail = N::triple(next);
        (first, Array { data: tail, phantom: PhantomData })
    }

    fn split_last(array: Self) -> (r: (T, Array<N::Triple, T>)) {
        let OneNode { first, next } = array.data;
        let (next, last) = shift_right3(next, first);
        let init = N::triple(next);
        (last, Array { data: init, phantom: PhantomData })
    }
}

/// First digit two: of the two elements in front of the three blocks the
/// first leaves and the second stays in front. The last element leaves at
/// the end of the third block when the blocks are shifted to the right
/// behind the second element.
impl<T, N: ToArray<T>> ArraySplit<TwoNode<T, N>, T> for Array<TwoNode<T, N>, T> {
    fn split_first(array: Self) -> (r: (T, Array<OneNode<T, N>, T>)) {
        let TwoNode { first, second, next } = array.data;
        let tail = OneNode { first: second, next };
        assert(array@ =~= seq![first] + tail.flat());
        (first, Array { data: tail, phantom: PhantomData })
    }

    fn split_last(array: Self) -> (r: (T, Array<OneNode<T, N>, T>)) {
        let TwoNode { first, second, next } = array.data;
        let (next, last) = shift_right3(next, second);
        let init = OneNode { first, next };
        assert(array@ =~= init.flat().push(last));
        (last, Array { data: init, phantom: PhantomData })
    }
}

/// Arrays that can be taken apart from the front until nothing is left.
pub trait ArrayUnroll<L: ToArray<T>, T> {
    /// Splits the first element off the array, then off what remains, and
    /// so on down to the array without elements, and appends the elements
    /// to `out` as they come: they come in the order of the array.
    fn split_all(array: Array<L, T>, out: &mut Vec<T>)
        ensures
            final(out)@ == old(out)@ + array@,
    ;
}

impl<T> ArrayUnroll<TermNode<T>, T> for Array<TermNode<T>, T> {
    fn split_all(array: Self, out: &mut Vec<T>) {
        assert(out@ =~= old(out)@ + array@);
    }
}

impl<T, N: NatPred<T>> ArrayUnroll<ZeroNode<T, N>, T> for Array<ZeroNode<T, N>, T> where
    Array<N, T>: ArraySplit<N, T>,
    Array<TwoNode<T, N::Pred>, T>: ArrayUnroll<TwoNode<T, N::Pred>, T>,
 {
    fn split_all(array: Self, out: &mut Vec<T>) {
        let (head, tail) = <Self as ArraySplit<ZeroNode<T, N>, T>>::split_first(array);
        out.push(head);
        <Array<TwoNode<T, N::Pred>, T> as ArrayUnroll<TwoNode<T, N::Pred>, T>>::split_all(tail, out);
        assert(out@ =~= old(out)@ + array@);
    }
}

impl<T, N: NatTriple<T>> ArrayUnroll<OneNode<T, N>, T> for Array<OneNode<T, N>, T> where
    Array<N::Triple, T>: ArrayUnroll<N::Triple, T>,
 {
    fn split_all(array: Self, out: &mut Vec<T>) {
        let (head, tail) = <Self as ArraySplit<OneNode<T, N>, T>>::split_first(array);
        out.push(head);
        <Array<N::Triple, T> as ArrayUnroll<N::Triple, T>>::split_all(tail, out);
        assert(out@ =~= old(out)@ + array@);
    }
}

impl<T, N: ToArray<T>> ArrayUnroll<TwoNode<T, N>, T> for Array<TwoNode<T, N>, T> where
    Array<OneNode<T, N>, T>: ArrayUnroll<OneNode<T, N>, T>,
 {
    fn split_all(array: Self, out: &mut Vec<T>) {
        let (head, tail) = <Self as ArraySplit<TwoNode<T, N>, T>>::split_first(array);
        out.push(head);
        <Array<OneNode<T, N>, T> as ArrayUnroll<OneNode<T, N>, T>>::split_all(tail, out);
        assert(out@ =~= old(out)@ + array@);
    }
}

/// An iterator that owns the elements of an array and gives them out one
/// at a time, first to last.
///
/// It keeps a slot for each element. The slots before its position are dead:
/// their elements have been given out and are no longer its own. The slots
/// from its position on are alive, and their elements stay with it until it
/// is released, which happens at most once.
pub struct ArrayIter<L: ToSlots<T>, T> {
    data: Guillotine<Array<L::Slots, Guillotine<T>>>,
    pos: usize,
}

impl<L: ToSlots<T>, T> View for ArrayIter<L, T> {
    type V = Seq<T>;

    /// The elements that the iterator still owns, in the order in which it
    /// gives them out.
    closed spec fn view(&self) -> Seq<T> {
        match self.data {
            Guillotine::Alive(slots) => Seq::new(
                (slots@.len() - self.pos) as nat,
                |j: int| slots@[self.pos + j]->0,
            ),
            Guillotine::Dead => Seq::empty(),
        }
    }
}

/// What an iterator that owns the elements `rest` gives out next: the first
/// of them, or nothing when it owns none.
pub open spec fn next_of<T>(rest: Seq<T>) -> Option<T> {
    if rest.len() > 0 {
        Some(rest[0])
    } else {
        None
    }
}

/// What an iterator that owned the elements `rest` owns once it has been
/// asked for the next one.
pub open spec fn after_next<T>(rest: Seq<T>) -> Seq<T> {
    if rest.len() > 0 {
        rest.skip(1)
    } else {
        rest
    }
}

/// What an iterator that owned the elements `rest` owns once it has been
/// asked `n` times for the next one.
pub open spec fn after_nexts<T>(rest: Seq<T>, n: nat) -> Seq<T>
    decreases n,
{
    if n == 0 {
        rest
    } else {
        after_nexts(after_next(rest), (n - 1) as nat)
    }
}

/// Exhaustion: an iterator that owns `items` gives them out in order, one
/// with each call, and gives out nothing on any call after the last of them.
pub proof fn lemma_exhaustion<T>(items: Seq<T>, k: nat)
    ensures
        after_nexts(items, k) == if k <= items.len() {
            items.skip(k as int)
        } else {
            Seq::empty()
        },
        next_of(after_nexts(items, k)) == if k < items.len() {
            Some(items[k as int])
        } else {
            None
        },
    decreases k,
{
    if k == 0 {
        assert(items.skip(0) =~= items);
    } else if items.len() == 0 {
        lemma_exhaustion(items, (k - 1) as nat);
    } else {
        let rest = items.skip(1);
        lemma_exhaustion(rest, (k - 1) as nat);
        if k <= items.len() {
            assert(rest.skip(k - 1) =~= items.skip(k as int));
        }
    }
}

/// Partial use: when an iterator that owned `items` is given up after `k`
/// calls, it still owns the elements from position `k` on and none of those
/// before. What was given out and what `release` then hands over are
/// together the elements of `items`, each of them once.
pub proof fn lemma_partial_release<T>(items: Seq<T>, k: nat)
    requires
        k <= items.len(),
    ensures
        after_nexts(items, k) == items.skip(k as int),
        after_nexts(items, k).len() == items.len() - k,
        items.take(k as int) + after_nexts(items, k) == items,
{
    lemma_exhaustion(items, k);
    assert(items.take(k as int) + items.skip(k as int) =~= items);
}

impl<L: ToSlots<T>, T> ArrayIter<L, T> {
    /// Whether the iterator still owns its slots: true until it is released.
    pub closed spec fn is_alive(&self) -> bool {
        self.data is Alive
    }

    /// How many elements the iterator has given out.
    pub closed spec fn position(&self) -> nat {
        self.pos as nat
    }

    /// What holds of every iterator: its position lies within the array, and
    /// until it is released exactly the slots from its position on are
    /// alive.
    pub closed spec fn wf(&self) -> bool {
        &&& L::count() <= usize::MAX
        &&& self.pos <= L::count()
        &&& match self.data {
            Guillotine::Alive(slots) => forall|i: int|
                0 <= i < L::count() ==> ((#[trigger] slots@[i]) is Alive <==> i >= self.pos),
            Guillotine::Dead => true,
        }
    }

    /// Until it is released, an iterator has given out as many elements as
    /// it no longer owns.
    pub proof fn lemma_position(&self)
        requires
            self.wf(),
            self.is_alive(),
        ensures
            self.position() + self@.len() == L::count(),
    {
        L::lemma_slots_count();
        match self.data {
            Guillotine::Alive(slots) => {
                slots.lemma_len();
            },
            Guillotine::Dead => {},
        }
    }

    /// The next element, or `None` when none is left. Once it has returned
    /// `None` it does so on every later call.
    pub fn next(&mut self) -> (r: Option<T>)
        requires
            old(self).wf(),
        ensures
            final(self).wf(),
            final(self).is_alive() == old(self).is_alive(),
            r == next_of(old(self)@),
            final(self)@ == after_next(old(self)@),
            final(self).position() == old(self).position() + if r is Some {
                1nat
            } else {
                0nat
            },
    {
        let len: usize = match L::checked_len() {
            Some(n) => n,
            None => vstd::pervasive::unreached(),
        };
        match &mut self.data {
            Guillotine::Alive(slots) => {
                proof {
                    L::lemma_slots_count();
                    slots.lemma_len();
                }
                if self.pos < len {
                    let slot = slots.replace(self.pos, Guillotine::Dead);
                    self.pos = self.pos + 1;
                    proof {
                        assert(self@ =~= old(self)@.skip(1));
                    }
                    Some(slot.unwrap_unchecked())
                } else {
                    None
                }
            },
            Guillotine::Dead => None,
        }
    }

    /// How many elements are left, as a lower and an upper bound that are
    /// equal.
    pub fn size_hint(&self) -> (r: (usize, Option<usize>))
        requires
            self.wf(),
        ensures
            r.0 == self@.len(),
            r.1 == Some(r.0),
            self.is_alive() ==> r.0 == L::count() - self.position(),
    {
        match self.data.as_ref() {
            Guillotine::Alive(slots) => {
                proof {
                    L::lemma_slots_count();
                    slots.lemma_len();
                }
                let left: usize = match L::checked_len() {
                    Some(n) => n - self.pos,
                    None => vstd::pervasive::unreached(),
                };
                (left, Some(left))
            },
            Guillotine::Dead => (0, Some(0)),
        }
    }

    /// Gives up the elements that have not been given out, in order. The
    /// iterator owns nothing afterwards, so that a second call gives up
    /// nothing.
    pub fn release(&mut self) -> (r: Vec<T>)
        requires
            old(self).wf(),
        ensures
            final(self).wf(),
            r@ == old(self)@,
            !final(self).is_alive(),
            final(self)@ == Seq::<T>::empty(),
            final(self).position() == old(self).position(),
    {
        let mut out: Vec<T> = Vec::new();
        let len: usize = match L::checked_len() {
            Some(n) => n,
            None => vstd::pervasive::unreached(),
        };
        let pos: usize = self.pos;
        match self.data.take() {
            Guillotine::Alive(slots) => {
                let mut slots = slots;
                let ghost owned = slots@;
                proof {
                    L::lemma_slots_count();
                    slots.lemma_len();
                }
                let mut i: usize = pos;
                while i < len
                    invariant
                        pos <= i <= len,
                        slots@.len() == len,
                        owned.len() == len,
                        forall|k: int| i <= k < len ==> slots@[k] == owned[k],
                        forall|k: int| pos <= k < len ==> (#[trigger] owned[k]) is Alive,
                        out@ == Seq::new((i - pos) as nat, |j: int| owned[pos + j]->0),
                    decreases len - i,
                {
                    assert(owned[i as int] is Alive);
                    let slot = slots.replace(i, Guillotine::Dead);
                    out.push(slot.unwrap_unchecked());
                    i = i + 1;
                    assert(out@ =~= Seq::new((i - pos) as nat, |j: int| owned[pos + j]->0));
                }
                assert(out@ =~= old(self)@);
            },
            Guillotine::Dead => {
                assert(out@ =~= old(self)@);
            },
        }
        out
    }
}

impl<L: ToArray<T>, T> Array<L, T> {
    /// An iterator that owns the elements of the array and has given out
    /// none of them.
    pub fn into_iter(self) -> (r: ArrayIter<L, T>) where L: ToSlots<T>
        requires
            L::count() <= usize::MAX,
        ensures
            r.wf(),
            r.is_alive(),
            r@ == self@,
            r.position() == 0,
    {
        proof {
            self.data.lemma_flat_len();
            L::lemma_slots_count();
        }
        let slots = Array { data: self.data.into_slots(), phantom: PhantomData };
        let r = ArrayIter { data: Guillotine::Alive(slots), pos: 0 };
        assert(r@ =~= self@);
        r
    }
}

} // verus!
