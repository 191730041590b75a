//! Arithmetic on shapes: the shape with three times the elements of
//! another, the shape with one element fewer and the shape with one more.
use crate::storage::{flat3, shift_left3, OneNode, TermNode, ToArray, TwoNode, ZeroNode};
use std::marker::PhantomData;
use vstd::prelude::*;

verus! {

/// A shape that has a shape with three times its elements.
///
/// Three blocks of the terminator are the terminator again, so that no
/// length ends in a zero digit; three blocks of any other shape are a
/// `ZeroNode` around it.
pub trait NatTriple<T>: ToArray<T> {
    /// The shape with three times the elements.
    type Triple: ToArray<T>;

    /// The tripled shape holds three times the elements.
    proof fn lemma_triple_count()
        ensures
            <Self::Triple as ToArray<T>>::count() == 3 * Self::count(),
    ;

    /// Three blocks of this shape as one block of the tripled shape.
    fn triple(next: (Self, Self, Self)) -> (r: Self::Triple)
        ensures
            r.flat() == flat3(&next),
    ;
}

/// A shape that has a predecessor: the shape with one element fewer.
pub trait NatPred<T>: ToArray<T> {
    /// The shape with one element fewer.
    type Pred: ToArray<T>;

    /// The predecessor holds one element fewer.
    proof fn lemma_pred_count()
        ensures
            <Self::Pred as ToArray<T>>::count() + 1 == Self::count(),
    ;
}

impl<T> NatTriple<T> for TermNode<T> {
    type Triple = TermNode<T>;

    proof fn lemma_triple_count() {
    }

    fn triple(next: (Self, Self, Self)) -> (r: Self::Triple) {
        assert(flat3(&next) =~= Seq::<T>::empty());
        next.0
    }
}

impl<T, N: ToArray<T>> NatTriple<T> for ZeroNode<T, N> {
    type Triple = ZeroNode<T, ZeroNode<T, N>>;

    proof fn lemma_triple_count() {
    }

    fn triple(next: (Self, Self, Self)) -> (r: Self::Triple) {
        ZeroNode { phantom: PhantomData, next }
    }
}

impl<T, N: ToArray<T>> NatTriple<T> for OneNode<T, N> {
    type Triple = ZeroNode<T, OneNode<T, N>>;

    proof fn lemma_triple_count() {
    }

    fn triple(next: (Self, Self, Self)) -> (r: Self::Triple) {
        ZeroNode { phantom: PhantomData, next }
    }
}

impl<T, N: ToArray<T>> NatTriple<T> for TwoNode<T, N> {
    type Triple = ZeroNode<T, TwoNode<T, N>>;

    proof fn lemma_triple_count() {
    }

    fn triple(next: (Self, Self, Self)) -> (r: Self::Triple) {
        ZeroNode { phantom: PhantomData, next }
    }
}

impl<T, N: NatPred<T>> NatPred<T> for ZeroNode<T, N> {
    type Pred = TwoNode<T, N::Pred>;

    proof fn lemma_pred_count() {
        N::lemma_pred_count();
    }
}

impl<T, N: NatTriple<T>> NatPred<T> for OneNode<T, N> {
    type Pred = N::Triple;

    proof fn lemma_pred_count() {
        N::lemma_triple_count();
    }
}

impl<T, N: ToArray<T>> NatPred<T> for TwoNode<T, N> {
    type Pred = OneNode<T, N>;

    proof fn lemma_pred_count() {
    }
}

/// A shape that has a successor: the shape with one element more.
pub trait NatSucc<T>: ToArray<T> {
    /// The shape with one element more.
    type Succ: ToArray<T>;

    /// The successor holds one element more.
    proof fn lemma_succ_count()
        ensures
            <Self::Succ as ToArray<T>>::count() == Self::count() + 1,
    ;

    /// The block of the next shape that holds the elements of this one and
    /// then `value`.
    fn push_back(self, value: T) -> (r: Self::Succ)
        ensures
            r.flat() == self.flat().push(value),
    ;
}

impl<T> NatSucc<T> for TermNode<T> {
    type Succ = OneNode<T, TermNode<T>>;

    proof fn lemma_succ_count() {
    }

    fn push_back(self, value: T) -> (r: Self::Succ) {
        let r = OneNode {
            first: value,
            next: (TermNode(PhantomData), TermNode(PhantomData), TermNode(PhantomData)),
        };
        assert(r.flat() =~= self.flat().push(value));
        r
    }
}

impl<T, N: ToArray<T>> NatSucc<T> for ZeroNode<T, N> {
    type Succ = OneNode<T, N>;

    proof fn lemma_succ_count() {
    }

    fn push_back(self, value: T) -> (r: Self::Succ) {
        let (first, next) = shift_left3(self.next, value);
        OneNode { first, next }
    }
}

impl<T, N: ToArray<T>> NatSucc<T> for OneNode<T, N> {
    type Succ = TwoNode<T, N>;

    proof fn lemma_succ_count() {
    }

    fn push_back(self, value: T) -> (r: Self::Succ) {
        let (second, next) = shift_left3(self.next, value);
        let r = TwoNode { first: self.first, second, next };
        assert(r.flat() =~= self.flat().push(value)) by {
            assert(seq![self.first, second] + flat3(&next) =~= seq![self.first] + (seq![second]
                + flat3(&next)));
        }
        r
    }
}

impl<T, N: NatSucc<T>> NatSucc<T> for TwoNode<T, N> {
    type Succ = ZeroNode<T, N::Succ>;

    proof fn lemma_succ_count() {
        N::lemma_succ_count();
    }

    fn push_back(self, value: T) -> (r: Self::Succ) {
        let TwoNode { first, second, next } = self;
        let (a, b, c) = next;
        let (a1, a9) = a.shift_right(second);
        let (a2, a8) = a1.shift_right(first);
        let x = a2.push_back(a8);
        let (b1, b9) = b.shift_right(a9);
        let y = b1.push_back(b9);
        let z = c.push_back(value);
        let r = ZeroNode { phantom: PhantomData, next: (x, y, z) };
        proof {
            let (sa, sb, sc) = (a.flat(), b.flat(), c.flat());
            assert(x.flat() == seq![first] + a1.flat());
            assert(y.flat() == seq![a9] + sb);
            assert((seq![first] + a1.flat()) + (seq![a9] + sb) =~= seq![first] + a1.flat().push(
                a9,
            ) + sb);
            assert(seq![first] + (seq![second] + sa) + sb + sc.push(value) =~= (seq![
                first,
                second,
            ] + (sa + sb + sc)).push(value));
        }
        r
    }
}

} // verus!
