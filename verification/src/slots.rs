//! Blocks of slots: the same shape with a [`Guillotine`] around each element,
//! so that the elements can leave the block one at a time.
use crate::guillotine::Guillotine;
use crate::storage::{flat3, OneNode, TermNode, ToArray, TwoNode, ZeroNode};
use std::marker::PhantomData;
use vstd::prelude::*;

verus! {

/// The elements `items`, each in a slot that is alive.
pub open spec fn alive<T>(items: Seq<T>) -> Seq<Guillotine<T>> {
    Seq::new(items.len(), |i: int| Guillotine::Alive(items[i]))
}

/// Slots of parts, put together, are the slots of the parts put together.
pub proof fn lemma_alive_add<T>(a: Seq<T>, b: Seq<T>)
    ensures
        alive(a + b) == alive(a) + alive(b),
{
    assert(alive(a + b) =~= alive(a) + alive(b));
}

/// A block whose elements can each be put into a slot.
pub trait ToSlots<T>: ToArray<T> {
    /// The block of the same shape that holds a slot for each element.
    type Slots: ToArray<Guillotine<T>>;

    /// The block of slots holds as many slots as this block holds elements.
    proof fn lemma_slots_count()
        ensures
            <Self::Slots as ToArray<Guillotine<T>>>::count() == Self::count(),
    ;

    /// Moves each element into a slot at its position.
    fn into_slots(self) -> (r: Self::Slots)
        ensures
            r.flat() == alive(self.flat()),
    ;
}

/// Moves each element of three blocks of one shape into a slot.
fn into_slots3<T, N: ToSlots<T>>(next: (N, N, N)) -> (r: (N::Slots, N::Slots, N::Slots))
    ensures
        flat3(&r) == alive(flat3(&next)),
{
    let (a, b, c) = next;
    proof {
        lemma_alive_add(a.flat(), b.flat());
        lemma_alive_add(a.flat() + b.flat(), c.flat());
    }
    (a.into_slots(), b.into_slots(), c.into_slots())
}

impl<T> ToSlots<T> for TermNode<T> {
    type Slots = TermNode<Guillotine<T>>;

    proof fn lemma_slots_count() {
    }

    fn into_slots(self) -> (r: Self::Slots) {
        let r = TermNode(PhantomData);
        assert(r.flat() =~= alive(self.flat()));
        r
    }
}

impl<T, N: ToSlots<T>> ToSlots<T> for ZeroNode<T, N> {
    type Slots = ZeroNode<Guillotine<T>, N::Slots>;

    proof fn lemma_slots_count() {
        N::lemma_slots_count();
    }

    fn into_slots(self) -> (r: Self::Slots) {
        ZeroNode { phantom: PhantomData, next: into_slots3(self.next) }
    }
}

impl<T, N: ToSlots<T>> ToSlots<T> for OneNode<T, N> {
    type Slots = OneNode<Guillotine<T>, N::Slots>;

    proof fn lemma_slots_count() {
        N::lemma_slots_count();
    }

    fn into_slots(self) -> (r: Self::Slots) {
        proof {
            lemma_alive_add(seq![self.first], flat3(&self.next));
            assert(alive(seq![self.first]) =~= seq![Guillotine::Alive(self.first)]);
        }
        OneNode { first: Guillotine::Alive(self.first), next: into_slots3(self.next) }
    }
}

impl<T, N: ToSlots<T>> ToSlots<T> for TwoNode<T, N> {
    type Slots = TwoNode<Guillotine<T>, N::Slots>;

    proof fn lemma_slots_count() {
        N::lemma_slots_count();
    }

    fn into_slots(self) -> (r: Self::Slots) {
        proof {
            lemma_alive_add(seq![self.first, self.second], flat3(&self.next));
            assert(alive(seq![self.first, self.second]) =~= seq![
                Guillotine::Alive(self.first),
                Guillotine::Alive(self.second),
            ]);
        }
        TwoNode {
            first: Guillotine::Alive(self.first),
            second: Guillotine::Alive(self.second),
            next: into_slots3(self.next),
        }
    }
}

} // verus!
