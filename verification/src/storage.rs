//! Storage blocks: one struct per ternary digit.
//!
//! A length in ternary, least significant digit first, is a list of digits
//! that ends in a terminator. Each digit becomes a node that holds as many
//! elements as the digit says, followed by three blocks of the shape that the
//! remaining digits describe. So `TwoNode<T, TwoNode<T, TermNode<T>>>` holds
//! 2 + 3 * (2 + 3 * 0) = 8 elements.
//!
//! A block has no field besides its elements: where one element takes `e`
//! bytes, the nodes of a block of `n` elements add up to `n * e` bytes.
use std::marker::PhantomData;
use vstd::prelude::*;

verus! {

/// A block of elements of type `T` whose shape, and with it the number of
/// elements, is fixed by the type.
pub trait ToArray<T>: Sized {
    /// How many elements a block of this shape holds.
    spec fn count() -> nat;

    /// The elements of the block, in order.
    spec fn flat(&self) -> Seq<T>;

    /// The bytes that the nodes of such a block add up to when one element
    /// takes `elem_size` bytes.
    spec fn byte_size(elem_size: nat) -> nat;

    /// The alignment that the nodes of such a block ask for when one element
    /// is aligned to `elem_align` bytes.
    spec fn byte_align(elem_align: nat) -> nat;

    /// A block holds as many elements as its shape says.
    proof fn lemma_flat_len(&self)
        ensures
            self.flat().len() == Self::count(),
    ;

    /// A block takes the bytes of its elements and no more.
    proof fn lemma_byte_size(elem_size: nat)
        ensures
            Self::byte_size(elem_size) == Self::count() * elem_size,
    ;

    /// A block is aligned as its elements are; one without elements needs
    /// no alignment.
    proof fn lemma_byte_align(elem_align: nat)
        requires
            elem_align >= 1,
        ensures
            Self::byte_align(elem_align) == if Self::count() > 0 {
                elem_align
            } else {
                1
            },
    ;

    /// The number of elements, if the machine can hold that number.
    fn checked_len() -> (n: Option<usize>)
        ensures
            n == if Self::count() <= usize::MAX {
                Some(Self::count() as usize)
            } else {
                None
            },
    ;

    /// The bytes that such a block takes when one element takes `elem_size`
    /// bytes, if the machine can hold that number.
    fn checked_byte_size(elem_size: usize) -> (n: Option<usize>)
        ensures
            n == if Self::count() * elem_size <= usize::MAX {
                Some((Self::count() * elem_size) as usize)
            } else {
                None
            },
    ;

    /// The alignment of such a block when one element is aligned to
    /// `elem_align` bytes.
    fn alignment(elem_align: usize) -> (n: usize)
        requires
            elem_align >= 1,
        ensures
            n == if Self::count() > 0 {
                elem_align
            } else {
                1
            },
    ;

    /// The element at position `i`, if the block has such a position.
    fn get(&self, i: usize) -> (r: Option<&T>)
        ensures
            match r {
                Some(elem) => i < Self::count() && *elem == self.flat()[i as int],
                None => i >= Self::count(),
            },
    ;

    /// Puts `value` at position `i` and returns the element that was there.
    /// Where the block has no such position it stays as it is and `value`
    /// comes back as the error.
    fn replace(&mut self, i: usize, value: T) -> (r: Result<T, T>)
        ensures
            match r {
                Ok(elem) => {
                    &&& i < Self::count()
                    &&& elem == old(self).flat()[i as int]
                    &&& final(self).flat() == old(self).flat().update(i as int, value)
                },
                Err(given) => {
                    &&& i >= Self::count()
                    &&& given == value
                    &&& final(self).flat() == old(self).flat()
                },
            },
    ;

    /// Moves the elements to the end of `out`, in order.
    fn append_to(self, out: &mut Vec<T>)
        ensures
            final(out)@ == old(out)@ + self.flat(),
    ;

    /// Builds a block from the last elements of `src`, in their order, and
    /// leaves the elements before them in `src`.
    fn take_from(src: &mut Vec<T>) -> (r: Self)
        requires
            old(src)@.len() >= Self::count(),
        ensures
            final(src)@ + r.flat() == old(src)@,
    ;

    /// Moves every element one place towards the front: the first element
    /// leaves the block and `incoming` becomes its last.
    fn shift_left(self, incoming: T) -> (r: (T, Self))
        ensures
            seq![r.0] + r.1.flat() == self.flat().push(incoming),
    ;

    /// Moves every element one place towards the back: `incoming` becomes the
    /// first element and the last one leaves the block.
    fn shift_right(self, incoming: T) -> (r: (Self, T))
        ensures
            r.0.flat().push(r.1) == seq![incoming] + self.flat(),
    ;
}

/// The end of the digit list: a block without elements.
#[derive(Default)]
pub struct TermNode<T>(pub PhantomData<T>);

/// Digit zero: three blocks of shape `N` and no element of its own.
#[derive(Default)]
pub struct ZeroNode<T, N> {
    pub phantom: PhantomData<T>,
    pub next: (N, N, N),
}

/// Digit one: one element, then three blocks of shape `N`.
#[derive(Default)]
pub struct OneNode<T, N> {
    pub first: T,
    pub next: (N, N, N),
}

/// Digit two: two elements, then three blocks of shape `N`.
#[derive(Default)]
pub struct TwoNode<T, N> {
    pub first: T,
    pub second: T,
    pub next: (N, N, N),
}

/// The elements of three blocks of one shape, one block after the other.
pub open spec fn flat3<T, N: ToArray<T>>(next: &(N, N, N)) -> Seq<T> {
    next.0.flat() + next.1.flat() + next.2.flat()
}

/// Three blocks of one shape hold three times the elements of one.
pub proof fn lemma_flat3_len<T, N: ToArray<T>>(next: &(N, N, N))
    ensures
        flat3(next).len() == 3 * N::count(),
{
    next.0.lemma_flat_len();
    next.1.lemma_flat_len();
    next.2.lemma_flat_len();
}

/// Three times `inner` plus `own`, if both are numbers and the machine can
/// hold the result.
fn checked_node(inner: Option<usize>, own: Option<usize>) -> (n: Option<usize>)
    ensures
        n == match (inner, own) {
            (Some(a), Some(b)) if 3 * a + b <= usize::MAX => Some((3 * a + b) as usize),
            _ => None,
        },
{
    match (inner, own) {
        (Some(a), Some(b)) => match a.checked_mul(3) {
            Some(m) => m.checked_add(b),
            None => None,
        },
        _ => None,
    }
}

/// Where position `i` of three blocks of one shape lies: in which of the
/// three, and at which position of that block.
fn locate3<T, N: ToArray<T>>(i: usize) -> (r: Option<(usize, usize)>)
    ensures
        match r {
            Some((block, at)) => {
                &&& block < 3
                &&& at < N::count()
                &&& block == 0 ==> i == at
                &&& block == 1 ==> i == N::count() + at
                &&& block == 2 ==> i == 2 * N::count() + at
            },
            None => i >= 3 * N::count(),
        },
{
    match N::checked_len() {
        None => Some((0, i)),
        Some(k) => {
            if i < k {
                Some((0, i))
            } else if i - k < k {
                Some((1, i - k))
            } else if i - k - k < k {
                Some((2, i - k - k))
            } else {
                None
            }
        },
    }
}

/// The element at position `i` of three blocks of one shape.
fn get3<T, N: ToArray<T>>(next: &(N, N, N), i: usize) -> (r: Option<&T>)
    ensures
        match r {
            Some(elem) => i < 3 * N::count() && *elem == flat3(next)[i as int],
            None => i >= 3 * N::count(),
        },
{
    proof {
        next.0.lemma_flat_len();
        next.1.lemma_flat_len();
        next.2.lemma_flat_len();
    }
    match locate3::<T, N>(i) {
        Some((block, at)) => {
            if block == 0 {
                next.0.get(at)
            } else if block == 1 {
                next.1.get(at)
            } else {
                next.2.get(at)
            }
        },
        None => None,
    }
}

/// Puts `value` at position `i` of three blocks of one shape and returns the
/// element that was there, or `value` as the error if there is no such
/// position.
fn replace3<T, N: ToArray<T>>(next: &mut (N, N, N), i: usize, value: T) -> (r: Result<T, T>)
    ensures
        match r {
            Ok(elem) => {
                &&& i < 3 * N::count()
                &&& elem == flat3(old(next))[i as int]
                &&& flat3(final(next)) == flat3(old(next)).update(i as int, value)
            },
            Err(given) => {
                &&& i >= 3 * N::count()
                &&& given == value
                &&& flat3(final(next)) == flat3(old(next))
            },
        },
{
    proof {
        next.0.lemma_flat_len();
        next.1.lemma_flat_len();
        next.2.lemma_flat_len();
    }
    match locate3::<T, N>(i) {
        Some((block, at)) => {
            let r = if block == 0 {
                next.0.replace(at, value)
            } else if block == 1 {
                next.1.replace(at, value)
            } else {
                next.2.replace(at, value)
            };
            assert(flat3(next) =~= flat3(old(next)).update(i as int, value));
            r
        },
        None => Err(value),
    }
}

/// Moves the elements of three blocks of one shape to the end of `out`.
fn append3_to<T, N: ToArray<T>>(next: (N, N, N), out: &mut Vec<T>)
    ensures
        final(out)@ == old(out)@ + flat3(&next),
{
    let (a, b, c) = next;
    a.append_to(out);
    b.append_to(out);
    c.append_to(out);
    assert(out@ =~= old(out)@ + (a.flat() + b.flat() + c.flat()));
}

/// Builds three blocks of one shape from the last elements of `src`.
fn take3_from<T, N: ToArray<T>>(src: &mut Vec<T>) -> (r: (N, N, N))
    requires
        old(src)@.len() >= 3 * N::count(),
    ensures
        final(src)@ + flat3(&r) == old(src)@,
{
    let c = N::take_from(src);
    proof {
        c.lemma_flat_len();
    }
    let b = N::take_from(src);
    proof {
        b.lemma_flat_len();
    }
    let a = N::take_from(src);
    assert(src@ + (a.flat() + b.flat() + c.flat()) =~= (src@ + a.flat()) + b.flat() + c.flat());
    (a, b, c)
}

/// Shifts three blocks of one shape to the left as if they were one.
pub(crate) fn shift_left3<T, N: ToArray<T>>(next: (N, N, N), incoming: T) -> (r: (T, (N, N, N)))
    ensures
        seq![r.0] + flat3(&r.1) == flat3(&next).push(incoming),
{
    let (a, b, c) = next;
    let (c0, c1) = c.shift_left(incoming);
    let (b0, b1) = b.shift_left(c0);
    let (a0, a1) = a.shift_left(b0);
    proof {
        let (sa, sb, sc) = (a.flat(), b.flat(), c.flat());
        assert(seq![a0] + (a1.flat() + b1.flat() + c1.flat()) =~= (seq![a0] + a1.flat())
            + b1.flat() + c1.flat());
        assert(sa.push(b0) + b1.flat() =~= sa + (seq![b0] + b1.flat()));
        assert(sb.push(c0) + c1.flat() =~= sb + (seq![c0] + c1.flat()));
        assert((sa + sb + sc).push(incoming) =~= sa + sb + sc.push(incoming));
    }
    (a0, (a1, b1, c1))
}

/// Shifts three blocks of one shape to the right as if they were one.
pub(crate) fn shift_right3<T, N: ToArray<T>>(next: (N, N, N), incoming: T) -> (r: ((N, N, N), T))
    ensures
        flat3(&r.0).push(r.1) == seq![incoming] + flat3(&next),
{
    let (a, b, c) = next;
    let (a1, a9) = a.shift_right(incoming);
    let (b1, b9) = b.shift_right(a9);
    let (c1, c9) = c.shift_right(b9);
    proof {
        let (sa, sb, sc) = (a.flat(), b.flat(), c.flat());
        assert((a1.flat() + b1.flat() + c1.flat()).push(c9) =~= a1.flat() + b1.flat()
            + c1.flat().push(c9));
        assert(a1.flat() + (seq![a9] + sb) =~= a1.flat().push(a9) + sb);
        assert(b1.flat() + (seq![b9] + sc) =~= b1.flat().push(b9) + sc);
        assert(seq![incoming] + (sa + sb + sc) =~= (seq![incoming] + sa) + sb + sc);
    }
    ((a1, b1, c1), c9)
}

} // verus!

verus! {

impl<T> ToArray<T> for TermNode<T> {
    open spec fn count() -> nat {
        0
    }

    open spec fn flat(&self) -> Seq<T> {
        Seq::empty()
    }

    open spec fn byte_size(elem_size: nat) -> nat {
        0
    }

    open spec fn byte_align(elem_align: nat) -> nat {
        1
    }

    proof fn lemma_flat_len(&self) {
    }

    proof fn lemma_byte_size(elem_size: nat) {
    }

    proof fn lemma_byte_align(elem_align: nat) {
    }

    fn checked_len() -> (n: Option<usize>) {
        Some(0)
    }

    fn checked_byte_size(elem_size: usize) -> (n: Option<usize>) {
        Some(0)
    }

    fn alignment(elem_align: usize) -> (n: usize) {
        1
    }

    fn get(&self, i: usize) -> (r: Option<&T>) {
        None
    }

    fn replace(&mut self, i: usize, value: T) -> (r: Result<T, T>) {
        Err(value)
    }

    fn append_to(self, out: &mut Vec<T>) {
        assert(out@ =~= old(out)@ + self.flat());
    }

    fn take_from(src: &mut Vec<T>) -> (r: Self) {
        let r = TermNode(PhantomData);
        assert(src@ + r.flat() =~= old(src)@);
        r
    }

    fn shift_left(self, incoming: T) -> (r: (T, Self)) {
        assert(seq![incoming] + self.flat() =~= self.flat().push(incoming));
        (incoming, self)
    }

    fn shift_right(self, incoming: T) -> (r: (Self, T)) {
        assert(self.flat().push(incoming) =~= seq![incoming] + self.flat());
        (self, incoming)
    }
}

impl<T, N: ToArray<T>> ToArray<T> for ZeroNode<T, N> {
    open spec fn count() -> nat {
        3 * N::count()
    }

    open spec fn flat(&self) -> Seq<T> {
        flat3(&self.next)
    }

    open spec fn byte_size(elem_size: nat) -> nat {
        3 * N::byte_size(elem_size)
    }

    open spec fn byte_align(elem_align: nat) -> nat {
        N::byte_align(elem_align)
    }

    proof fn lemma_flat_len(&self) {
        lemma_flat3_len(&self.next);
    }

    proof fn lemma_byte_size(elem_size: nat) {
        N::lemma_byte_size(elem_size);
        assert(3 * (N::count() * elem_size) == (3 * N::count()) * elem_size)
            by (nonlinear_arith);
    }

    proof fn lemma_byte_align(elem_align: nat) {
        N::lemma_byte_align(elem_align);
    }

    fn checked_len() -> (n: Option<usize>) {
        checked_node(N::checked_len(), Some(0))
    }

    fn checked_byte_size(elem_size: usize) -> (n: Option<usize>) {
        proof {
            let k = N::count();
            assert(3 * (k * elem_size) == (3 * k) * elem_size) by (nonlinear_arith);
        }
        checked_node(N::checked_byte_size(elem_size), Some(0))
    }

    fn alignment(elem_align: usize) -> (n: usize) {
        N::alignment(elem_align)
    }

    fn get(&self, i: usize) -> (r: Option<&T>) {
        get3(&self.next, i)
    }

    fn replace(&mut self, i: usize, value: T) -> (r: Result<T, T>) {
        replace3(&mut self.next, i, value)
    }

    fn append_to(self, out: &mut Vec<T>) {
        append3_to(self.next, out);
    }

    fn take_from(src: &mut Vec<T>) -> (r: Self) {
        let next = take3_from(src);
        ZeroNode { phantom: PhantomData, next }
    }

    fn shift_left(self, incoming: T) -> (r: (T, Self)) {
        let (out, next) = shift_left3(self.next, incoming);
        (out, ZeroNode { phantom: PhantomData, next })
    }

    fn shift_right(self, incoming: T) -> (r: (Self, T)) {
        let (next, out) = shift_right3(self.next, incoming);
        (ZeroNode { phantom: PhantomData, next }, out)
    }
}

impl<T, N: ToArray<T>> ToArray<T> for OneNode<T, N> {
    open spec fn count() -> nat {
        3 * N::count() + 1
    }

    open spec fn flat(&self) -> Seq<T> {
        seq![self.first] + flat3(&self.next)
    }

    open spec fn byte_size(elem_size: nat) -> nat {
        elem_size + 3 * N::byte_size(elem_size)
    }

    open spec fn byte_align(elem_align: nat) -> nat {
        if N::byte_align(elem_align) > elem_align {
            N::byte_align(elem_align)
        } else {
            elem_align
        }
    }

    proof fn lemma_flat_len(&self) {
        lemma_flat3_len(&self.next);
    }

    proof fn lemma_byte_size(elem_size: nat) {
        N::lemma_byte_size(elem_size);
        assert(elem_size + 3 * (N::count() * elem_size) == (3 * N::count() + 1) * elem_size)
            by (nonlinear_arith);
    }

    proof fn lemma_byte_align(elem_align: nat) {
        N::lemma_byte_align(elem_align);
    }

    fn checked_len() -> (n: Option<usize>) {
        checked_node(N::checked_len(), Some(1))
    }

    fn checked_byte_size(elem_size: usize) -> (n: Option<usize>) {
        proof {
            let k = N::count();
            assert(3 * (k * elem_size) + elem_size == (3 * k + 1) * elem_size)
                by (nonlinear_arith);
            assert(k * elem_size >= 0) by (nonlinear_arith)
                requires
                    k >= 0,
                    elem_size >= 0,
            ;
        }
        checked_node(N::checked_byte_size(elem_size), Some(elem_size))
    }

    fn alignment(elem_align: usize) -> (n: usize) {
        proof {
            N::lemma_byte_align(elem_align as nat);
        }
        elem_align
    }

    fn get(&self, i: usize) -> (r: Option<&T>) {
        proof {
            lemma_flat3_len(&self.next);
        }
        if i == 0 {
            Some(&self.first)
        } else {
            get3(&self.next, i - 1)
        }
    }

    fn replace(&mut self, i: usize, value: T) -> (r: Result<T, T>) {
        proof {
            lemma_flat3_len(&self.next);
        }
        if i == 0 {
            let mut value = value;
            std::mem::swap(&mut self.first, &mut value);
            assert(self.flat() =~= old(self).flat().update(0, self.first));
            Ok(value)
        } else {
            let r = replace3(&mut self.next, i - 1, value);
            assert(r is Ok ==> self.flat() =~= old(self).flat().update(i as int, value));
            r
        }
    }

    fn append_to(self, out: &mut Vec<T>) {
        out.push(self.first);
        append3_to(self.next, out);
        assert(out@ =~= old(out)@ + self.flat());
    }

    fn take_from(src: &mut Vec<T>) -> (r: Self) {
        let next = take3_from(src);
        proof {
            lemma_flat3_len(&next);
        }
        let first = src.pop().unwrap();
        let r = OneNode { first, next };
        assert(src@ + r.flat() =~= old(src)@);
        r
    }

    fn shift_left(self, incoming: T) -> (r: (T, Self)) {
        let (first, next) = shift_left3(self.next, incoming);
        let r = (self.first, OneNode { first, next });
        assert(seq![r.0] + r.1.flat() =~= self.flat().push(incoming));
        r
    }

    fn shift_right(self, incoming: T) -> (r: (Self, T)) {
        let (next, out) = shift_right3(self.next, self.first);
        let r = (OneNode { first: incoming, next }, out);
        assert(r.0.flat().push(r.1) =~= seq![incoming] + self.flat());
        r
    }
}

impl<T, N: ToArray<T>> ToArray<T> for TwoNode<T, N> {
    open spec fn count() -> nat {
        3 * N::count() + 2
    }

    open spec fn flat(&self) -> Seq<T> {
        seq![self.first, self.second] + flat3(&self.next)
    }

    open spec fn byte_size(elem_size: nat) -> nat {
        2 * elem_size + 3 * N::byte_size(elem_size)
    }

    open spec fn byte_align(elem_align: nat) -> nat {
        if N::byte_align(elem_align) > elem_align {
            N::byte_align(elem_align)
        } else {
            elem_align
        }
    }

    proof fn lemma_flat_len(&self) {
        lemma_flat3_len(&self.next);
    }

    proof fn lemma_byte_size(elem_size: nat) {
        N::lemma_byte_size(elem_size);
        assert(2 * elem_size + 3 * (N::count() * elem_size) == (3 * N::count() + 2) * elem_size)
            by (nonlinear_arith);
    }

    proof fn lemma_byte_align(elem_align: nat) {
        N::lemma_byte_align(elem_align);
    }

    fn checked_len() -> (n: Option<usize>) {
        checked_node(N::checked_len(), Some(2))
    }

    fn checked_byte_size(elem_size: usize) -> (n: Option<usize>) {
        proof {
            let k = N::count();
            assert(3 * (k * elem_size) + 2 * elem_size == (3 * k + 2) * elem_size)
                by (nonlinear_arith);
            assert(k * elem_size >= 0) by (nonlinear_arith)
                requires
                    k >= 0,
                    elem_size >= 0,
            ;
        }
        checked_node(N::checked_byte_size(elem_size), elem_size.checked_mul(2))
    }

    fn alignment(elem_align: usize) -> (n: usize) {
        proof {
            N::lemma_byte_align(elem_align as nat);
        }
        elem_align
    }

    fn get(&self, i: usize) -> (r: Option<&T>) {
        proof {
            lemma_flat3_len(&self.next);
        }
        if i == 0 {
            Some(&self.first)
        } else if i == 1 {
            Some(&self.second)
        } else {
            get3(&self.next, i - 2)
        }
    }

    fn replace(&mut self, i: usize, value: T) -> (r: Result<T, T>) {
        proof {
            lemma_flat3_len(&self.next);
        }
        let mut value = value;
        if i == 0 {
            std::mem::swap(&mut self.first, &mut value);
            assert(self.flat() =~= old(self).flat().update(0, self.first));
            Ok(value)
        } else if i == 1 {
            std::mem::swap(&mut self.second, &mut value);
            assert(self.flat() =~= old(self).flat().update(1, self.second));
            Ok(value)
        } else {
            let r = replace3(&mut self.next, i - 2, value);
            assert(r is Ok ==> self.flat() =~= old(self).flat().update(i as int, value));
            r
        }
    }

    fn append_to(self, out: &mut Vec<T>) {
        out.push(self.first);
        out.push(self.second);
        append3_to(self.next, out);
        assert(out@ =~= old(out)@ + self.flat());
    }

    fn take_from(src: &mut Vec<T>) -> (r: Self) {
        let next = take3_from(src);
        proof {
            lemma_flat3_len(&next);
        }
        let second = src.pop().unwrap();
        let first = src.pop().unwrap();
        let r = TwoNode { first, second, next };
        assert(src@ + r.flat() =~= old(src)@);
        r
    }

    fn shift_left(self, incoming: T) -> (r: (T, Self)) {
        let (second, next) = shift_left3(self.next, incoming);
        let r = (self.first, TwoNode { first: self.second, second, next });
        assert(seq![r.0] + r.1.flat() =~= self.flat().push(incoming));
        r
    }

    fn shift_right(self, incoming: T) -> (r: (Self, T)) {
        let (next, out) = shift_right3(self.next, self.second);
        let r = (TwoNode { first: incoming, second: self.first, next }, out);
        assert(r.0.flat().push(r.1) =~= seq![incoming] + self.flat());
        r
    }
}

impl<T> Clone for TermNode<T> {
    fn clone(&self) -> (r: Self)
        ensures
            r == *self,
    {
        TermNode(PhantomData)
    }
}

impl<T> Copy for TermNode<T> {

}

impl<T: Clone, N: ToArray<T> + Clone> Clone for ZeroNode<T, N> {
    /// A block in which each of the three blocks is a clone of the one at
    /// its place.
    fn clone(&self) -> (r: Self)
        ensures
            cloned(self.next.0, r.next.0),
            cloned(self.next.1, r.next.1),
            cloned(self.next.2, r.next.2),
    {
        ZeroNode {
            phantom: PhantomData,
            next: (self.next.0.clone(), self.next.1.clone(), self.next.2.clone()),
        }
    }
}

impl<T: Clone, N: ToArray<T> + Clone> Clone for OneNode<T, N> {
    /// A block in which the element and each of the three blocks are clones
    /// of those at their places.
    fn clone(&self) -> (r: Self)
        ensures
            cloned(self.first, r.first),
            cloned(self.next.0, r.next.0),
            cloned(self.next.1, r.next.1),
            cloned(self.next.2, r.next.2),
    {
        OneNode {
            first: self.first.clone(),
            next: (self.next.0.clone(), self.next.1.clone(), self.next.2.clone()),
        }
    }
}

impl<T: Clone, N: ToArray<T> + Clone> Clone for TwoNode<T, N> {
    /// A block in which the two elements and each of the three blocks are
    /// clones of those at their places.
    fn clone(&self) -> (r: Self)
        ensures
            cloned(self.first, r.first),
            cloned(self.second, r.second),
            cloned(self.next.0, r.next.0),
            cloned(self.next.1, r.next.1),
            cloned(self.next.2, r.next.2),
    {
        TwoNode {
            first: self.first.clone(),
            second: self.second.clone(),
            next: (self.next.0.clone(), self.next.1.clone(), self.next.2.clone()),
        }
    }
}

impl<T: Copy, N: ToArray<T> + Copy> Copy for ZeroNode<T, N> {

}

impl<T: Copy, N: ToArray<T> + Copy> Copy for OneNode<T, N> {

}

impl<T: Copy, N: ToArray<T> + Copy> Copy for TwoNode<T, N> {

}

} // verus!
