use tll_array::array::{Array, ArraySplit, ArrayUnroll};
use tll_array::length::NatPred;
use tll_array::storage::{OneNode, TermNode, ToArray, TwoNode, ZeroNode};

type U0<T> = TermNode<T>;
type U1<T> = OneNode<T, TermNode<T>>;
type U2<T> = TwoNode<T, TermNode<T>>;
type U3<T> = ZeroNode<T, OneNode<T, TermNode<T>>>;
type U4<T> = OneNode<T, OneNode<T, TermNode<T>>>;
type U5<T> = TwoNode<T, OneNode<T, TermNode<T>>>;
type U6<T> = ZeroNode<T, TwoNode<T, TermNode<T>>>;
type U7<T> = OneNode<T, TwoNode<T, TermNode<T>>>;
type U8<T> = TwoNode<T, TwoNode<T, TermNode<T>>>;
type U9<T> = ZeroNode<T, ZeroNode<T, OneNode<T, TermNode<T>>>>;
type U10<T> = OneNode<T, ZeroNode<T, OneNode<T, TermNode<T>>>>;
type U11<T> = TwoNode<T, ZeroNode<T, OneNode<T, TermNode<T>>>>;
type U12<T> = ZeroNode<T, OneNode<T, OneNode<T, TermNode<T>>>>;
type U13<T> = OneNode<T, OneNode<T, OneNode<T, TermNode<T>>>>;
type U14<T> = TwoNode<T, OneNode<T, OneNode<T, TermNode<T>>>>;
type U15<T> = ZeroNode<T, TwoNode<T, OneNode<T, TermNode<T>>>>;
type U16<T> = OneNode<T, TwoNode<T, OneNode<T, TermNode<T>>>>;
type U17<T> = TwoNode<T, TwoNode<T, OneNode<T, TermNode<T>>>>;
type U18<T> = ZeroNode<T, ZeroNode<T, TwoNode<T, TermNode<T>>>>;
type U19<T> = OneNode<T, ZeroNode<T, TwoNode<T, TermNode<T>>>>;
type U20<T> = TwoNode<T, ZeroNode<T, TwoNode<T, TermNode<T>>>>;
type U21<T> = ZeroNode<T, OneNode<T, TwoNode<T, TermNode<T>>>>;
type U22<T> = OneNode<T, OneNode<T, TwoNode<T, TermNode<T>>>>;
type U23<T> = TwoNode<T, OneNode<T, TwoNode<T, TermNode<T>>>>;
type U24<T> = ZeroNode<T, TwoNode<T, TwoNode<T, TermNode<T>>>>;
type U25<T> = OneNode<T, TwoNode<T, TwoNode<T, TermNode<T>>>>;
type U26<T> = TwoNode<T, TwoNode<T, TwoNode<T, TermNode<T>>>>;
type U27<T> = ZeroNode<T, ZeroNode<T, ZeroNode<T, OneNode<T, TermNode<T>>>>>;
type U28<T> = OneNode<T, ZeroNode<T, ZeroNode<T, OneNode<T, TermNode<T>>>>>;
type U29<T> = TwoNode<T, ZeroNode<T, ZeroNode<T, OneNode<T, TermNode<T>>>>>;
type U30<T> = ZeroNode<T, OneNode<T, ZeroNode<T, OneNode<T, TermNode<T>>>>>;

fn numbers(n: usize) -> Vec<u32> {
    (0..n).map(|i| 1000 + 7 * i as u32).collect()
}

fn array_of<L: ToArray<u32>>(values: Vec<u32>) -> Array<L, u32> {
    match Array::from_vec(values) {
        Ok(array) => array,
        Err(_) => panic!("as many values as the shape holds"),
    }
}

fn check_access<L: ToArray<u32>>(n: usize) {
    let values = numbers(n);
    let mut array: Array<L, u32> = array_of(values.clone());
    assert_eq!(array.len(), n);
    for i in 0..n {
        assert_eq!(*array.get(i), values[i]);
    }
    for i in 0..n {
        let before = array.replace(i, 5 + i as u32);
        assert_eq!(before, values[i]);
        for j in 0..n {
            let expected = if j <= i { 5 + j as u32 } else { values[j] };
            assert_eq!(*array.get(j), expected);
        }
    }
    assert_eq!(array.into_vec(), (0..n).map(|i| 5 + i as u32).collect::<Vec<u32>>());
}

fn check_split_first<L>(n: usize)
where
    L: NatPred<u32>,
    Array<L, u32>: ArraySplit<L, u32>,
{
    let values = numbers(n);
    let array: Array<L, u32> = array_of(values.clone());
    let (head, tail) = array.split_first();
    assert_eq!(head, values[0]);
    assert_eq!(tail.len(), n - 1);
    assert_eq!(tail.into_vec(), values[1..].to_vec());
}

fn check_split_last<L>(n: usize)
where
    L: NatPred<u32>,
    Array<L, u32>: ArraySplit<L, u32>,
{
    let values = numbers(n);
    let array: Array<L, u32> = array_of(values.clone());
    let (last, init) = array.split_last();
    assert_eq!(last, values[n - 1]);
    assert_eq!(init.len(), n - 1);
    assert_eq!(init.into_vec(), values[..n - 1].to_vec());
}

fn check_split_all<L>(n: usize)
where
    L: ToArray<u32>,
    Array<L, u32>: ArrayUnroll<L, u32>,
{
    let values = numbers(n);
    let array: Array<L, u32> = array_of(values.clone());
    assert_eq!(array.split_all(), values);
}

#[test]
fn access_every_position_of_every_length() {
    check_access::<U0<u32>>(0);
    check_access::<U1<u32>>(1);
    check_access::<U2<u32>>(2);
    check_access::<U3<u32>>(3);
    check_access::<U4<u32>>(4);
    check_access::<U5<u32>>(5);
    check_access::<U6<u32>>(6);
    check_access::<U7<u32>>(7);
    check_access::<U8<u32>>(8);
    check_access::<U9<u32>>(9);
    check_access::<U10<u32>>(10);
    check_access::<U11<u32>>(11);
    check_access::<U12<u32>>(12);
    check_access::<U13<u32>>(13);
    check_access::<U14<u32>>(14);
    check_access::<U15<u32>>(15);
    check_access::<U16<u32>>(16);
    check_access::<U17<u32>>(17);
    check_access::<U18<u32>>(18);
    check_access::<U19<u32>>(19);
    check_access::<U20<u32>>(20);
    check_access::<U21<u32>>(21);
    check_access::<U22<u32>>(22);
    check_access::<U23<u32>>(23);
    check_access::<U24<u32>>(24);
    check_access::<U25<u32>>(25);
    check_access::<U26<u32>>(26);
    check_access::<U27<u32>>(27);
    check_access::<U28<u32>>(28);
    check_access::<U29<u32>>(29);
    check_access::<U30<u32>>(30);
}

#[test]
fn split_first_returns_head_and_tail_for_every_length() {
    check_split_first::<U1<u32>>(1);
    check_split_first::<U2<u32>>(2);
    check_split_first::<U3<u32>>(3);
    check_split_first::<U4<u32>>(4);
    check_split_first::<U5<u32>>(5);
    check_split_first::<U6<u32>>(6);
    check_split_first::<U7<u32>>(7);
    check_split_first::<U8<u32>>(8);
    check_split_first::<U9<u32>>(9);
    check_split_first::<U10<u32>>(10);
    check_split_first::<U11<u32>>(11);
    check_split_first::<U12<u32>>(12);
    check_split_first::<U13<u32>>(13);
    check_split_first::<U14<u32>>(14);
    check_split_first::<U15<u32>>(15);
    check_split_first::<U16<u32>>(16);
    check_split_first::<U17<u32>>(17);
    check_split_first::<U18<u32>>(18);
    check_split_first::<U19<u32>>(19);
    check_split_first::<U20<u32>>(20);
    check_split_first::<U21<u32>>(21);
    check_split_first::<U22<u32>>(22);
    check_split_first::<U23<u32>>(23);
    check_split_first::<U24<u32>>(24);
    check_split_first::<U25<u32>>(25);
    check_split_first::<U26<u32>>(26);
    check_split_first::<U27<u32>>(27);
    check_split_first::<U28<u32>>(28);
    check_split_first::<U29<u32>>(29);
    check_split_first::<U30<u32>>(30);
}

#[test]
fn split_last_returns_last_and_init_for_every_length() {
    check_split_last::<U1<u32>>(1);
    check_split_last::<U2<u32>>(2);
    check_split_last::<U3<u32>>(3);
    check_split_last::<U4<u32>>(4);
    check_split_last::<U5<u32>>(5);
    check_split_last::<U6<u32>>(6);
    check_split_last::<U7<u32>>(7);
    check_split_last::<U8<u32>>(8);
    check_split_last::<U9<u32>>(9);
    check_split_last::<U10<u32>>(10);
    check_split_last::<U11<u32>>(11);
    check_split_last::<U12<u32>>(12);
    check_split_last::<U13<u32>>(13);
    check_split_last::<U14<u32>>(14);
    check_split_last::<U15<u32>>(15);
    check_split_last::<U16<u32>>(16);
    check_split_last::<U17<u32>>(17);
    check_split_last::<U18<u32>>(18);
    check_split_last::<U19<u32>>(19);
    check_split_last::<U20<u32>>(20);
    check_split_last::<U21<u32>>(21);
    check_split_last::<U22<u32>>(22);
    check_split_last::<U23<u32>>(23);
    check_split_last::<U24<u32>>(24);
    check_split_last::<U25<u32>>(25);
    check_split_last::<U26<u32>>(26);
    check_split_last::<U27<u32>>(27);
    check_split_last::<U28<u32>>(28);
    check_split_last::<U29<u32>>(29);
    check_split_last::<U30<u32>>(30);
}

#[test]
fn split_all_reproduces_the_values_for_every_length() {
    check_split_all::<U0<u32>>(0);
    check_split_all::<U1<u32>>(1);
    check_split_all::<U2<u32>>(2);
    check_split_all::<U3<u32>>(3);
    check_split_all::<U4<u32>>(4);
    check_split_all::<U5<u32>>(5);
    check_split_all::<U6<u32>>(6);
    check_split_all::<U7<u32>>(7);
    check_split_all::<U8<u32>>(8);
    check_split_all::<U9<u32>>(9);
    check_split_all::<U10<u32>>(10);
    check_split_all::<U11<u32>>(11);
    check_split_all::<U12<u32>>(12);
    check_split_all::<U13<u32>>(13);
    check_split_all::<U14<u32>>(14);
    check_split_all::<U15<u32>>(15);
    check_split_all::<U16<u32>>(16);
    check_split_all::<U17<u32>>(17);
    check_split_all::<U18<u32>>(18);
    check_split_all::<U19<u32>>(19);
    check_split_all::<U20<u32>>(20);
    check_split_all::<U21<u32>>(21);
    check_split_all::<U22<u32>>(22);
    check_split_all::<U23<u32>>(23);
    check_split_all::<U24<u32>>(24);
    check_split_all::<U25<u32>>(25);
    check_split_all::<U26<u32>>(26);
    check_split_all::<U27<u32>>(27);
    check_split_all::<U28<u32>>(28);
    check_split_all::<U29<u32>>(29);
    check_split_all::<U30<u32>>(30);
}

#[test]
fn split_first_of_eight() {
    let array: Array<U8<i32>, i32> =
        match Array::from_vec(vec![42, 84, 126, 168, 210, 252, 294, 336]) {
            Ok(array) => array,
            Err(_) => panic!("eight values"),
        };
    let (head, tail): (i32, Array<U7<i32>, i32>) = array.split_first();
    assert_eq!(head, 42);
    assert_eq!(tail.len(), 7);
    assert_eq!(tail.into_vec(), vec![84, 126, 168, 210, 252, 294, 336]);
}

#[test]
fn split_last_of_eight() {
    let array: Array<U8<i32>, i32> =
        match Array::from_vec(vec![42, 84, 126, 168, 210, 252, 294, 336]) {
            Ok(array) => array,
            Err(_) => panic!("eight values"),
        };
    let (last, init): (i32, Array<U7<i32>, i32>) = array.split_last();
    assert_eq!(last, 336);
    assert_eq!(init.len(), 7);
    assert_eq!(init.into_vec(), vec![42, 84, 126, 168, 210, 252, 294]);
}

#[test]
fn split_first_ten_times_by_hand() {
    let array: Array<U10<u32>, u32> = array_of(numbers(10));
    let mut seen = Vec::new();
    let (x, array) = array.split_first();
    seen.push(x);
    let (x, array) = array.split_first();
    seen.push(x);
    let (x, array) = array.split_first();
    seen.push(x);
    let (x, array) = array.split_first();
    seen.push(x);
    let (x, array) = array.split_first();
    seen.push(x);
    let (x, array) = array.split_first();
    seen.push(x);
    let (x, array) = array.split_first();
    seen.push(x);
    let (x, array) = array.split_first();
    seen.push(x);
    let (x, array) = array.split_first();
    seen.push(x);
    let (x, array) = array.split_first();
    seen.push(x);
    let array: Array<TermNode<u32>, u32> = array;
    assert_eq!(array.len(), 0);
    assert_eq!(seen, numbers(10));
}

#[test]
fn push_builds_the_next_length() {
    let array = Array::new().push(42i32);
    let array: Array<U1<i32>, i32> = array;
    let array: Array<U2<i32>, i32> = array.push(84);
    let array: Array<U3<i32>, i32> = array.push(126);
    let array: Array<U4<i32>, i32> = array.push(168);
    let array: Array<U5<i32>, i32> = array.push(210);
    let array: Array<U6<i32>, i32> = array.push(252);
    let array: Array<U7<i32>, i32> = array.push(294);
    let array: Array<U8<i32>, i32> = array.push(336);
    assert_eq!(array.len(), 8);
    assert_eq!(*array.get(5), 252);
    let array: Array<U9<i32>, i32> = array.push(378);
    let array: Array<U10<i32>, i32> = array.push(420);
    assert_eq!(array.len(), 10);
    assert_eq!(array.into_vec(), vec![42, 84, 126, 168, 210, 252, 294, 336, 378, 420]);
}

#[test]
fn push_through_two_carries() {
    let array: Array<U26<u32>, u32> = array_of(numbers(26));
    let array: Array<U27<u32>, u32> = array.push(9);
    let mut expected = numbers(26);
    expected.push(9);
    assert_eq!(array.len(), 27);
    assert_eq!(array.into_vec(), expected);
}

#[test]
fn from_vec_hands_back_too_few_values() {
    let r: Result<Array<U3<i32>, i32>, Vec<i32>> = Array::from_vec(vec![1, 2]);
    match r {
        Ok(_) => panic!("two values are not three"),
        Err(values) => assert_eq!(values, vec![1, 2]),
    }
}

#[test]
fn from_vec_hands_back_too_many_values() {
    let r: Result<Array<U3<i32>, i32>, Vec<i32>> = Array::from_vec(vec![1, 2, 3, 4]);
    match r {
        Ok(_) => panic!("four values are not three"),
        Err(values) => assert_eq!(values, vec![1, 2, 3, 4]),
    }
}

#[test]
fn from_vec_of_nothing() {
    let r: Result<Array<U0<i32>, i32>, Vec<i32>> = Array::from_vec(Vec::new());
    match r {
        Ok(array) => assert_eq!(array.len(), 0),
        Err(_) => panic!("no value is what the empty shape holds"),
    }
}

#[test]
fn clone_keeps_the_elements() {
    let array: Array<U10<u32>, u32> = array_of(numbers(10));
    let copy = array.clone();
    let mut array = array;
    array.replace(3, 0);
    assert_eq!(copy.into_vec(), numbers(10));
    assert_eq!(*array.get(3), 0);
}

#[test]
fn array_takes_the_bytes_of_its_elements() {
    assert_eq!(std::mem::size_of::<Array<U0<u64>, u64>>(), 0);
    assert_eq!(std::mem::size_of::<Array<U1<u64>, u64>>(), 8);
    assert_eq!(std::mem::size_of::<Array<U8<u64>, u64>>(), 64);
    assert_eq!(std::mem::size_of::<Array<U10<u16>, u16>>(), 20);
    assert_eq!(std::mem::size_of::<Array<U27<u8>, u8>>(), 27);
    assert_eq!(std::mem::size_of::<Array<U30<(u32, u8)>, (u32, u8)>>(), 240);
}
