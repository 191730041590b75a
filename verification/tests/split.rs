use tll_array::array::Array;
use tll_array::storage::{OneNode, TermNode, TwoNode, ZeroNode};

type U1<T> = OneNode<T, TermNode<T>>;
type U2<T> = TwoNode<T, TermNode<T>>;
type U3<T> = ZeroNode<T, OneNode<T, TermNode<T>>>;
type U7<T> = OneNode<T, TwoNode<T, TermNode<T>>>;
type U8<T> = TwoNode<T, TwoNode<T, TermNode<T>>>;
type U9<T> = ZeroNode<T, ZeroNode<T, OneNode<T, TermNode<T>>>>;
type U10<T> = OneNode<T, ZeroNode<T, OneNode<T, TermNode<T>>>>;

fn array_of<L: tll_array::storage::ToArray<i32>>(values: Vec<i32>) -> Array<L, i32> {
    match Array::from_vec(values) {
        Ok(array) => array,
        Err(_) => panic!("as many values as the shape holds"),
    }
}

#[test]
fn split_first_1() {
    let array: Array<U1<i32>, i32> = array_of(vec![42i32]);
    assert_eq!(array.len(), 1);
    let (head, array) = array.split_first();
    assert_eq!(array.len(), 0);
    assert_eq!(head, 42);
}

#[test]
fn split_first_2() {
    let array: Array<U2<i32>, i32> = array_of(vec![42i32, 84]);
    assert_eq!(array.len(), 2);
    let (head, array) = array.split_first();
    assert_eq!(array.len(), 1);
    assert_eq!(head, 42);
}

#[test]
fn split_first_3() {
    let array: Array<U3<i32>, i32> = array_of(vec![42i32, 84, 126]);
    assert_eq!(array.len(), 3);
    let (head, array) = array.split_first();
    assert_eq!(array.len(), 2);
    assert_eq!(head, 42);
}

#[test]
fn split_first_8() {
    let array: Array<U8<i32>, i32> = array_of(vec![42i32, 84, 126, 168, 210, 252, 294, 336]);
    assert_eq!(array.len(), 8);
    let (head, array) = array.split_first();
    assert_eq!(array.len(), 7);
    assert_eq!(head, 42);
}

#[test]
fn split_first_9() {
    let array: Array<U9<i32>, i32> = array_of(vec![42i32, 84, 126, 168, 210, 252, 294, 336, 378]);
    assert_eq!(array.len(), 9);
    let (head, array) = array.split_first();
    assert_eq!(array.len(), 8);
    assert_eq!(head, 42);
}

#[test]
fn split_first_10() {
    let array: Array<U10<i32>, i32> = array_of(vec![42i32, 84, 126, 168, 210, 252, 294, 336, 378, 420]);
    assert_eq!(array.len(), 10);
    let (head, array) = array.split_first();
    assert_eq!(array.len(), 9);
    assert_eq!(head, 42);
}

#[test]
fn split_last_1() {
    let array: Array<U1<i32>, i32> = array_of(vec![42i32]);
    assert_eq!(array.len(), 1);
    let (tail, array) = array.split_last();
    assert_eq!(array.len(), 0);
    assert_eq!(tail, 42);
}

#[test]
fn split_last_2() {
    let array: Array<U2<i32>, i32> = array_of(vec![42i32, 84]);
    assert_eq!(array.len(), 2);
    let (tail, array) = array.split_last();
    assert_eq!(array.len(), 1);
    assert_eq!(tail, 84);
}

#[test]
fn split_last_3() {
    let array: Array<U3<i32>, i32> = array_of(vec![42i32, 84, 126]);
    assert_eq!(array.len(), 3);
    let (tail, array) = array.split_last();
    assert_eq!(array.len(), 2);
    assert_eq!(tail, 126);
}

#[test]
fn split_last_8() {
    let array: Array<U8<i32>, i32> = array_of(vec![42i32, 84, 126, 168, 210, 252, 294, 336]);
    assert_eq!(array.len(), 8);
    let (tail, array) = array.split_last();
    assert_eq!(array.len(), 7);
    assert_eq!(tail, 336);
}

#[test]
fn split_last_9() {
    let array: Array<U9<i32>, i32> = array_of(vec![42i32, 84, 126, 168, 210, 252, 294, 336, 378]);
    assert_eq!(array.len(), 9);
    let (tail, array) = array.split_last();
    assert_eq!(array.len(), 8);
    assert_eq!(tail, 378);
}

#[test]
fn split_last_10() {
    let array: Array<U10<i32>, i32> = array_of(vec![42i32, 84, 126, 168, 210, 252, 294, 336, 378, 420]);
    assert_eq!(array.len(), 10);
    let (tail, array) = array.split_last();
    assert_eq!(array.len(), 9);
    assert_eq!(tail, 420);
}
