use bingo::caller::{ArrayCaller, Caller as _, SimpleCaller};
use bingo::Caller;

#[test]
fn caller_calls_in_order() {
    let mut caller = Caller::new([4, 8, 15], 0);
    assert!(caller.history().is_empty());
    assert_eq!(caller.call(), Some(4));
    assert_eq!(caller.history(), &[4]);
    assert_eq!(caller.call(), Some(8));
    assert_eq!(caller.call(), Some(15));
    assert_eq!(caller.next(), 3);
    assert_eq!(caller.history(), &[4, 8, 15]);
    assert_eq!(caller.numbers(), &[4, 8, 15]);
}

#[test]
fn caller_exhausted_stays_exhausted() {
    let mut caller = Caller::new([1, 2], 1);
    assert_eq!(caller.history(), &[1]);
    assert_eq!(caller.call(), Some(2));
    for _ in 0..3 {
        assert_eq!(caller.call(), None);
        assert_eq!(caller.next(), 2);
    }
}

#[test]
fn caller_of_nothing() {
    let mut caller: Caller<0> = Caller::new([], 0);
    assert_eq!(caller.call(), None);
    assert_eq!(caller.history().len(), 0);
}

#[test]
fn history_length_is_next() {
    let mut caller = Caller::new([9, 7, 5, 3], 0);
    loop {
        assert_eq!(caller.history().len(), caller.next());
        assert_eq!(caller.history(), &caller.numbers()[..caller.next()]);
        if caller.call().is_none() {
            break;
        }
    }
}

#[test]
fn simple_caller_calls_in_order() {
    let mut caller = SimpleCaller::new(vec![3, 1, 2]);
    assert!(caller.history().is_empty());
    assert_eq!(caller.call(), Some(3));
    assert_eq!(caller.call(), Some(1));
    assert_eq!(caller.history(), &[3, 1]);
    assert_eq!(caller.call(), Some(2));
    assert_eq!(caller.call(), None);
    assert_eq!(caller.call(), None);
    assert_eq!(caller.history(), &[3, 1, 2]);
}

#[test]
fn array_caller_calls_in_order() {
    let mut caller = ArrayCaller::new([10, 20]);
    assert_eq!(caller.call(), Some(10));
    assert_eq!(caller.history(), &[10]);
    assert_eq!(caller.call(), Some(20));
    assert_eq!(caller.call(), None);
    assert_eq!(caller.history(), &[10, 20]);
}
