use rouge_software::reactive::callback::Callback;
use rouge_software::reactive::{once, AndThen, Called};
use std::cell::RefCell;
use std::rc::Rc;

#[test]
fn an_empty_callback_does_nothing() {
    let seen = Rc::new(RefCell::new(Vec::<i8>::new()));
    let sink = seen.clone();
    let mut callback = Callback::new(move |v: i8| sink.borrow_mut().push(v));
    assert!(!callback.is_empty());
    callback = Callback::empty();
    assert!(callback.is_empty());
    callback.send(3);
    assert!(seen.borrow().is_empty());
}

#[test]
fn the_default_callback_is_empty() {
    fn ignore(_: i8) {}
    let callback: Callback<i8, fn(i8)> = Callback::default();
    assert!(callback.is_empty());
    callback.send(1);
    let held: Callback<i8, fn(i8)> = Callback::new(ignore);
    assert!(!held.is_empty());
}

#[test]
fn send_calls_the_function_with_the_value() {
    let seen = Rc::new(RefCell::new(Vec::<i8>::new()));
    let sink = seen.clone();
    let callback = Callback::new(move |v: i8| sink.borrow_mut().push(v));
    callback.send(1);
    callback.send(-1);
    assert_eq!(*seen.borrow(), vec![1, -1]);
}

#[test]
fn a_clone_shares_the_function() {
    let seen = Rc::new(RefCell::new(0));
    let sink = seen.clone();
    let callback = Callback::new(move |v: i32| *sink.borrow_mut() += v);
    let copy = callback.clone();
    assert!(!copy.is_empty());
    callback.send(2);
    copy.send(3);
    assert_eq!(*seen.borrow(), 5);
}

#[test]
fn once_runs_the_function_once() {
    let seen = Rc::new(RefCell::new(0));
    let sink = seen.clone();
    let mut activate = once(AndThen::DoNothing, move |v: i32| *sink.borrow_mut() += v);
    assert_eq!(activate.call(4), Called::Ran);
    assert_eq!(activate.call(4), Called::Ignored);
    assert_eq!(activate.call(4), Called::Ignored);
    assert_eq!(*seen.borrow(), 4);
}

#[test]
fn once_reports_a_second_call_where_that_is_a_fault() {
    let mut guarded = once(AndThen::Panic, |_: ()| {});
    assert_eq!(guarded.call(()), Called::Ran);
    assert_eq!(guarded.call(()), Called::Twice);
}
