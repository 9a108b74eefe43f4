use shared_take_once::non_sync::SharedTakeOnce;
use std::rc::Rc;

#[test]
fn drop_two() {
    let counter = Rc::new(());

    let handle1 = SharedTakeOnce::new(counter.clone());
    assert_eq!(Rc::strong_count(&counter), 2);

    let handle2 = handle1.clone();
    assert_eq!(Rc::strong_count(&counter), 2);

    handle1.release();
    assert_eq!(Rc::strong_count(&counter), 2);

    handle2.release();
    assert_eq!(Rc::strong_count(&counter), 1);
}

#[test]
fn take_one_drop_one() {
    let counter = Rc::new(());

    let handle1 = SharedTakeOnce::new(counter.clone());
    assert_eq!(Rc::strong_count(&counter), 2);

    let handle2 = handle1.clone();
    assert_eq!(Rc::strong_count(&counter), 2);

    drop(handle1.take());
    assert_eq!(Rc::strong_count(&counter), 1);

    handle2.release();
    assert_eq!(Rc::strong_count(&counter), 1);
}

#[test]
fn take_through_alias_empties_first_handle() {
    let handle = SharedTakeOnce::new(vec![1, 2, 3]);
    let alias = handle.clone();

    let mut v = alias.take().unwrap();
    assert_eq!(v, vec![1, 2, 3]);
    v.push(4);
    assert_eq!(v, vec![1, 2, 3, 4]);

    assert!(handle.take().is_none());
}

#[test]
fn single_handle_takes_its_value() {
    let handle = SharedTakeOnce::new(String::from("only"));
    assert_eq!(handle.take(), Some(String::from("only")));
}

#[test]
fn exactly_one_of_many_takes_wins() {
    let first = SharedTakeOnce::new(41u64);
    let mut handles = vec![first.clone(), first.clone(), first.clone(), first.clone()];
    handles.push(first);
    let mut hits = 0;
    let mut misses = 0;
    for handle in handles {
        match handle.take() {
            Some(value) => {
                assert_eq!(value, 41);
                hits += 1;
            }
            None => misses += 1,
        }
    }
    assert_eq!(hits, 1);
    assert_eq!(misses, 4);
}

#[test]
fn first_take_wins_whichever_handle_makes_it() {
    let a = SharedTakeOnce::new(1u8);
    let b = a.clone();
    let c = b.clone();
    assert_eq!(b.take(), Some(1));
    assert_eq!(c.take(), None);
    assert_eq!(a.take(), None);

    let a = SharedTakeOnce::new(2u8);
    let b = a.clone();
    let c = a.clone();
    assert_eq!(c.take(), Some(2));
    assert_eq!(a.take(), None);
    assert_eq!(b.take(), None);
}

#[test]
fn clone_of_occupied_handle_can_still_take() {
    let handle = SharedTakeOnce::new(5i32);
    let alias = handle.clone();
    alias.release();
    assert_eq!(handle.take(), Some(5));

    let handle = SharedTakeOnce::new(6i32);
    let alias = handle.clone();
    handle.release();
    assert_eq!(alias.take(), Some(6));
}

#[test]
fn clone_of_empty_handle_is_empty() {
    let handle = SharedTakeOnce::new(5i32);
    let alias = handle.clone();
    assert_eq!(alias.take(), Some(5));
    let late = handle.clone();
    let later = late.clone();
    assert_eq!(late.take(), None);
    assert_eq!(later.take(), None);
    assert_eq!(handle.take(), None);
}

#[test]
fn clone_does_not_touch_the_value() {
    let counter = Rc::new(());
    let handle = SharedTakeOnce::new(counter.clone());
    let aliases = vec![handle.clone(), handle.clone(), handle.clone()];
    assert_eq!(Rc::strong_count(&counter), 2);
    for alias in aliases {
        alias.release();
        assert_eq!(Rc::strong_count(&counter), 2);
    }
    handle.release();
    assert_eq!(Rc::strong_count(&counter), 1);
}

#[test]
fn value_is_destroyed_once_in_any_release_order() {
    let counter = Rc::new(());
    let a = SharedTakeOnce::new(counter.clone());
    let b = a.clone();
    let c = a.clone();
    b.release();
    assert_eq!(Rc::strong_count(&counter), 2);
    c.release();
    assert_eq!(Rc::strong_count(&counter), 2);
    a.release();
    assert_eq!(Rc::strong_count(&counter), 1);

    let a = SharedTakeOnce::new(counter.clone());
    let b = a.clone();
    let c = b.clone();
    a.release();
    assert_eq!(Rc::strong_count(&counter), 2);
    b.release();
    assert_eq!(Rc::strong_count(&counter), 2);
    c.release();
    assert_eq!(Rc::strong_count(&counter), 1);
}

#[test]
fn taken_value_is_not_destroyed_by_the_block() {
    let counter = Rc::new(());
    let a = SharedTakeOnce::new(counter.clone());
    let b = a.clone();
    let c = a.clone();
    a.release();
    let taken = b.take();
    assert!(taken.is_some());
    assert_eq!(Rc::strong_count(&counter), 2);
    c.release();
    assert_eq!(Rc::strong_count(&counter), 2);
    drop(taken);
    assert_eq!(Rc::strong_count(&counter), 1);
}

#[test]
fn last_handle_taking_leaves_nothing_behind() {
    let counter = Rc::new(());
    let a = SharedTakeOnce::new(counter.clone());
    let b = a.clone();
    a.release();
    drop(b.take());
    assert_eq!(Rc::strong_count(&counter), 1);
}

#[test]
fn handle_dropped_without_release_keeps_its_share() {
    let counter = Rc::new(());
    let a = SharedTakeOnce::new(counter.clone());
    let b = a.clone();
    drop(a);
    b.release();
    assert_eq!(Rc::strong_count(&counter), 2);
}
