use shared_take_once::non_sync::SharedTakeOnce;
use shared_take_once::sync::SharedTakeOnce as SyncSharedTakeOnce;
use std::rc::Rc;
use std::sync::Arc;

/// Plays one history on real handles. The digits of `code` in base three
/// choose the events; `pick` chooses which live handle performs each one.
fn play(mut code: usize, len: usize, pick: usize) {
    let counter = Rc::new(());
    let mut handles = vec![SharedTakeOnce::new(counter.clone())];
    let mut held: Option<Rc<()>> = None;
    let mut takes = 0;
    for step in 0..len {
        if handles.is_empty() {
            break;
        }
        let actor = (pick + step) % handles.len();
        match code % 3 {
            0 => {
                let alias = handles[actor].clone();
                handles.push(alias);
            }
            1 => {
                let got = handles.swap_remove(actor).take();
                assert_eq!(got.is_some(), takes == 0);
                if got.is_some() {
                    held = got;
                }
                takes += 1;
            }
            _ => handles.swap_remove(actor).release(),
        }
        code /= 3;
        let alive = if takes > 0 || !handles.is_empty() { 1 } else { 0 };
        assert_eq!(Rc::strong_count(&counter), 1 + alive);
    }
    for handle in handles {
        handle.release();
    }
    assert_eq!(Rc::strong_count(&counter), if held.is_some() { 2 } else { 1 });
    drop(held);
    assert_eq!(Rc::strong_count(&counter), 1);
}

fn play_sync(mut code: usize, len: usize, pick: usize) {
    let counter = Arc::new(());
    let mut handles = vec![SyncSharedTakeOnce::new(counter.clone())];
    let mut held: Option<Arc<()>> = None;
    let mut takes = 0;
    for step in 0..len {
        if handles.is_empty() {
            break;
        }
        let actor = (pick + step) % handles.len();
        match code % 3 {
            0 => {
                let alias = handles[actor].clone();
                handles.push(alias);
            }
            1 => {
                let got = handles.swap_remove(actor).take();
                assert_eq!(got.is_some(), takes == 0);
                if got.is_some() {
                    held = got;
                }
                takes += 1;
            }
            _ => handles.swap_remove(actor).release(),
        }
        code /= 3;
        let alive = if takes > 0 || !handles.is_empty() { 1 } else { 0 };
        assert_eq!(Arc::strong_count(&counter), 1 + alive);
    }
    for handle in handles {
        handle.release();
    }
    assert_eq!(Arc::strong_count(&counter), if held.is_some() { 2 } else { 1 });
    drop(held);
    assert_eq!(Arc::strong_count(&counter), 1);
}

#[test]
fn every_short_history_hands_the_value_out_once() {
    let len = 7;
    let mut code = 0;
    while code < 2187 {
        for pick in 0..3 {
            play(code, len, pick);
        }
        code += 1;
    }
}

#[test]
fn sync_every_short_history_hands_the_value_out_once() {
    let len = 7;
    let mut code = 0;
    while code < 2187 {
        for pick in 0..3 {
            play_sync(code, len, pick);
        }
        code += 1;
    }
}

#[test]
fn n_handles_taking_in_turn_have_one_winner() {
    for n in 1..20usize {
        for winner in 0..n {
            let first = SharedTakeOnce::new(n);
            let mut handles = vec![first];
            while handles.len() < n {
                let alias = handles[handles.len() - 1].clone();
                handles.push(alias);
            }
            handles.swap(0, winner);
            let mut results = Vec::new();
            for handle in handles {
                results.push(handle.take());
            }
            assert_eq!(results[0], Some(n));
            assert_eq!(results.iter().filter(|r| r.is_some()).count(), 1);
            assert_eq!(results.iter().filter(|r| r.is_none()).count(), n - 1);
        }
    }
}
