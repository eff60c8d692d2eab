use game_of_life::coordinator::WorkFlag;
use game_of_life::grid::BMatrixVector;
use game_of_life::sync_utils::{MyArcMut, MyArcRwLock};

#[test]
fn my_arc_mut_set_and_get_share_state_across_clones() {
    let mut handle = MyArcMut::new(5u32);
    let other = handle.clone();
    assert_eq!(handle.get(), 5);
    handle.set(7);
    assert_eq!(other.get(), 7);
}

#[test]
fn my_arc_mut_grab_lock_round_trip() {
    let handle = MyArcMut::new(10i64);
    let (value, guard) = handle.grab_lock();
    assert_eq!(value, 10);
    guard.release(value + 1);
    assert_eq!(handle.get(), 11);
}

#[test]
fn my_arc_mut_holds_the_work_flag() {
    let mut status = MyArcMut::new(WorkFlag::Done);
    let observer = status.clone();
    assert!(matches!(observer.get(), WorkFlag::Done));
    status.set(WorkFlag::InProgress);
    assert!(matches!(observer.get(), WorkFlag::InProgress));
}

#[test]
fn my_arc_rwlock_reader_sees_writer_updates() {
    let shared = MyArcRwLock::new(1u8);
    {
        let reader = shared.grab_reader_lock();
        assert_eq!(*reader.borrow(), 1);
        reader.release();
    }
    let (old, guard) = shared.grab_writer_lock();
    assert_eq!(old, 1);
    guard.release(2);
    let reader = shared.grab_reader_lock();
    assert_eq!(*reader.borrow(), 2);
    reader.release();
}

/// The O(1) double-buffer swap the coordinator loop performs: take both
/// buffers out under their locks and store each into the other slot.
#[test]
fn guards_support_the_buffer_swap() {
    let mut public = BMatrixVector::new(4);
    *public.at_mut(1, 1).unwrap() = true;
    let hidden = BMatrixVector::new(4);

    let vec = MyArcRwLock::new(public);
    let new_vec = MyArcMut::new(hidden);

    let (current, current_guard) = vec.grab_writer_lock();
    let (dest, dest_guard) = new_vec.grab_lock();
    current_guard.release(dest);
    dest_guard.release(current);

    let reader = vec.grab_reader_lock();
    assert_eq!(reader.borrow().at(1, 1).unwrap(), false);
    reader.release();
    let swapped_out = new_vec.grab_lock();
    assert_eq!(swapped_out.0.at(1, 1).unwrap(), true);
    swapped_out.1.release(swapped_out.0);
}
