use dioxus_shareables::shared::{Link, Shareable, Shared};
use dioxus_shareables::{Access, RW, W};
use std::sync::atomic::{AtomicUsize, Ordering};
use std::sync::Arc;

type Callback = Box<dyn Fn()>;

fn counter() -> (Arc<AtomicUsize>, Callback) {
    let hits = Arc::new(AtomicUsize::new(0));
    let h = hits.clone();
    (hits, Box::new(move || {
        h.fetch_add(1, Ordering::SeqCst);
    }))
}

#[test]
fn end_to_end_write_notifies_subscriber_then_stops_after_release() {
    let mut cell: Link<i32, Callback> = Link::new(900);
    let (hits_a, cb_a) = counter();
    let (hits_b, cb_b) = counter();
    let a = Shared::init_with_listener(Access::ReadWrite, (1, cb_a), &mut cell).unwrap();
    let b = Shared::init_with_listener(Access::Write, (2, cb_b), &mut cell).unwrap();
    assert_eq!(a.id(), Some(1));
    assert_eq!(b.id(), None);

    let notified = b.write(&mut cell, 901);
    assert_eq!(notified, vec![1]);
    assert_eq!(hits_a.load(Ordering::SeqCst), 1);
    assert_eq!(hits_b.load(Ordering::SeqCst), 0);
    assert_eq!(*a.read(&cell), 901);
    assert_eq!(*b.read(&cell), 901);

    a.release(&mut cell);
    let notified = b.write(&mut cell, 902);
    assert!(notified.is_empty());
    assert_eq!(hits_a.load(Ordering::SeqCst), 1);
    assert_eq!(*b.read(&cell), 902);
}

fn quiet() -> Callback {
    Box::new(|| {})
}

#[test]
fn listener_counts_follow_adds_and_drops() {
    let mut cell: Link<u8, Callback> = Link::new(0);
    cell.add_listener(7, quiet());
    cell.add_listener(7, quiet());
    cell.add_listener(9, quiet());
    assert_eq!(cell.listener_count(7), 2);
    assert_eq!(cell.listener_count(9), 1);
    cell.drop_listener(7);
    assert_eq!(cell.listener_count(7), 1);
    cell.drop_listener(7);
    assert_eq!(cell.listener_count(7), 0);
    let mut ids = cell.needs_update();
    ids.sort();
    assert_eq!(ids, vec![9]);
}

#[test]
fn drop_listener_on_absent_id_is_a_no_op() {
    let mut cell: Link<u8, Callback> = Link::new(0);
    cell.drop_listener(3);
    assert_eq!(cell.listener_count(3), 0);
    cell.add_listener(3, quiet());
    cell.drop_listener(4);
    assert_eq!(cell.listener_count(3), 1);
}

#[test]
fn notify_calls_each_active_listener_exactly_once() {
    let mut cell: Link<u8, Callback> = Link::new(0);
    let (hits_a, cb_a) = counter();
    let (hits_b, cb_b) = counter();
    let (hits_c, cb_c) = counter();
    cell.add_listener(1, cb_a);
    cell.add_listener(1, quiet());
    cell.add_listener(2, cb_b);
    cell.add_listener(3, cb_c);
    cell.drop_listener(3);
    let mut ids = cell.needs_update();
    ids.sort();
    assert_eq!(ids, vec![1, 2]);
    assert_eq!(hits_a.load(Ordering::SeqCst), 1);
    assert_eq!(hits_b.load(Ordering::SeqCst), 1);
    assert_eq!(hits_c.load(Ordering::SeqCst), 0);
}

#[test]
fn first_callback_of_a_subscriber_is_kept() {
    let mut cell: Link<u8, Callback> = Link::new(0);
    let (first, cb_first) = counter();
    let (second, cb_second) = counter();
    cell.add_listener(5, cb_first);
    cell.add_listener(5, cb_second);
    cell.needs_update();
    assert_eq!(first.load(Ordering::SeqCst), 1);
    assert_eq!(second.load(Ordering::SeqCst), 0);
}

#[test]
fn write_silent_notifies_nobody_and_write_notifies_each_once() {
    let mut cell: Link<i32, Callback> = Link::new(1);
    let (hits_a, cb_a) = counter();
    let (hits_b, cb_b) = counter();
    let a = Shared::init_with_listener(Access::ReadWrite, (1, cb_a), &mut cell).unwrap();
    let _b = Shared::init_with_listener(Access::ReadWrite, (2, cb_b), &mut cell).unwrap();
    a.write_silent(&mut cell, 5);
    assert_eq!(*a.read(&cell), 5);
    assert_eq!(hits_a.load(Ordering::SeqCst), 0);
    assert_eq!(hits_b.load(Ordering::SeqCst), 0);
    let mut ids = a.write(&mut cell, 6);
    ids.sort();
    assert_eq!(ids, vec![1, 2]);
    assert_eq!(hits_a.load(Ordering::SeqCst), 1);
    assert_eq!(hits_b.load(Ordering::SeqCst), 1);
}

#[test]
fn set_with_equal_value_notifies_nobody() {
    let mut cell: Link<i32, Callback> = Link::new(4);
    let (hits, cb) = counter();
    let h = Shared::init_with_listener(Access::ReadWrite, (1, cb), &mut cell).unwrap();
    let ids = h.set(&mut cell, 4);
    assert!(ids.is_empty());
    assert_eq!(hits.load(Ordering::SeqCst), 0);
    let ids = h.set(&mut cell, 8);
    assert_eq!(ids, vec![1]);
    assert_eq!(hits.load(Ordering::SeqCst), 1);
    assert_eq!(*h.read(&cell), 8);
}

#[test]
fn set_with_applies_function_to_current_value() {
    let mut cell: Link<i32, Callback> = Link::new(10);
    let (hits, cb) = counter();
    let h = Shared::init_with_listener(Access::ReadWrite, (1, cb), &mut cell).unwrap();
    let ids = h.set_with(&mut cell, |x: &i32| *x + 1);
    assert_eq!(ids, vec![1]);
    assert_eq!(*h.read(&cell), 11);
    let ids = h.set_with(&mut cell, |x: &i32| *x);
    assert!(ids.is_empty());
    assert_eq!(hits.load(Ordering::SeqCst), 1);
}

#[test]
fn hidden_access_gives_no_handle() {
    let mut cell: Link<i32, Callback> = Link::new(0);
    assert!(Shared::init_with_listener(Access::Hidden, (1, quiet()), &mut cell).is_none());
    assert_eq!(cell.listener_count(1), 0);
    let w = Shared::init_with_listener(Access::Write, (1, quiet()), &mut cell).unwrap();
    assert_eq!(w.flag(), Access::Write);
    assert_eq!(cell.listener_count(1), 0);
}

#[test]
fn clone_registers_again_and_release_unregisters() {
    let mut cell: Link<i32, Callback> = Link::new(0);
    let a = Shared::init_with_listener(Access::ReadWrite, (3, quiet()), &mut cell).unwrap();
    assert_eq!(cell.listener_count(3), 1);
    let a2 = a.clone_in(&mut cell, quiet());
    assert_eq!(a2.id(), Some(3));
    assert_eq!(a2.flag(), Access::ReadWrite);
    assert_eq!(cell.listener_count(3), 2);
    a.release(&mut cell);
    assert_eq!(cell.listener_count(3), 1);
    a2.release(&mut cell);
    assert_eq!(cell.listener_count(3), 0);
    let w = Shared::write_only(&cell);
    let w2 = w.clone_in(&mut cell, quiet());
    assert_eq!(w2.id(), None);
    w.release(&mut cell);
    assert_eq!(cell.listener_count(3), 0);
}

#[test]
fn needs_update_through_handle_notifies_without_writing() {
    let mut cell: Link<i32, Callback> = Link::new(3);
    let (hits, cb) = counter();
    let h = Shared::init_with_listener(Access::ReadWrite, (1, cb), &mut cell).unwrap();
    assert_eq!(h.needs_update(&cell), vec![1]);
    assert_eq!(hits.load(Ordering::SeqCst), 1);
    assert_eq!(*h.read(&cell), 3);
}

#[test]
fn store_replaces_value_without_notifying() {
    let mut cell: Link<i32, Callback> = Link::new(3);
    let (hits, cb) = counter();
    cell.add_listener(1, cb);
    cell.store(12);
    assert_eq!(*cell.borrow(), 12);
    assert_eq!(hits.load(Ordering::SeqCst), 0);
}

#[test]
fn shareable_is_made_once() {
    let mut slot: Shareable<i32, Callback> = Shareable::new();
    assert!(!slot.is_initialized());
    slot.get_or_init(|| 900).add_listener(1, quiet());
    assert!(slot.is_initialized());
    let link = slot.get_or_init(|| panic!("made twice"));
    assert_eq!(*link.borrow(), 900);
    assert_eq!(link.listener_count(1), 1);
}

#[test]
fn typed_init_follows_flag() {
    let mut cell: Link<i32, Callback> = Link::new(0);
    let r = Shared::init(RW, (4, quiet()), &mut cell);
    assert_eq!(r.flag(), Access::ReadWrite);
    assert_eq!(r.id(), Some(4));
    assert_eq!(cell.listener_count(4), 1);
    let w = Shared::init(W, (5, quiet()), &mut cell);
    assert_eq!(w.flag(), Access::Write);
    assert_eq!(w.id(), None);
    assert_eq!(cell.listener_count(5), 0);
}

#[test]
fn clone_re_registers_a_dropped_entry() {
    let mut cell: Link<i32, Callback> = Link::new(0);
    let a = Shared::init_with_listener(Access::ReadWrite, (6, quiet()), &mut cell).unwrap();
    cell.drop_listener(6);
    assert_eq!(cell.listener_count(6), 0);
    let (hits, cb) = counter();
    let a2 = a.clone_in(&mut cell, cb);
    assert_eq!(cell.listener_count(6), 1);
    a2.write(&mut cell, 1);
    assert_eq!(hits.load(Ordering::SeqCst), 1);
}

#[test]
fn handle_knows_its_cell() {
    let mut one: Link<i32, Callback> = Link::new(0);
    let two: Link<i32, Callback> = Link::new(0);
    let h = Shared::init_with_listener(Access::Write, (1, quiet()), &mut one).unwrap();
    assert!(h.is_on(&one));
    assert!(!h.is_on(&two));
    assert!(Shared::write_only(&two).is_on(&two));
}
