use rusteron::common::{find_unused_udp_port, AeronCError, Handler, Handlers, ManagedCResource};
use std::cell::RefCell;
use std::rc::Rc;

type Probe = fn(&u64) -> bool;
type Cleanup = Box<dyn Fn(&u64) -> i32>;

fn recording(log: &Rc<RefCell<Vec<u64>>>, status: i32) -> Option<Cleanup> {
    let log = log.clone();
    Some(Box::new(move |h: &u64| {
        log.borrow_mut().push(*h);
        status
    }))
}

#[test]
fn a_failed_initializer_makes_no_resource() {
    let log = Rc::new(RefCell::new(Vec::new()));
    let r = ManagedCResource::<u64, Cleanup, Probe>::new(|| (-5, Some(1)), recording(&log, 0), false, None);
    assert_eq!(r.err(), Some(AeronCError::from_code(-5)));
    let r = ManagedCResource::<u64, Cleanup, Probe>::new(|| (0, None), recording(&log, 0), false, None);
    assert_eq!(r.err(), Some(AeronCError::from_code(0)));
    assert!(log.borrow().is_empty());
}

#[test]
fn release_is_idempotent() {
    let log = Rc::new(RefCell::new(Vec::new()));
    let mut r = ManagedCResource::<u64, Cleanup, Probe>::new(|| (0, Some(7)), recording(&log, 0), false, None).unwrap();
    assert_eq!(r.get(), Some(&7));
    assert!(!r.is_closed_already_called());
    assert_eq!(r.close(), Ok(()));
    assert_eq!(r.get(), None);
    assert!(r.is_closed_already_called());
    assert_eq!(r.close(), Ok(()));
    r.release_at_scope_end();
    assert_eq!(*log.borrow(), vec![7]);
}

#[test]
fn a_failing_release_is_reported_once() {
    let log = Rc::new(RefCell::new(Vec::new()));
    let mut r = ManagedCResource::<u64, Cleanup, Probe>::new(|| (1, Some(9)), recording(&log, -3), false, None).unwrap();
    assert_eq!(r.close(), Err(AeronCError::from_code(-3)));
    assert_eq!(r.get(), Some(&9));
    assert_eq!(r.close(), Ok(()));
    assert_eq!(*log.borrow(), vec![9]);
}

#[test]
fn a_handle_closed_elsewhere_is_not_released_again() {
    let log = Rc::new(RefCell::new(Vec::new()));
    let closed: Probe = |_h| true;
    let mut r = ManagedCResource::<u64, Cleanup, Probe>::new(|| (0, Some(3u64)), recording(&log, 0), false, Some(closed)).unwrap();
    assert!(r.is_closed_already_called());
    assert_eq!(r.close(), Ok(()));
    assert_eq!(r.get(), None);
    assert!(log.borrow().is_empty());
}

#[test]
fn a_borrowed_resource_is_never_released() {
    let mut r = ManagedCResource::<u64, Cleanup, Probe>::new_borrowed(Some(11), None);
    assert_eq!(r.close(), Ok(()));
    assert_eq!(r.close(), Ok(()));
    r.release_at_scope_end();
    assert_eq!(r.get(), Some(&11));
    let mut r = ManagedCResource::<u64, Cleanup, Probe>::new_borrowed(Some(12), None);
    r.set_auto_close(true);
    r.release_at_scope_end();
    assert_eq!(r.get(), Some(&12));
    assert!(r.is_closed_already_called());
}

#[test]
fn the_end_of_scope_releases_once_and_quietly() {
    let log = Rc::new(RefCell::new(Vec::new()));
    let mut r = ManagedCResource::<u64, Cleanup, Probe>::new(|| (0, Some(21)), recording(&log, -1), true, None).unwrap();
    r.release_at_scope_end();
    r.release_at_scope_end();
    assert_eq!(r.get(), None);
    assert_eq!(*log.borrow(), vec![21]);
}

#[test]
fn widget_close_gets_the_handle_of_widget_init() {
    let closed = Rc::new(RefCell::new(Vec::new()));
    let widget_init = || (0, Some(0xfeed_u64));
    let mut widget = ManagedCResource::<u64, Cleanup, Probe>::new(widget_init, recording(&closed, 0), false, None).unwrap();
    let from_init = *widget.get().unwrap();
    widget.release_at_scope_end();
    assert_eq!(*closed.borrow(), vec![from_init]);
    assert_eq!(closed.borrow().len(), 1);
}

#[test]
fn dependencies_are_kept() {
    let mut r = ManagedCResource::<u64, Cleanup, Probe, String>::new_borrowed(Some(1), None);
    assert!(r.dependencies().is_empty());
    r.add_dependency(String::from("context"));
    r.add_dependency(String::from("client"));
    assert_eq!(r.dependencies(), &vec![String::from("context"), String::from("client")]);
    assert_eq!(r.close(), Ok(()));
    r.release_at_scope_end();
    assert_eq!(r.dependencies().len(), 2);
}

struct Noted(Rc<RefCell<Vec<u64>>>, u64);

impl Drop for Noted {
    fn drop(&mut self) {
        self.0.borrow_mut().push(self.1);
    }
}

#[test]
fn a_handler_holds_its_value_until_released() {
    let mut h = Handler::leak(String::from("state"));
    assert!(!h.is_none());
    assert_eq!(h.get().map(|s| s.as_str()), Some("state"));
    h.release();
    assert!(h.is_none());
    h.release();
    assert!(Handlers::no_handler::<u8>().is_none());
}

#[test]
fn a_handler_gives_its_value_up_by_release_alone() {
    let dropped = Rc::new(RefCell::new(Vec::new()));
    {
        let _gone = Handler::leak(Noted(dropped.clone(), 1));
    }
    assert!(dropped.borrow().is_empty());
    let mut h = Handler::leak(Noted(dropped.clone(), 2));
    h.release();
    assert_eq!(*dropped.borrow(), vec![2]);
    h.release();
    assert_eq!(*dropped.borrow(), vec![2]);
}

#[test]
fn the_first_free_port_is_found() {
    assert_eq!(find_unused_udp_port(4000, |p| p >= 4003), Some(4003));
    assert_eq!(find_unused_udp_port(65530, |_| false), None);
    assert_eq!(find_unused_udp_port(65535, |p| p == 65535), Some(65535));
}
