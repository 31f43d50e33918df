use std::cell::RefCell;
use std::rc::Rc;

use channel_combinators::adapt::{adapt, recv, send, AdapterChannel};
use channel_combinators::channel::{Receiver, Sender};
use channel_combinators::dummy::{dummy, DummyChannel};
use channel_combinators::mailbox::Mailbox;
use channel_combinators::merge::{merge, recv_both, send_both, MergedChannel};
use channel_combinators::select::{select, Either};

/// A sender that records each value it accepts, with its name, in a log
/// shared with other spies.
struct Spy {
    name: char,
    log: Rc<RefCell<Vec<(char, i32)>>>,
}

impl Sender for Spy {
    type Data = i32;

    // The spy is not verified: these two are read by no proof.
    fn send_inv(&self) -> bool {
        true
    }

    fn sends(_pre: Self, _post: Self, _value: i32) -> bool {
        true
    }

    fn send(&mut self, value: i32) {
        self.log.borrow_mut().push((self.name, value));
    }
}

fn mailbox_of(values: &[i32]) -> Mailbox<i32> {
    let mut m = Mailbox::new();
    for v in values {
        m.send(*v);
    }
    m
}

fn double_evens(x: i32) -> Option<i32> {
    if x % 2 == 0 {
        Some(x * 2)
    } else {
        None
    }
}

#[test]
fn adapter_send_filter_touches_nothing() {
    let log = Rc::new(RefCell::new(Vec::new()));
    let mut chan = adapt(Spy { name: 'a', log: log.clone() }, double_evens);
    chan.send(1);
    chan.send(3);
    assert_eq!(log.borrow().len(), 0);
}

#[test]
fn adapter_send_forwards_once() {
    let log = Rc::new(RefCell::new(Vec::new()));
    let mut chan = adapt(Spy { name: 'a', log: log.clone() }, double_evens);
    chan.send(2);
    assert_eq!(*log.borrow(), vec![('a', 4)]);
}

#[test]
fn adapter_recv_skips_filtered_messages() {
    let inner = mailbox_of(&[1, 3, 6, 7]);
    let mut chan = adapt(inner, |x: i32| if x > 5 { Some(x + 100) } else { None });
    assert_eq!(chan.recv(), Some(106));
    assert_eq!(chan.recv(), Some(107));
    assert_eq!(chan.recv(), None);
}

#[test]
fn adapter_recv_consumes_three_inner_messages() {
    let mut inner = mailbox_of(&[1, 3, 6, 9]);
    let r = recv(&mut inner, &|x: i32| if x > 5 { Some(-x) } else { None });
    assert_eq!(r, Some(-6));
    assert_eq!(inner.len(), 1);
    assert_eq!(inner.recv(), Some(9));
}

#[test]
fn adapter_recv_pending_drains_filtered() {
    let mut inner = mailbox_of(&[1, 3, 5]);
    let r: Option<i32> = recv(&mut inner, &double_evens);
    assert_eq!(r, None);
    assert!(inner.is_empty());
}

#[test]
fn free_send_filters_and_forwards() {
    let mut inner: Mailbox<i32> = Mailbox::new();
    send(&mut inner, 5, &double_evens);
    assert!(inner.is_empty());
    send(&mut inner, 6, &double_evens);
    assert_eq!(inner.recv(), Some(12));
}

#[test]
fn adapted_scenario_even_values_doubled() {
    let inner = mailbox_of(&[1, 2, 3, 4]);
    let mut chan = adapt(inner, |x: i32| if x % 2 == 0 { Some(x * 2) } else { None });
    assert_eq!(chan.recv(), Some(4));
    assert_eq!(chan.recv(), Some(8));
    assert_eq!(chan.recv(), None);
}

#[test]
fn adapter_translates_type() {
    let inner = mailbox_of(&[7, -2]);
    let mut chan: AdapterChannel<Mailbox<i32>, _, bool> =
        AdapterChannel::new(inner, |x: i32| Some(x > 0));
    assert_eq!(chan.recv(), Some(true));
    assert_eq!(chan.recv(), Some(false));
    assert_eq!(chan.recv(), None);
}

#[test]
fn merge_send_orders_first_before_second() {
    let log = Rc::new(RefCell::new(Vec::new()));
    let a = Spy { name: 'a', log: log.clone() };
    let b = Spy { name: 'b', log: log.clone() };
    let mut m = merge(a, b);
    m.send(42);
    m.send(7);
    assert_eq!(*log.borrow(), vec![('a', 42), ('b', 42), ('a', 7), ('b', 7)]);
}

#[test]
fn merge_send_duplicates_to_both_legs() {
    let mut m = merge(Mailbox::new(), Mailbox::new());
    m.send(String::from("hello"));
    let mut a: Mailbox<String> = Mailbox::new();
    let mut b: Mailbox<String> = Mailbox::new();
    send_both(&mut a, &mut b, String::from("x"));
    assert_eq!(a.recv(), Some(String::from("x")));
    assert_eq!(b.recv(), Some(String::from("x")));
    assert_eq!(m.recv(), Some(String::from("hello")));
    assert_eq!(m.recv(), Some(String::from("hello")));
    assert_eq!(m.recv(), None);
}

#[test]
fn merge_recv_first_ready_wins_against_dummy() {
    let mut m = merge(mailbox_of(&[5]), dummy());
    assert_eq!(m.recv(), Some(5));
    assert_eq!(m.recv(), None);
}

#[test]
fn merge_recv_second_when_first_pending() {
    let mut m = merge(Mailbox::new(), mailbox_of(&[9]));
    assert_eq!(m.recv(), Some(9));
    assert_eq!(m.recv(), None);
}

#[test]
fn merge_recv_tie_goes_to_first() {
    let mut a = mailbox_of(&[1]);
    let mut b = mailbox_of(&[2]);
    assert_eq!(recv_both(&mut a, &mut b), Some(1));
    assert_eq!(b.len(), 1);
    assert_eq!(recv_both(&mut a, &mut b), Some(2));
    assert_eq!(recv_both(&mut a, &mut b), None);
}

#[test]
fn dummy_neutral_in_merge() {
    let values = [3, 1, 4, 1, 5];
    let mut real = mailbox_of(&values);
    let mut m = merge(mailbox_of(&values), DummyChannel::new());
    for _ in 0..values.len() + 2 {
        assert_eq!(m.recv(), real.recv());
    }
}

#[test]
fn dummy_send_discards_and_recv_pends() {
    let mut d: DummyChannel<i32> = DummyChannel::default();
    d.send(1);
    assert_eq!(d.recv(), None);
}

#[test]
fn chained_merge_races_three_legs() {
    let cases: [[bool; 3]; 8] = [
        [false, false, false],
        [true, false, false],
        [false, true, false],
        [false, false, true],
        [true, true, false],
        [true, false, true],
        [false, true, true],
        [true, true, true],
    ];
    for ready in cases {
        let leg = |i: usize| if ready[i] { mailbox_of(&[i as i32 + 10]) } else { Mailbox::new() };
        let mut m = merge(leg(0), leg(1)).and(leg(2));
        let expected = ready.iter().position(|r| *r).map(|i| i as i32 + 10);
        assert_eq!(m.recv(), expected);
    }
}

#[test]
fn chained_merge_send_reaches_all_in_order() {
    let log = Rc::new(RefCell::new(Vec::new()));
    let spy = |name: char| Spy { name, log: log.clone() };
    let mut m = MergedChannel::new(spy('a'), spy('b')).and(spy('c'));
    m.send(1);
    assert_eq!(*log.borrow(), vec![('a', 1), ('b', 1), ('c', 1)]);
}

#[test]
fn select_tags_winner() {
    let mut a: Mailbox<i32> = Mailbox::new();
    let mut b = mailbox_of(&[8]);
    match select(&mut a, &mut b) {
        Some(Either::Second(v)) => assert_eq!(v, 8),
        _ => panic!("second leg should win"),
    }
    let mut c = mailbox_of(&[1]);
    match select(&mut c, &mut b) {
        Some(Either::First(v)) => assert_eq!(v, 1),
        _ => panic!("first leg should win"),
    }
    assert!(select(&mut a, &mut b).is_none());
}

#[test]
fn mailbox_is_fifo() {
    let mut m = mailbox_of(&[1, 2, 3]);
    assert_eq!(m.len(), 3);
    assert_eq!(m.recv(), Some(1));
    assert_eq!(m.recv(), Some(2));
    assert_eq!(m.recv(), Some(3));
    assert_eq!(m.recv(), None);
    assert!(m.is_empty());
}

#[test]
fn merge_recv_leaves_losing_leg_intact() {
    let mut m = merge(mailbox_of(&[1, 2]), mailbox_of(&[30]));
    assert_eq!(m.recv(), Some(1));
    assert_eq!(m.recv(), Some(2));
    assert_eq!(m.recv(), Some(30));
    assert_eq!(m.recv(), None);
}
