use remarkable_oxide::comm::{retain_delivered, Backend, FrontToBack, LinkAction, LinkEvent};
use remarkable_oxide::extendable_range::ExtendableRange;
use remarkable_oxide::latest::Latest;
use remarkable_oxide::watchdog::{TimeLeft, Watchdog};

#[test]
fn drops_subscribers_that_hung_up() {
    let mut subs = vec!['a', 'b', 'c', 'd'];
    retain_delivered(&mut subs, &vec![true, false, false, true]);
    assert_eq!(subs, vec!['a', 'd']);
    let mut none: Vec<char> = vec![];
    retain_delivered(&mut none, &vec![]);
    assert!(none.is_empty());
}

#[test]
fn backend_tracks_requests_and_subscribers() {
    let mut b: Backend<&str, u8, char> = Backend::new();
    b.handle_next_front_to_back(FrontToBack::Request { id: 1, request: "hash" });
    b.handle_next_front_to_back(FrontToBack::Request { id: 2, request: "body" });
    b.handle_next_front_to_back(FrontToBack::SubscribeFinalizedHead { tx: 7 });
    b.handle_next_front_to_back(FrontToBack::SubscribeStatus { tx: 's' });
    assert_eq!(b.unfulfilled.len(), 2);
    assert_eq!(b.height_subscribers, vec![7]);
    assert_eq!(b.status_subscribers, vec!['s']);
    assert_eq!(b.on_event(LinkEvent::RequestFinished(1)), LinkAction::ResetWatchdog);
    assert_eq!(b.unfulfilled.len(), 1);
    assert_eq!(b.unfulfilled.get(&2), Some(&"body"));
    assert_eq!(b.on_event(LinkEvent::RequestFinished(9)), LinkAction::ResetWatchdog);
    assert_eq!(b.unfulfilled.len(), 1);
    assert_eq!(b.on_event(LinkEvent::FinalizedHead(Some(12))), LinkAction::NotifyHeight(12));
    assert_eq!(b.on_event(LinkEvent::FinalizedHead(None)), LinkAction::Reconnect);
    assert_eq!(b.on_event(LinkEvent::WatchdogFired), LinkAction::Reconnect);
    assert_eq!(b.on_event(LinkEvent::FrontClosed), LinkAction::Shutdown);
    b.retain_height_subscribers(&vec![false]);
    assert!(b.height_subscribers.is_empty());
    b.retain_status_subscribers(&vec![true]);
    assert_eq!(b.status_subscribers, vec!['s']);
}

#[test]
fn latest_keeps_only_the_last_value() {
    let mut l = Latest::new();
    l.set(1u32);
    assert_eq!(l.take(), Some(1));
    assert_eq!(l.take(), None);
    l.set(1u32);
    l.set(2u32);
    assert_eq!(l.take(), Some(2));
}

#[test]
fn extendable_range_follows_the_finalized_height() {
    let mut r = ExtendableRange::new(5);
    assert_eq!(r.next_block(), None);
    r.extend(6);
    assert_eq!(r.next_block(), Some(5));
    assert_eq!(r.next_block(), Some(6));
    assert_eq!(r.next_block(), None);
    r.extend(3);
    assert_eq!(r.next_block(), None);
    r.extend(7);
    assert_eq!(r.next_block(), Some(7));
    assert_eq!(r.next_block(), None);
}

#[test]
fn watchdog_waits_until_its_deadline() {
    let mut w = Watchdog::new(1_000, 10_000);
    assert_eq!(w.time_left(1_000), TimeLeft::Wait(10_000));
    assert_eq!(w.time_left(5_000), TimeLeft::Wait(6_000));
    assert_eq!(w.time_left(11_000), TimeLeft::Wait(0));
    assert_eq!(w.time_left(11_001), TimeLeft::Expired);
    assert_eq!(w.time_left(0), TimeLeft::Wait(11_000));
    w.reset(6_000);
    assert_eq!(w.time_left(11_001), TimeLeft::Wait(4_999));
    assert_eq!(w.time_left(16_001), TimeLeft::Expired);
    let w = Watchdog::new(1, u64::MAX);
    assert_eq!(w.time_left(1), TimeLeft::Never);
    let w = Watchdog::new(0, u64::MAX);
    assert_eq!(w.time_left(u64::MAX), TimeLeft::Wait(0));
}
