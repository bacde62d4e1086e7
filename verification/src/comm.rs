//! The decisions of the link to a remote WebSocket JSON-RPC node.
//!
//! The link keeps the requests that the frontend made and that were not answered yet (so that
//! they can be made again after a reconnection), and the subscribers to finalized heights and to
//! the link's status. The background task performs the I/O; the state and what it does on each
//! event are here.
use std::collections::HashMap;
use vstd::prelude::*;

verus! {

broadcast use vstd::std_specs::hash::group_hash_axioms;

/// The status of the link.
#[derive(Debug, Clone, Copy, PartialEq, Eq, Structural)]
pub enum Status {
    Connected,
    Connecting,
}

/// A message from the frontend to the background task.
pub enum FrontToBack<R, H, S> {
    /// A request with the given id.
    Request { id: usize, request: R },
    /// A new subscriber to finalized heights.
    SubscribeFinalizedHead { tx: H },
    /// A new subscriber to the status of the link.
    SubscribeStatus { tx: S },
}

/// Something the background task observed while connected.
pub enum LinkEvent {
    /// The watchdog was not reset in time.
    WatchdogFired,
    /// The request with this id was answered.
    RequestFinished(usize),
    /// The node announced a new finalized head; `None` where its number could not be read.
    FinalizedHead(Option<u64>),
    /// The frontend went away.
    FrontClosed,
}

/// What the background task does next.
#[derive(Debug, Clone, Copy, PartialEq, Eq, Structural)]
pub enum LinkAction {
    /// Drop the connection and connect again.
    Reconnect,
    /// The remote shows signs of life: reset the watchdog.
    ResetWatchdog,
    /// Reset the watchdog and tell the height subscribers about this finalized height.
    NotifyHeight(u64),
    /// Stop the background task.
    Shutdown,
}

/// The subscribers whose notification was delivered, in their order.
pub open spec fn kept<T>(subs: Seq<T>, delivered: Seq<bool>) -> Seq<T>
    decreases subs.len(),
{
    if subs.len() == 0 {
        Seq::empty()
    } else {
        let earlier = kept(subs.drop_last(), delivered.take(subs.len() - 1));
        if delivered[subs.len() - 1] {
            earlier.push(subs.last())
        } else {
            earlier
        }
    }
}

/// Drops the subscribers to which a notification could not be delivered: `delivered[i]` tells
/// whether the `i`-th subscriber took it.
pub fn retain_delivered<T>(subs: &mut Vec<T>, delivered: &Vec<bool>)
    requires
        old(subs)@.len() == delivered@.len(),
    ensures
        final(subs)@ == kept(old(subs)@, delivered@),
{
    let ghost orig = subs@;
    let mut i: usize = 0;
    let mut j: usize = 0;
    while j < delivered.len()
        invariant
            j <= delivered@.len(),
            orig.len() == delivered@.len(),
            i <= j,
            subs@ == kept(orig.take(j as int), delivered@.take(j as int)) + orig.skip(j as int),
            i == kept(orig.take(j as int), delivered@.take(j as int)).len(),
        decreases delivered@.len() - j,
    {
        let ghost before = kept(orig.take(j as int), delivered@.take(j as int));
        assert(orig.take(j + 1).drop_last() =~= orig.take(j as int));
        assert(delivered@.take(j + 1).take(j as int) =~= delivered@.take(j as int));
        assert(subs@[i as int] == orig[j as int]);
        if delivered[j] {
            i = i + 1;
            assert(subs@ =~= before.push(orig[j as int]) + orig.skip(j + 1));
        } else {
            subs.remove(i);
            assert(subs@ =~= before + orig.skip(j + 1));
        }
        j = j + 1;
    }
    assert(orig.take(j as int) =~= orig);
    assert(delivered@.take(j as int) =~= delivered@);
    assert(subs@ =~= kept(orig, delivered@));
}

/// The state of the background task.
pub struct Backend<R, H, S> {
    /// Requests made and not answered yet, by id.
    pub unfulfilled: HashMap<usize, R>,
    /// Subscribers to finalized heights.
    pub height_subscribers: Vec<H>,
    /// Subscribers to the status of the link.
    pub status_subscribers: Vec<S>,
}

impl<R, H, S> Backend<R, H, S> {
    /// A backend with no request and no subscriber.
    pub fn new() -> (b: Self)
        ensures
            b.unfulfilled@ == Map::<usize, R>::empty(),
            b.height_subscribers@ == Seq::<H>::empty(),
            b.status_subscribers@ == Seq::<S>::empty(),
    {
        Backend {
            unfulfilled: HashMap::new(),
            height_subscribers: Vec::new(),
            status_subscribers: Vec::new(),
        }
    }

    /// Takes a message of the frontend: a request is remembered under its id until it is
    /// answered; a subscriber joins the end of its list.
    pub fn handle_next_front_to_back(&mut self, front_to_back: FrontToBack<R, H, S>)
        ensures
            match front_to_back {
                FrontToBack::Request { id, request } => {
                    &&& final(self).unfulfilled@ == old(self).unfulfilled@.insert(id, request)
                    &&& final(self).height_subscribers@ == old(self).height_subscribers@
                    &&& final(self).status_subscribers@ == old(self).status_subscribers@
                },
                FrontToBack::SubscribeFinalizedHead { tx } => {
                    &&& final(self).unfulfilled@ == old(self).unfulfilled@
                    &&& final(self).height_subscribers@ == old(self).height_subscribers@.push(tx)
                    &&& final(self).status_subscribers@ == old(self).status_subscribers@
                },
                FrontToBack::SubscribeStatus { tx } => {
                    &&& final(self).unfulfilled@ == old(self).unfulfilled@
                    &&& final(self).height_subscribers@ == old(self).height_subscribers@
                    &&& final(self).status_subscribers@ == old(self).status_subscribers@.push(tx)
                },
            },
    {
        match front_to_back {
            FrontToBack::Request { id, request } => {
                self.unfulfilled.insert(id, request);
            },
            FrontToBack::SubscribeFinalizedHead { tx } => {
                self.height_subscribers.push(tx);
            },
            FrontToBack::SubscribeStatus { tx } => {
                self.status_subscribers.push(tx);
            },
        }
    }

    /// Decides what to do on an event; an answered request is forgotten.
    pub fn on_event(&mut self, event: LinkEvent) -> (action: LinkAction)
        ensures
            final(self).height_subscribers@ == old(self).height_subscribers@,
            final(self).status_subscribers@ == old(self).status_subscribers@,
            match event {
                LinkEvent::WatchdogFired => action == LinkAction::Reconnect && final(self).unfulfilled@
                    == old(self).unfulfilled@,
                LinkEvent::RequestFinished(id) => action == LinkAction::ResetWatchdog
                    && final(self).unfulfilled@ == old(self).unfulfilled@.remove(id),
                LinkEvent::FinalizedHead(Some(h)) => action == LinkAction::NotifyHeight(h)
                    && final(self).unfulfilled@ == old(self).unfulfilled@,
                LinkEvent::FinalizedHead(None) => action == LinkAction::Reconnect
                    && final(self).unfulfilled@ == old(self).unfulfilled@,
                LinkEvent::FrontClosed => action == LinkAction::Shutdown && final(self).unfulfilled@
                    == old(self).unfulfilled@,
            },
    {
        match event {
            LinkEvent::WatchdogFired => LinkAction::Reconnect,
            LinkEvent::RequestFinished(id) => {
                let _ = self.unfulfilled.remove(&id);
                LinkAction::ResetWatchdog
            },
            LinkEvent::FinalizedHead(Some(h)) => LinkAction::NotifyHeight(h),
            LinkEvent::FinalizedHead(None) => LinkAction::Reconnect,
            LinkEvent::FrontClosed => LinkAction::Shutdown,
        }
    }

    /// Drops the height subscribers that did not take the last notification.
    pub fn retain_height_subscribers(&mut self, delivered: &Vec<bool>)
        requires
            old(self).height_subscribers@.len() == delivered@.len(),
        ensures
            final(self).height_subscribers@ == kept(old(self).height_subscribers@, delivered@),
            final(self).status_subscribers@ == old(self).status_subscribers@,
            final(self).unfulfilled@ == old(self).unfulfilled@,
    {
        retain_delivered(&mut self.height_subscribers, delivered);
    }

    /// Drops the status subscribers that did not take the last notification.
    pub fn retain_status_subscribers(&mut self, delivered: &Vec<bool>)
        requires
            old(self).status_subscribers@.len() == delivered@.len(),
        ensures
            final(self).status_subscribers@ == kept(old(self).status_subscribers@, delivered@),
            final(self).height_subscribers@ == old(self).height_subscribers@,
            final(self).unfulfilled@ == old(self).unfulfilled@,
    {
        retain_delivered(&mut self.status_subscribers, delivered);
    }
}

} // verus!
