//! Change events, the broker that fans them out to the watchers of a resource
//! type, and the stream that turns them into lines for one watcher.
//!
//! A watcher is the sending end of a channel. The broker keeps the watchers in
//! the order of their registration and gives each a number of its own.

use crate::models::{Group, GroupResourceType, ResourceType};
use crate::resource::{BaseResource, BaseResourceView};
use std::sync::mpsc::Receiver;
use std::sync::mpsc::Sender;
use std::time::Duration;
use vstd::prelude::*;
use vstd::string::*;

verus! {

/// The sending end of a channel of the standard library.
#[verifier::external_type_specification]
#[verifier::external_body]
#[verifier::reject_recursive_types(T)]
pub struct ExSender<T>(Sender<T>);

/// The receiving end of a channel of the standard library.
#[verifier::external_type_specification]
#[verifier::external_body]
#[verifier::reject_recursive_types(T)]
pub struct ExReceiver<T>(Receiver<T>);

/// A change to a resource instance. Additions are the only changes so far.
#[derive(Debug)]
pub enum WatchEvent {
    ADDED(BaseResource),
}

/// A change as plain values.
pub enum WatchEventView {
    ADDED(BaseResourceView),
}

impl View for WatchEvent {
    type V = WatchEventView;

    open spec fn view(&self) -> WatchEventView {
        match self {
            WatchEvent::ADDED(resource) => WatchEventView::ADDED(resource@),
        }
    }
}

impl Clone for WatchEvent {
    fn clone(&self) -> (r: WatchEvent)
        ensures
            r@ == self@,
    {
        match self {
            WatchEvent::ADDED(resource) => WatchEvent::ADDED(resource.clone()),
        }
    }
}

/// A change together with the resource type whose watchers shall hear of it.
#[derive(Debug)]
pub struct WrappedWatchEvent {
    event: WatchEvent,
    grt: GroupResourceType,
}

/// A change and its resource type as plain values.
pub struct WrappedWatchEventView {
    pub event: WatchEventView,
    pub group: Seq<char>,
    pub resource_type: Seq<char>,
}

impl View for WrappedWatchEvent {
    type V = WrappedWatchEventView;

    open spec fn view(&self) -> WrappedWatchEventView {
        WrappedWatchEventView {
            event: self.event_view(),
            group: self.group_view(),
            resource_type: self.resource_type_view(),
        }
    }
}

impl WrappedWatchEvent {
    pub fn new(event: WatchEvent, grt: GroupResourceType) -> (r: WrappedWatchEvent)
        ensures
            r@ == (WrappedWatchEventView {
                event: event@,
                group: grt.group_view(),
                resource_type: grt.resource_type_view(),
            }),
    {
        WrappedWatchEvent { event, grt }
    }

    /// The change.
    pub closed spec fn event_view(&self) -> WatchEventView {
        self.event@
    }

    /// The group of the resource type.
    pub closed spec fn group_view(&self) -> Seq<char> {
        self.grt.group_view()
    }

    /// The plural name of the resource type.
    pub closed spec fn resource_type_view(&self) -> Seq<char> {
        self.grt.resource_type_view()
    }

    /// The change.
    pub fn event(&self) -> (r: &WatchEvent)
        ensures
            r@ == self.event_view(),
    {
        &self.event
    }

    /// The resource type whose watchers shall hear of the change.
    pub fn resource_type(&self) -> (r: &GroupResourceType)
        ensures
            r.group_view() == self.group_view(),
            r.resource_type_view() == self.resource_type_view(),
    {
        &self.grt
    }
}

/// The bytes of a text of ASCII characters.
pub open spec fn ascii(text: Seq<char>) -> Seq<u8> {
    Seq::new(text.len(), |i: int| text[i] as u8)
}

fn ascii_bytes(text: &str) -> (r: Vec<u8>)
    requires
        is_ascii(text),
    ensures
        r@ == ascii(text@),
{
    broadcast use is_ascii_spec_bytes;

    text.as_bytes_vec()
}

/// A document without its line feeds. Between the tokens of a JSON text a line
/// feed is white space, and inside them none can stand.
pub open spec fn without_line_feeds(document: Seq<u8>) -> Seq<u8> {
    document.filter(|byte: u8| byte != 10u8)
}

/// The line that tells one watcher of a change: a JSON object with the type of
/// the change and the changed instance, on one line, and a line feed.
pub open spec fn event_line(event: WatchEventView) -> Seq<u8> {
    match event {
        WatchEventView::ADDED(resource) => ascii("{\"type\":\"ADDED\",\"object\":"@)
            + without_line_feeds(resource.document) + ascii("}\n"@),
    }
}

/// Writes the line that tells one watcher of a change.
pub fn frame_event(event: &WatchEvent) -> (r: Vec<u8>)
    ensures
        r@ == event_line(event@),
{
    proof {
        reveal_strlit("{\"type\":\"ADDED\",\"object\":");
        reveal_strlit("}\n");
    }
    match event {
        WatchEvent::ADDED(resource) => {
            let mut line = ascii_bytes("{\"type\":\"ADDED\",\"object\":");
            let ghost head = line@;
            let ghost document = resource.document@;
            let ghost kept = |byte: u8| byte != 10u8;
            let mut i: usize = 0;
            proof {
                reveal(Seq::filter);
                assert(line@ =~= head + document.take(0).filter(kept));
            }
            while i < resource.document.len()
                invariant
                    i <= resource.document@.len(),
                    document == resource.document@,
                    kept == |byte: u8| byte != 10u8,
                    line@ == head + document.take(i as int).filter(kept),
                decreases resource.document@.len() - i,
            {
                let byte = resource.document[i];
                proof {
                    reveal(Seq::filter);
                    assert(document.take(i + 1).drop_last() =~= document.take(i as int));
                }
                if byte != 10u8 {
                    line.push(byte);
                    assert(line@ =~= head + document.take(i + 1).filter(kept));
                }
                i = i + 1;
            }
            assert(document.take(resource.document@.len() as int) =~= document);
            let mut tail = ascii_bytes("}\n");
            line.append(&mut tail);
            line
        },
    }
}

/// A line holds one line feed, its last byte: a reader that splits the stream
/// at line feeds gets the events one by one.
pub proof fn lemma_event_line_is_one_line(event: WatchEventView)
    ensures
        event_line(event).len() > 0,
        event_line(event).last() == 10u8,
        forall|i: int| 0 <= i < event_line(event).len() - 1 ==> event_line(event)[i] != 10u8,
{
    reveal_strlit("{\"type\":\"ADDED\",\"object\":");
    reveal_strlit("}\n");
    let line = event_line(event);
    let head = ascii("{\"type\":\"ADDED\",\"object\":"@);
    let tail = ascii("}\n"@);
    match event {
        WatchEventView::ADDED(resource) => {
            let body = without_line_feeds(resource.document);
            assert forall|i: int| 0 <= i < body.len() implies body[i] != 10u8 by {
                resource.document.lemma_filter_pred(|byte: u8| byte != 10u8, i);
            }
            assert(tail.len() == 2 && tail[0] == 125u8 && tail[1] == 10u8);
            assert(line.len() == head.len() + body.len() + 2);
            assert forall|i: int| 0 <= i < line.len() - 1 implies line[i] != 10u8 by {
                if i < head.len() {
                    assert(line[i] == head[i]);
                } else if i < head.len() + body.len() {
                    assert(line[i] == body[i - head.len()]);
                } else {
                    assert(line[i] == tail[0]);
                }
            }
            assert(line.last() == tail[1]);
        },
    }
}

/// What a watcher's stream yields when it is asked for its next item.
#[derive(Debug)]
pub enum StreamStep {
    /// The line of one event.
    Ready(Vec<u8>),
    /// No event came within the wait; the stream goes on.
    Pending,
}

/// The seconds that a stream waits for an event before it yields `Pending`.
pub const POLL_TIMEOUT_SECONDS: u64 = 1;

/// Waits for the next value on the channel. The call is
/// `std::sync::mpsc::Receiver::recv_timeout` with a duration of `seconds`
/// seconds; a timeout and a channel without senders both give `None`. What
/// comes back depends on the senders, so nothing is claimed of it.
#[verifier::external_body]
fn receive(receiver: &Receiver<WatchEvent>, seconds: u64) -> (r: Option<WatchEvent>) {
    receiver.recv_timeout(Duration::from_secs(seconds)).ok()
}

/// The step that follows from what the channel gave: the line of the event that
/// came, or `Pending` where none came.
pub fn stream_step(received: Option<WatchEvent>) -> (r: StreamStep)
    ensures
        match received {
            Some(event) => r matches StreamStep::Ready(line) && line@ == event_line(event@),
            None => r is Pending,
        },
{
    match received {
        Some(event) => StreamStep::Ready(frame_event(&event)),
        None => StreamStep::Pending,
    }
}

/// The stream of one watcher: the events that the broker sends it, each as a
/// line. It never ends.
pub struct WatchStream {
    receiver: Receiver<WatchEvent>,
}

impl WatchStream {
    pub fn new(receiver: Receiver<WatchEvent>) -> (r: WatchStream)
        ensures
            r.channel() == receiver,
    {
        WatchStream { receiver }
    }

    /// Waits up to the poll timeout for the next event. Whatever comes, a line
    /// that is yielded is the line of an event.
    pub fn poll_next(&self) -> (r: StreamStep)
        ensures
            r matches StreamStep::Ready(line) ==> exists|event: WatchEventView|
                line@ == #[trigger] event_line(event),
    {
        let received = receive(&self.receiver, POLL_TIMEOUT_SECONDS);
        let ghost came = received;
        let step = stream_step(received);
        proof {
            if let Some(event) = came {
                assert(step->Ready_0@ == event_line(event@));
            }
        }
        step
    }

    /// The receiving end that the stream takes its events from.
    pub closed spec fn channel(&self) -> Receiver<WatchEvent> {
        self.receiver
    }
}

/// What was put into a channel through one sending end, oldest first: the
/// events of the sends that returned `Ok`.
pub uninterp spec fn sent_on(sender: Sender<WatchEvent>) -> Seq<WatchEventView>;

/// One watcher as the broker knows it.
pub struct SubscriberView {
    /// The number that the broker gave it when it registered.
    pub id: u64,
    pub group: Seq<char>,
    pub resource_type: Seq<char>,
    /// The sending end of the watcher's channel.
    pub observer: Sender<WatchEvent>,
}

/// The watchers of one resource type.
pub open spec fn of_type(group: Seq<char>, resource_type: Seq<char>) -> spec_fn(
    SubscriberView,
) -> bool {
    |subscriber: SubscriberView|
        subscriber.group == group && subscriber.resource_type == resource_type
}

/// The watchers whose number is not among `gone`.
pub open spec fn not_among(gone: Seq<u64>) -> spec_fn(SubscriberView) -> bool {
    |subscriber: SubscriberView| !gone.contains(subscriber.id)
}

/// The numbers of the watchers of a resource type among `subscribers`, in
/// their order.
pub open spec fn targets_of(
    subscribers: Seq<SubscriberView>,
    group: Seq<char>,
    resource_type: Seq<char>,
) -> Seq<u64> {
    subscribers.filter(of_type(group, resource_type)).map_values(
        |subscriber: SubscriberView| subscriber.id,
    )
}

/// The targets that leave after an event was offered to each of them: those
/// whose entry in `outcomes` says that the send failed, in their order. A
/// target without an entry stays.
pub open spec fn failed(targets: Seq<u64>, outcomes: Seq<bool>) -> Seq<u64>
    decreases targets.len(),
{
    if targets.len() == 0 {
        Seq::empty()
    } else {
        let before = failed(targets.drop_last(), outcomes);
        let at = targets.len() - 1;
        if at < outcomes.len() && !outcomes[at] {
            before.push(targets.last())
        } else {
            before
        }
    }
}

/// `after` is the watcher `before` once `event` went into its channel: what
/// its sending end was given has grown by the event, at the end.
pub open spec fn heard(before: SubscriberView, after: SubscriberView, event: WatchEventView) -> bool {
    &&& after.id == before.id
    &&& after.group == before.group
    &&& after.resource_type == before.resource_type
    &&& sent_on(after.observer) == sent_on(before.observer).push(event)
}

/// `after` are the watchers `before`, in their order, once `event` went to
/// those of them that watch the resource type: each of these has heard the
/// event, and every other watcher is as it was, its sending end included.
pub open spec fn delivered_to(
    before: Seq<SubscriberView>,
    after: Seq<SubscriberView>,
    group: Seq<char>,
    resource_type: Seq<char>,
    event: WatchEventView,
) -> bool {
    &&& after.len() == before.len()
    &&& forall|i: int|
        0 <= i < before.len() ==> if of_type(group, resource_type)(before[i]) {
            heard(before[i], #[trigger] after[i], event)
        } else {
            after[i] == before[i]
        }
}

/// `after` are the watchers `before` once `event` was offered to those of them
/// that watch the resource type, with the outcomes `outcomes` in their order:
/// a watcher whose send succeeded was given the event, and nothing else has
/// changed.
pub open spec fn offered(
    before: Seq<SubscriberView>,
    after: Seq<SubscriberView>,
    group: Seq<char>,
    resource_type: Seq<char>,
    event: WatchEventView,
    outcomes: Seq<bool>,
) -> bool
    decreases before.len(),
{
    if before.len() == 0 {
        after.len() == 0 && outcomes.len() == 0
    } else if after.len() == 0 {
        false
    } else if of_type(group, resource_type)(before.last()) {
        &&& outcomes.len() > 0
        &&& after.last().id == before.last().id
        &&& after.last().group == before.last().group
        &&& after.last().resource_type == before.last().resource_type
        &&& sent_on(after.last().observer) == if outcomes.last() {
            sent_on(before.last().observer).push(event)
        } else {
            sent_on(before.last().observer)
        }
        &&& offered(
            before.drop_last(),
            after.drop_last(),
            group,
            resource_type,
            event,
            outcomes.drop_last(),
        )
    } else {
        &&& after.last() == before.last()
        &&& offered(before.drop_last(), after.drop_last(), group, resource_type, event, outcomes)
    }
}

/// The state of a broker.
pub struct BrokerView {
    /// The watchers, in the order of their registration.
    pub subscribers: Seq<SubscriberView>,
    /// The number that the next watcher gets.
    pub next_id: u64,
}

impl BrokerView {
    /// The watchers' numbers grow along the list, and all are below the next
    /// number.
    pub open spec fn wf(self) -> bool {
        &&& forall|i: int, j: int|
            0 <= i < j < self.subscribers.len() ==> self.subscribers[i].id
                < self.subscribers[j].id
        &&& forall|i: int|
            0 <= i < self.subscribers.len() ==> (#[trigger] self.subscribers[i]).id < self.next_id
    }

    /// The broker without watchers.
    pub open spec fn empty() -> BrokerView {
        BrokerView { subscribers: Seq::empty(), next_id: 0 }
    }

    /// The numbers of the watchers of a resource type, in the order of their
    /// registration: an event of that type goes to these, in this order.
    pub open spec fn targets(self, group: Seq<char>, resource_type: Seq<char>) -> Seq<u64> {
        targets_of(self.subscribers, group, resource_type)
    }

    /// The broker after one more watcher of a resource type has registered
    /// with the sending end `observer`: it stands last, under the next number.
    pub open spec fn register(
        self,
        group: Seq<char>,
        resource_type: Seq<char>,
        observer: Sender<WatchEvent>,
    ) -> BrokerView
        recommends
            self.next_id < u64::MAX,
    {
        BrokerView {
            subscribers: self.subscribers.push(
                SubscriberView { id: self.next_id, group, resource_type, observer },
            ),
            next_id: (self.next_id + 1) as u64,
        }
    }

    /// The broker after the watchers with the numbers `gone` were removed.
    pub open spec fn prune(self, gone: Seq<u64>) -> BrokerView {
        BrokerView { subscribers: self.subscribers.filter(not_among(gone)), next_id: self.next_id }
    }
}

struct Subscriber {
    id: u64,
    grt: GroupResourceType,
    observer: Sender<WatchEvent>,
}

impl View for Subscriber {
    type V = SubscriberView;

    closed spec fn view(&self) -> SubscriberView {
        SubscriberView {
            id: self.id,
            group: self.grt.group_view(),
            resource_type: self.grt.resource_type_view(),
            observer: self.observer,
        }
    }
}

spec fn subscribers_view(subscribers: Seq<Subscriber>) -> Seq<SubscriberView> {
    subscribers.map_values(|subscriber: Subscriber| subscriber@)
}

/// Puts an event into a watcher's channel. The call is
/// `std::sync::mpsc::Sender::send`; the result says whether it returned `Ok`,
/// which depends on whether the receiving end still exists. Trusted: that a
/// send which returns `Ok` has put the event into the channel, behind what the
/// sending end was given before, and that a send which returns `Err` has put
/// nothing into it.
#[verifier::external_body]
fn send_event(observer: &mut Sender<WatchEvent>, event: WatchEvent) -> (delivered: bool)
    ensures
        sent_on(*final(observer)) == if delivered {
            sent_on(*old(observer)).push(event@)
        } else {
            sent_on(*old(observer))
        },
{
    observer.send(event).is_ok()
}

/// A write to `gone` of a number that no watcher of a list has changes nothing
/// of what remains of the list.
proof fn lemma_not_among_push(subscribers: Seq<SubscriberView>, gone: Seq<u64>, id: u64)
    requires
        forall|i: int| 0 <= i < subscribers.len() ==> (#[trigger] subscribers[i]).id != id,
    ensures
        subscribers.filter(not_among(gone.push(id))) == subscribers.filter(not_among(gone)),
    decreases subscribers.len(),
{
    reveal(Seq::filter);
    if subscribers.len() > 0 {
        let rest = subscribers.drop_last();
        let last = subscribers.last();
        assert forall|i: int| 0 <= i < rest.len() implies (#[trigger] rest[i]).id != id by {
            assert(rest[i] == subscribers[i]);
        }
        lemma_not_among_push(rest, gone, id);
        if gone.contains(last.id) {
            let k = choose|k: int| 0 <= k < gone.len() && gone[k] == last.id;
            assert(gone.push(id)[k] == last.id);
        }
        if gone.push(id).contains(last.id) {
            let k = choose|k: int| 0 <= k < gone.push(id).len() && gone.push(id)[k] == last.id;
            assert(subscribers[subscribers.len() - 1].id != id);
            assert(gone[k] == last.id);
        }
    }
}

/// Each watcher that remains of a list after a choice was in the list, and
/// those that remain keep their order.
proof fn lemma_filter_keeps_order(
    subscribers: Seq<SubscriberView>,
    chosen: spec_fn(SubscriberView) -> bool,
    bound: u64,
)
    requires
        forall|i: int, j: int|
            0 <= i < j < subscribers.len() ==> subscribers[i].id < subscribers[j].id,
        forall|i: int| 0 <= i < subscribers.len() ==> (#[trigger] subscribers[i]).id < bound,
    ensures
        forall|i: int, j: int|
            0 <= i < j < subscribers.filter(chosen).len() ==> subscribers.filter(chosen)[i].id
                < subscribers.filter(chosen)[j].id,
        forall|i: int|
            0 <= i < subscribers.filter(chosen).len() ==> (#[trigger] subscribers.filter(
                chosen,
            )[i]).id < bound && chosen(subscribers.filter(chosen)[i]),
    decreases subscribers.len(),
{
    reveal(Seq::filter);
    if subscribers.len() > 0 {
        let rest = subscribers.drop_last();
        let last = subscribers.last();
        let some = subscribers.filter(chosen);
        let fewer = rest.filter(chosen);
        assert forall|i: int, j: int| 0 <= i < j < rest.len() implies rest[i].id
            < rest[j].id by {
            assert(rest[i] == subscribers[i] && rest[j] == subscribers[j]);
        }
        assert forall|i: int| 0 <= i < rest.len() implies (#[trigger] rest[i]).id < last.id by {
            assert(rest[i] == subscribers[i]);
        }
        lemma_filter_keeps_order(rest, chosen, last.id);
        assert(subscribers[subscribers.len() - 1].id < bound);
        assert(some == if chosen(last) {
            fewer.push(last)
        } else {
            fewer
        });
        assert forall|i: int| 0 <= i < some.len() implies (#[trigger] some[i]).id < bound
            && chosen(some[i]) by {
            if i < fewer.len() {
                assert(some[i] == fewer[i]);
            }
        }
        assert forall|i: int, j: int| 0 <= i < j < some.len() implies some[i].id
            < some[j].id by {
            assert(some[i] == fewer[i]);
            if j < fewer.len() {
                assert(some[j] == fewer[j]);
            }
        }
    }
}

/// The watchers' numbers of a well-formed broker's resource type grow along
/// the list: each watcher is a target once, and earlier watchers come first.
pub proof fn lemma_targets_in_order(broker: BrokerView, group: Seq<char>, resource_type: Seq<char>)
    requires
        broker.wf(),
    ensures
        forall|i: int, j: int|
            0 <= i < j < broker.targets(group, resource_type).len() ==> broker.targets(
                group,
                resource_type,
            )[i] < broker.targets(group, resource_type)[j],
        broker.targets(group, resource_type).no_duplicates(),
        forall|i: int|
            0 <= i < broker.targets(group, resource_type).len() ==> (#[trigger] broker.targets(
                group,
                resource_type,
            )[i]) < broker.next_id,
{
    lemma_filter_keeps_order(broker.subscribers, of_type(group, resource_type), broker.next_id);
    let chosen = broker.subscribers.filter(of_type(group, resource_type));
    let targets = broker.targets(group, resource_type);
    assert forall|i: int, j: int| 0 <= i < j < targets.len() implies targets[i] < targets[j] by {
        assert(targets[i] == chosen[i].id && targets[j] == chosen[j].id);
    }
    assert forall|i: int| 0 <= i < targets.len() implies (#[trigger] targets[i])
        < broker.next_id by {
        assert(targets[i] == chosen[i].id);
    }
}

/// Removing no watcher leaves a broker as it is.
pub proof fn lemma_prune_nothing(broker: BrokerView)
    ensures
        broker.prune(Seq::empty()) == broker,
        failed(Seq::empty(), Seq::empty()) == Seq::<u64>::empty(),
{
    let all = broker.subscribers;
    let stay = all.filter(not_among(Seq::empty()));
    assert(stay =~= all) by {
        lemma_filter_all(all, not_among(Seq::empty()));
    }
}

/// A choice that every item of a list meets leaves the list as it is.
proof fn lemma_filter_all(
    subscribers: Seq<SubscriberView>,
    chosen: spec_fn(SubscriberView) -> bool,
)
    requires
        forall|i: int| 0 <= i < subscribers.len() ==> chosen(#[trigger] subscribers[i]),
    ensures
        subscribers.filter(chosen) == subscribers,
    decreases subscribers.len(),
{
    reveal(Seq::filter);
    if subscribers.len() > 0 {
        let rest = subscribers.drop_last();
        assert forall|i: int| 0 <= i < rest.len() implies chosen(#[trigger] rest[i]) by {
            assert(rest[i] == subscribers[i]);
        }
        lemma_filter_all(rest, chosen);
        assert(chosen(subscribers[subscribers.len() - 1]));
        assert(rest.push(subscribers.last()) =~= subscribers);
    }
}

/// Removing watchers keeps a broker well formed.
pub proof fn lemma_prune_wf(broker: BrokerView, gone: Seq<u64>)
    requires
        broker.wf(),
    ensures
        broker.prune(gone).wf(),
{
    lemma_filter_keeps_order(broker.subscribers, not_among(gone), broker.next_id);
}

/// The targets of a list with one more watcher at its end.
pub proof fn lemma_targets_push(
    subscribers: Seq<SubscriberView>,
    last: SubscriberView,
    group: Seq<char>,
    resource_type: Seq<char>,
)
    ensures
        targets_of(subscribers.push(last), group, resource_type) == if of_type(
            group,
            resource_type,
        )(last) {
            targets_of(subscribers, group, resource_type).push(last.id)
        } else {
            targets_of(subscribers, group, resource_type)
        },
{
    reveal(Seq::filter);
    let chosen = subscribers.filter(of_type(group, resource_type));
    assert(subscribers.push(last).drop_last() =~= subscribers);
    if of_type(group, resource_type)(last) {
        assert(targets_of(subscribers.push(last), group, resource_type) =~= targets_of(
            subscribers,
            group,
            resource_type,
        ).push(last.id));
    }
}

/// Which targets leave depends on the outcomes of the targets alone: entries
/// behind the last target's do not count.
pub proof fn lemma_failed_entries(targets: Seq<u64>, outcomes: Seq<bool>, others: Seq<bool>)
    requires
        outcomes.len() >= targets.len(),
        others.len() >= targets.len(),
        forall|i: int| 0 <= i < targets.len() ==> outcomes[i] == others[i],
    ensures
        failed(targets, outcomes) == failed(targets, others),
    decreases targets.len(),
{
    if targets.len() > 0 {
        lemma_failed_entries(targets.drop_last(), outcomes, others);
    }
}

/// Every target that leaves is one of the targets.
pub proof fn lemma_failed_are_targets(targets: Seq<u64>, outcomes: Seq<bool>)
    ensures
        forall|k: int|
            0 <= k < failed(targets, outcomes).len() ==> targets.contains(
                #[trigger] failed(targets, outcomes)[k],
            ),
    decreases targets.len(),
{
    if targets.len() > 0 {
        let rest = targets.drop_last();
        lemma_failed_are_targets(rest, outcomes);
        let fewer = failed(rest, outcomes);
        assert forall|k: int| 0 <= k < failed(targets, outcomes).len() implies targets.contains(
            #[trigger] failed(targets, outcomes)[k],
        ) by {
            if k < fewer.len() {
                assert(rest.contains(fewer[k]));
                let i = choose|i: int| 0 <= i < rest.len() && rest[i] == fewer[k];
                assert(targets[i] == fewer[k]);
            } else {
                assert(targets[targets.len() - 1] == failed(targets, outcomes)[k]);
            }
        }
    }
}

/// What an offer followed by the removal of the watchers whose send failed
/// comes to: the watchers keep their numbers and types, there is one outcome
/// for each target, and of the watchers that stay each one of the type has
/// heard the event while every other is as it was.
pub proof fn lemma_offered(
    before: Seq<SubscriberView>,
    after: Seq<SubscriberView>,
    group: Seq<char>,
    resource_type: Seq<char>,
    event: WatchEventView,
    outcomes: Seq<bool>,
)
    requires
        offered(before, after, group, resource_type, event, outcomes),
        forall|i: int, j: int| 0 <= i < j < before.len() ==> before[i].id < before[j].id,
    ensures
        after.len() == before.len(),
        forall|i: int| 0 <= i < before.len() ==> (#[trigger] after[i]).id == before[i].id,
        targets_of(after, group, resource_type) == targets_of(before, group, resource_type),
        outcomes.len() == targets_of(before, group, resource_type).len(),
        delivered_to(
            before.filter(not_among(failed(targets_of(before, group, resource_type), outcomes))),
            after.filter(not_among(failed(targets_of(before, group, resource_type), outcomes))),
            group,
            resource_type,
            event,
        ),
    decreases before.len(),
{
    reveal(Seq::filter);
    let targets = targets_of(before, group, resource_type);
    let gone = failed(targets, outcomes);
    if before.len() == 0 {
        assert(after =~= Seq::empty());
        assert(targets_of(after, group, resource_type) =~= targets);
    } else {
        let rest = before.drop_last();
        let rest_after = after.drop_last();
        let x = before.last();
        let y = after.last();
        let wanted = of_type(group, resource_type)(x);
        let fewer = if wanted {
            outcomes.drop_last()
        } else {
            outcomes
        };
        assert forall|i: int, j: int| 0 <= i < j < rest.len() implies rest[i].id < rest[j].id by {
            assert(rest[i] == before[i] && rest[j] == before[j]);
        }
        lemma_offered(rest, rest_after, group, resource_type, event, fewer);
        let rest_targets = targets_of(rest, group, resource_type);
        let rest_gone = failed(rest_targets, fewer);
        assert(before =~= rest.push(x));
        assert(after =~= rest_after.push(y));
        lemma_targets_push(rest, x, group, resource_type);
        lemma_targets_push(rest_after, y, group, resource_type);
        assert forall|i: int| 0 <= i < before.len() implies (#[trigger] after[i]).id
            == before[i].id by {
            if i < rest.len() {
                assert(rest_after[i].id == rest[i].id);
            }
        }
        // The numbers that left among the earlier watchers are below the last watcher's.
        lemma_failed_are_targets(rest_targets, fewer);
        assert forall|i: int| 0 <= i < rest.len() implies (#[trigger] rest[i]).id < x.id by {
            assert(rest[i] == before[i]);
        }
        lemma_targets_in_order(
            BrokerView { subscribers: rest, next_id: x.id },
            group,
            resource_type,
        );
        assert forall|k: int| 0 <= k < rest_gone.len() implies (#[trigger] rest_gone[k])
            != x.id by {
            assert(rest_targets.contains(rest_gone[k]));
            let i = choose|i: int| 0 <= i < rest_targets.len() && rest_targets[i] == rest_gone[k];
            assert(rest_targets[i] < x.id);
        }
        if wanted {
            assert(targets.drop_last() =~= rest_targets);
            lemma_failed_entries(rest_targets, outcomes, fewer);
        }
        let leaves = wanted && !outcomes.last();
        assert(gone == if leaves {
            rest_gone.push(x.id)
        } else {
            rest_gone
        });
        assert forall|i: int| 0 <= i < rest.len() implies (#[trigger] rest[i]).id != x.id by {
            assert(rest[i] == before[i]);
        }
        assert forall|i: int| 0 <= i < rest_after.len() implies (#[trigger] rest_after[i]).id
            != x.id by {
            assert(rest_after[i].id == rest[i].id);
        }
        if leaves {
            lemma_not_among_push(rest, rest_gone, x.id);
            lemma_not_among_push(rest_after, rest_gone, x.id);
            assert(gone[rest_gone.len() as int] == x.id);
            assert(gone.contains(x.id));
        } else if gone.contains(x.id) {
            let k = choose|k: int| 0 <= k < gone.len() && gone[k] == x.id;
            assert(rest_gone[k] != x.id);
        }
        let stay = before.filter(not_among(gone));
        let stay_after = after.filter(not_among(gone));
        let rest_stay = rest.filter(not_among(rest_gone));
        let rest_stay_after = rest_after.filter(not_among(rest_gone));
        assert(rest.filter(not_among(gone)) == rest_stay);
        assert(rest_after.filter(not_among(gone)) == rest_stay_after);
        if leaves {
            assert(stay == rest_stay);
            assert(stay_after == rest_stay_after);
        } else {
            assert(stay == rest_stay.push(x));
            assert(stay_after == rest_stay_after.push(y));
            assert forall|i: int| 0 <= i < stay.len() implies if of_type(group, resource_type)(
                stay[i],
            ) {
                heard(stay[i], #[trigger] stay_after[i], event)
            } else {
                stay_after[i] == stay[i]
            } by {
                if i < rest_stay.len() {
                    assert(stay[i] == rest_stay[i]);
                    assert(stay_after[i] == rest_stay_after[i]);
                }
            }
        }
    }
}

/// The broker: for each resource type, the watchers that want its events. The
/// watchers of all types stand in one list, in the order of their
/// registration; those of one type are the ones that name it.
pub struct EventBroker {
    observers: Vec<Subscriber>,
    next_id: u64,
}

impl View for EventBroker {
    type V = BrokerView;

    closed spec fn view(&self) -> BrokerView {
        BrokerView { subscribers: subscribers_view(self.observers@), next_id: self.next_id }
    }
}

impl EventBroker {
    #[verifier::type_invariant]
    pub open spec fn valid(&self) -> bool {
        self@.wf()
    }

    /// A broker without watchers.
    pub fn new() -> (r: EventBroker)
        ensures
            r@ == BrokerView::empty(),
    {
        let broker = EventBroker { observers: Vec::new(), next_id: 0 };
        assert(broker@.subscribers =~= BrokerView::empty().subscribers);
        broker
    }

    /// Registers a watcher of a resource type, behind all watchers that are
    /// there, and returns the number by which the broker knows it. The sending
    /// end is kept as it is given: nothing is sent to it, and the watchers that
    /// are there keep theirs. The broker has 2^64 - 1 numbers and gives none
    /// twice; once they are used up it takes no watcher and returns `None`.
    pub fn register(&mut self, registration: (GroupResourceType, Sender<WatchEvent>)) -> (r: Option<
        u64,
    >)
        ensures
            match r {
                Some(id) => id == old(self)@.next_id && id < u64::MAX && final(self)@ == old(
                    self,
                )@.register(
                    registration.0.group_view(),
                    registration.0.resource_type_view(),
                    registration.1,
                ),
                None => old(self)@.next_id == u64::MAX && final(self)@ == old(self)@,
            },
    {
        proof {
            use_type_invariant(&*self);
        }
        if self.next_id == u64::MAX {
            return None;
        }
        let id = self.next_id;
        let (grt, observer) = registration;
        let ghost start = self@;
        let ghost before = self.observers@;
        let mut observers: Vec<Subscriber> = Vec::new();
        core::mem::swap(&mut self.observers, &mut observers);
        observers.push(Subscriber { id, grt, observer });
        proof {
            assert(subscribers_view(observers@) =~= subscribers_view(before).push(
                SubscriberView {
                    id,
                    group: registration.0.group_view(),
                    resource_type: registration.0.resource_type_view(),
                    observer: registration.1,
                },
            ));
        }
        proof {
            let list = subscribers_view(observers@);
            assert forall|i: int, j: int| 0 <= i < j < list.len() implies list[i].id
                < list[j].id by {
                assert(list[i] == start.subscribers[i]);
                if j < start.subscribers.len() {
                    assert(list[j] == start.subscribers[j]);
                }
            }
            assert forall|i: int| 0 <= i < list.len() implies (#[trigger] list[i]).id < id + 1 by {
                if i < start.subscribers.len() {
                    assert(list[i] == start.subscribers[i]);
                }
            }
        }
        self.next_id = id + 1;
        self.observers = observers;
        Some(id)
    }

    /// Offers a copy of the event to every watcher of its resource type, in the
    /// order of their registration, and returns for each of them whether the
    /// send succeeded. No watcher is removed.
    fn offer(&mut self, event: &WrappedWatchEvent) -> (outcomes: Vec<bool>)
        ensures
            offered(
                old(self)@.subscribers,
                final(self)@.subscribers,
                event.group_view(),
                event.resource_type_view(),
                event.event_view(),
                outcomes@,
            ),
            final(self)@.next_id == old(self)@.next_id,
    {
        proof {
            use_type_invariant(&*self);
        }
        let ghost start = self@;
        let ghost group = event.group_view();
        let ghost resource_type = event.resource_type_view();
        let ghost change = event.event_view();
        let mut observers: Vec<Subscriber> = Vec::new();
        core::mem::swap(&mut self.observers, &mut observers);
        let ghost all = subscribers_view(observers@);
        let mut kept: Vec<Subscriber> = Vec::new();
        let mut outcomes: Vec<bool> = Vec::new();
        proof {
            assert(all.take(0) =~= Seq::empty());
            assert(subscribers_view(kept@) =~= Seq::empty());
        }
        for subscriber in it: observers
            invariant
                subscribers_view(it.seq()) == all,
                all == start.subscribers,
                group == event.group_view(),
                resource_type == event.resource_type_view(),
                change == event.event_view(),
                kept@.len() == it.index(),
                forall|i: int| 0 <= i < kept@.len() ==> (#[trigger] kept@[i]).id == all[i].id,
                offered(
                    all.take(it.index() as int),
                    subscribers_view(kept@),
                    group,
                    resource_type,
                    change,
                    outcomes@,
                ),
        {
            let ghost at = it.index() as int;
            let ghost before = subscribers_view(kept@);
            let ghost earlier = outcomes@;
            let ghost was = subscriber@;
            let mut subscriber = subscriber;
            proof {
                assert(all.take(at + 1).drop_last() =~= all.take(at));
                assert(all.take(at + 1).last() == was);
            }
            if subscriber.grt == *event.resource_type() {
                let delivered = send_event(&mut subscriber.observer, event.event().clone());
                outcomes.push(delivered);
                assert(outcomes@.drop_last() =~= earlier);
            }
            kept.push(subscriber);
            proof {
                let after = subscribers_view(kept@);
                assert(after.drop_last() =~= before);
                assert(after.last() == subscriber@);
            }
        }
        proof {
            assert(all.take(all.len() as int) =~= all);
            let list = subscribers_view(kept@);
            assert forall|i: int, j: int| 0 <= i < j < list.len() implies list[i].id
                < list[j].id by {
                assert(list[i].id == kept@[i].id && list[j].id == kept@[j].id);
            }
            assert forall|i: int| 0 <= i < list.len() implies (#[trigger] list[i]).id
                < self.next_id by {
                assert(list[i].id == kept@[i].id);
            }
        }
        self.observers = kept;
        outcomes
    }

    /// Settles what the sends of one event came to. `sent` says of each watcher
    /// of the resource type, in the order of their registration, whether its
    /// send succeeded. The watchers whose send failed are removed, and their
    /// numbers returned in that order; a watcher of the type without an entry
    /// stays, and so does every watcher of another type.
    pub fn settle(&mut self, grt: &GroupResourceType, sent: &Vec<bool>) -> (gone: Vec<u64>)
        ensures
            gone@ == failed(
                old(self)@.targets(grt.group_view(), grt.resource_type_view()),
                sent@,
            ),
            final(self)@ == old(self)@.prune(gone@),
    {
        proof {
            use_type_invariant(&*self);
        }
        let ghost start = self@;
        let ghost group = grt.group_view();
        let ghost resource_type = grt.resource_type_view();
        let mut observers: Vec<Subscriber> = Vec::new();
        core::mem::swap(&mut self.observers, &mut observers);
        let ghost all = subscribers_view(observers@);
        let total = observers.len();
        let mut kept: Vec<Subscriber> = Vec::with_capacity(total);
        let mut gone: Vec<u64> = Vec::new();
        let mut rank: usize = 0;
        proof {
            reveal(Seq::filter);
            assert(subscribers_view(kept@) =~= all.take(0).filter(not_among(gone@)));
            assert(targets_of(all.take(0), group, resource_type) =~= Seq::empty());
        }
        for subscriber in it: observers
            invariant
                subscribers_view(it.seq()) == all,
                start.wf(),
                all == start.subscribers,
                group == grt.group_view(),
                resource_type == grt.resource_type_view(),
                subscribers_view(kept@) == all.take(it.index() as int).filter(not_among(gone@)),
                rank == targets_of(all.take(it.index() as int), group, resource_type).len(),
                rank <= it.index(),
                all.len() == total,
                gone@ == failed(
                    targets_of(all.take(it.index() as int), group, resource_type),
                    sent@,
                ),
                forall|k: int, j: int|
                    0 <= k < gone@.len() && it.index() <= j < all.len() ==> #[trigger] gone@[k]
                        < (#[trigger] all[j]).id,
        {
            let ghost at = it.index() as int;
            let ghost seen = all.take(at);
            let ghost targets = targets_of(seen, group, resource_type);
            proof {
                reveal(Seq::filter);
                assert(all.take(at + 1).drop_last() =~= seen);
                assert(all.take(at + 1).last() == subscriber@);
                assert(all[at] == subscriber@);
                lemma_targets_push(seen, subscriber@, group, resource_type);
                assert(all.take(at + 1) =~= seen.push(subscriber@));
                assert forall|k: int| 0 <= k < gone@.len() implies (#[trigger] gone@[k])
                    < subscriber.id by {
                    assert(gone@[k] < all[at].id);
                }
            }
            let wanted = subscriber.grt == *grt;
            let stays = if wanted {
                let delivered = rank >= sent.len() || sent[rank];
                proof {
                    assert(targets.push(subscriber.id).drop_last() =~= targets);
                    assert(at < all.len());
                }
                rank = rank + 1;
                delivered
            } else {
                true
            };
            if stays {
                let ghost before = kept@;
                kept.push(subscriber);
                proof {
                    assert(subscribers_view(kept@) =~= subscribers_view(before).push(all[at]));
                }
            } else {
                let ghost before = gone@;
                gone.push(subscriber.id);
                proof {
                    assert forall|i: int| 0 <= i < seen.len() implies (#[trigger] seen[i]).id
                        != subscriber.id by {
                        assert(seen[i] == all[i]);
                        assert(all[i].id < all[at].id);
                    }
                    lemma_not_among_push(seen, before, subscriber.id);
                    assert(gone@[before.len() as int] == subscriber.id);
                    assert forall|k: int, j: int|
                        0 <= k < gone@.len() && at + 1 <= j < all.len() implies #[trigger] gone@[k]
                        < (#[trigger] all[j]).id by {
                        if k < before.len() {
                            assert(gone@[k] == before[k]);
                        } else {
                            assert(all[at].id < all[j].id);
                        }
                    }
                }
            }
        }
        proof {
            assert(all.take(all.len() as int) =~= all);
            lemma_prune_wf(start, gone@);
        }
        self.observers = kept;
        gone
    }

    /// Sends a copy of the event to every watcher of its resource type, in the
    /// order of their registration. A watcher whose send fails, because the
    /// receiving end of its channel is gone, is removed; the numbers of those
    /// watchers are returned, in that order. Every watcher of the type that
    /// stays has been given the event, once, behind what it was given before.
    /// The watchers of other types stay as they are and are given nothing.
    pub fn new_event(&mut self, event: WrappedWatchEvent) -> (gone: Vec<u64>)
        ensures
            exists|sent: Seq<bool>|
                sent.len() == old(self)@.targets(
                    event.group_view(),
                    event.resource_type_view(),
                ).len() && gone@ == #[trigger] failed(
                    old(self)@.targets(event.group_view(), event.resource_type_view()),
                    sent,
                ),
            final(self)@.next_id == old(self)@.next_id,
            delivered_to(
                old(self)@.prune(gone@).subscribers,
                final(self)@.subscribers,
                event.group_view(),
                event.resource_type_view(),
                event.event_view(),
            ),
    {
        proof {
            use_type_invariant(&*self);
        }
        let ghost start = self@;
        let outcomes = self.offer(&event);
        let ghost offered_to = self@;
        let gone = self.settle(event.resource_type(), &outcomes);
        proof {
            lemma_offered(
                start.subscribers,
                offered_to.subscribers,
                event.group_view(),
                event.resource_type_view(),
                event.event_view(),
                outcomes@,
            );
            assert(gone@ == failed(
                start.targets(event.group_view(), event.resource_type_view()),
                outcomes@,
            ));
        }
        gone
    }

    /// The numbers of the watchers of a resource type, in the order of their
    /// registration.
    pub fn subscribers(&self, grt: &GroupResourceType) -> (r: Vec<u64>)
        ensures
            r@ == self@.targets(grt.group_view(), grt.resource_type_view()),
    {
        let ghost all = subscribers_view(self.observers@);
        let ghost chosen = of_type(grt.group_view(), grt.resource_type_view());
        let ghost number = |subscriber: SubscriberView| subscriber.id;
        let mut ids: Vec<u64> = Vec::new();
        let mut i: usize = 0;
        proof {
            reveal(Seq::filter);
            assert(ids@ =~= all.take(0).filter(chosen).map_values(number));
        }
        while i < self.observers.len()
            invariant
                i <= self.observers@.len(),
                all == subscribers_view(self.observers@),
                chosen == of_type(grt.group_view(), grt.resource_type_view()),
                number == |subscriber: SubscriberView| subscriber.id,
                ids@ == all.take(i as int).filter(chosen).map_values(number),
            decreases self.observers@.len() - i,
        {
            proof {
                reveal(Seq::filter);
                assert(all.take(i + 1).drop_last() =~= all.take(i as int));
                assert(all.take(i + 1).last() == self.observers@[i as int]@);
            }
            if self.observers[i].grt == *grt {
                ids.push(self.observers[i].id);
                assert(ids@ =~= all.take(i + 1).filter(chosen).map_values(number));
            }
            i = i + 1;
        }
        assert(all.take(self.observers@.len() as int) =~= all);
        ids
    }
}

/// A watcher of a resource type is among the targets of that type.
pub proof fn lemma_is_target(
    broker: BrokerView,
    group: Seq<char>,
    resource_type: Seq<char>,
    at: int,
)
    requires
        0 <= at < broker.subscribers.len(),
        of_type(group, resource_type)(broker.subscribers[at]),
    ensures
        broker.targets(group, resource_type).contains(broker.subscribers[at].id),
{
    let chosen = broker.subscribers.filter(of_type(group, resource_type));
    broker.subscribers.lemma_filter_contains(of_type(group, resource_type), at);
    let i = choose|i: int| 0 <= i < chosen.len() && chosen[i] == broker.subscribers[at];
    assert(broker.targets(group, resource_type)[i] == broker.subscribers[at].id);
}

/// The targets that remain after watchers were removed are the old targets
/// without the removed ones, in their old order.
pub proof fn lemma_remaining_targets(
    broker: BrokerView,
    group: Seq<char>,
    resource_type: Seq<char>,
    gone: Seq<u64>,
)
    ensures
        broker.prune(gone).targets(group, resource_type) == broker.targets(
            group,
            resource_type,
        ).filter(|id: u64| !gone.contains(id)),
    decreases broker.subscribers.len(),
{
    reveal(Seq::filter);
    let stays = |id: u64| !gone.contains(id);
    let number = |subscriber: SubscriberView| subscriber.id;
    let chosen = of_type(group, resource_type);
    let all = broker.subscribers;
    if all.len() == 0 {
        assert(broker.prune(gone).targets(group, resource_type) =~= broker.targets(
            group,
            resource_type,
        ).filter(stays));
    } else {
        let rest = BrokerView { subscribers: all.drop_last(), next_id: broker.next_id };
        let last = all.last();
        lemma_remaining_targets(rest, group, resource_type, gone);
        let left = all.drop_last().filter(not_among(gone)).filter(chosen).map_values(number);
        let right = all.drop_last().filter(chosen).map_values(number).filter(stays);
        assert(left == right);
        if chosen(last) {
            let picked = all.drop_last().filter(chosen);
            assert(picked.push(last).map_values(number) =~= picked.map_values(number).push(
                last.id,
            ));
            assert(picked.map_values(number).push(last.id).drop_last() =~= picked.map_values(
                number,
            ));
            if not_among(gone)(last) {
                let survivors = all.drop_last().filter(not_among(gone));
                assert(survivors.push(last).drop_last() =~= survivors);
                assert(survivors.filter(chosen).push(last).map_values(number) =~= left.push(
                    last.id,
                ));
            }
        } else if not_among(gone)(last) {
            let survivors = all.drop_last().filter(not_among(gone));
            assert(survivors.push(last).drop_last() =~= survivors);
        }
    }
}

/// Fan-out. A watcher that registers after an event was published, whatever
/// that event removed, is no target of it. It is a target of the next event of
/// its resource type: the last one, behind the earlier watchers of the type
/// that were not removed, which stay targets in their order. The targets of
/// every other resource type are as they were.
pub proof fn lemma_fan_out(
    before: BrokerView,
    group: Seq<char>,
    resource_type: Seq<char>,
    observer: Sender<WatchEvent>,
    gone: Seq<u64>,
)
    requires
        before.wf(),
        before.next_id < u64::MAX,
    ensures
        !before.targets(group, resource_type).contains(before.next_id),
        before.prune(gone).register(group, resource_type, observer).wf(),
        before.prune(gone).register(group, resource_type, observer).targets(group, resource_type)
            == before.targets(group, resource_type).filter(|id: u64| !gone.contains(id)).push(
            before.next_id,
        ),
        forall|other_group: Seq<char>, other_type: Seq<char>|
            other_group != group || other_type != resource_type ==> #[trigger] before.prune(
                gone,
            ).register(group, resource_type, observer).targets(other_group, other_type)
                == before.prune(gone).targets(other_group, other_type),
{
    reveal(Seq::filter);
    let number = |subscriber: SubscriberView| subscriber.id;
    let left = before.prune(gone);
    let after = left.register(group, resource_type, observer);
    let watcher = SubscriberView { id: before.next_id, group, resource_type, observer };
    lemma_targets_in_order(before, group, resource_type);
    if before.targets(group, resource_type).contains(before.next_id) {
        let i = choose|i: int|
            0 <= i < before.targets(group, resource_type).len() && before.targets(
                group,
                resource_type,
            )[i] == before.next_id;
        assert(before.targets(group, resource_type)[i] < before.next_id);
    }
    lemma_prune_wf(before, gone);
    assert(after.subscribers.drop_last() =~= left.subscribers);
    lemma_remaining_targets(before, group, resource_type, gone);
    let picked = left.subscribers.filter(of_type(group, resource_type));
    assert(picked.push(watcher).map_values(number) =~= picked.map_values(number).push(
        before.next_id,
    ));
    assert forall|i: int, j: int| 0 <= i < j < after.subscribers.len() implies after.subscribers[i].id
        < after.subscribers[j].id by {
        assert(after.subscribers[i] == left.subscribers[i]);
        if j < left.subscribers.len() {
            assert(after.subscribers[j] == left.subscribers[j]);
        }
    }
    assert forall|i: int| 0 <= i < after.subscribers.len() implies (#[trigger] after.subscribers[i]).id
        < after.next_id by {
        if i < left.subscribers.len() {
            assert(after.subscribers[i] == left.subscribers[i]);
        }
    }
}

/// One event goes to each watcher of its type once: a broker's targets hold no
/// number twice, and a watcher that no event removed is a target of every later
/// event of its type.
pub proof fn lemma_every_watcher_hears(
    broker: BrokerView,
    group: Seq<char>,
    resource_type: Seq<char>,
    gone: Seq<u64>,
    watcher: u64,
)
    requires
        broker.wf(),
        broker.targets(group, resource_type).contains(watcher),
        !gone.contains(watcher),
    ensures
        broker.targets(group, resource_type).no_duplicates(),
        broker.prune(gone).targets(group, resource_type).contains(watcher),
{
    lemma_targets_in_order(broker, group, resource_type);
    lemma_remaining_targets(broker, group, resource_type, gone);
    let targets = broker.targets(group, resource_type);
    let i = choose|i: int| 0 <= i < targets.len() && targets[i] == watcher;
    targets.lemma_filter_contains(|id: u64| !gone.contains(id), i);
}

/// An event is heard by every watcher of its type that stays, and by no other.
/// After an event went to the watchers that stay, each of them is still there:
/// one of the event's type has been given the event, once and behind what it
/// was given before, and one of another type is as it was, its sending end
/// included.
pub proof fn lemma_event_is_heard(
    before: BrokerView,
    after: Seq<SubscriberView>,
    group: Seq<char>,
    resource_type: Seq<char>,
    event: WatchEventView,
    gone: Seq<u64>,
    at: int,
)
    requires
        delivered_to(before.prune(gone).subscribers, after, group, resource_type, event),
        0 <= at < before.subscribers.len(),
        !gone.contains(before.subscribers[at].id),
    ensures
        exists|k: int|
            0 <= k < after.len() && if of_type(group, resource_type)(before.subscribers[at]) {
                heard(before.subscribers[at], #[trigger] after[k], event)
            } else {
                after[k] == before.subscribers[at]
            },
{
    let stay = before.prune(gone).subscribers;
    before.subscribers.lemma_filter_contains(not_among(gone), at);
    let k = choose|k: int| 0 <= k < stay.len() && stay[k] == before.subscribers[at];
    assert(if of_type(group, resource_type)(stay[k]) {
        heard(stay[k], after[k], event)
    } else {
        after[k] == stay[k]
    });
}

/// Only watchers of the event's type leave: whatever the sends came to, a
/// watcher of another type is not among those that are removed.
pub proof fn lemma_other_types_stay(
    broker: BrokerView,
    group: Seq<char>,
    resource_type: Seq<char>,
    sent: Seq<bool>,
    at: int,
)
    requires
        broker.wf(),
        0 <= at < broker.subscribers.len(),
        !of_type(group, resource_type)(broker.subscribers[at]),
    ensures
        !failed(broker.targets(group, resource_type), sent).contains(broker.subscribers[at].id),
{
    let targets = broker.targets(group, resource_type);
    let gone = failed(targets, sent);
    let id = broker.subscribers[at].id;
    if gone.contains(id) {
        let k = choose|k: int| 0 <= k < gone.len() && gone[k] == id;
        lemma_failed_are_targets(targets, sent);
        assert(targets.contains(gone[k]));
        let i = choose|i: int| 0 <= i < targets.len() && targets[i] == id;
        let chosen = broker.subscribers.filter(of_type(group, resource_type));
        assert(chosen[i].id == id);
        broker.subscribers.lemma_filter_pred(of_type(group, resource_type), i);
        assert(chosen.contains(chosen[i]));
        broker.subscribers.lemma_filter_contains_rev(of_type(group, resource_type), chosen[i]);
        let j = choose|j: int|
            0 <= j < broker.subscribers.len() && broker.subscribers[j] == chosen[i];
        if j < at {
            assert(broker.subscribers[j].id < broker.subscribers[at].id);
        } else if at < j {
            assert(broker.subscribers[at].id < broker.subscribers[j].id);
        }
    }
}

/// A target whose send succeeded stays, and one whose send failed leaves.
pub proof fn lemma_failed_by_outcome(targets: Seq<u64>, sent: Seq<bool>, at: int)
    requires
        forall|i: int, j: int| 0 <= i < j < targets.len() ==> targets[i] < targets[j],
        0 <= at < targets.len(),
        at < sent.len(),
    ensures
        failed(targets, sent).contains(targets[at]) <==> !sent[at],
    decreases targets.len(),
{
    let rest = targets.drop_last();
    let fewer = failed(rest, sent);
    let all = failed(targets, sent);
    lemma_failed_are_targets(rest, sent);
    if at < rest.len() {
        assert forall|i: int, j: int| 0 <= i < j < rest.len() implies rest[i] < rest[j] by {
            assert(rest[i] == targets[i] && rest[j] == targets[j]);
        }
        lemma_failed_by_outcome(rest, sent, at);
        assert(rest[at] == targets[at]);
        if fewer.contains(targets[at]) {
            let k = choose|k: int| 0 <= k < fewer.len() && fewer[k] == targets[at];
            assert(all[k] == targets[at]);
        }
        if all.contains(targets[at]) {
            let k = choose|k: int| 0 <= k < all.len() && all[k] == targets[at];
            if k < fewer.len() {
                assert(fewer[k] == targets[at]);
            } else {
                assert(targets[at] < targets[targets.len() - 1]);
            }
        }
    } else {
        if !sent[at] {
            assert(all[fewer.len() as int] == targets[at]);
        }
        if all.contains(targets[at]) && sent[at] {
            let k = choose|k: int| 0 <= k < all.len() && all[k] == targets[at];
            assert(rest.contains(fewer[k]));
            let i = choose|i: int| 0 <= i < rest.len() && rest[i] == fewer[k];
            assert(targets[i] < targets[at]);
        }
    }
}

} // verus!
