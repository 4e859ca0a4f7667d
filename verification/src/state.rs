//! State of the API server: the client it asks for simulations, the channel on
//! which it reports transaction statuses, and who waits for them.

use dashmap::DashMap;
use tokio::sync::broadcast;
use vstd::prelude::*;

verus! {

/// A concurrent hash map.
#[verifier::external_type_specification]
#[verifier::external_body]
#[verifier::reject_recursive_types(K)]
#[verifier::reject_recursive_types(V)]
#[verifier::reject_recursive_types(S)]
pub struct ExDashMap<K, V, S>(dashmap::DashMap<K, V, S>);

/// The sending half of a broadcast channel.
#[verifier::external_type_specification]
#[verifier::external_body]
#[verifier::reject_recursive_types(T)]
pub struct ExSender<T>(tokio::sync::broadcast::Sender<T>);

/// The entries of a map: how many subscribers each transaction has.
pub uninterp spec fn entries(map: DashMap<String, usize>) -> Map<Seq<char>, usize>;

/// How many statuses the channel keeps for a receiver that lags behind.
pub const STATUS_CAPACITY: usize = 1000;

/// `DashMap::new`: a map without entries.
#[verifier::external_body]
fn empty_map() -> (map: DashMap<String, usize>)
    ensures
        (entries(map) == Map::<Seq<char>, usize>::empty()),
{
    DashMap::new()
}

/// `DashMap::entry`, with `and_modify` and `or_insert`: counts the entry of
/// `key` up by one where there is one, and makes it `first` where there is
/// none. Every other entry stays as it is. The map's own locks are free, for
/// nobody else holds the map.
#[verifier::external_body]
fn count_up(map: &mut DashMap<String, usize>, key: String, first: usize)
    requires
        entries(*old(map)).contains_key(key@) ==> entries(*old(map))[key@] < usize::MAX,
    ensures
        entries(*final(map)) == entries(*old(map)).insert(
            key@,
            if entries(*old(map)).contains_key(key@) {
                (entries(*old(map))[key@] + 1) as usize
            } else {
                first
            },
        ),
{
    map.entry(key).and_modify(|count| add_one(count)).or_insert(first);
}

/// `DashMap::get_mut`: applies [`release_one`] to the entry of `key`, and says
/// what it gave; `None` where there is no such entry. Every other entry stays
/// as it is.
#[verifier::external_body]
fn count_down(map: &mut DashMap<String, usize>, key: &str) -> (last: Option<bool>)
    ensures
        !entries(*old(map)).contains_key(key@) ==> {
            &&& last is None
            &&& entries(*final(map)) == entries(*old(map))
        },
        entries(*old(map)).contains_key(key@) ==> {
            &&& last == Some(entries(*old(map))[key@] <= 1)
            &&& entries(*final(map)) == entries(*old(map)).insert(
                key@,
                released(entries(*old(map))[key@]),
            )
        },
{
    map.get_mut(key).map(|mut entry| release_one(&mut entry))
}

/// `DashMap::remove`: takes the entry of `key` out, if there is one.
#[verifier::external_body]
fn forget(map: &mut DashMap<String, usize>, key: &str)
    ensures
        entries(*final(map)) == entries(*old(map)).remove(key@),
{
    map.remove(key);
}

/// `broadcast::channel`: a new channel, opened for `capacity` values: it keeps
/// at least that many for a receiver that lags behind. Its first receiving half
/// is dropped, so it starts without receivers, and nothing was handed to it.
#[verifier::external_body]
fn open_channel<E: Clone>(capacity: usize) -> (channel: StatusChannel<E>)
    requires
        0 < capacity <= usize::MAX / 2,
    ensures
        channel.capacity() == capacity,
        (channel.sent() == Seq::<E>::empty()),
{
    StatusChannel {
        sender: broadcast::channel(capacity).0,
        capacity: Ghost(capacity),
        sent: Ghost(Seq::empty()),
    }
}

/// `Sender::send`: hands `value` to whoever receives from the channel at the
/// moment, and says how many that are; `None`, with the value dropped, where
/// nobody does. How many there are is not stated, for receivers come and go on
/// their own.
#[verifier::external_body]
fn hand_over<E>(channel: &mut StatusChannel<E>, value: E) -> (receivers: Option<usize>)
    ensures
        receivers matches Some(count) ==> count > 0,
        final(channel).sent() == old(channel).sent().push(value),
        final(channel).capacity() == old(channel).capacity(),
        final(channel).handle() == old(channel).handle(),
{
    channel.sender.send(value).ok()
}

/// What is left of a count when one of several subscribers goes: one less.
/// The count of a last subscriber is left as it is, for its entry goes.
pub open spec fn released(count: usize) -> usize {
    if count > 1 {
        (count - 1) as usize
    } else {
        count
    }
}

/// Counts one subscriber more.
fn add_one(count: &mut usize)
    requires
        *old(count) < usize::MAX,
    ensures
        *final(count) == *old(count) + 1,
{
    *count = *count + 1;
}

/// Counts one subscriber less, unless it is the last one, and says whether it
/// is.
fn release_one(count: &mut usize) -> (last: bool)
    ensures
        last == (*old(count) <= 1),
        *final(count) == released(*old(count)),
{
    if *count > 1 {
        *count = *count - 1;
        false
    } else {
        true
    }
}

/// The counts once `tx_id` has one subscriber more.
pub open spec fn with_subscriber(counts: Map<Seq<char>, usize>, tx_id: Seq<char>) -> Map<
    Seq<char>,
    usize,
> {
    if counts.contains_key(tx_id) {
        counts.insert(tx_id, (counts[tx_id] + 1) as usize)
    } else {
        counts.insert(tx_id, 1)
    }
}

/// The counts once `tx_id` has one subscriber less. A transaction whose last
/// subscriber goes is forgotten; one that has none stays without.
pub open spec fn without_subscriber(counts: Map<Seq<char>, usize>, tx_id: Seq<char>) -> Map<
    Seq<char>,
    usize,
> {
    if !counts.contains_key(tx_id) {
        counts
    } else if counts[tx_id] > 1 {
        counts.insert(tx_id, (counts[tx_id] - 1) as usize)
    } else {
        counts.remove(tx_id)
    }
}

/// Whether every transaction that is kept has a subscriber.
pub open spec fn all_subscribed(counts: Map<Seq<char>, usize>) -> bool {
    forall|tx_id: Seq<char>| #[trigger] counts.contains_key(tx_id) ==> counts[tx_id] > 0
}

/// A broadcast channel, with a record of what was handed to it, oldest first.
#[verifier::reject_recursive_types(E)]
pub struct StatusChannel<E> {
    sender: broadcast::Sender<E>,
    capacity: Ghost<usize>,
    sent: Ghost<Seq<E>>,
}

impl<E> StatusChannel<E> {
    /// The sending half of the channel.
    pub closed spec fn handle(&self) -> broadcast::Sender<E> {
        self.sender
    }

    /// The number of values that the channel was opened for.
    pub closed spec fn capacity(&self) -> usize {
        self.capacity@
    }

    /// The values handed to the channel so far.
    pub closed spec fn sent(&self) -> Seq<E> {
        self.sent@
    }

    /// The sending half of the channel, from which receivers subscribe.
    pub fn sender(&self) -> (sender: &broadcast::Sender<E>)
        ensures
            *sender == self.handle(),
    {
        &self.sender
    }
}

/// What the handlers of the API server share. `R` is the client of the
/// ledger's RPC endpoint, `E` the event that reports a transaction's status.
#[verifier::reject_recursive_types(E)]
pub struct AppState<R, E> {
    pub rpc: R,
    pub tx_status_tx: StatusChannel<E>,
    pub tx_subscribers: DashMap<String, usize>,
}

impl<R, E> AppState<R, E> {
    /// The number of subscribers of each transaction that has any.
    pub open spec fn subscribers(&self) -> Map<Seq<char>, usize> {
        entries(self.tx_subscribers)
    }

    /// Whether every transaction that is kept has a subscriber.
    pub open spec fn wf(&self) -> bool {
        all_subscribed(self.subscribers())
    }

    /// Reports a status to whoever listens at the moment, if anyone does.
    pub fn broadcast_status(&mut self, event: E)
        ensures
            final(self).tx_status_tx.sent() == old(self).tx_status_tx.sent().push(event),
            final(self).tx_status_tx.capacity() == old(self).tx_status_tx.capacity(),
            final(self).tx_status_tx.handle() == old(self).tx_status_tx.handle(),
            final(self).rpc == old(self).rpc,
            final(self).tx_subscribers == old(self).tx_subscribers,
    {
        let _ = hand_over(&mut self.tx_status_tx, event);
    }

    /// Counts one subscriber more for the transaction `tx_id`.
    pub fn add_subscriber(&mut self, tx_id: String)
        requires
            old(self).subscribers().contains_key(tx_id@) ==> old(self).subscribers()[tx_id@]
                < usize::MAX,
        ensures
            final(self).subscribers() == with_subscriber(old(self).subscribers(), tx_id@),
            final(self).subscribers().contains_key(tx_id@),
            old(self).wf() ==> final(self).wf(),
            final(self).rpc == old(self).rpc,
            final(self).tx_status_tx == old(self).tx_status_tx,
    {
        count_up(&mut self.tx_subscribers, tx_id, 1);
    }

    /// Counts one subscriber less for the transaction `tx_id`, and forgets the
    /// transaction when that was the last one.
    pub fn remove_subscriber(&mut self, tx_id: &str)
        ensures
            final(self).subscribers() == without_subscriber(old(self).subscribers(), tx_id@),
            old(self).wf() ==> final(self).wf(),
            final(self).rpc == old(self).rpc,
            final(self).tx_status_tx == old(self).tx_status_tx,
    {
        let ghost before = self.subscribers();
        if let Some(last) = count_down(&mut self.tx_subscribers, tx_id) {
            if last {
                forget(&mut self.tx_subscribers, tx_id);
                assert(self.subscribers() =~= before.remove(tx_id@));
            }
        }
    }
}

impl<R, E: Clone> AppState<R, E> {
    /// The state that the server starts in: nobody has subscribed, and nothing
    /// was reported.
    pub fn new(rpc: R) -> (state: AppState<R, E>)
        ensures
            state.rpc == rpc,
            state.tx_status_tx.capacity() == 1000,
            state.tx_status_tx.sent() == Seq::<E>::empty(),
            state.subscribers() == Map::<Seq<char>, usize>::empty(),
            state.wf(),
    {
        AppState {
            rpc,
            tx_status_tx: open_channel(STATUS_CAPACITY),
            tx_subscribers: empty_map(),
        }
    }
}

} // verus!
