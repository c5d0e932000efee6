//! Subscriptions: the standing queries a client has open, and which events
//! they still let through.

use vstd::prelude::*;
use vstd::string::*;
use crate::error::NostrError;
use crate::event::{EventData, NostrEvent};
use crate::filter::{FilterData, NostrFilter};
use crate::seqs::{
    kept, lemma_kept, lemma_kept_distinct, lemma_kept_ends, lemma_kept_same, lemma_kept_step,
    DeepCopy,
};

verus! {

/// One open subscription. It was opened at `created_at`, in seconds, and
/// with `auto_close_after` set it closes by itself that many seconds later.
#[derive(Debug, Clone)]
pub struct Subscription {
    pub id: String,
    pub filter: NostrFilter,
    pub created_at: u64,
    pub auto_close_after: Option<u64>,
}

/// The mathematical content of a `Subscription`.
pub struct SubscriptionData {
    pub id: Seq<char>,
    pub filter: FilterData,
    pub created_at: u64,
    pub auto_close_after: Option<u64>,
}

impl View for Subscription {
    type V = SubscriptionData;

    open spec fn view(&self) -> SubscriptionData {
        SubscriptionData {
            id: self.id@,
            filter: self.filter@,
            created_at: self.created_at,
            auto_close_after: self.auto_close_after,
        }
    }
}

impl SubscriptionData {
    /// The subscription has not closed by itself at time `now`: it has no
    /// auto-close duration, or less than that duration has passed since it
    /// was opened.
    pub open spec fn is_open_at(self, now: u64) -> bool {
        self.auto_close_after matches Some(duration) ==> now < self.created_at + duration
    }

    /// The subscription hands `event` on at time `now`: it is open and the
    /// event meets its filter.
    pub open spec fn delivers(self, event: EventData, now: u64) -> bool {
        self.is_open_at(now) && self.filter.matches(event)
    }
}

impl Subscription {
    /// Whether the subscription has not closed by itself at time `now`.
    pub fn is_open_at(&self, now: u64) -> (open: bool)
        ensures
            open == self@.is_open_at(now),
    {
        match self.auto_close_after {
            None => true,
            Some(duration) => match self.created_at.checked_add(duration) {
                Some(end) => now < end,
                None => true,
            },
        }
    }
}

/// What `subscribe` hands back: the id under which events will arrive, and
/// the events that arrived so far, which are none.
#[derive(Debug, Clone)]
pub struct SubscriptionResult {
    pub subscription_id: String,
    pub events: Vec<NostrEvent>,
}

/// The ids of a list of subscriptions, in order.
pub open spec fn subscription_ids(subscriptions: Seq<SubscriptionData>) -> Seq<Seq<char>> {
    Seq::new(subscriptions.len(), |i: int| subscriptions[i].id)
}

/// The subscriptions without the one of the given id, the others in their
/// order.
pub open spec fn without_subscription(subscriptions: Seq<SubscriptionData>, id: Seq<char>) -> Seq<
    SubscriptionData,
> {
    kept(subscriptions, |s: SubscriptionData| s.id != id)
}

/// The subscriptions that are still open at time `now`, in their order.
pub open spec fn still_open(subscriptions: Seq<SubscriptionData>, now: u64) -> Seq<
    SubscriptionData,
> {
    kept(subscriptions, |s: SubscriptionData| s.is_open_at(now))
}

/// The ids of the subscriptions that have closed by themselves at time
/// `now`, in their order.
pub open spec fn expired_ids(subscriptions: Seq<SubscriptionData>, now: u64) -> Seq<Seq<char>> {
    subscription_ids(kept(subscriptions, |s: SubscriptionData| !s.is_open_at(now)))
}

/// Some subscription of the list has the given id and hands `event` on at
/// time `now`.
pub open spec fn some_delivers(
    subscriptions: Seq<SubscriptionData>,
    id: Seq<char>,
    event: EventData,
    now: u64,
) -> bool {
    exists|i: int|
        0 <= i < subscriptions.len() && (#[trigger] subscriptions[i]).id == id
            && subscriptions[i].delivers(event, now)
}

/// The subscriptions a client has open. No id is in the book twice.
pub struct SubscriptionBook {
    subscriptions: Vec<Subscription>,
}

impl View for SubscriptionBook {
    type V = Seq<SubscriptionData>;

    closed spec fn view(&self) -> Seq<SubscriptionData> {
        Seq::new(self.subscriptions@.len(), |i: int| self.subscriptions@[i]@)
    }
}

/// A copy of a filter.
fn copy_filter(filter: &NostrFilter) -> (copy: NostrFilter)
    ensures
        copy@ == filter@,
{
    NostrFilter {
        ids: filter.ids.deep_copy(),
        authors: filter.authors.deep_copy(),
        kinds: filter.kinds.deep_copy(),
        since: filter.since,
        until: filter.until,
        limit: filter.limit,
        search: filter.search.deep_copy(),
    }
}

/// Which subscriptions of the book a copy takes along.
enum Choice<'a> {
    /// Every subscription.
    All,
    /// Every subscription but the one of the id.
    Not(&'a String),
    /// The subscriptions that are open at the time.
    OpenAt(u64),
    /// The subscriptions that have closed by themselves at the time.
    ClosedAt(u64),
}

impl Choice<'_> {
    /// Whether the choice takes the subscription along.
    spec fn admits(self, subscription: SubscriptionData) -> bool {
        match self {
            Choice::All => true,
            Choice::Not(id) => subscription.id != id@,
            Choice::OpenAt(now) => subscription.is_open_at(now),
            Choice::ClosedAt(now) => !subscription.is_open_at(now),
        }
    }

    /// Whether the choice takes the subscription along.
    fn takes(&self, subscription: &Subscription) -> (taken: bool)
        ensures
            taken == self.admits(subscription@),
    {
        match self {
            Choice::All => true,
            Choice::Not(id) => !(subscription.id == **id),
            Choice::OpenAt(now) => subscription.is_open_at(*now),
            Choice::ClosedAt(now) => !subscription.is_open_at(*now),
        }
    }
}

/// The subscriptions of a list, as plain values.
pub open spec fn subscriptions_view(list: Seq<Subscription>) -> Seq<SubscriptionData> {
    Seq::new(list.len(), |i: int| list[i]@)
}

/// The ids of a list of subscriptions, in order.
fn ids_of(list: &Vec<Subscription>) -> (ids: Vec<String>)
    ensures
        ids.deep_view() == subscription_ids(subscriptions_view(list@)),
{
    let mut ids: Vec<String> = Vec::new();
    let mut i: usize = 0;
    while i < list.len()
        invariant
            i <= list.len(),
            ids.len() == i,
            forall|j: int| 0 <= j < i ==> (#[trigger] ids[j])@ == list[j].id@,
        decreases list.len() - i,
    {
        ids.push(list[i].id.clone());
        i += 1;
    }
    assert(ids.deep_view() =~= subscription_ids(subscriptions_view(list@)));
    ids
}

impl SubscriptionBook {
    #[verifier::type_invariant]
    spec fn in_order(self) -> bool {
        subscription_ids(self@).no_duplicates()
    }

    /// Whether a subscription of the given id is in the book.
    pub open spec fn is_known(&self, id: Seq<char>) -> bool {
        subscription_ids(self@).contains(id)
    }

    /// An empty book.
    pub fn new() -> (book: SubscriptionBook)
        ensures
            book@ == Seq::<SubscriptionData>::empty(),
    {
        let subscriptions: Vec<Subscription> = Vec::new();
        assert(subscriptions_view(subscriptions@) =~= Seq::<SubscriptionData>::empty());
        SubscriptionBook { subscriptions }
    }

    /// Whether a subscription of the given id is in the book.
    pub fn contains(&self, id: &String) -> (found: bool)
        ensures
            found == self.is_known(id@),
    {
        let mut i: usize = 0;
        while i < self.subscriptions.len()
            invariant
                i <= self.subscriptions.len(),
                forall|j: int| 0 <= j < i ==> (#[trigger] subscription_ids(self@)[j]) != id@,
            decreases self.subscriptions.len() - i,
        {
            assert(subscription_ids(self@)[i as int] == self.subscriptions[i as int].id@);
            if self.subscriptions[i].id == *id {
                return true;
            }
            i += 1;
        }
        false
    }

    /// The ids of the subscriptions in the book, in the order in which they
    /// were opened. No id occurs twice.
    pub fn ids(&self) -> (ids: Vec<String>)
        ensures
            ids.deep_view() == subscription_ids(self@),
            subscription_ids(self@).no_duplicates(),
    {
        proof {
            use_type_invariant(self);
        }
        ids_of(&self.subscriptions)
    }

    /// A copy of the subscriptions that the choice takes along, in their
    /// order.
    fn copied(&self, choice: Choice<'_>) -> (copy: Vec<Subscription>)
        ensures
            subscriptions_view(copy@) == kept(
                self@,
                |s: SubscriptionData| choice.admits(s),
            ),
    {
        let mut copy: Vec<Subscription> = Vec::new();
        let mut i: usize = 0;
        let ghost all = self@;
        let ghost keep = |s: SubscriptionData| choice.admits(s);
        proof {
            lemma_kept_ends(all, keep);
            assert(subscriptions_view(copy@) =~= Seq::<SubscriptionData>::empty());
        }
        while i < self.subscriptions.len()
            invariant
                i <= self.subscriptions.len(),
                all == self@,
                all.len() == self.subscriptions.len(),
                keep == (|s: SubscriptionData| choice.admits(s)),
                subscriptions_view(copy@) == kept(all.take(i as int), keep),
            decreases self.subscriptions.len() - i,
        {
            let ghost before = subscriptions_view(copy@);
            proof {
                lemma_kept_step(all, keep, i as int);
            }
            let s = &self.subscriptions[i];
            assert(all[i as int] == s@);
            if choice.takes(s) {
                copy.push(
                    Subscription {
                        id: s.id.clone(),
                        filter: copy_filter(&s.filter),
                        created_at: s.created_at,
                        auto_close_after: s.auto_close_after,
                    },
                );
                assert(subscriptions_view(copy@) =~= before.push(s@));
            }
            i += 1;
        }
        proof {
            lemma_kept_ends(all, keep);
        }
        copy
    }

    /// Puts the subscriptions in place of those that the book holds.
    fn replace(&mut self, subscriptions: Vec<Subscription>)
        requires
            subscription_ids(subscriptions_view(subscriptions@)).no_duplicates(),
        ensures
            final(self)@ == subscriptions_view(subscriptions@),
    {
        self.subscriptions = subscriptions;
    }

    /// Enters a subscription that was opened at time `now` under `id`.
    ///
    /// Fails with `SubscriptionFailed` exactly when the id is in the book
    /// already; the book is then left as it was.
    pub fn open(
        &mut self,
        id: String,
        filter: NostrFilter,
        auto_close_after: Option<u64>,
        now: u64,
    ) -> (r: Result<SubscriptionResult, NostrError>)
        ensures
            match r {
                Ok(opened) => !old(self).is_known(id@) && final(self)@ == old(self)@.push(
                    SubscriptionData { id: id@, filter: filter@, created_at: now, auto_close_after },
                ) && opened.subscription_id@ == id@ && opened.events@.len() == 0,
                Err(e) => old(self).is_known(id@) && final(self)@ == old(self)@ && e
                    is SubscriptionFailed,
            },
    {
        if self.contains(&id) {
            return Err(
                NostrError::SubscriptionFailed(String::from_str("subscription id is in use")),
            );
        }
        proof {
            use_type_invariant(&*self);
        }
        let ghost before = self@;
        let ghost entry = SubscriptionData {
            id: id@,
            filter: filter@,
            created_at: now,
            auto_close_after,
        };
        let subscription_id = id.clone();
        let mut all = self.copied(Choice::All);
        proof {
            lemma_kept(before, |s: SubscriptionData| Choice::All.admits(s));
        }
        all.push(Subscription { id, filter, created_at: now, auto_close_after });
        assert(subscriptions_view(all@) =~= before.push(entry));
        assert(subscription_ids(before.push(entry)) =~= subscription_ids(before).push(entry.id));
        self.replace(all);
        Ok(SubscriptionResult { subscription_id, events: Vec::new() })
    }

    /// Closes the subscription of the given id and says whether there was
    /// one. Closing an id that is not in the book changes nothing.
    pub fn close(&mut self, id: &String) -> (was_open: bool)
        ensures
            was_open == old(self).is_known(id@),
            final(self)@ == without_subscription(old(self)@, id@),
            !was_open ==> final(self)@ == old(self)@,
            !final(self).is_known(id@),
    {
        proof {
            use_type_invariant(&*self);
        }
        let was_open = self.contains(id);
        let left = self.copied(Choice::Not(id));
        proof {
            lemma_kept_same(
                self@,
                |s: SubscriptionData| Choice::Not(id).admits(s),
                |s: SubscriptionData| s.id != id@,
            );
            lemma_without_subscription(self@, id@);
        }
        self.replace(left);
        was_open
    }

    /// Whether the subscription of the given id hands `event` on at time
    /// `now`: it is in the book, it has not closed by itself, and the event
    /// meets its filter.
    pub fn delivers(&self, id: &String, event: &NostrEvent, now: u64) -> (delivered: bool)
        ensures
            delivered == some_delivers(self@, id@, event@, now),
    {
        proof {
            use_type_invariant(self);
        }
        let mut i: usize = 0;
        while i < self.subscriptions.len()
            invariant
                i <= self.subscriptions.len(),
                subscription_ids(self@).no_duplicates(),
                forall|j: int| 0 <= j < i ==> (#[trigger] self@[j]).id != id@,
            decreases self.subscriptions.len() - i,
        {
            let s = &self.subscriptions[i];
            assert(self@[i as int] == s@);
            if s.id == *id {
                let delivered = s.is_open_at(now) && s.filter.matches(event);
                proof {
                    if some_delivers(self@, id@, event@, now) {
                        let k = choose|k: int|
                            0 <= k < self@.len() && (#[trigger] self@[k]).id == id@
                                && self@[k].delivers(event@, now);
                        assert(subscription_ids(self@)[k] == id@);
                        assert(subscription_ids(self@)[i as int] == id@);
                        assert(k == i);
                    }
                    if delivered {
                        assert(self@[i as int].id == id@ && self@[i as int].delivers(event@, now));
                    }
                }
                return delivered;
            }
            i += 1;
        }
        false
    }

    /// Drops the subscriptions that have closed by themselves at time `now`
    /// and returns their ids, so that the relays can be told.
    pub fn expire(&mut self, now: u64) -> (closed: Vec<String>)
        ensures
            final(self)@ == still_open(old(self)@, now),
            closed.deep_view() == expired_ids(old(self)@, now),
    {
        proof {
            use_type_invariant(&*self);
        }
        let open = self.copied(Choice::OpenAt(now));
        let gone = self.copied(Choice::ClosedAt(now));
        let closed = ids_of(&gone);
        proof {
            lemma_kept_same(
                self@,
                |s: SubscriptionData| Choice::OpenAt(now).admits(s),
                |s: SubscriptionData| s.is_open_at(now),
            );
            lemma_kept_same(
                self@,
                |s: SubscriptionData| Choice::ClosedAt(now).admits(s),
                |s: SubscriptionData| !s.is_open_at(now),
            );
            lemma_still_open(self@, now);
        }
        self.replace(open);
        closed
    }
}

/// `subscription_ids` has no duplicates exactly when the ids are distinct
/// as keys.
proof fn lemma_ids_as_keys(subscriptions: Seq<SubscriptionData>)
    ensures
        subscription_ids(subscriptions).no_duplicates() <==> crate::seqs::keys_distinct(
            subscriptions,
            |s: SubscriptionData| s.id,
        ),
{
    let key = |s: SubscriptionData| s.id;
    if subscription_ids(subscriptions).no_duplicates() {
        assert forall|i: int, j: int|
            0 <= i < subscriptions.len() && 0 <= j < subscriptions.len() && i != j implies key(
            #[trigger] subscriptions[i],
        ) != key(#[trigger] subscriptions[j]) by {
            assert(subscription_ids(subscriptions)[i] != subscription_ids(subscriptions)[j]);
        }
    }
    if crate::seqs::keys_distinct(subscriptions, key) {
        assert forall|i: int, j: int|
            0 <= i < subscriptions.len() && 0 <= j < subscriptions.len() && i
                != j implies subscription_ids(subscriptions)[i] != subscription_ids(
            subscriptions,
        )[j] by {
            assert(key(subscriptions[i]) != key(subscriptions[j]));
        }
    }
}

/// Removing an id keeps the other subscriptions and their order: the id is
/// gone, distinct ids stay distinct, and a list without the id is left as
/// it is.
pub proof fn lemma_without_subscription(subscriptions: Seq<SubscriptionData>, id: Seq<char>)
    ensures
        !subscription_ids(without_subscription(subscriptions, id)).contains(id),
        forall|s: SubscriptionData| #[trigger]
            without_subscription(subscriptions, id).contains(s) <==> subscriptions.contains(s)
                && s.id != id,
        subscription_ids(subscriptions).no_duplicates() ==> subscription_ids(
            without_subscription(subscriptions, id),
        ).no_duplicates(),
        !subscription_ids(subscriptions).contains(id) ==> without_subscription(subscriptions, id)
            == subscriptions,
{
    let keep = |s: SubscriptionData| s.id != id;
    let out = without_subscription(subscriptions, id);
    lemma_kept(subscriptions, keep);
    lemma_ids_as_keys(subscriptions);
    lemma_ids_as_keys(out);
    if subscription_ids(out).contains(id) {
        let i = choose|i: int|
            0 <= i < subscription_ids(out).len() && subscription_ids(out)[i] == id;
        assert(out.contains(out[i]));
    }
    if subscription_ids(subscriptions).no_duplicates() {
        lemma_kept_distinct(subscriptions, keep, |s: SubscriptionData| s.id);
    }
    if !subscription_ids(subscriptions).contains(id) {
        assert forall|i: int| 0 <= i < subscriptions.len() implies keep(
            #[trigger] subscriptions[i],
        ) by {
            assert(subscription_ids(subscriptions)[i] != id);
        }
    }
}

/// Dropping what has closed keeps the open subscriptions and their order:
/// what is left is open, it was there before, and distinct ids stay
/// distinct.
pub proof fn lemma_still_open(subscriptions: Seq<SubscriptionData>, now: u64)
    ensures
        forall|s: SubscriptionData| #[trigger]
            still_open(subscriptions, now).contains(s) <==> subscriptions.contains(s)
                && s.is_open_at(now),
        subscription_ids(subscriptions).no_duplicates() ==> subscription_ids(
            still_open(subscriptions, now),
        ).no_duplicates(),
{
    let keep = |s: SubscriptionData| s.is_open_at(now);
    lemma_kept(subscriptions, keep);
    lemma_ids_as_keys(subscriptions);
    lemma_ids_as_keys(still_open(subscriptions, now));
    if subscription_ids(subscriptions).no_duplicates() {
        lemma_kept_distinct(subscriptions, keep, |s: SubscriptionData| s.id);
    }
}

/// Once the auto-close duration has passed since a subscription was opened,
/// it hands on no event, whatever the event.
pub proof fn lemma_closed_subscription_delivers_nothing(
    subscription: SubscriptionData,
    event: EventData,
    now: u64,
)
    requires
        subscription.auto_close_after matches Some(duration) && now >= subscription.created_at
            + duration,
    ensures
        !subscription.is_open_at(now),
        !subscription.delivers(event, now),
{
}

/// In a book, a subscription whose auto-close duration has passed hands on
/// no event under its id.
pub proof fn lemma_nothing_delivered_after_auto_close(
    subscriptions: Seq<SubscriptionData>,
    subscription: SubscriptionData,
    event: EventData,
    now: u64,
)
    requires
        subscription_ids(subscriptions).no_duplicates(),
        subscriptions.contains(subscription),
        subscription.auto_close_after matches Some(duration) && now >= subscription.created_at
            + duration,
    ensures
        !some_delivers(subscriptions, subscription.id, event, now),
{
    if some_delivers(subscriptions, subscription.id, event, now) {
        let i = choose|i: int|
            0 <= i < subscriptions.len() && (#[trigger] subscriptions[i]).id == subscription.id
                && subscriptions[i].delivers(event, now);
        let j = choose|j: int| 0 <= j < subscriptions.len() && subscriptions[j] == subscription;
        assert(subscription_ids(subscriptions)[i] == subscription_ids(subscriptions)[j]);
    }
}

/// A subscription that is not in the book hands on no event: after
/// `unsubscribe`, and after the book dropped it as expired, nothing more
/// arrives under its id.
pub proof fn lemma_nothing_delivered_when_unknown(
    subscriptions: Seq<SubscriptionData>,
    id: Seq<char>,
    event: EventData,
    now: u64,
)
    requires
        !subscription_ids(subscriptions).contains(id),
    ensures
        !some_delivers(subscriptions, id, event, now),
        without_subscription(subscriptions, id) == subscriptions,
{
    if some_delivers(subscriptions, id, event, now) {
        let i = choose|i: int|
            0 <= i < subscriptions.len() && (#[trigger] subscriptions[i]).id == id
                && subscriptions[i].delivers(event, now);
        assert(subscription_ids(subscriptions)[i] == id);
    }
    lemma_without_subscription(subscriptions, id);
}

/// A subscription that has closed by itself stays closed at every later
/// time.
pub proof fn lemma_closed_stays_closed(subscription: SubscriptionData, now: u64, later: u64)
    requires
        !subscription.is_open_at(now),
        now <= later,
    ensures
        !subscription.is_open_at(later),
{
}

} // verus!
