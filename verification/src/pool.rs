//! The relay pool's bookkeeping: which relays are registered and in what
//! state, and what the relays' answers to an event mean.

use vstd::prelude::*;
use vstd::string::*;
use crate::error::NostrError;
use crate::event::NostrEvent;
use crate::filter::holds_text;
use crate::relay::{RelayData, RelayInfo, RelayStatus};
use crate::seqs::{kept, lemma_kept, lemma_kept_distinct, lemma_kept_ends, lemma_kept_step};

verus! {

/// The URLs of a list of relays, in order.
pub open spec fn relay_urls(relays: Seq<RelayData>) -> Seq<Seq<char>> {
    Seq::new(relays.len(), |i: int| relays[i].url)
}

/// The relays with the one at `url`, if any, put into state `status`.
pub open spec fn with_status(relays: Seq<RelayData>, url: Seq<char>, status: RelayStatus) -> Seq<
    RelayData,
> {
    Seq::new(
        relays.len(),
        |i: int|
            if relays[i].url == url {
                RelayData { url, status }
            } else {
                relays[i]
            },
    )
}

/// The relays without the one at `url`, the others in their order.
pub open spec fn without_relay(relays: Seq<RelayData>, url: Seq<char>) -> Seq<RelayData> {
    kept(relays, |r: RelayData| r.url != url)
}

/// The state a relay is left in by a dial that succeeded or failed.
pub open spec fn dialled(connected: bool) -> RelayStatus {
    if connected {
        RelayStatus::Connected
    } else {
        RelayStatus::Disconnected
    }
}

/// The relays after every one of them was dialled: those whose URL is among
/// `reachable` are connected, the others are not.
pub open spec fn after_connect_all(relays: Seq<RelayData>, reachable: Seq<Seq<char>>) -> Seq<
    RelayData,
> {
    Seq::new(
        relays.len(),
        |i: int|
            RelayData { url: relays[i].url, status: dialled(reachable.contains(relays[i].url)) },
    )
}

/// The relays with every connection closed.
pub open spec fn after_disconnect_all(relays: Seq<RelayData>) -> Seq<RelayData> {
    Seq::new(
        relays.len(),
        |i: int| RelayData { url: relays[i].url, status: RelayStatus::Disconnected },
    )
}

/// The URLs of the relays that are `Connected`, in order: the relays that an
/// event or a query is sent to.
pub open spec fn connected_urls(relays: Seq<RelayData>) -> Seq<Seq<char>> {
    relay_urls(kept(relays, |r: RelayData| r.status == RelayStatus::Connected))
}

/// The registry of relays. No URL is registered twice, and every report
/// that the registry holds is consistent.
pub struct RelayRegistry {
    relays: Vec<RelayInfo>,
}

impl View for RelayRegistry {
    type V = Seq<RelayData>;

    closed spec fn view(&self) -> Seq<RelayData> {
        Seq::new(self.relays@.len(), |i: int| self.relays@[i]@)
    }
}

/// A change of state that is recorded for the relays of the registry.
enum Change<'a> {
    /// The relay at the URL is put into the state.
    Put(&'a String, RelayStatus),
    /// Every relay was dialled, and those at the listed URLs were reached.
    Dial(&'a Vec<String>),
    /// Every connection was closed.
    Close,
}

impl Change<'_> {
    /// The state that the change leaves a relay in.
    spec fn state_of(self, relay: RelayData) -> RelayStatus {
        match self {
            Change::Put(url, status) => if relay.url == url@ {
                status
            } else {
                relay.status
            },
            Change::Dial(reachable) => dialled(reachable.deep_view().contains(relay.url)),
            Change::Close => RelayStatus::Disconnected,
        }
    }

    /// The state that the change leaves a relay in.
    fn apply(&self, relay: &RelayInfo) -> (status: RelayStatus)
        ensures
            status == self.state_of(relay@),
    {
        match self {
            Change::Put(url, status) => if relay.url == **url {
                *status
            } else {
                relay.status
            },
            Change::Dial(reachable) => if holds_text(reachable, &relay.url) {
                RelayStatus::Connected
            } else {
                RelayStatus::Disconnected
            },
            Change::Close => RelayStatus::Disconnected,
        }
    }
}

impl RelayRegistry {
    #[verifier::type_invariant]
    spec fn in_order(self) -> bool {
        &&& relay_urls(self@).no_duplicates()
        &&& forall|i: int| 0 <= i < self.relays@.len() ==> (#[trigger] self.relays@[i]).is_consistent()
    }

    /// Whether a relay is registered at `url`.
    pub open spec fn is_registered(&self, url: Seq<char>) -> bool {
        relay_urls(self@).contains(url)
    }

    /// An empty registry.
    pub fn new() -> (registry: RelayRegistry)
        ensures
            registry@ == Seq::<RelayData>::empty(),
    {
        let relays: Vec<RelayInfo> = Vec::new();
        assert(Seq::new(relays@.len(), |i: int| relays@[i]@) =~= Seq::<RelayData>::empty());
        RelayRegistry { relays }
    }

    /// Whether a relay is registered at `url`.
    pub fn contains(&self, url: &String) -> (found: bool)
        ensures
            found == self.is_registered(url@),
    {
        let mut i: usize = 0;
        while i < self.relays.len()
            invariant
                i <= self.relays.len(),
                forall|j: int| 0 <= j < i ==> (#[trigger] relay_urls(self@)[j]) != url@,
            decreases self.relays.len() - i,
        {
            assert(relay_urls(self@)[i as int] == self.relays[i as int].url@);
            if self.relays[i].url == *url {
                return true;
            }
            i += 1;
        }
        false
    }

    /// The reports of the registry after a change of state: each relay with
    /// its URL and the state that the change leaves it in.
    fn changed(&self, change: Change<'_>) -> (reports: Vec<RelayInfo>)
        ensures
            reports@.len() == self@.len(),
            forall|i: int|
                0 <= i < reports@.len() ==> (#[trigger] reports@[i])@ == (RelayData {
                    url: self@[i].url,
                    status: change.state_of(self@[i]),
                }) && reports@[i].is_consistent(),
    {
        let mut reports: Vec<RelayInfo> = Vec::new();
        let mut i: usize = 0;
        while i < self.relays.len()
            invariant
                i <= self.relays.len(),
                reports@.len() == i,
                forall|j: int|
                    0 <= j < i ==> (#[trigger] reports@[j])@ == (RelayData {
                        url: self@[j].url,
                        status: change.state_of(self@[j]),
                    }) && reports@[j].is_consistent(),
            decreases self.relays.len() - i,
        {
            let relay = &self.relays[i];
            assert(self@[i as int] == relay@);
            reports.push(RelayInfo::new(relay.url.clone(), change.apply(relay)));
            i += 1;
        }
        reports
    }

    /// Puts the reports in place of those that the registry holds.
    fn replace(&mut self, reports: Vec<RelayInfo>)
        requires
            relay_urls(Seq::new(reports@.len(), |i: int| reports@[i]@)).no_duplicates(),
            forall|i: int| 0 <= i < reports@.len() ==> (#[trigger] reports@[i]).is_consistent(),
        ensures
            final(self)@ == Seq::new(reports@.len(), |i: int| reports@[i]@),
    {
        self.relays = reports;
    }

    /// Records a change of state for every relay; URLs and order stay.
    fn record(&mut self, change: Change<'_>)
        ensures
            final(self)@.len() == old(self)@.len(),
            forall|i: int|
                0 <= i < old(self)@.len() ==> (#[trigger] final(self)@[i]) == (RelayData {
                    url: old(self)@[i].url,
                    status: change.state_of(old(self)@[i]),
                }),
            relay_urls(final(self)@) == relay_urls(old(self)@),
            relay_urls(old(self)@).no_duplicates(),
    {
        proof {
            use_type_invariant(&*self);
        }
        let reports = self.changed(change);
        let ghost now = Seq::new(reports@.len(), |i: int| reports@[i]@);
        assert(relay_urls(now) =~= relay_urls(self@));
        self.replace(reports);
    }

    /// Registers the relay at `url`, unless it is registered already, and
    /// records how the dial that followed ended: the relay is `Connected`
    /// where it succeeded and `Disconnected` where it did not. A relay whose
    /// dial failed stays registered.
    ///
    /// Fails with `RelayConnectionFailed`, carrying the URL, exactly when
    /// the dial failed.
    pub fn add_relay(&mut self, url: String, connected: bool) -> (r: Result<(), NostrError>)
        ensures
            final(self)@ == if old(self).is_registered(url@) {
                with_status(old(self)@, url@, dialled(connected))
            } else {
                old(self)@.push(RelayData { url: url@, status: dialled(connected) })
            },
            final(self).is_registered(url@),
            match r {
                Ok(_) => connected,
                Err(e) => !connected && e is RelayConnectionFailed && e.detail() == url@,
            },
    {
        let status = if connected {
            RelayStatus::Connected
        } else {
            RelayStatus::Disconnected
        };
        if self.contains(&url) {
            self.record(Change::Put(&url, status));
            assert(self@ =~= with_status(old(self)@, url@, status));
            let ghost i = choose|i: int|
                0 <= i < relay_urls(old(self)@).len() && relay_urls(old(self)@)[i] == url@;
            assert(relay_urls(self@)[i] == url@);
        } else {
            proof {
                use_type_invariant(&*self);
            }
            let ghost before = self@;
            let mut kept_as_is = self.statuses();
            kept_as_is.push(RelayInfo::new(url.clone(), status));
            let ghost now = Seq::new(kept_as_is@.len(), |i: int| kept_as_is@[i]@);
            assert(now =~= before.push(RelayData { url: url@, status }));
            assert(relay_urls(now) =~= relay_urls(before).push(url@));
            self.replace(kept_as_is);
            assert(relay_urls(self@)[before.len() as int] == url@);
        }
        if connected {
            Ok(())
        } else {
            Err(NostrError::RelayConnectionFailed(url))
        }
    }

    /// Removes the relay at `url` from the registry; the others keep their
    /// order and state.
    ///
    /// Fails with `RelayConnectionFailed`, carrying the URL, exactly when no
    /// relay is registered there; the registry is then left as it was.
    pub fn remove_relay(&mut self, url: String) -> (r: Result<(), NostrError>)
        ensures
            final(self)@ == without_relay(old(self)@, url@),
            !final(self).is_registered(url@),
            match r {
                Ok(_) => old(self).is_registered(url@),
                Err(e) => !old(self).is_registered(url@) && final(self)@ == old(self)@ && e
                    is RelayConnectionFailed && e.detail() == url@,
            },
    {
        proof {
            use_type_invariant(&*self);
        }
        let known = self.contains(&url);
        let mut left: Vec<RelayInfo> = Vec::new();
        let mut i: usize = 0;
        let ghost all = self@;
        let ghost keep = |r: RelayData| r.url != url@;
        proof {
            lemma_kept_ends(all, keep);
        }
        while i < self.relays.len()
            invariant
                i <= self.relays.len(),
                all == self@,
                all.len() == self.relays.len(),
                keep == (|r: RelayData| r.url != url@),
                Seq::new(left@.len(), |j: int| left@[j]@) == kept(all.take(i as int), keep),
                forall|j: int| 0 <= j < left@.len() ==> (#[trigger] left@[j]).is_consistent(),
            decreases self.relays.len() - i,
        {
            let ghost before = Seq::new(left@.len(), |j: int| left@[j]@);
            proof {
                lemma_kept_step(all, keep, i as int);
            }
            let relay = &self.relays[i];
            assert(all[i as int] == relay@);
            if !(relay.url == url) {
                left.push(RelayInfo::new(relay.url.clone(), relay.status));
                assert(Seq::new(left@.len(), |j: int| left@[j]@) =~= before.push(relay@));
            }
            i += 1;
        }
        proof {
            lemma_kept_ends(all, keep);
            lemma_without_relay(all, url@);
        }
        self.replace(left);
        if known {
            Ok(())
        } else {
            Err(NostrError::RelayConnectionFailed(url))
        }
    }

    /// Records the outcome of dialling every registered relay: a relay whose
    /// URL is among `reachable` is `Connected`, every other `Disconnected`.
    /// One relay's failure leaves the others as their own dial left them.
    pub fn connect_all(&mut self, reachable: &Vec<String>)
        ensures
            final(self)@ == after_connect_all(old(self)@, reachable.deep_view()),
    {
        self.record(Change::Dial(reachable));
        assert(self@ =~= after_connect_all(old(self)@, reachable.deep_view()));
    }

    /// Records that every connection was closed: each relay is
    /// `Disconnected` and stays registered.
    pub fn disconnect_all(&mut self)
        ensures
            final(self)@ == after_disconnect_all(old(self)@),
    {
        self.record(Change::Close);
        assert(self@ =~= after_disconnect_all(old(self)@));
    }

    /// The state of the relay at `url`, if one is registered there.
    pub fn status(&self, url: &String) -> (found: Option<RelayStatus>)
        ensures
            match found {
                Some(status) => self@.contains(RelayData { url: url@, status }),
                None => !self.is_registered(url@),
            },
    {
        let mut i: usize = 0;
        while i < self.relays.len()
            invariant
                i <= self.relays.len(),
                forall|j: int| 0 <= j < i ==> (#[trigger] relay_urls(self@)[j]) != url@,
            decreases self.relays.len() - i,
        {
            assert(relay_urls(self@)[i as int] == self.relays[i as int].url@);
            if self.relays[i].url == *url {
                assert(self@[i as int] == RelayData { url: url@, status: self.relays[i as int].status });
                return Some(self.relays[i].status);
            }
            i += 1;
        }
        None
    }

    /// Takes the relay at `url` from its state to `next`, where a relay is
    /// registered there and its connection can take that step; says whether
    /// it did. Otherwise nothing changes.
    pub fn transition(&mut self, url: &String, next: RelayStatus) -> (done: bool)
        ensures
            done == (exists|status: RelayStatus|
                old(self)@.contains(RelayData { url: url@, status }) && status.can_become(next)),
            final(self)@ == if done {
                with_status(old(self)@, url@, next)
            } else {
                old(self)@
            },
    {
        proof {
            use_type_invariant(&*self);
        }
        match self.status(url) {
            Some(status) => {
                proof {
                    lemma_one_state_per_url(self@, url@, status);
                }
                if status.may_become(next) {
                    self.record(Change::Put(url, next));
                    assert(self@ =~= with_status(old(self)@, url@, next));
                    true
                } else {
                    false
                }
            },
            None => {
                assert forall|status: RelayStatus|
                    !self@.contains(RelayData { url: url@, status }) by {
                    if self@.contains(RelayData { url: url@, status }) {
                        let i = choose|i: int|
                            0 <= i < self@.len() && self@[i] == (RelayData { url: url@, status });
                        assert(relay_urls(self@)[i] == url@);
                    }
                }
                false
            },
        }
    }

    /// The URLs of the relays that are `Connected`, in the order of
    /// registration: where an event or a query is to be sent.
    pub fn targets(&self) -> (urls: Vec<String>)
        ensures
            urls.deep_view() == connected_urls(self@),
    {
        let mut urls: Vec<String> = Vec::new();
        let mut i: usize = 0;
        let ghost all = self@;
        let ghost keep = |r: RelayData| r.status == RelayStatus::Connected;
        proof {
            lemma_kept_ends(all, keep);
            assert(urls.deep_view() =~= relay_urls(Seq::<RelayData>::empty()));
        }
        while i < self.relays.len()
            invariant
                i <= self.relays.len(),
                all == self@,
                all.len() == self.relays.len(),
                keep == (|r: RelayData| r.status == RelayStatus::Connected),
                urls.deep_view() == relay_urls(kept(all.take(i as int), keep)),
            decreases self.relays.len() - i,
        {
            let ghost before = urls;
            let ghost chosen = kept(all.take(i as int), keep);
            proof {
                lemma_kept_step(all, keep, i as int);
            }
            let relay = &self.relays[i];
            assert(all[i as int] == relay@);
            if relay.status == RelayStatus::Connected {
                let url = relay.url.clone();
                urls.push(url);
                proof {
                    crate::event::lemma_deep_view_push(before, urls, url);
                    assert(relay_urls(chosen.push(relay@)) =~= relay_urls(chosen).push(url@));
                }
            }
            i += 1;
        }
        proof {
            lemma_kept_ends(all, keep);
        }
        urls
    }

    /// One report for each registered relay, in the order of registration.
    /// No URL is reported twice.
    pub fn statuses(&self) -> (reports: Vec<RelayInfo>)
        ensures
            reports@.len() == self@.len(),
            forall|i: int|
                0 <= i < reports@.len() ==> (#[trigger] reports@[i])@ == self@[i]
                    && reports@[i].is_consistent(),
            relay_urls(self@).no_duplicates(),
    {
        proof {
            use_type_invariant(self);
        }
        let mut reports: Vec<RelayInfo> = Vec::new();
        let mut i: usize = 0;
        while i < self.relays.len()
            invariant
                i <= self.relays.len(),
                reports@.len() == i,
                forall|j: int|
                    0 <= j < i ==> (#[trigger] reports@[j])@ == self@[j]
                        && reports@[j].is_consistent(),
            decreases self.relays.len() - i,
        {
            reports.push(RelayInfo::new(self.relays[i].url.clone(), self.relays[i].status));
            i += 1;
        }
        reports
    }
}

/// Removing a URL keeps the other relays and their order: nothing new
/// appears, the URL is gone, distinct URLs stay distinct, and a list without
/// the URL is left as it is.
pub proof fn lemma_without_relay(relays: Seq<RelayData>, url: Seq<char>)
    ensures
        !relay_urls(without_relay(relays, url)).contains(url),
        forall|r: RelayData| #[trigger]
            without_relay(relays, url).contains(r) <==> relays.contains(r) && r.url != url,
        relay_urls(relays).no_duplicates() ==> relay_urls(without_relay(relays, url)).no_duplicates(),
        !relay_urls(relays).contains(url) ==> without_relay(relays, url) == relays,
{
    let keep = |r: RelayData| r.url != url;
    let key = |r: RelayData| r.url;
    let out = without_relay(relays, url);
    lemma_kept(relays, keep);
    if relay_urls(out).contains(url) {
        let i = choose|i: int| 0 <= i < relay_urls(out).len() && relay_urls(out)[i] == url;
        assert(out.contains(out[i]));
    }
    if relay_urls(relays).no_duplicates() {
        assert forall|i: int, j: int|
            0 <= i < relays.len() && 0 <= j < relays.len() && i != j implies key(
            #[trigger] relays[i],
        ) != key(#[trigger] relays[j]) by {
            assert(relay_urls(relays)[i] != relay_urls(relays)[j]);
        }
        lemma_kept_distinct(relays, keep, key);
        assert forall|i: int, j: int|
            0 <= i < out.len() && 0 <= j < out.len() && i != j implies relay_urls(out)[i]
            != relay_urls(out)[j] by {
            assert(key(out[i]) != key(out[j]));
        }
    }
    if !relay_urls(relays).contains(url) {
        assert forall|i: int| 0 <= i < relays.len() implies keep(#[trigger] relays[i]) by {
            assert(relay_urls(relays)[i] != url);
        }
    }
}

/// With distinct URLs a relay is listed in one state only.
proof fn lemma_one_state_per_url(relays: Seq<RelayData>, url: Seq<char>, status: RelayStatus)
    requires
        relay_urls(relays).no_duplicates(),
        relays.contains(RelayData { url, status }),
    ensures
        forall|other: RelayStatus| relays.contains(RelayData { url, status: other }) ==> other == status,
{
    assert forall|other: RelayStatus| relays.contains(RelayData { url, status: other }) implies other
        == status by {
        let i = choose|i: int| 0 <= i < relays.len() && relays[i] == (RelayData { url, status });
        let j = choose|j: int|
            0 <= j < relays.len() && relays[j] == (RelayData { url, status: other });
        assert(relay_urls(relays)[i] == url);
        assert(relay_urls(relays)[j] == url);
    }
}

/// What one relay answered to an event that was sent to it.
#[derive(Debug, Clone)]
pub struct RelayAck {
    pub url: String,
    pub accepted: bool,
    pub message: String,
}

/// At least one relay accepted.
pub open spec fn any_accepted(acks: Seq<RelayAck>) -> bool {
    exists|i: int| 0 <= i < acks.len() && (#[trigger] acks[i]).accepted
}

/// Why no relay accepted, in words: what the first relay answered, or that
/// no relay was reached at all.
pub open spec fn refusal(acks: Seq<RelayAck>) -> Seq<char> {
    if acks.len() == 0 {
        "no relay was reached"@
    } else {
        acks[0].message@
    }
}

/// Why no relay accepted, or `None` where one did.
pub fn refused(acks: &Vec<RelayAck>) -> (reason: Option<String>)
    ensures
        match reason {
            Some(text) => !any_accepted(acks@) && text@ == refusal(acks@),
            None => any_accepted(acks@),
        },
{
    let mut i: usize = 0;
    while i < acks.len()
        invariant
            i <= acks.len(),
            forall|j: int| 0 <= j < i ==> !(#[trigger] acks@[j]).accepted,
        decreases acks.len() - i,
    {
        if acks[i].accepted {
            return None;
        }
        i += 1;
    }
    if acks.len() == 0 {
        Some(String::from_str("no relay was reached"))
    } else {
        Some(acks[0].message.clone())
    }
}

/// The result of publishing `event`, given what each relay that it was sent
/// to answered: the event's id where at least one relay accepted it.
///
/// Fails with `EventPublishingFailed` exactly when no relay accepted.
pub fn publish_outcome(event: &NostrEvent, acks: &Vec<RelayAck>) -> (r: Result<String, NostrError>)
    ensures
        match r {
            Ok(id) => any_accepted(acks@) && id@ == event.id@,
            Err(e) => !any_accepted(acks@) && e is EventPublishingFailed && e.detail() == refusal(
                acks@,
            ),
        },
{
    match refused(acks) {
        None => Ok(event.id.clone()),
        Some(reason) => Err(NostrError::EventPublishingFailed(reason)),
    }
}

} // verus!
