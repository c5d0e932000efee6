//! The client: one identity, the relays it talks to and the subscriptions it
//! has open.
//!
//! The client decides; it does not send. An operation that needs the network
//! comes in two halves: the first returns what is to be sent, and the second
//! takes what came back and gives the operation's result.

use vstd::prelude::*;
use vstd::string::*;
use crate::error::NostrError;
use crate::event::{
    build_direct_message, build_text_note, cipher_accepts, holds_key, is_direct_message,
    is_signed_draft, lemma_shorthand_tags_well_formed, shorthand_tags, sign, DraftData,
    NostrEvent, KIND_METADATA, KIND_TEXT_NOTE,
};
use crate::fetch::{
    all_match, all_sound, any_answered, events_view, fetch_outcome, fetched, ids_distinct,
    is_newest_first, query_failure, RelayReply,
};
use crate::filter::{hex_field_ok, NostrFilter};
use crate::hex::{is_hex64, is_lower_hex};
use crate::keys::{keys_of_secret, Identity, NostrKeys};
use crate::metadata::{build_metadata, NostrMetadata};
use crate::pool::{
    after_connect_all, after_disconnect_all, any_accepted, connected_urls, dialled, refusal,
    refused, relay_urls, with_status, without_relay, RelayAck, RelayRegistry,
};
use crate::relay::{parse_relay_url, relay_address, RelayData, RelayInfo, RelayStatus};
use crate::subscription::{
    some_delivers, still_open, expired_ids, subscription_ids, without_subscription,
    SubscriptionBook, SubscriptionData, SubscriptionResult,
};

verus! {

/// How long a fetch waits for the relays, in seconds, where the caller names
/// no time.
pub const DEFAULT_FETCH_TIMEOUT_SECONDS: u64 = 10;

/// A query that is ready to be sent: the filter in canonical form and the
/// time, in seconds, after which the relays are no longer waited for.
#[derive(Debug, Clone)]
pub struct FetchRequest {
    pub filter: NostrFilter,
    pub timeout_seconds: u64,
}

impl FetchRequest {
    /// The result of the fetch, given what each relay sent back: see
    /// `fetch_outcome`. Only events that verify and meet the filter are
    /// handed on, and the filter's limit bounds the result.
    pub fn outcome(&self, replies: &Vec<RelayReply>) -> (r: Result<Vec<NostrEvent>, NostrError>)
        ensures
            match r {
                Ok(events) => {
                    &&& any_answered(replies@)
                    &&& events_view(events@) == fetched(replies@, self.filter@)
                    &&& all_sound(events_view(events@))
                    &&& all_match(events_view(events@), self.filter@)
                    &&& ids_distinct(events_view(events@))
                    &&& is_newest_first(events_view(events@))
                    &&& self.filter.limit matches Some(n) ==> events.len() <= n
                },
                Err(e) => !any_answered(replies@) && e is EventQueryFailed && e.detail()
                    == query_failure(replies@),
            },
    {
        fetch_outcome(replies, &self.filter)
    }
}

/// Draws a subscription id with `nostr::SubscriptionId::generate`, which
/// reads the operating system's random source.
///
/// Trusted: whatever id is drawn is 32 lower-case hexadecimal digits.
#[verifier::external_body]
fn fresh_subscription_id() -> (id: String)
    ensures
        is_lower_hex(id@, 32),
{
    nostr::SubscriptionId::generate().to_string()
}

/// A protocol client.
pub struct NostrClient {
    identity: Identity,
    relays: RelayRegistry,
    subscriptions: SubscriptionBook,
}

impl NostrClient {
    /// The client's public key, in hexadecimal.
    pub closed spec fn public_key(&self) -> Seq<char> {
        self.identity.public_key()
    }

    /// The client's secret key, in hexadecimal.
    pub closed spec fn secret_key(&self) -> Seq<char> {
        self.identity.secret_key()
    }

    /// The registered relays, in the order of registration.
    pub closed spec fn relays(&self) -> Seq<RelayData> {
        self.relays@
    }

    /// The open subscriptions, in the order in which they were opened.
    pub closed spec fn subscriptions(&self) -> Seq<SubscriptionData> {
        self.subscriptions@
    }

    /// A client for the identity of `keys`, with no relay and no
    /// subscription. Only the secret key is read; the public key is derived
    /// from it.
    ///
    /// Fails with `InvalidSecretKey` exactly when the secret key is not
    /// valid.
    pub fn new(keys: NostrKeys) -> (r: Result<NostrClient, NostrError>)
        ensures
            match r {
                Ok(client) => {
                    &&& client.relays() == Seq::<RelayData>::empty()
                    &&& client.subscriptions() == Seq::<SubscriptionData>::empty()
                    &&& keys_of_secret(keys.private_key@) matches Some(k) && client.public_key()
                        == k.0
                    &&& holds_key(client.secret_key(), client.public_key())
                },
                Err(e) => keys_of_secret(keys.private_key@) is None && e is InvalidSecretKey,
            },
    {
        match Identity::from_secret_hex(keys.private_key.as_str()) {
            Ok(identity) => Ok(
                NostrClient {
                    identity,
                    relays: RelayRegistry::new(),
                    subscriptions: SubscriptionBook::new(),
                },
            ),
            Err(e) => Err(e),
        }
    }

    /// The client's public key, in hexadecimal. Never fails.
    pub fn get_public_key(&self) -> (r: Result<String, NostrError>)
        ensures
            r matches Ok(key) && key@ == self.public_key(),
    {
        Ok(self.identity.public_key_hex())
    }

    /// Registers the relay at `url`, unless it is registered already, and
    /// records how the dial that followed ended: see
    /// `RelayRegistry::add_relay`. The relay is registered under its
    /// address, so that two ways of writing one URL name one relay.
    ///
    /// Fails with `RelayConnectionFailed`, carrying the URL as it was given,
    /// exactly when the text is no URL of a relay or the dial failed. A text
    /// that is no URL changes nothing; a relay whose dial failed stays
    /// registered, `Disconnected`.
    pub fn add_relay(&mut self, url: String, connected: bool) -> (r: Result<(), NostrError>)
        ensures
            final(self).public_key() == old(self).public_key(),
            final(self).secret_key() == old(self).secret_key(),
            final(self).subscriptions() == old(self).subscriptions(),
            final(self).relays() == match relay_address(url@) {
                None => old(self).relays(),
                Some(address) => if relay_urls(old(self).relays()).contains(address) {
                    with_status(old(self).relays(), address, dialled(connected))
                } else {
                    old(self).relays().push(
                        RelayData { url: address, status: dialled(connected) },
                    )
                },
            },
            relay_address(url@) matches Some(address) ==> relay_urls(final(self).relays()).contains(
                address,
            ),
            r is Ok <==> relay_address(url@) is Some && connected,
            r matches Err(e) ==> e is RelayConnectionFailed && e.detail() == url@,
    {
        match parse_relay_url(url.as_str()) {
            None => Err(NostrError::RelayConnectionFailed(url)),
            Some(address) => match self.relays.add_relay(address, connected) {
                Ok(_) => Ok(()),
                Err(_) => Err(NostrError::RelayConnectionFailed(url)),
            },
        }
    }

    /// Removes the relay at `url`; the others keep their order and state.
    ///
    /// Fails with `RelayConnectionFailed`, carrying the URL as it was given,
    /// exactly when no relay is registered there; nothing changes then.
    pub fn remove_relay(&mut self, url: String) -> (r: Result<(), NostrError>)
        ensures
            final(self).public_key() == old(self).public_key(),
            final(self).secret_key() == old(self).secret_key(),
            final(self).subscriptions() == old(self).subscriptions(),
            final(self).relays() == match relay_address(url@) {
                None => old(self).relays(),
                Some(address) => without_relay(old(self).relays(), address),
            },
            r is Ok <==> (relay_address(url@) matches Some(address) && relay_urls(
                old(self).relays(),
            ).contains(address)),
            r matches Err(e) ==> final(self).relays() == old(self).relays() && e
                is RelayConnectionFailed && e.detail() == url@,
    {
        match parse_relay_url(url.as_str()) {
            None => Err(NostrError::RelayConnectionFailed(url)),
            Some(address) => match self.relays.remove_relay(address) {
                Ok(_) => Ok(()),
                Err(_) => Err(NostrError::RelayConnectionFailed(url)),
            },
        }
    }

    /// Records the outcome of dialling every registered relay: those whose
    /// URL is among `reachable` are `Connected`, the others `Disconnected`.
    /// Never fails: a relay that could not be reached does not stand in the
    /// way of the others.
    pub fn connect(&mut self, reachable: &Vec<String>) -> (r: Result<(), NostrError>)
        ensures
            r is Ok,
            final(self).public_key() == old(self).public_key(),
            final(self).subscriptions() == old(self).subscriptions(),
            final(self).relays() == after_connect_all(old(self).relays(), reachable.deep_view()),
    {
        self.relays.connect_all(reachable);
        Ok(())
    }

    /// Records that every connection was closed. Never fails.
    pub fn disconnect(&mut self) -> (r: Result<(), NostrError>)
        ensures
            r is Ok,
            final(self).public_key() == old(self).public_key(),
            final(self).subscriptions() == old(self).subscriptions(),
            final(self).relays() == after_disconnect_all(old(self).relays()),
    {
        self.relays.disconnect_all();
        Ok(())
    }

    /// The URLs of the relays that are `Connected`, in the order of
    /// registration: where an event, a query or a subscription is to be
    /// sent.
    pub fn targets(&self) -> (urls: Vec<String>)
        ensures
            urls.deep_view() == connected_urls(self.relays()),
    {
        self.relays.targets()
    }

    /// Records a step of the connection to the relay at `url`: takes it to
    /// `next` where a relay is registered there and its connection can take
    /// that step, and says whether it did. Otherwise nothing changes. This
    /// is how a connection that was lost, closed or terminated is reported.
    pub fn relay_step(&mut self, url: &String, next: RelayStatus) -> (done: bool)
        ensures
            final(self).public_key() == old(self).public_key(),
            final(self).subscriptions() == old(self).subscriptions(),
            done == (exists|status: RelayStatus|
                old(self).relays().contains(RelayData { url: url@, status }) && status.can_become(
                    next,
                )),
            final(self).relays() == if done {
                with_status(old(self).relays(), url@, next)
            } else {
                old(self).relays()
            },
    {
        self.relays.transition(url, next)
    }

    /// One report for each registered relay, in the order of registration.
    /// No URL is reported twice.
    pub fn get_relay_status(&self) -> (reports: Vec<RelayInfo>)
        ensures
            reports@.len() == self.relays().len(),
            forall|i: int|
                0 <= i < reports@.len() ==> (#[trigger] reports@[i])@ == self.relays()[i]
                    && reports@[i].is_consistent(),
            relay_urls(self.relays()).no_duplicates(),
    {
        self.relays.statuses()
    }

    /// Drafts a text note, resolving the inline tags as `shorthand_tags`
    /// says, and signs it. The event that is returned is to be sent to the
    /// relays; `publish_outcome` then gives the result of publishing. Never
    /// fails: a tag that cannot be resolved is left out.
    pub fn publish_text_note(&self, content: String, tags: Option<Vec<Vec<String>>>) -> (r: Result<
        NostrEvent,
        NostrError,
    >)
        ensures
            r matches Ok(event) && is_signed_draft(
                event@,
                DraftData {
                    kind: KIND_TEXT_NOTE,
                    tags: match tags {
                        Some(list) => shorthand_tags(list.deep_view()),
                        None => Seq::empty(),
                    },
                    content: content@,
                },
                self.public_key(),
            ),
    {
        proof {
            if tags is Some {
                lemma_shorthand_tags_well_formed(tags->Some_0.deep_view());
            }
        }
        let draft = build_text_note(content, tags);
        sign(draft, self.identity.keys())
    }

    /// Drafts the event that announces a profile and signs it. The event
    /// that is returned is to be sent to the relays.
    ///
    /// Fails with `InvalidUrl` exactly when `picture`, `banner` or `website`
    /// is present and is no URL, and in no other way.
    pub fn set_metadata(&self, metadata: NostrMetadata) -> (r: Result<NostrEvent, NostrError>)
        ensures
            match r {
                Ok(event) => metadata.urls_ok() && is_signed_draft(
                    event@,
                    DraftData {
                        kind: KIND_METADATA,
                        tags: Seq::empty(),
                        content: metadata.content(),
                    },
                    self.public_key(),
                ),
                Err(e) => !metadata.urls_ok() && e is InvalidUrl,
            },
    {
        match build_metadata(metadata) {
            Ok(draft) => sign(draft, self.identity.keys()),
            Err(e) => Err(e),
        }
    }

    /// Drafts a direct message to `receiver_pubkey`, encrypting the text for
    /// the receiver, and signs it. The event that is returned is to be sent
    /// to the relays; it names the receiver in a `p` tag, also where the
    /// receiver is the client itself.
    ///
    /// Fails with `InvalidPublicKey` exactly when the receiver is not 64
    /// hexadecimal digits, and with `EventCreationFailed` exactly when it is
    /// and the cipher does not take the receiver's key: see
    /// `cipher_accepts`.
    pub fn send_private_message(&self, receiver_pubkey: String, message: String) -> (r: Result<
        NostrEvent,
        NostrError,
    >)
        ensures
            holds_key(self.secret_key(), self.public_key()),
            r is Ok <==> is_hex64(receiver_pubkey@) && cipher_accepts(
                self.secret_key(),
                receiver_pubkey@,
            ),
            !is_hex64(receiver_pubkey@) <==> r matches Err(NostrError::InvalidPublicKey(_)),
            match r {
                Ok(event) => exists|draft: DraftData|
                    is_direct_message(draft, self.secret_key(), receiver_pubkey@, message@)
                        && #[trigger] is_signed_draft(event@, draft, self.public_key()),
                Err(e) => e is InvalidPublicKey || e is EventCreationFailed,
            },
    {
        let keys = self.identity.keys();
        match build_direct_message(keys, receiver_pubkey, message) {
            Ok(draft) => {
                let ghost data = draft@;
                assert(data.tags[0].len() == 2);
                let r = sign(draft, keys);
                proof {
                    if r is Ok {
                        assert(is_direct_message(
                            data,
                            self.secret_key(),
                            receiver_pubkey@,
                            message@,
                        ));
                        assert(is_signed_draft(r->Ok_0@, data, self.public_key()));
                    }
                }
                r
            },
            Err(e) => Err(e),
        }
    }

    /// Prepares a fetch: checks the filter, brings it into canonical form
    /// and settles the time to wait, which is `timeout_seconds` or, where
    /// none is given, ten seconds. The request that is returned is to be
    /// sent to every connected relay; `FetchRequest::outcome` then gives the
    /// result.
    ///
    /// Fails with `InvalidHex` exactly when an id of the filter is not 64
    /// hexadecimal digits, and with `InvalidPublicKey` exactly when the ids
    /// are in order and an author is not.
    pub fn fetch_events(&self, filter: NostrFilter, timeout_seconds: Option<u64>) -> (r: Result<
        FetchRequest,
        NostrError,
    >)
        ensures
            match r {
                Ok(request) => hex_field_ok(filter@.ids) && hex_field_ok(filter@.authors)
                    && request.filter@ == filter@.canonical() && request.timeout_seconds
                    == match timeout_seconds {
                    Some(seconds) => seconds,
                    None => DEFAULT_FETCH_TIMEOUT_SECONDS,
                },
                Err(e) => if hex_field_ok(filter@.ids) {
                    !hex_field_ok(filter@.authors) && e is InvalidPublicKey
                } else {
                    e is InvalidHex
                },
            },
    {
        let timeout_seconds = match timeout_seconds {
            Some(seconds) => seconds,
            None => DEFAULT_FETCH_TIMEOUT_SECONDS,
        };
        match filter.validated() {
            Ok(filter) => Ok(FetchRequest { filter, timeout_seconds }),
            Err(e) => Err(e),
        }
    }

    /// The profile of another user. There is no local index of events to
    /// answer from, so this always fails with `UnsupportedOperation`.
    pub fn get_metadata(&self, pubkey: String) -> (r: Result<Option<NostrMetadata>, NostrError>)
        ensures
            r matches Err(e) && e is UnsupportedOperation,
    {
        Err(
            NostrError::UnsupportedOperation(
                String::from_str("fetching metadata needs a local index of events"),
            ),
        )
    }

    /// Opens a subscription at time `now`: checks the filter, brings it into
    /// canonical form, draws an id and enters the subscription in the book.
    /// The id that is returned is the one to send to every connected relay.
    ///
    /// Fails with `InvalidHex` exactly when an id of the filter is not 64
    /// hexadecimal digits, with `InvalidPublicKey` exactly when the ids are
    /// in order and an author is not, and with `SubscriptionFailed` when the
    /// id that was drawn is in use, which cannot happen while no
    /// subscription is open. Where it fails nothing changes.
    pub fn subscribe(&mut self, filter: NostrFilter, auto_close_after: Option<u64>, now: u64) -> (r:
        Result<SubscriptionResult, NostrError>)
        ensures
            final(self).public_key() == old(self).public_key(),
            final(self).relays() == old(self).relays(),
            !hex_field_ok(filter@.ids) <==> r matches Err(NostrError::InvalidHex(_)),
            hex_field_ok(filter@.ids) && !hex_field_ok(filter@.authors) <==> r matches Err(
                NostrError::InvalidPublicKey(_),
            ),
            hex_field_ok(filter@.ids) && hex_field_ok(filter@.authors) && old(self).subscriptions().len() == 0 ==> r is Ok,
            match r {
                Ok(opened) => is_lower_hex(opened.subscription_id@, 32) && !subscription_ids(
                    old(self).subscriptions(),
                ).contains(opened.subscription_id@) && final(self).subscriptions() == old(self).subscriptions().push(
                    SubscriptionData {
                        id: opened.subscription_id@,
                        filter: filter@.canonical(),
                        created_at: now,
                        auto_close_after,
                    },
                ) && opened.events@.len() == 0,
                Err(e) => final(self).subscriptions() == old(self).subscriptions() && (e
                    is InvalidHex || e is InvalidPublicKey || e is SubscriptionFailed),
            },
    {
        match filter.validated() {
            Ok(filter) => self.subscriptions.open(
                fresh_subscription_id(),
                filter,
                auto_close_after,
                now,
            ),
            Err(e) => Err(e),
        }
    }

    /// The result of `subscribe`, given what each relay that the
    /// subscription was sent to answered: the subscription as it was opened
    /// where at least one relay accepted it.
    ///
    /// Fails with `SubscriptionFailed` exactly when no relay accepted; the
    /// subscription is then taken out of the book again.
    pub fn subscribe_outcome(&mut self, opened: SubscriptionResult, accepted: &Vec<RelayAck>) -> (r:
        Result<SubscriptionResult, NostrError>)
        ensures
            final(self).public_key() == old(self).public_key(),
            final(self).relays() == old(self).relays(),
            match r {
                Ok(result) => any_accepted(accepted@) && result == opened && final(self).subscriptions() == old(self).subscriptions(),
                Err(e) => !any_accepted(accepted@) && final(self).subscriptions()
                    == without_subscription(old(self).subscriptions(), opened.subscription_id@)
                    && e is SubscriptionFailed && e.detail() == refusal(accepted@),
            },
    {
        match refused(accepted) {
            None => Ok(opened),
            Some(reason) => {
                self.subscriptions.close(&opened.subscription_id);
                Err(NostrError::SubscriptionFailed(reason))
            },
        }
    }

    /// The ids of the open subscriptions, in the order in which they were
    /// opened. No id occurs twice.
    pub fn subscription_ids(&self) -> (ids: Vec<String>)
        ensures
            ids.deep_view() == subscription_ids(self.subscriptions()),
            subscription_ids(self.subscriptions()).no_duplicates(),
    {
        self.subscriptions.ids()
    }

    /// Closes the subscription of the given id. Never fails: where no such
    /// subscription is open, nothing changes.
    pub fn unsubscribe(&mut self, subscription_id: String) -> (r: Result<(), NostrError>)
        ensures
            r is Ok,
            final(self).public_key() == old(self).public_key(),
            final(self).relays() == old(self).relays(),
            final(self).subscriptions() == without_subscription(
                old(self).subscriptions(),
                subscription_id@,
            ),
            !subscription_ids(old(self).subscriptions()).contains(subscription_id@)
                ==> final(self).subscriptions() == old(self).subscriptions(),
            !subscription_ids(final(self).subscriptions()).contains(subscription_id@),
    {
        self.subscriptions.close(&subscription_id);
        Ok(())
    }

    /// Whether an event that a relay sent under the given subscription id at
    /// time `now` is handed on: the subscription is open, has not closed by
    /// itself, and the event meets its filter.
    pub fn delivers(&self, subscription_id: &String, event: &NostrEvent, now: u64) -> (delivered:
        bool)
        ensures
            delivered == some_delivers(self.subscriptions(), subscription_id@, event@, now),
    {
        self.subscriptions.delivers(subscription_id, event, now)
    }

    /// Drops the subscriptions that have closed by themselves at time `now`
    /// and returns their ids, so that the relays can be told.
    pub fn close_expired(&mut self, now: u64) -> (closed: Vec<String>)
        ensures
            final(self).public_key() == old(self).public_key(),
            final(self).relays() == old(self).relays(),
            final(self).subscriptions() == still_open(old(self).subscriptions(), now),
            closed.deep_view() == expired_ids(old(self).subscriptions(), now),
    {
        self.subscriptions.expire(now)
    }
}

} // verus!
