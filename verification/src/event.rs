//! Events: the signed record, the draft it is signed from, and the inline tag
//! shorthands of a text note.

use nostr::nips::nip04;
use nostr::secp256k1::schnorr::Signature;
use nostr::{Event, EventBuilder, EventId, Keys, Kind, PublicKey, SecretKey, Tag, Timestamp};
use vstd::prelude::*;
use vstd::string::*;
use crate::error::NostrError;
use crate::hex::{
    canonical_hex64, is_canonical_hex64, is_hex, is_hex64, is_lower_hex, lemma_canonical_hex,
    lower_hex,
};
use crate::keys::{keys_of_secret, NostrKeys};
use crate::seqs::DeepCopy;

verus! {

/// Kind of a profile-metadata event.
pub const KIND_METADATA: u16 = 0;

/// Kind of a text note.
pub const KIND_TEXT_NOTE: u16 = 1;

/// Kind of an encrypted direct message.
pub const KIND_ENCRYPTED_DIRECT_MESSAGE: u16 = 4;

/// A signed event, as it travels between client and relay.
#[derive(Debug, Clone)]
pub struct NostrEvent {
    pub id: String,
    pub pubkey: String,
    pub created_at: u64,
    pub kind: u16,
    pub tags: Vec<Vec<String>>,
    pub content: String,
    pub sig: String,
}

/// The mathematical content of a `NostrEvent`.
pub struct EventData {
    pub id: Seq<char>,
    pub pubkey: Seq<char>,
    pub created_at: u64,
    pub kind: u16,
    pub tags: Seq<Seq<Seq<char>>>,
    pub content: Seq<char>,
    pub sig: Seq<char>,
}

impl View for NostrEvent {
    type V = EventData;

    open spec fn view(&self) -> EventData {
        EventData {
            id: self.id@,
            pubkey: self.pubkey@,
            created_at: self.created_at,
            kind: self.kind,
            tags: self.tags.deep_view(),
            content: self.content@,
            sig: self.sig@,
        }
    }
}

/// An event before it is signed: everything but author, time, id and
/// signature.
#[derive(Debug, Clone)]
pub struct EventDraft {
    pub kind: u16,
    pub tags: Vec<Vec<String>>,
    pub content: String,
}

/// The mathematical content of an `EventDraft`.
pub struct DraftData {
    pub kind: u16,
    pub tags: Seq<Seq<Seq<char>>>,
    pub content: Seq<char>,
}

impl View for EventDraft {
    type V = DraftData;

    open spec fn view(&self) -> DraftData {
        DraftData { kind: self.kind, tags: self.tags.deep_view(), content: self.content@ }
    }
}

/// The value that a hashtag tag carries for a given text: the text in lower
/// case, by Unicode's rules.
pub uninterp spec fn hashtag_value(text: Seq<char>) -> Seq<char>;

/// Whether an event with these fields passes verification: its id is the
/// hash of the canonical serialization of author, time, kind, tags and
/// content, and its signature is a valid Schnorr signature of that id under
/// the author's key.
pub uninterp spec fn event_verifies(
    id: Seq<char>,
    pubkey: Seq<char>,
    created_at: u64,
    kind: u16,
    tags: Seq<Seq<Seq<char>>>,
    content: Seq<char>,
    sig: Seq<char>,
) -> bool;

/// What the holder of a secret key reads in the content of a direct message
/// exchanged with `peer_hex`: the text that the content decrypts to under
/// the secret shared between the two keys, or `None` where a key does not
/// parse or the content does not decrypt.
pub uninterp spec fn direct_message_text(
    secret_hex: Seq<char>,
    peer_hex: Seq<char>,
    content: Seq<char>,
) -> Option<Seq<char>>;

/// Whether the cipher of direct messages takes the two keys: both parse,
/// and the receiver's key is the x-coordinate of a point on the curve, so
/// that a secret is shared between the two.
pub uninterp spec fn cipher_accepts(secret_hex: Seq<char>, receiver_hex: Seq<char>) -> bool;

impl EventData {
    /// The event's id and signature verify: see `event_verifies`.
    pub open spec fn is_valid(self) -> bool {
        event_verifies(
            self.id,
            self.pubkey,
            self.created_at,
            self.kind,
            self.tags,
            self.content,
            self.sig,
        )
    }

    /// Id and author are written in canonical form, so that one event has
    /// one id.
    pub open spec fn is_canonical(self) -> bool {
        is_canonical_hex64(self.id) && is_canonical_hex64(self.pubkey)
    }

    /// The event can be handed on: it verifies, id and author are written
    /// in canonical form, and the signature is 128 hexadecimal digits.
    pub open spec fn is_sound(self) -> bool {
        self.is_valid() && self.is_canonical() && is_hex(self.sig, 128)
    }
}

/// `c` is a character of the base64 alphabet.
pub open spec fn is_base64_char(c: char) -> bool {
    ('A' <= c && c <= 'Z') || ('a' <= c && c <= 'z') || ('0' <= c && c <= '9') || c == '+' || c
        == '/'
}

/// The content of a direct message ends in `?iv=` and the 24 characters that
/// base64 writes for an initialisation vector of 16 bytes.
pub open spec fn carries_vector(content: Seq<char>) -> bool {
    let n = content.len() as int;
    &&& n >= 28
    &&& content[n - 28] == '?' && content[n - 27] == 'i' && content[n - 26] == 'v' && content[n
        - 25] == '='
    &&& forall|i: int| n - 24 <= i < n - 2 ==> is_base64_char(#[trigger] content[i])
    &&& content[n - 2] == '=' && content[n - 1] == '='
}

/// What the holder of a secret key reads in the content of a direct message
/// exchanged with `peer_hex`: nothing where the content carries no
/// initialisation vector, else what it decrypts to.
pub open spec fn message_text(secret_hex: Seq<char>, peer_hex: Seq<char>, content: Seq<char>) -> Option<
    Seq<char>,
> {
    if carries_vector(content) {
        direct_message_text(secret_hex, peer_hex, content)
    } else {
        None
    }
}

/// `secret_hex` is a secret key whose public key is `public_key`.
pub open spec fn holds_key(secret_hex: Seq<char>, public_key: Seq<char>) -> bool {
    keys_of_secret(secret_hex) matches Some(k) && k.0 == public_key
}

/// Both ends read `text` in `content`: the sender, who holds `secret_hex`,
/// and whoever holds the secret key of `receiver`.
pub open spec fn both_read(
    secret_hex: Seq<char>,
    receiver: Seq<char>,
    content: Seq<char>,
    text: Seq<char>,
) -> bool {
    &&& message_text(secret_hex, receiver, content) == Some(text)
    &&& keys_of_secret(secret_hex) matches Some(sender) && forall|other: Seq<char>|
        #[trigger] holds_key(other, lower_hex(receiver)) ==> message_text(
            other,
            sender.0,
            content,
        ) == Some(text)
}

/// What one inline tag of a text note becomes, if it is kept.
///
/// A tag of fewer than two elements is dropped. `t` becomes a hashtag; `e`
/// and `p` become references and are dropped where the value is not 64
/// hexadecimal digits; every other tag is dropped. Elements after the second
/// are not carried over.
pub open spec fn shorthand_tag(tag: Seq<Seq<char>>) -> Option<Seq<Seq<char>>> {
    if tag.len() < 2 {
        None
    } else if tag[0] == "t"@ {
        Some(seq!["t"@, hashtag_value(tag[1])])
    } else if tag[0] == "e"@ {
        if is_hex64(tag[1]) {
            Some(seq!["e"@, lower_hex(tag[1])])
        } else {
            None
        }
    } else if tag[0] == "p"@ {
        if is_hex64(tag[1]) {
            Some(seq!["p"@, lower_hex(tag[1])])
        } else {
            None
        }
    } else {
        None
    }
}

/// The inline tags of a text note after the shorthands are resolved: those
/// that `shorthand_tag` keeps, in their order.
pub open spec fn shorthand_tags(tags: Seq<Seq<Seq<char>>>) -> Seq<Seq<Seq<char>>>
    decreases tags.len(),
{
    if tags.len() == 0 {
        Seq::empty()
    } else {
        let rest = shorthand_tags(tags.drop_last());
        match shorthand_tag(tags.last()) {
            Some(t) => rest.push(t),
            None => rest,
        }
    }
}

/// No tag of the list is empty.
pub open spec fn tags_well_formed(tags: Seq<Seq<Seq<char>>>) -> bool {
    forall|i: int| 0 <= i < tags.len() ==> (#[trigger] tags[i]).len() > 0
}

/// `event` is `draft` signed by the holder of `public_key`: the draft's
/// kind, tags and content as they are, an id and a signature that verify,
/// and id, author and signature written in lower-case hexadecimal.
pub open spec fn is_signed_draft(event: EventData, draft: DraftData, public_key: Seq<char>) -> bool {
    &&& event.pubkey == public_key
    &&& event.kind == draft.kind
    &&& event.content == draft.content
    &&& event.tags == draft.tags
    &&& event.is_sound()
    &&& is_lower_hex(event.sig, 128)
}

/// Builds a hashtag tag with `nostr::Tag::hashtag` and returns its elements.
///
/// Trusted: the tag is `["t", v]`, where `v` is `hashtag_value` of the text.
#[verifier::external_body]
fn hashtag_tag(text: &str) -> (tag: Vec<String>)
    ensures
        tag.deep_view() == seq!["t"@, hashtag_value(text@)],
{
    Tag::hashtag(text).to_vec()
}

/// Encrypts a text for `receiver_hex` with `nostr::nips::nip04::encrypt`,
/// with keys parsed by `SecretKey::from_hex` and `PublicKey::from_hex`. The
/// cipher draws a fresh initialisation vector each time.
///
/// Trusted: a content comes back exactly when `cipher_accepts` the two
/// keys, whatever the text. Whatever content comes back ends in `?iv=` and
/// the vector in base64, and both ends read the text in it again: the
/// sender, and the holder of the receiver's secret key, who derives the
/// same shared secret from the sender's public key.
#[verifier::external_body]
fn encrypt_for(secret_hex: &str, receiver_hex: &str, text: &str) -> (r: Option<String>)
    ensures
        r is Some <==> cipher_accepts(secret_hex@, receiver_hex@),
        r matches Some(content) ==> both_read(secret_hex@, receiver_hex@, content@, text@),
{
    let secret = SecretKey::from_hex(secret_hex).ok()?;
    let receiver = PublicKey::from_hex(receiver_hex).ok()?;
    nip04::encrypt(&secret, &receiver, text).ok()
}

/// Decrypts the content of a direct message with
/// `nostr::nips::nip04::decrypt`, with keys parsed by `SecretKey::from_hex`
/// and `PublicKey::from_hex`.
///
/// The cipher takes the initialisation vector as 16 bytes and does not
/// return where the content carries another number of them, so the content
/// has to end in a vector of that length.
///
/// Trusted: the outcome is `direct_message_text` of the three texts.
#[verifier::external_body]
fn decrypt_from(secret_hex: &str, peer_hex: &str, content: &str) -> (r: Option<String>)
    requires
        carries_vector(content@),
    ensures
        r.deep_view() == direct_message_text(secret_hex@, peer_hex@, content@),
{
    let secret = SecretKey::from_hex(secret_hex).ok()?;
    let peer = PublicKey::from_hex(peer_hex).ok()?;
    nip04::decrypt(&secret, &peer, content).ok()
}

/// Signs an event with `nostr::EventBuilder`: `new`, `tags`,
/// `allow_self_tagging` and `sign_with_keys`, with keys made by
/// `SecretKey::from_hex` and `Keys::new` and tags made by `Tag::parse`. The
/// builder reads the clock for the event's time and the signature uses
/// fresh randomness.
///
/// Trusted: an event comes back whenever the key is one that
/// `keys_of_secret` takes and no tag is empty: the key and the tags then
/// parse, and the builder fails only on an id that does not fit the fields,
/// which it has just computed from them. Whatever event comes back has the
/// author that `keys_of_secret` derives, the kind, tags and content given,
/// and passes verification; its id and author are 64 and its signature 128
/// lower-case hexadecimal digits.
#[verifier::external_body]
fn sign_with_secret(secret_hex: &str, kind: u16, tags: &Vec<Vec<String>>, content: &str) -> (r:
    Option<NostrEvent>)
    ensures
        keys_of_secret(secret_hex@) is Some && tags_well_formed(tags.deep_view()) ==> r is Some,
        r matches Some(e) ==> keys_of_secret(secret_hex@) matches Some(k) && is_signed_draft(
            e@,
            DraftData { kind, tags: tags.deep_view(), content: content@ },
            k.0,
        ),
{
    let keys = Keys::new(SecretKey::from_hex(secret_hex).ok()?);
    let list: Option<Vec<Tag>> = tags.iter().map(|t| Tag::parse(t).ok()).collect();
    let draft = EventBuilder::new(Kind::from(kind), content).tags(list?).allow_self_tagging();
    let e = draft.sign_with_keys(&keys).ok()?;
    Some(NostrEvent {
        id: e.id.to_hex(),
        pubkey: e.pubkey.to_hex(),
        created_at: e.created_at.as_u64(),
        kind: e.kind.as_u16(),
        tags: e.tags.into_iter().map(Tag::to_vec).collect(),
        content: e.content,
        sig: e.sig.to_string(),
    })
}

/// Rebuilds the event with `nostr::Event::new` and checks it with
/// `Event::verify`; the fields are parsed by `EventId::from_hex`,
/// `PublicKey::from_hex`, `Signature::from_str` and `Tag::parse`.
///
/// Trusted: the answer is `event_verifies` of the fields; an event whose
/// fields do not parse does not verify, so the id and the author of one
/// that verifies are 64 and its signature 128 hexadecimal digits.
#[verifier::external_body]
fn check_event(e: &NostrEvent) -> (ok: bool)
    ensures
        ok == event_verifies(
            e.id@,
            e.pubkey@,
            e.created_at,
            e.kind,
            e.tags.deep_view(),
            e.content@,
            e.sig@,
        ),
        ok ==> is_hex64(e.id@) && is_hex64(e.pubkey@) && is_hex(e.sig@, 128),
{
    let id = EventId::from_hex(&e.id);
    let key = PublicKey::from_hex(&e.pubkey);
    let sig = e.sig.parse::<Signature>();
    let tags: Result<Vec<Tag>, _> = e.tags.iter().map(Tag::parse).collect();
    let (time, kind) = (Timestamp::from(e.created_at), Kind::from(e.kind));
    match (id, key, sig, tags) {
        (Ok(id), Ok(key), Ok(sig), Ok(tags)) => {
            Event::new(id, key, time, kind, tags, &e.content, sig).verify().is_ok()
        },
        _ => false,
    }
}

/// The inline tags of a text note, once resolved, have two elements each:
/// none is empty, so a text note can always be signed.
pub proof fn lemma_shorthand_tags_well_formed(tags: Seq<Seq<Seq<char>>>)
    ensures
        forall|i: int| 0 <= i < shorthand_tags(tags).len() ==> (#[trigger] shorthand_tags(tags)[i]).len()
            == 2,
        tags_well_formed(shorthand_tags(tags)),
    decreases tags.len(),
{
    if tags.len() > 0 {
        lemma_shorthand_tags_well_formed(tags.drop_last());
    }
}

/// The elements of a list of strings, seen as plain sequences, after one more
/// string is pushed.
pub proof fn lemma_deep_view_push<T: DeepView>(before: Vec<T>, after: Vec<T>, item: T)
    requires
        after@ == before@.push(item),
    ensures
        after.deep_view() == before.deep_view().push(item.deep_view()),
{
    assert(after.deep_view() =~= before.deep_view().push(item.deep_view()));
}

/// Whether a string is exactly the given text.
fn is_text(s: &String, text: &str) -> (same: bool)
    ensures
        same == (s@ == text@),
{
    let other = String::from_str(text);
    *s == other
}

/// The two-element tag `[name, value]`.
fn pair_tag(name: &str, value: String) -> (tag: Vec<String>)
    ensures
        tag.deep_view() == seq![name@, value@],
{
    let tag = vec![String::from_str(name), value];
    assert(tag.deep_view() =~= seq![name@, value@]);
    tag
}

/// Resolves one inline tag of a text note.
pub fn parse_shorthand_tag(tag: &Vec<String>) -> (parsed: Option<Vec<String>>)
    ensures
        parsed.deep_view() == shorthand_tag(tag.deep_view()),
{
    if tag.len() < 2 {
        return None;
    }
    let name = &tag[0];
    let value = &tag[1];
    assert(tag.deep_view()[0] == name@);
    assert(tag.deep_view()[1] == value@);
    if is_text(name, "t") {
        Some(hashtag_tag(value.as_str()))
    } else if is_text(name, "e") {
        match canonical_hex64(value.as_str()) {
            Some(id) => Some(pair_tag("e", id)),
            None => None,
        }
    } else if is_text(name, "p") {
        match canonical_hex64(value.as_str()) {
            Some(key) => Some(pair_tag("p", key)),
            None => None,
        }
    } else {
        None
    }
}

/// Resolves the inline tags of a text note, keeping their order.
pub fn parse_shorthand_tags(tags: &Vec<Vec<String>>) -> (parsed: Vec<Vec<String>>)
    ensures
        parsed.deep_view() == shorthand_tags(tags.deep_view()),
{
    let mut parsed: Vec<Vec<String>> = Vec::new();
    let mut i: usize = 0;
    assert(parsed.deep_view() =~= Seq::empty());
    assert(tags.deep_view().take(0) =~= Seq::empty());
    while i < tags.len()
        invariant
            i <= tags.len(),
            parsed.deep_view() == shorthand_tags(tags.deep_view().take(i as int)),
        decreases tags.len() - i,
    {
        let ghost before = parsed;
        let resolved = parse_shorthand_tag(&tags[i]);
        proof {
            let all = tags.deep_view();
            assert(all.take(i + 1).drop_last() =~= all.take(i as int));
            assert(all.take(i + 1).last() == tags[i as int].deep_view());
        }
        match resolved {
            Some(t) => {
                parsed.push(t);
                proof {
                    lemma_deep_view_push(before, parsed, t);
                }
            },
            None => {},
        }
        i += 1;
    }
    assert(tags.deep_view().take(tags.len() as int) =~= tags.deep_view());
    parsed
}

/// Drafts a text note. With tags given, their shorthands are resolved as
/// `shorthand_tags` says; a tag that cannot be resolved is left out and the
/// note is drafted without it.
pub fn build_text_note(content: String, tags: Option<Vec<Vec<String>>>) -> (draft: EventDraft)
    ensures
        draft.kind == KIND_TEXT_NOTE,
        draft.content@ == content@,
        draft.tags.deep_view() == match tags {
            Some(list) => shorthand_tags(list.deep_view()),
            None => Seq::empty(),
        },
{
    let parsed = match tags {
        Some(list) => parse_shorthand_tags(&list),
        None => {
            let none: Vec<Vec<String>> = Vec::new();
            assert(none.deep_view() =~= Seq::empty());
            none
        },
    };
    EventDraft { kind: KIND_TEXT_NOTE, tags: parsed, content }
}

/// `draft` is a direct message from the holder of `secret_hex` to
/// `receiver` that says `text`: an event of the direct-message kind with one
/// `p` tag that names the receiver, in whose content both ends read the
/// text.
pub open spec fn is_direct_message(
    draft: DraftData,
    secret_hex: Seq<char>,
    receiver: Seq<char>,
    text: Seq<char>,
) -> bool {
    &&& draft.kind == KIND_ENCRYPTED_DIRECT_MESSAGE
    &&& draft.tags == seq![seq!["p"@, lower_hex(receiver)]]
    &&& both_read(secret_hex, receiver, draft.content, text)
}

/// What `build_direct_message` returns once the cipher has answered: the
/// draft that carries the encrypted content to the receiver, or
/// `EventCreationFailed` where the cipher gave none. `receiver` is the
/// receiver's key in canonical form.
pub fn direct_message_draft(receiver: String, content: Option<String>) -> (r: Result<
    EventDraft,
    NostrError,
>)
    ensures
        match content {
            Some(text) => r matches Ok(draft) && draft@ == (DraftData {
                kind: KIND_ENCRYPTED_DIRECT_MESSAGE,
                tags: seq![seq!["p"@, receiver@]],
                content: text@,
            }),
            None => r matches Err(e) && e is EventCreationFailed && e.detail()
                == "the message could not be encrypted"@,
        },
{
    match content {
        Some(text) => {
            let ghost name = receiver@;
            let tags = vec![pair_tag("p", receiver)];
            assert(tags.deep_view() =~= seq![seq!["p"@, name]]);
            Ok(EventDraft { kind: KIND_ENCRYPTED_DIRECT_MESSAGE, tags, content: text })
        },
        None => Err(
            NostrError::EventCreationFailed(
                String::from_str("the message could not be encrypted"),
            ),
        ),
    }
}

/// Drafts a direct message from the holder of `keys` to `receiver_pubkey`.
/// The text is encrypted under the secret shared between the two keys
/// before it goes into the draft.
///
/// Fails with `InvalidSecretKey` exactly when the secret key of `keys` is
/// not valid, with `InvalidPublicKey` exactly when the secret key is valid
/// and the receiver is not 64 hexadecimal digits, and with
/// `EventCreationFailed` exactly when both are in order and the cipher does
/// not take the receiver's key: see `cipher_accepts`.
pub fn build_direct_message(keys: &NostrKeys, receiver_pubkey: String, message: String) -> (r:
    Result<EventDraft, NostrError>)
    ensures
        r is Ok <==> keys_of_secret(keys.private_key@) is Some && is_hex64(receiver_pubkey@)
            && cipher_accepts(keys.private_key@, receiver_pubkey@),
        keys_of_secret(keys.private_key@) is None <==> r matches Err(NostrError::InvalidSecretKey(_)),
        keys_of_secret(keys.private_key@) is Some && !is_hex64(receiver_pubkey@) <==> r matches Err(
            NostrError::InvalidPublicKey(_),
        ),
        r matches Err(NostrError::InvalidPublicKey(detail)) ==> detail@
            == "expected 64 hexadecimal digits"@,
        r matches Err(e) ==> e is InvalidSecretKey || e is InvalidPublicKey || e
            is EventCreationFailed,
        r matches Ok(draft) ==> is_direct_message(
            draft@,
            keys.private_key@,
            receiver_pubkey@,
            message@,
        ),
{
    match crate::keys::derive_keys(keys.private_key.as_str()) {
        Err(reason) => Err(NostrError::InvalidSecretKey(reason)),
        Ok(_) => match canonical_hex64(receiver_pubkey.as_str()) {
            None => Err(
                NostrError::InvalidPublicKey(String::from_str("expected 64 hexadecimal digits")),
            ),
            Some(receiver) => direct_message_draft(
                receiver,
                encrypt_for(
                    keys.private_key.as_str(),
                    receiver_pubkey.as_str(),
                    message.as_str(),
                ),
            ),
        },
    }
}

/// Whether a character belongs to the base64 alphabet.
fn check_base64_char(c: char) -> (ok: bool)
    ensures
        ok == is_base64_char(c),
{
    ('A' <= c && c <= 'Z') || ('a' <= c && c <= 'z') || ('0' <= c && c <= '9') || c == '+' || c
        == '/'
}

/// Whether the content of a direct message ends in an initialisation vector
/// of 16 bytes.
fn check_carries_vector(content: &str) -> (ok: bool)
    ensures
        ok == carries_vector(content@),
{
    let n = content.unicode_len();
    if n < 28 {
        return false;
    }
    if content.get_char(n - 28) != '?' || content.get_char(n - 27) != 'i' || content.get_char(
        n - 26,
    ) != 'v' || content.get_char(n - 25) != '=' || content.get_char(n - 2) != '='
        || content.get_char(n - 1) != '=' {
        return false;
    }
    let mut i: usize = n - 24;
    while i < n - 2
        invariant
            n == content@.len(),
            n >= 28,
            n - 24 <= i <= n - 2,
            forall|j: int| n - 24 <= j < i ==> is_base64_char(#[trigger] content@[j]),
        decreases n - i,
    {
        if !check_base64_char(content.get_char(i)) {
            return false;
        }
        i += 1;
    }
    true
}

/// Reads the content of a direct message exchanged with `peer_pubkey`, as
/// the holder of `keys`: the text, or `None` where the content carries no
/// initialisation vector, a key does not parse or the content does not
/// decrypt.
pub fn read_direct_message(keys: &NostrKeys, peer_pubkey: &String, content: &String) -> (text:
    Option<String>)
    ensures
        text.deep_view() == message_text(keys.private_key@, peer_pubkey@, content@),
{
    if check_carries_vector(content.as_str()) {
        decrypt_from(keys.private_key.as_str(), peer_pubkey.as_str(), content.as_str())
    } else {
        None
    }
}

/// Whether no tag of the list is empty.
fn check_tags_well_formed(tags: &Vec<Vec<String>>) -> (ok: bool)
    ensures
        ok == tags_well_formed(tags.deep_view()),
{
    let mut i: usize = 0;
    while i < tags.len()
        invariant
            i <= tags.len(),
            forall|j: int| 0 <= j < i ==> (#[trigger] tags.deep_view()[j]).len() > 0,
        decreases tags.len() - i,
    {
        if tags[i].len() == 0 {
            assert(tags.deep_view()[i as int].len() == 0);
            return false;
        }
        assert(tags.deep_view()[i as int].len() == tags[i as int].len());
        i += 1;
    }
    true
}

/// What `sign` returns once the signer has answered: the signed event, or
/// `EventCreationFailed` where the signer gave none.
pub fn signing_outcome(outcome: Option<NostrEvent>) -> (r: Result<NostrEvent, NostrError>)
    ensures
        match outcome {
            Some(event) => r == Ok::<NostrEvent, NostrError>(event),
            None => r matches Err(e) && e is EventCreationFailed && e.detail()
                == "the signer returned no event"@,
        },
{
    match outcome {
        Some(event) => Ok(event),
        None => Err(
            NostrError::EventCreationFailed(String::from_str("the signer returned no event")),
        ),
    }
}

/// Signs a draft with the secret key of `keys`; the author is the public key
/// derived from that secret key.
///
/// Fails with `InvalidSecretKey` exactly when the secret key is not valid,
/// and with `EventCreationFailed` and the detail `empty tag` exactly when
/// the key is valid and a tag of the draft is empty. In every other case
/// the draft is signed and the event returned: see `is_signed_draft`.
pub fn sign(draft: EventDraft, keys: &NostrKeys) -> (r: Result<NostrEvent, NostrError>)
    ensures
        r is Ok <==> keys_of_secret(keys.private_key@) is Some && tags_well_formed(
            draft.tags.deep_view(),
        ),
        keys_of_secret(keys.private_key@) is None <==> r matches Err(NostrError::InvalidSecretKey(_)),
        keys_of_secret(keys.private_key@) is Some && !tags_well_formed(draft.tags.deep_view())
            <==> r matches Err(NostrError::EventCreationFailed(_)),
        r matches Err(NostrError::EventCreationFailed(detail)) ==> detail@ == "empty tag"@,
        r matches Ok(event) ==> keys_of_secret(keys.private_key@) matches Some(k) && is_signed_draft(
            event@,
            draft@,
            k.0,
        ),
{
    match crate::keys::derive_keys(keys.private_key.as_str()) {
        Err(text) => Err(NostrError::InvalidSecretKey(text)),
        Ok(_) => {
            if !check_tags_well_formed(&draft.tags) {
                Err(NostrError::EventCreationFailed(String::from_str("empty tag")))
            } else {
                signing_outcome(
                    sign_with_secret(
                        keys.private_key.as_str(),
                        draft.kind,
                        &draft.tags,
                        draft.content.as_str(),
                    ),
                )
            }
        },
    }
}

impl NostrEvent {
    /// A copy of the event.
    pub fn duplicate(&self) -> (copy: NostrEvent)
        ensures
            copy@ == self@,
    {
        NostrEvent {
            id: self.id.clone(),
            pubkey: self.pubkey.clone(),
            created_at: self.created_at,
            kind: self.kind,
            tags: self.tags.deep_copy(),
            content: self.content.clone(),
            sig: self.sig.clone(),
        }
    }

    /// The event's id and signature verify: see `event_verifies`.
    pub open spec fn is_valid(&self) -> bool {
        self@.is_valid()
    }

    /// Re-derives the id from author, time, kind, tags and content, and
    /// checks the signature against id and author. In an event that
    /// verifies, id and author are 64 and the signature 128 hexadecimal
    /// digits.
    pub fn verify(&self) -> (ok: bool)
        ensures
            ok == self.is_valid(),
            ok ==> is_hex64(self.id@) && is_hex64(self.pubkey@) && is_hex(self.sig@, 128),
    {
        check_event(self)
    }

    /// Whether the event can be handed on: it verifies, and its id and
    /// author are written in lower case. The signature of such an event is
    /// 128 hexadecimal digits.
    pub fn is_sound(&self) -> (ok: bool)
        ensures
            ok == self@.is_sound(),
    {
        if !self.verify() {
            return false;
        }
        proof {
            lemma_canonical_hex(self.id@);
            lemma_canonical_hex(self.pubkey@);
        }
        let id_ok = match canonical_hex64(self.id.as_str()) {
            Some(canonical) => canonical == self.id,
            None => false,
        };
        let author_ok = match canonical_hex64(self.pubkey.as_str()) {
            Some(canonical) => canonical == self.pubkey,
            None => false,
        };
        id_ok && author_ok
    }
}

/// A draft that was signed verifies, whoever signed it, and can be handed
/// on.
pub proof fn lemma_signed_event_verifies(event: NostrEvent, draft: DraftData, public_key: Seq<char>)
    requires
        is_signed_draft(event@, draft, public_key),
    ensures
        event.is_valid(),
        event@.is_sound(),
{
}

} // verus!
