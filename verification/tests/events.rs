use nopu_nostr::error::NostrError;
use nopu_nostr::event::{
    build_direct_message, build_text_note, direct_message_draft, parse_shorthand_tag,
    parse_shorthand_tags, read_direct_message, sign, signing_outcome, EventDraft, NostrEvent,
    KIND_ENCRYPTED_DIRECT_MESSAGE, KIND_METADATA, KIND_TEXT_NOTE,
};
use nopu_nostr::keys::{generate_keys, keys_from_secret_key, NostrKeys};

const SECRET: &str = "6b911fd37cdf5c81d4c0adb1ab7fa822ed253ab0ad9aa18d77257c88b29b718e";
const PUBLIC: &str = "385c3a6ec0b9d57a4330dbd6284989be5bd00e41c535f9ca39b6ae7c521b81cd";
const OTHER: &str = "13adc511de7e1cfcf1c6b7f6365fb5a03442d7bcacf565ea57fa7770912c023d";
const RECEIVER_SECRET: &str = "7b911fd37cdf5c81d4c0adb1ab7fa822ed253ab0ad9aa18d77257c88b29b718e";

fn strings(items: &[&str]) -> Vec<String> {
    items.iter().map(|s| s.to_string()).collect()
}

fn known_event() -> NostrEvent {
    NostrEvent {
        id: "2be17aa3031bdcb006f0fce80c146dea9c1c0268b0af2398bb673365c6444d45".to_string(),
        pubkey: "f86c44a2de95d9149b51c6a29afeabba264c18e2fa7c49de93424a0c56947785".to_string(),
        created_at: 1640839235,
        kind: 4,
        tags: vec![strings(&["p", OTHER])],
        content: "uRuvYr585B80L6rSJiHocw==?iv=oh6LVqdsYYol3JfFnXTbPA==".to_string(),
        sig: "a5d9290ef9659083c490b303eb7ee41356d8778ff19f2f91776c8dc4443388a64ffcf336e61af4c25c05ac3ae952d1ced889ed655b67790891222aaa15b99fdd".to_string(),
    }
}

#[test]
fn kind_constants_are_the_protocol_numbers() {
    assert_eq!(KIND_METADATA, 0);
    assert_eq!(KIND_TEXT_NOTE, 1);
    assert_eq!(KIND_ENCRYPTED_DIRECT_MESSAGE, 4);
}

#[test]
fn signed_text_note_carries_kind_tags_and_author() {
    let identity = generate_keys();
    let draft = build_text_note("hello".to_string(), Some(vec![strings(&["t", "nostr"])]));
    let event = sign(draft, &identity).unwrap();
    assert_eq!(event.kind, KIND_TEXT_NOTE);
    assert_eq!(event.tags, vec![strings(&["t", "nostr"])]);
    assert_eq!(event.pubkey, identity.public_key);
    assert_eq!(event.content, "hello");
    assert_eq!(event.id.len(), 64);
    assert_eq!(event.sig.len(), 128);
    assert!(event.verify());
}

#[test]
fn text_note_without_tags_has_none() {
    let draft = build_text_note("plain".to_string(), None);
    assert_eq!(draft.kind, 1);
    assert!(draft.tags.is_empty());
    assert_eq!(draft.content, "plain");
    let draft = build_text_note("plain".to_string(), Some(vec![]));
    assert!(draft.tags.is_empty());
}

#[test]
fn hashtag_is_put_in_lower_case() {
    let parsed = parse_shorthand_tag(&strings(&["t", "NoStR"]));
    assert_eq!(parsed, Some(strings(&["t", "nostr"])));
}

#[test]
fn event_reference_is_kept_when_it_is_hex_of_the_right_length() {
    let upper = OTHER.to_uppercase();
    assert_eq!(parse_shorthand_tag(&strings(&["e", OTHER])), Some(strings(&["e", OTHER])));
    assert_eq!(parse_shorthand_tag(&strings(&["e", &upper])), Some(strings(&["e", OTHER])));
    assert_eq!(parse_shorthand_tag(&strings(&["p", OTHER])), Some(strings(&["p", OTHER])));
    assert_eq!(parse_shorthand_tag(&strings(&["p", &upper])), Some(strings(&["p", OTHER])));
}

#[test]
fn malformed_reference_is_skipped() {
    assert_eq!(parse_shorthand_tag(&strings(&["e", "abc"])), None);
    assert_eq!(parse_shorthand_tag(&strings(&["e", &OTHER[..63]])), None);
    assert_eq!(parse_shorthand_tag(&strings(&["e", &format!("{}g", &OTHER[..63])])), None);
    assert_eq!(parse_shorthand_tag(&strings(&["p", "not a key"])), None);
    assert_eq!(parse_shorthand_tag(&strings(&["p", ""])), None);
}

#[test]
fn short_and_unknown_tags_are_skipped() {
    assert_eq!(parse_shorthand_tag(&strings(&[])), None);
    assert_eq!(parse_shorthand_tag(&strings(&["t"])), None);
    assert_eq!(parse_shorthand_tag(&strings(&["x", "value"])), None);
    assert_eq!(parse_shorthand_tag(&strings(&["T", "value"])), None);
}

#[test]
fn elements_after_the_second_are_not_carried_over() {
    let parsed = parse_shorthand_tag(&strings(&["e", OTHER, "wss://relay.example", "reply"]));
    assert_eq!(parsed, Some(strings(&["e", OTHER])));
    let parsed = parse_shorthand_tag(&strings(&["t", "a", "b"]));
    assert_eq!(parsed, Some(strings(&["t", "a"])));
}

#[test]
fn shorthand_tags_keep_their_order() {
    let tags = vec![
        strings(&["p", OTHER]),
        strings(&["e", "bad"]),
        strings(&["t", "One"]),
        strings(&["r", "https://example.com"]),
        strings(&["e", OTHER]),
    ];
    let parsed = parse_shorthand_tags(&tags);
    assert_eq!(
        parsed,
        vec![strings(&["p", OTHER]), strings(&["t", "one"]), strings(&["e", OTHER])]
    );
}

#[test]
fn signing_keeps_every_tag_of_the_draft() {
    let keys = keys_from_secret_key(SECRET.to_string()).unwrap();
    let tags = vec![strings(&["p", PUBLIC]), strings(&["p", OTHER]), strings(&["t", "x"])];
    let event = sign(build_text_note("note".to_string(), Some(tags)), &keys).unwrap();
    assert_eq!(
        event.tags,
        vec![strings(&["p", PUBLIC]), strings(&["p", OTHER]), strings(&["t", "x"])]
    );
    assert_eq!(event.pubkey, PUBLIC);
    assert!(event.verify());
}

#[test]
fn signing_keeps_tags_that_were_not_resolved_from_shorthands() {
    let keys = keys_from_secret_key(SECRET.to_string()).unwrap();
    let tags = vec![strings(&["client"]), strings(&["r", "https://example.com", "x", "y"])];
    let draft = EventDraft { kind: 30000, tags: tags.clone(), content: String::new() };
    let event = sign(draft, &keys).unwrap();
    assert_eq!(event.tags, tags);
    assert_eq!(event.kind, 30000);
    assert!(event.verify());
}

#[test]
fn direct_message_names_the_receiver_and_hides_the_text() {
    let keys = keys_from_secret_key(SECRET.to_string()).unwrap();
    let draft =
        build_direct_message(&keys, OTHER.to_uppercase(), "secret words".to_string()).unwrap();
    assert_eq!(draft.kind, KIND_ENCRYPTED_DIRECT_MESSAGE);
    assert_eq!(draft.tags, vec![strings(&["p", OTHER])]);
    assert_ne!(draft.content, "secret words");
    assert!(!draft.content.contains("secret"));
    assert!(draft.content.contains("?iv="));
    let read = read_direct_message(&keys, &OTHER.to_string(), &draft.content);
    assert_eq!(read, Some("secret words".to_string()));
    let event = sign(draft, &keys).unwrap();
    assert_eq!(event.kind, 4);
    assert_eq!(event.tags, vec![strings(&["p", OTHER])]);
    assert!(event.verify());
}

#[test]
fn receiver_reads_what_the_sender_wrote() {
    let sender = keys_from_secret_key(SECRET.to_string()).unwrap();
    let receiver = keys_from_secret_key(RECEIVER_SECRET.to_string()).unwrap();
    let text = "Saturn, bringer of old age".to_string();
    let draft = build_direct_message(&sender, receiver.public_key.clone(), text.clone()).unwrap();
    assert_eq!(read_direct_message(&receiver, &sender.public_key, &draft.content), Some(text));
}

#[test]
fn known_direct_message_decrypts() {
    let sender = keys_from_secret_key(SECRET.to_string()).unwrap();
    let receiver = keys_from_secret_key(RECEIVER_SECRET.to_string()).unwrap();
    let content =
        "dJc+WbBgaFCD2/kfg1XCWJParplBDxnZIdJGZ6FCTOg=?iv=M6VxRPkMZu7aIdD+10xPuw==".to_string();
    assert_eq!(
        read_direct_message(&receiver, &sender.public_key, &content),
        Some("Saturn, bringer of old age".to_string())
    );
}

#[test]
fn content_that_is_no_ciphertext_reads_as_nothing() {
    let keys = keys_from_secret_key(SECRET.to_string()).unwrap();
    let peer = OTHER.to_string();
    assert_eq!(read_direct_message(&keys, &peer, &"invalidcontentformat".to_string()), None);
    assert_eq!(read_direct_message(&keys, &peer, &"badbase64?iv=encode".to_string()), None);
    assert_eq!(read_direct_message(&keys, &"nobody".to_string(), &"a?iv=b".to_string()), None);
}

#[test]
fn content_with_a_vector_of_the_wrong_length_reads_as_nothing() {
    let keys = keys_from_secret_key(SECRET.to_string()).unwrap();
    let peer = OTHER.to_string();
    for content in [
        "AAAA?iv=AAAA",
        "AAAA?iv=",
        "?iv=",
        "AAAA?iv=AAAAAAAAAAAAAAAAAAAAAAAA",
        "AAAA?iv=AAAAAAAAAAAAAAAAAAAAAA=",
        "AAAA?iv=AAAAAAAAAAAAAAAAAAAAAAAAAAAAAAAAAAAAAAAAAAA=",
        "AAAA?iv=AAAAAAAAAAAAAAAAAAAAA*==",
    ] {
        assert_eq!(read_direct_message(&keys, &peer, &content.to_string()), None);
    }
    let well_formed = "AAAA?iv=AAAAAAAAAAAAAAAAAAAAAA==".to_string();
    assert_eq!(read_direct_message(&keys, &peer, &well_formed), None);
}

#[test]
fn the_same_text_is_encrypted_differently_each_time() {
    let keys = keys_from_secret_key(SECRET.to_string()).unwrap();
    let a = build_direct_message(&keys, OTHER.to_string(), "again".to_string()).unwrap();
    let b = build_direct_message(&keys, OTHER.to_string(), "again".to_string()).unwrap();
    assert_ne!(a.content, b.content);
}

#[test]
fn direct_message_to_a_key_that_is_no_point_is_refused_by_the_cipher() {
    let keys = keys_from_secret_key(SECRET.to_string()).unwrap();
    let r = build_direct_message(&keys, "f".repeat(64), "m".to_string());
    match r {
        Err(NostrError::EventCreationFailed(reason)) => {
            assert_eq!(reason, "the message could not be encrypted")
        }
        _ => panic!("expected EventCreationFailed"),
    }
}

#[test]
fn direct_message_to_a_malformed_key_is_rejected() {
    let keys = keys_from_secret_key(SECRET.to_string()).unwrap();
    for bad in ["", "xyz", &OTHER[..62]] {
        let r = build_direct_message(&keys, bad.to_string(), "m".to_string());
        assert!(matches!(r, Err(NostrError::InvalidPublicKey(_))));
    }
}

#[test]
fn direct_message_from_an_invalid_secret_key_is_rejected() {
    let keys = NostrKeys { public_key: PUBLIC.to_string(), private_key: "nonsense".to_string() };
    let r = build_direct_message(&keys, OTHER.to_string(), "m".to_string());
    assert!(matches!(r, Err(NostrError::InvalidSecretKey(_))));
    let r = build_direct_message(&keys, "also bad".to_string(), "m".to_string());
    assert!(matches!(r, Err(NostrError::InvalidSecretKey(_))));
}

#[test]
fn direct_message_draft_carries_what_the_cipher_gave() {
    let draft = direct_message_draft(OTHER.to_string(), Some("abc?iv=def".to_string())).unwrap();
    assert_eq!(draft.kind, 4);
    assert_eq!(draft.tags, vec![strings(&["p", OTHER])]);
    assert_eq!(draft.content, "abc?iv=def");
    match direct_message_draft(OTHER.to_string(), None) {
        Err(NostrError::EventCreationFailed(reason)) => {
            assert_eq!(reason, "the message could not be encrypted")
        }
        _ => panic!("expected EventCreationFailed"),
    }
}

#[test]
fn signing_with_an_invalid_secret_key_is_rejected() {
    let keys = NostrKeys { public_key: PUBLIC.to_string(), private_key: "nonsense".to_string() };
    let r = sign(build_text_note("x".to_string(), None), &keys);
    assert!(matches!(r, Err(NostrError::InvalidSecretKey(_))));
}

#[test]
fn signing_a_draft_with_an_empty_tag_fails() {
    let keys = keys_from_secret_key(SECRET.to_string()).unwrap();
    let draft = EventDraft { kind: 1, tags: vec![vec![]], content: "x".to_string() };
    match sign(draft, &keys) {
        Err(NostrError::EventCreationFailed(reason)) => assert_eq!(reason, "empty tag"),
        _ => panic!("expected EventCreationFailed"),
    }
}

#[test]
fn signed_event_is_written_in_lower_case_hex() {
    let keys = keys_from_secret_key(SECRET.to_string()).unwrap();
    let event = sign(build_text_note("x".to_string(), None), &keys).unwrap();
    let lower = |s: &str| s.chars().all(|c| c.is_ascii_digit() || ('a'..='f').contains(&c));
    assert!(event.id.len() == 64 && lower(&event.id));
    assert!(event.pubkey.len() == 64 && lower(&event.pubkey));
    assert!(event.sig.len() == 128 && lower(&event.sig));
    assert!(event.is_sound());
}

#[test]
fn event_in_upper_case_verifies_but_is_not_sound() {
    assert!(known_event().is_sound());
    let mut e = known_event();
    e.pubkey = e.pubkey.to_uppercase();
    assert!(e.verify());
    assert!(!e.is_sound());
    let mut e = known_event();
    e.content.push('!');
    assert!(!e.is_sound());
}

#[test]
fn the_author_is_derived_from_the_secret_key_alone() {
    let keys = NostrKeys { public_key: OTHER.to_string(), private_key: SECRET.to_string() };
    let event = sign(build_text_note("x".to_string(), None), &keys).unwrap();
    assert_eq!(event.pubkey, PUBLIC);
}

#[test]
fn signing_outcome_maps_failure_to_event_creation_failed() {
    let ok = signing_outcome(Some(known_event())).unwrap();
    assert_eq!(ok.id, known_event().id);
    match signing_outcome(None) {
        Err(NostrError::EventCreationFailed(text)) => {
            assert_eq!(text, "the signer returned no event")
        }
        _ => panic!("expected EventCreationFailed"),
    }
}

#[test]
fn known_event_verifies() {
    assert!(known_event().verify());
}

#[test]
fn changing_any_field_invalidates_the_event() {
    let mut e = known_event();
    e.content.push('!');
    assert!(!e.verify());
    let mut e = known_event();
    e.created_at += 1;
    assert!(!e.verify());
    let mut e = known_event();
    e.kind = 1;
    assert!(!e.verify());
    let mut e = known_event();
    e.tags.push(strings(&["t", "x"]));
    assert!(!e.verify());
    let mut e = known_event();
    e.pubkey = PUBLIC.to_string();
    assert!(!e.verify());
    let mut e = known_event();
    e.id = OTHER.to_string();
    assert!(!e.verify());
    let mut e = known_event();
    e.sig = e.sig.replace('a', "b");
    assert!(!e.verify());
}

#[test]
fn event_with_fields_that_do_not_parse_does_not_verify() {
    let mut e = known_event();
    e.id = "short".to_string();
    assert!(!e.verify());
    let mut e = known_event();
    e.sig = "Signature(00)".to_string();
    assert!(!e.verify());
    let mut e = known_event();
    e.tags.push(vec![]);
    assert!(!e.verify());
}

#[test]
fn changing_a_signed_event_invalidates_its_signature() {
    let keys = keys_from_secret_key(SECRET.to_string()).unwrap();
    let event = sign(build_text_note("as written".to_string(), None), &keys).unwrap();
    assert!(event.verify());
    let mut changed = event.duplicate();
    changed.content = "forged".to_string();
    assert!(!changed.verify());
}

#[test]
fn duplicate_copies_every_field() {
    let e = known_event();
    let c = e.duplicate();
    assert_eq!(c.id, e.id);
    assert_eq!(c.pubkey, e.pubkey);
    assert_eq!(c.created_at, e.created_at);
    assert_eq!(c.kind, e.kind);
    assert_eq!(c.tags, e.tags);
    assert_eq!(c.content, e.content);
    assert_eq!(c.sig, e.sig);
}
