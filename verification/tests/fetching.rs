use nopu_nostr::error::NostrError;
use nopu_nostr::event::{build_text_note, sign, NostrEvent};
use nopu_nostr::fetch::{fetch_outcome, merge_events, RelayReply};
use nopu_nostr::filter::NostrFilter;
use nopu_nostr::keys::keys_from_secret_key;

const SECRET: &str = "6b911fd37cdf5c81d4c0adb1ab7fa822ed253ab0ad9aa18d77257c88b29b718e";

fn event(id: &str, at: u64, content: &str) -> NostrEvent {
    NostrEvent {
        id: id.to_string(),
        pubkey: String::new(),
        created_at: at,
        kind: 1,
        tags: vec![],
        content: content.to_string(),
        sig: String::new(),
    }
}

fn ids(events: &[NostrEvent]) -> Vec<String> {
    events.iter().map(|e| e.id.clone()).collect()
}

fn reply(url: &str, events: Result<Vec<NostrEvent>, String>) -> RelayReply {
    RelayReply { url: url.to_string(), events }
}

#[test]
fn same_event_from_two_relays_is_returned_once() {
    let a = vec![event("abc", 10, "from a")];
    let b = vec![event("abc", 10, "from b")];
    let merged = merge_events(&vec![a, b], None);
    assert_eq!(merged.len(), 1);
    assert_eq!(merged[0].id, "abc");
}

#[test]
fn first_event_seen_for_an_id_wins() {
    let a = vec![event("abc", 10, "first")];
    let b = vec![event("abc", 99, "second")];
    let merged = merge_events(&vec![a, b], None);
    assert_eq!(merged.len(), 1);
    assert_eq!(merged[0].content, "first");
    assert_eq!(merged[0].created_at, 10);
}

#[test]
fn duplicates_within_one_batch_are_dropped() {
    let a = vec![event("x", 1, "1"), event("y", 2, "2"), event("x", 3, "3")];
    let merged = merge_events(&vec![a], None);
    assert_eq!(ids(&merged), vec!["y", "x"]);
    assert_eq!(merged[1].content, "1");
}

#[test]
fn merged_events_run_from_newest_to_oldest() {
    let a = vec![event("a", 5, ""), event("b", 50, ""), event("c", 20, "")];
    let b = vec![event("d", 30, ""), event("b", 50, ""), event("e", 1, "")];
    let merged = merge_events(&vec![a, b], None);
    assert_eq!(ids(&merged), vec!["b", "d", "c", "a", "e"]);
}

#[test]
fn events_of_one_time_keep_the_order_in_which_they_were_seen() {
    let a = vec![event("a", 7, ""), event("b", 7, "")];
    let b = vec![event("c", 7, ""), event("d", 9, "")];
    let merged = merge_events(&vec![a, b], None);
    assert_eq!(ids(&merged), vec!["d", "a", "b", "c"]);
}

#[test]
fn limit_keeps_the_newest_events() {
    let a = vec![event("a", 1, ""), event("b", 2, ""), event("c", 3, ""), event("d", 4, "")];
    let merged = merge_events(&vec![a], Some(2));
    assert_eq!(ids(&merged), vec!["d", "c"]);
}

#[test]
fn limit_larger_than_the_result_changes_nothing() {
    let a = vec![event("a", 1, ""), event("b", 2, "")];
    assert_eq!(ids(&merge_events(&vec![a], Some(5))), vec!["b", "a"]);
    let a = vec![event("a", 1, ""), event("b", 2, "")];
    assert_eq!(ids(&merge_events(&vec![a], Some(2))), vec!["b", "a"]);
}

#[test]
fn limit_of_zero_gives_nothing() {
    let a = vec![event("a", 1, "")];
    assert!(merge_events(&vec![a], Some(0)).is_empty());
}

#[test]
fn limit_counts_distinct_events() {
    let a = vec![event("a", 3, ""), event("a", 3, ""), event("b", 2, ""), event("c", 1, "")];
    assert_eq!(ids(&merge_events(&vec![a], Some(2))), vec!["a", "b"]);
}

#[test]
fn merging_nothing_gives_nothing() {
    assert!(merge_events(&vec![], None).is_empty());
    assert!(merge_events(&vec![vec![], vec![]], Some(3)).is_empty());
}

fn limit(limit: Option<u64>) -> NostrFilter {
    NostrFilter {
        ids: None,
        authors: None,
        kinds: None,
        since: None,
        until: None,
        limit,
        search: None,
    }
}

fn signed(content: &str) -> NostrEvent {
    let keys = keys_from_secret_key(SECRET.to_string()).unwrap();
    sign(build_text_note(content.to_string(), None), &keys).unwrap()
}

fn known_event() -> NostrEvent {
    NostrEvent {
        id: "2be17aa3031bdcb006f0fce80c146dea9c1c0268b0af2398bb673365c6444d45".to_string(),
        pubkey: "f86c44a2de95d9149b51c6a29afeabba264c18e2fa7c49de93424a0c56947785".to_string(),
        created_at: 1640839235,
        kind: 4,
        tags: vec![vec![
            "p".to_string(),
            "13adc511de7e1cfcf1c6b7f6365fb5a03442d7bcacf565ea57fa7770912c023d".to_string(),
        ]],
        content: "uRuvYr585B80L6rSJiHocw==?iv=oh6LVqdsYYol3JfFnXTbPA==".to_string(),
        sig: "a5d9290ef9659083c490b303eb7ee41356d8778ff19f2f91776c8dc4443388a64ffcf336e61af4c25c05ac3ae952d1ced889ed655b67790891222aaa15b99fdd".to_string(),
    }
}

#[test]
fn fetch_over_two_relays_returns_a_shared_event_once() {
    let e = signed("shared");
    let replies = vec![
        reply("wss://a.example", Ok(vec![e.duplicate()])),
        reply("wss://b.example", Ok(vec![e.duplicate()])),
    ];
    let events = fetch_outcome(&replies, &limit(None)).unwrap();
    assert_eq!(ids(&events), vec![e.id.clone()]);
    assert!(events[0].verify());
}

#[test]
fn fetch_passes_over_relays_that_failed() {
    let old = known_event();
    let new = signed("new");
    let replies = vec![
        reply("wss://a.example", Err("connection reset".to_string())),
        reply("wss://b.example", Ok(vec![old.duplicate(), new.duplicate()])),
        reply("wss://c.example", Err("timeout".to_string())),
    ];
    let events = fetch_outcome(&replies, &limit(Some(10))).unwrap();
    assert_eq!(ids(&events), vec![new.id, old.id]);
}

#[test]
fn fetch_drops_events_that_do_not_verify() {
    let good = signed("good");
    let mut forged = signed("as written");
    forged.content = "forged".to_string();
    let mut shouted = known_event();
    shouted.id = shouted.id.to_uppercase();
    assert!(shouted.verify());
    assert!(!shouted.is_sound());
    let replies = vec![reply(
        "wss://a.example",
        Ok(vec![forged, event("abc", 10, "made up"), good.duplicate(), shouted]),
    )];
    let events = fetch_outcome(&replies, &limit(None)).unwrap();
    assert_eq!(ids(&events), vec![good.id]);
}

#[test]
fn fetch_with_only_unsound_events_gives_an_empty_result() {
    let replies = vec![reply("wss://a.example", Ok(vec![event("abc", 10, "made up")]))];
    assert!(fetch_outcome(&replies, &limit(None)).unwrap().is_empty());
}

#[test]
fn fetch_with_an_empty_answer_succeeds() {
    let replies = vec![reply("wss://a.example", Ok(vec![]))];
    assert!(fetch_outcome(&replies, &limit(None)).unwrap().is_empty());
}

#[test]
fn fetch_fails_when_every_relay_failed() {
    let replies = vec![
        reply("wss://a.example", Err("connection reset".to_string())),
        reply("wss://b.example", Err("timeout".to_string())),
    ];
    match fetch_outcome(&replies, &limit(None)) {
        Err(NostrError::EventQueryFailed(reason)) => assert_eq!(reason, "connection reset"),
        _ => panic!("expected EventQueryFailed"),
    }
}

#[test]
fn fetch_from_no_relay_fails() {
    match fetch_outcome(&vec![], &limit(None)) {
        Err(NostrError::EventQueryFailed(reason)) => assert_eq!(reason, "no relay was asked"),
        _ => panic!("expected EventQueryFailed"),
    }
}

#[test]
fn fetch_respects_the_limit() {
    let old = known_event();
    let (a, b) = (signed("a"), signed("b"));
    let replies = vec![
        reply("wss://a.example", Ok(vec![old.duplicate(), a.duplicate()])),
        reply("wss://b.example", Ok(vec![b.duplicate(), old.duplicate()])),
    ];
    let events = fetch_outcome(&replies, &limit(Some(2))).unwrap();
    assert_eq!(events.len(), 2);
    assert!(!ids(&events).contains(&old.id));
    assert!(events.iter().all(|e| e.verify()));
    assert!(fetch_outcome(&replies, &limit(Some(0))).unwrap().is_empty());
    assert_eq!(fetch_outcome(&replies, &limit(None)).unwrap().len(), 3);
}

#[test]
fn fetch_drops_events_that_do_not_meet_the_filter() {
    let note = signed("a note");
    let message = known_event();
    let replies = vec![reply("wss://a.example", Ok(vec![note.duplicate(), message.duplicate()]))];
    let mut notes_only = limit(None);
    notes_only.kinds = Some(vec![1]);
    assert_eq!(ids(&fetch_outcome(&replies, &notes_only).unwrap()), vec![note.id.clone()]);
    let mut by_author = limit(None);
    by_author.authors = Some(vec![message.pubkey.clone()]);
    assert_eq!(ids(&fetch_outcome(&replies, &by_author).unwrap()), vec![message.id.clone()]);
    let mut recent = limit(None);
    recent.since = Some(message.created_at + 1);
    assert_eq!(ids(&fetch_outcome(&replies, &recent).unwrap()), vec![note.id.clone()]);
    let mut by_id = limit(None);
    by_id.ids = Some(vec![message.id.to_uppercase()]);
    assert!(fetch_outcome(&replies, &by_id).unwrap().is_empty());
    let by_id = by_id.validated().unwrap();
    assert_eq!(ids(&fetch_outcome(&replies, &by_id).unwrap()), vec![message.id]);
}
