use nopu_nostr::error::NostrError;
use nopu_nostr::event::NostrEvent;
use nopu_nostr::pool::{publish_outcome, refused, RelayAck, RelayRegistry};
use nopu_nostr::relay::{RelayInfo, RelayStatus};

const A: &str = "wss://a.example";
const B: &str = "wss://b.example";
const C: &str = "wss://c.example";

fn url(s: &str) -> String {
    s.to_string()
}

fn summary(registry: &RelayRegistry) -> Vec<(String, RelayStatus, bool)> {
    registry.statuses().into_iter().map(|r| (r.url, r.status, r.connected)).collect()
}

fn event(id: &str) -> NostrEvent {
    NostrEvent {
        id: id.to_string(),
        pubkey: String::new(),
        created_at: 0,
        kind: 1,
        tags: vec![],
        content: String::new(),
        sig: String::new(),
    }
}

fn ack(relay: &str, accepted: bool, message: &str) -> RelayAck {
    RelayAck { url: relay.to_string(), accepted, message: message.to_string() }
}

#[test]
fn connection_steps_follow_the_state_machine() {
    let all = [
        RelayStatus::Disconnected,
        RelayStatus::Connecting,
        RelayStatus::Connected,
        RelayStatus::Disconnecting,
        RelayStatus::Terminated,
    ];
    let allowed = [
        (RelayStatus::Disconnected, RelayStatus::Connecting),
        (RelayStatus::Connecting, RelayStatus::Connected),
        (RelayStatus::Connecting, RelayStatus::Disconnected),
        (RelayStatus::Connected, RelayStatus::Disconnecting),
        (RelayStatus::Connected, RelayStatus::Disconnected),
        (RelayStatus::Connected, RelayStatus::Terminated),
        (RelayStatus::Disconnecting, RelayStatus::Disconnected),
        (RelayStatus::Terminated, RelayStatus::Connecting),
    ];
    for from in all {
        for to in all {
            assert_eq!(from.may_become(to), allowed.contains(&(from, to)));
        }
    }
}

#[test]
fn status_labels_are_lower_case_names() {
    assert_eq!(RelayStatus::Disconnected.label(), "disconnected");
    assert_eq!(RelayStatus::Connecting.label(), "connecting");
    assert_eq!(RelayStatus::Connected.label(), "connected");
    assert_eq!(RelayStatus::Disconnecting.label(), "disconnecting");
    assert_eq!(RelayStatus::Terminated.label(), "terminated");
}

#[test]
fn relay_info_derives_the_connected_flag() {
    assert!(RelayInfo::new(url(A), RelayStatus::Connected).connected);
    assert!(!RelayInfo::new(url(A), RelayStatus::Connecting).connected);
    assert!(!RelayInfo::new(url(A), RelayStatus::Disconnected).connected);
    assert!(!RelayInfo::new(url(A), RelayStatus::Terminated).connected);
}

#[test]
fn new_registry_is_empty() {
    let registry = RelayRegistry::new();
    assert!(registry.statuses().is_empty());
    assert!(!registry.contains(&url(A)));
}

#[test]
fn added_relay_is_registered_and_connected() {
    let mut registry = RelayRegistry::new();
    assert!(registry.add_relay(url(A), true).is_ok());
    assert!(registry.contains(&url(A)));
    assert_eq!(summary(&registry), vec![(url(A), RelayStatus::Connected, true)]);
}

#[test]
fn unreachable_relay_fails_but_stays_registered() {
    let mut registry = RelayRegistry::new();
    match registry.add_relay(url(A), false) {
        Err(NostrError::RelayConnectionFailed(u)) => assert_eq!(u, A),
        _ => panic!("expected RelayConnectionFailed"),
    }
    assert!(registry.contains(&url(A)));
    assert_eq!(summary(&registry), vec![(url(A), RelayStatus::Disconnected, false)]);
    assert_eq!(registry.status(&url(A)), Some(RelayStatus::Disconnected));
}

#[test]
fn adding_a_relay_twice_registers_it_once() {
    let mut registry = RelayRegistry::new();
    registry.add_relay(url(A), true).unwrap();
    registry.add_relay(url(B), true).unwrap();
    registry.add_relay(url(A), true).unwrap();
    assert_eq!(
        summary(&registry),
        vec![(url(A), RelayStatus::Connected, true), (url(B), RelayStatus::Connected, true)]
    );
}

#[test]
fn adding_again_records_the_new_outcome() {
    let mut registry = RelayRegistry::new();
    assert!(registry.add_relay(url(A), false).is_err());
    assert!(registry.add_relay(url(A), true).is_ok());
    assert_eq!(summary(&registry), vec![(url(A), RelayStatus::Connected, true)]);
}

#[test]
fn removing_an_unknown_relay_fails() {
    let mut registry = RelayRegistry::new();
    registry.add_relay(url(A), true).unwrap();
    match registry.remove_relay(url(B)) {
        Err(NostrError::RelayConnectionFailed(u)) => assert_eq!(u, B),
        _ => panic!("expected RelayConnectionFailed"),
    }
    assert_eq!(summary(&registry), vec![(url(A), RelayStatus::Connected, true)]);
}

#[test]
fn removing_a_relay_keeps_the_others_in_order() {
    let mut registry = RelayRegistry::new();
    registry.add_relay(url(A), true).unwrap();
    let _ = registry.add_relay(url(B), false);
    registry.add_relay(url(C), true).unwrap();
    assert!(registry.remove_relay(url(B)).is_ok());
    assert!(!registry.contains(&url(B)));
    assert_eq!(
        summary(&registry),
        vec![(url(A), RelayStatus::Connected, true), (url(C), RelayStatus::Connected, true)]
    );
    assert!(registry.remove_relay(url(B)).is_err());
}

#[test]
fn connect_all_is_best_effort() {
    let mut registry = RelayRegistry::new();
    let _ = registry.add_relay(url(A), false);
    let _ = registry.add_relay(url(B), false);
    let _ = registry.add_relay(url(C), false);
    registry.connect_all(&vec![url(C), url(A), url("wss://unknown.example")]);
    assert_eq!(
        summary(&registry),
        vec![
            (url(A), RelayStatus::Connected, true),
            (url(B), RelayStatus::Disconnected, false),
            (url(C), RelayStatus::Connected, true),
        ]
    );
}

#[test]
fn disconnect_all_closes_every_connection() {
    let mut registry = RelayRegistry::new();
    registry.add_relay(url(A), true).unwrap();
    registry.add_relay(url(B), true).unwrap();
    registry.disconnect_all();
    assert_eq!(
        summary(&registry),
        vec![(url(A), RelayStatus::Disconnected, false), (url(B), RelayStatus::Disconnected, false)]
    );
}

#[test]
fn transition_takes_only_the_steps_of_the_state_machine() {
    let mut registry = RelayRegistry::new();
    registry.add_relay(url(A), true).unwrap();
    assert!(!registry.transition(&url(A), RelayStatus::Connecting));
    assert_eq!(registry.status(&url(A)), Some(RelayStatus::Connected));
    assert!(registry.transition(&url(A), RelayStatus::Terminated));
    assert_eq!(registry.status(&url(A)), Some(RelayStatus::Terminated));
    assert!(!registry.transition(&url(A), RelayStatus::Connected));
    assert!(registry.transition(&url(A), RelayStatus::Connecting));
    assert!(registry.transition(&url(A), RelayStatus::Connected));
    assert!(registry.transition(&url(A), RelayStatus::Disconnecting));
    assert!(registry.transition(&url(A), RelayStatus::Disconnected));
    assert!(!registry.transition(&url(B), RelayStatus::Connecting));
    assert_eq!(registry.status(&url(B)), None);
}

#[test]
fn publishing_succeeds_when_one_relay_accepts() {
    let e = event("abc");
    let acks = vec![ack(A, false, "blocked"), ack(B, true, ""), ack(C, false, "rate-limited")];
    assert_eq!(publish_outcome(&e, &acks).unwrap(), "abc");
}

#[test]
fn publishing_fails_when_no_relay_accepts() {
    let e = event("abc");
    let acks = vec![ack(A, false, "blocked"), ack(B, false, "rate-limited")];
    match publish_outcome(&e, &acks) {
        Err(NostrError::EventPublishingFailed(reason)) => assert_eq!(reason, "blocked"),
        _ => panic!("expected EventPublishingFailed"),
    }
}

#[test]
fn publishing_to_no_relay_fails() {
    match publish_outcome(&event("abc"), &vec![]) {
        Err(NostrError::EventPublishingFailed(reason)) => {
            assert_eq!(reason, "no relay was reached")
        }
        _ => panic!("expected EventPublishingFailed"),
    }
}

#[test]
fn targets_are_the_connected_relays_in_order() {
    let mut registry = RelayRegistry::new();
    assert!(registry.targets().is_empty());
    registry.add_relay(url(A), true).unwrap();
    let _ = registry.add_relay(url(B), false);
    registry.add_relay(url(C), true).unwrap();
    assert_eq!(registry.targets(), vec![url(A), url(C)]);
    assert!(registry.transition(&url(A), RelayStatus::Terminated));
    assert_eq!(registry.targets(), vec![url(C)]);
    registry.disconnect_all();
    assert!(registry.targets().is_empty());
}

#[test]
fn refused_gives_the_first_answer_when_no_relay_accepted() {
    assert_eq!(refused(&vec![]), Some("no relay was reached".to_string()));
    let acks = vec![ack(A, false, "blocked"), ack(B, false, "busy")];
    assert_eq!(refused(&acks), Some("blocked".to_string()));
    let acks = vec![ack(A, false, "blocked"), ack(B, true, "")];
    assert_eq!(refused(&acks), None);
}
