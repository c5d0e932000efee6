use nopu_nostr::error::NostrError;
use nopu_nostr::event::NostrEvent;
use nopu_nostr::filter::NostrFilter;

const A: &str = "13adc511de7e1cfcf1c6b7f6365fb5a03442d7bcacf565ea57fa7770912c023d";
const B: &str = "2be17aa3031bdcb006f0fce80c146dea9c1c0268b0af2398bb673365c6444d45";

fn any() -> NostrFilter {
    NostrFilter {
        ids: None,
        authors: None,
        kinds: None,
        since: None,
        until: None,
        limit: None,
        search: None,
    }
}

fn event(id: &str, author: &str, kind: u16, at: u64) -> NostrEvent {
    NostrEvent {
        id: id.to_string(),
        pubkey: author.to_string(),
        created_at: at,
        kind,
        tags: vec![],
        content: String::new(),
        sig: String::new(),
    }
}

#[test]
fn validated_filter_has_ids_and_authors_in_lower_case() {
    let mut f = any();
    f.ids = Some(vec![A.to_uppercase(), B.to_string()]);
    f.authors = Some(vec![B.to_uppercase()]);
    f.kinds = Some(vec![1, 4]);
    f.since = Some(5);
    f.until = Some(9);
    f.limit = Some(3);
    f.search = Some("cats".to_string());
    let v = f.validated().unwrap();
    assert_eq!(v.ids, Some(vec![A.to_string(), B.to_string()]));
    assert_eq!(v.authors, Some(vec![B.to_string()]));
    assert_eq!(v.kinds, Some(vec![1, 4]));
    assert_eq!(v.since, Some(5));
    assert_eq!(v.until, Some(9));
    assert_eq!(v.limit, Some(3));
    assert_eq!(v.search, Some("cats".to_string()));
}

#[test]
fn unconstrained_filter_is_valid() {
    let v = any().validated().unwrap();
    assert!(v.ids.is_none() && v.authors.is_none() && v.kinds.is_none());
}

#[test]
fn malformed_id_gives_invalid_hex() {
    let mut f = any();
    f.ids = Some(vec![A.to_string(), "zz".to_string()]);
    assert!(matches!(f.validated(), Err(NostrError::InvalidHex(_))));
}

#[test]
fn malformed_author_gives_invalid_public_key() {
    let mut f = any();
    f.ids = Some(vec![A.to_string()]);
    f.authors = Some(vec!["nobody".to_string()]);
    assert!(matches!(f.validated(), Err(NostrError::InvalidPublicKey(_))));
}

#[test]
fn malformed_id_is_reported_before_malformed_author() {
    let mut f = any();
    f.ids = Some(vec!["zz".to_string()]);
    f.authors = Some(vec!["nobody".to_string()]);
    assert!(matches!(f.validated(), Err(NostrError::InvalidHex(_))));
}

#[test]
fn unconstrained_filter_matches_everything() {
    assert!(any().matches(&event(A, B, 1, 0)));
    assert!(any().matches(&event(B, A, 30000, u64::MAX)));
}

#[test]
fn filter_is_a_conjunction_of_its_constraints() {
    let mut f = any();
    f.ids = Some(vec![A.to_string()]);
    f.authors = Some(vec![B.to_string()]);
    f.kinds = Some(vec![1]);
    f.since = Some(10);
    f.until = Some(20);
    assert!(f.matches(&event(A, B, 1, 10)));
    assert!(f.matches(&event(A, B, 1, 20)));
    assert!(!f.matches(&event(B, B, 1, 15)));
    assert!(!f.matches(&event(A, A, 1, 15)));
    assert!(!f.matches(&event(A, B, 2, 15)));
    assert!(!f.matches(&event(A, B, 1, 9)));
    assert!(!f.matches(&event(A, B, 1, 21)));
}

#[test]
fn listed_values_are_a_disjunction() {
    let mut f = any();
    f.kinds = Some(vec![1, 4, 7]);
    f.authors = Some(vec![A.to_string(), B.to_string()]);
    assert!(f.matches(&event(A, A, 4, 0)));
    assert!(f.matches(&event(A, B, 7, 0)));
    assert!(!f.matches(&event(A, B, 5, 0)));
}

#[test]
fn empty_list_admits_no_event() {
    let mut f = any();
    f.kinds = Some(vec![]);
    assert!(!f.matches(&event(A, B, 1, 0)));
}

#[test]
fn limit_and_search_do_not_bear_on_a_single_event() {
    let mut f = any();
    f.limit = Some(0);
    f.search = Some("anything".to_string());
    assert!(f.matches(&event(A, B, 1, 0)));
}

#[test]
fn malformed_filter_says_what_was_expected() {
    let mut f = any();
    f.ids = Some(vec!["zz".to_string()]);
    match f.validated() {
        Err(NostrError::InvalidHex(detail)) => assert_eq!(detail, "expected 64 hexadecimal digits"),
        _ => panic!("expected InvalidHex"),
    }
    let mut f = any();
    f.authors = Some(vec!["zz".to_string()]);
    match f.validated() {
        Err(NostrError::InvalidPublicKey(detail)) => {
            assert_eq!(detail, "expected 64 hexadecimal digits")
        }
        _ => panic!("expected InvalidPublicKey"),
    }
}
