use route_sync::errors::ErrorKind;
use route_sync::lister::Lister;
use route_sync::lister::PAGE_SIZE;
use route_sync::rules::ListPage;
use route_sync::rules::MatcherKind;
use route_sync::rules::RouteMatcher;
use route_sync::rules::RoutingRule;

fn literal_matcher(value: &str) -> RouteMatcher {
    RouteMatcher {
        kind: MatcherKind::Literal,
        field: Some("to".to_string()),
        value: Some(value.to_string()),
    }
}

fn catch_all_matcher() -> RouteMatcher {
    RouteMatcher { kind: MatcherKind::All, field: None, value: None }
}

fn plain_rule(id: &str) -> RoutingRule {
    RoutingRule {
        id: Some(id.to_string()),
        actions: vec![],
        matchers: vec![literal_matcher("x@example.net")],
        name: None,
        enabled: Some(true),
        priority: Some(0),
    }
}

fn catch_all_rule(id: &str) -> RoutingRule {
    RoutingRule {
        id: Some(id.to_string()),
        actions: vec![],
        matchers: vec![catch_all_matcher()],
        name: None,
        enabled: Some(true),
        priority: Some(0),
    }
}

fn page_of(rules: Vec<RoutingRule>) -> ListPage {
    ListPage { success: true, result: rules }
}

#[test]
fn pagination_terminates_after_the_empty_page() {
    assert_eq!(PAGE_SIZE, 50);
    let mut lister = Lister::new();
    let mut requests = 0;
    let sizes = [50usize, 50, 3, 0];
    let mut next_id = 0;
    for size in sizes {
        let rules: Vec<RoutingRule> = (0..size)
            .map(|_| {
                let r = plain_rule(&format!("rule-{next_id}"));
                next_id += 1;
                r
            })
            .collect();
        requests += 1;
        let done = lister.on_page(page_of(rules)).unwrap();
        if done {
            break;
        }
    }
    assert_eq!(requests, 4);
    assert_eq!(lister.page, 4);
    assert_eq!(lister.ids.len(), 103);
}

#[test]
fn catch_all_rule_is_excluded_at_any_position() {
    let mut lister = Lister::new();
    let done = lister
        .on_page(page_of(vec![
            catch_all_rule("front"),
            plain_rule("a"),
            plain_rule("b"),
        ]))
        .unwrap();
    assert!(!done);
    let done = lister
        .on_page(page_of(vec![
            plain_rule("c"),
            catch_all_rule("middle"),
            plain_rule("d"),
            catch_all_rule("back"),
        ]))
        .unwrap();
    assert!(!done);
    assert_eq!(lister.ids.len(), 4);
    assert!(!lister.ids.contains("front"));
    assert!(!lister.ids.contains("middle"));
    assert!(!lister.ids.contains("back"));
    assert!(lister.ids.contains("a"));
    assert!(lister.ids.contains("d"));
}

#[test]
fn rules_without_identifier_are_skipped() {
    let mut lister = Lister::new();
    let mut anonymous = plain_rule("ignored");
    anonymous.id = None;
    lister.on_page(page_of(vec![anonymous, plain_rule("kept")])).unwrap();
    assert_eq!(lister.ids.len(), 1);
    assert!(lister.ids.contains("kept"));
}

#[test]
fn duplicate_identifiers_across_pages_collapse() {
    let mut lister = Lister::new();
    lister.on_page(page_of(vec![plain_rule("same"), plain_rule("other")])).unwrap();
    lister.on_page(page_of(vec![plain_rule("same")])).unwrap();
    assert_eq!(lister.ids.len(), 2);
}

#[test]
fn service_reported_failure_stops_listing() {
    let mut lister = Lister::new();
    let err = lister
        .on_page(ListPage { success: false, result: vec![plain_rule("x")] })
        .unwrap_err();
    assert!(matches!(err.kind, ErrorKind::ServiceFailure));
    assert_eq!(lister.page, 1);
    assert_eq!(lister.ids.len(), 0);
}
