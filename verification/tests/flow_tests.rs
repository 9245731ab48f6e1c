use route_sync::deleter::delete_outcome;
use route_sync::deleter::resolve_delete_targets;
use route_sync::errors::ErrorKind;
use route_sync::errors::Phase;
use route_sync::errors::RunError;
use route_sync::fanout::CREATE_CONCURRENCY;
use route_sync::fanout::DELETE_CONCURRENCY;
use route_sync::fanout::FanOut;
use route_sync::importer::CreateDisposition;
use route_sync::importer::ExportSource;
use route_sync::importer::RequestOutcome;
use route_sync::importer::alias_address;
use route_sync::importer::build_rule_payload;
use route_sync::importer::create_outcome;
use route_sync::lister::IdSet;
use route_sync::requests::bearer_value;
use route_sync::requests::rule_url;
use route_sync::requests::rules_url;
use route_sync::rules::ActionKind;
use route_sync::rules::MatcherKind;

#[test]
fn create_payload_round_trip() {
    let rule = build_rule_payload(
        "jdoe",
        "Used for jdoe",
        "dest@example.com",
        "example.net",
        &ExportSource::SimpleLogin,
    );
    assert!(rule.id.is_none());
    assert_eq!(rule.enabled, Some(true));
    assert_eq!(rule.priority, Some(0));
    assert_eq!(rule.matchers.len(), 1);
    assert!(matches!(rule.matchers[0].kind, MatcherKind::Literal));
    assert_eq!(rule.matchers[0].field.as_deref(), Some("to"));
    assert_eq!(rule.matchers[0].value.as_deref(), Some("jdoe@example.net"));
    assert_eq!(rule.actions.len(), 1);
    assert!(matches!(rule.actions[0].kind, ActionKind::Forward));
    assert_eq!(rule.actions[0].values, vec!["dest@example.com"]);
    assert_eq!(
        rule.name.as_deref(),
        Some("Used for jdoe\n\nImported from SimpleLogin"),
    );
}

#[test]
fn create_payload_normalizes_the_domain() {
    let rule = build_rule_payload(
        "jdoe",
        "note",
        "dest@example.com",
        "@example.net",
        &ExportSource::Bitwarden,
    );
    assert_eq!(rule.matchers[0].value.as_deref(), Some("jdoe@example.net"));
    assert_eq!(rule.name.as_deref(), Some("note\n\nImported from Bitwarden"));
    assert_eq!(alias_address("a", "@x.org"), "a@x.org");
    assert_eq!(alias_address("a", "x.org"), "a@x.org");
}

#[test]
fn duplicate_conflict_is_tolerated() {
    assert!(matches!(
        create_outcome(&RequestOutcome::Response(409)),
        Ok(CreateDisposition::AlreadyExists)
    ));
    assert!(matches!(
        create_outcome(&RequestOutcome::Response(201)),
        Ok(CreateDisposition::Created)
    ));
    let err = create_outcome(&RequestOutcome::Response(500)).unwrap_err();
    assert!(matches!(err.kind, ErrorKind::ServiceFailure));
    let err = create_outcome(&RequestOutcome::TransportFailure).unwrap_err();
    assert!(matches!(err.kind, ErrorKind::Transport));
}

#[test]
fn reimport_with_conflicts_completes() {
    let outcomes = [
        RequestOutcome::Response(201),
        RequestOutcome::Response(409),
        RequestOutcome::Response(201),
        RequestOutcome::Response(409),
    ];
    let mut fatal = false;
    let mut fan = FanOut::new(CREATE_CONCURRENCY, outcomes.len());
    for outcome in &outcomes {
        assert!(fan.can_start());
        fan.start();
        if create_outcome(outcome).is_err() {
            fatal = true;
        }
        fan.finish();
    }
    assert!(fan.done());
    assert!(!fatal);
}

#[test]
fn delete_statuses_map_to_outcomes() {
    assert!(delete_outcome(200).is_ok());
    assert!(delete_outcome(204).is_ok());
    let err = delete_outcome(404).unwrap_err();
    assert!(matches!(err.kind, ErrorKind::ServiceFailure));
    assert!(delete_outcome(500).is_err());
}

#[test]
fn empty_explicit_deletion_is_a_no_op() {
    let targets = resolve_delete_targets(false, &vec![], None);
    assert_eq!(targets.len(), 0);
    let fan = FanOut::new(DELETE_CONCURRENCY, targets.len());
    assert!(fan.done());
    assert!(!fan.can_start());
}

#[test]
fn explicit_identifier_list_collapses_duplicates() {
    let ids = vec!["a".to_string(), "b".to_string(), "a".to_string()];
    let targets = resolve_delete_targets(false, &ids, None);
    assert_eq!(targets.len(), 2);
    assert!(targets.contains("a"));
    assert!(targets.contains("b"));
    assert!(!targets.contains("c"));
}

#[test]
fn delete_all_uses_the_listed_set() {
    let mut listed = IdSet::new();
    listed.insert("x".to_string());
    listed.insert("y".to_string());
    let targets = resolve_delete_targets(true, &vec![], Some(listed));
    assert_eq!(targets.len(), 2);
    assert!(targets.contains("x"));
}

#[test]
fn fan_out_never_exceeds_the_ceiling() {
    let total = 30;
    let mut fan = FanOut::new(CREATE_CONCURRENCY, total);
    let mut max_in_flight = 0;
    let mut completed = 0;
    while !fan.done() {
        while fan.can_start() {
            fan.start();
            if fan.in_flight > max_in_flight {
                max_in_flight = fan.in_flight;
            }
        }
        assert!(fan.in_flight <= CREATE_CONCURRENCY);
        fan.finish();
        completed += 1;
    }
    assert_eq!(max_in_flight, CREATE_CONCURRENCY);
    assert_eq!(completed, total);
    assert_eq!(fan.started, total);
}

#[test]
fn slot_frees_admit_new_work_immediately() {
    let mut fan = FanOut::new(DELETE_CONCURRENCY, DELETE_CONCURRENCY + 5);
    while fan.can_start() {
        fan.start();
    }
    assert_eq!(fan.in_flight, DELETE_CONCURRENCY);
    fan.finish();
    assert!(fan.can_start());
    fan.start();
    assert_eq!(fan.in_flight, DELETE_CONCURRENCY);
}

#[test]
fn request_templates_are_exact() {
    assert_eq!(
        rules_url("zone123"),
        "https://api.cloudflare.com/client/v4/zones/zone123/email/routing/rules",
    );
    assert_eq!(
        rule_url("zone123", "rule9"),
        "https://api.cloudflare.com/client/v4/zones/zone123/email/routing/rules/rule9",
    );
    assert_eq!(bearer_value("tok"), "Bearer tok");
}

#[test]
fn phase_label_keeps_the_kind() {
    let err = RunError::new(ErrorKind::ServiceFailure).in_phase(Phase::ListingRules);
    assert!(matches!(err.kind, ErrorKind::ServiceFailure));
    assert!(matches!(err.phase, Some(Phase::ListingRules)));
}
