//! The route importer: builds one forwarding-rule payload per alias, and
//! decides what each create response means for the run.
use vstd::prelude::*;
use vstd::string::StringExecFns;

use crate::errors::ErrorKind;
use crate::errors::RunError;
use crate::rules::ActionKind;
use crate::rules::MatcherKind;
use crate::rules::RouteAction;
use crate::rules::RouteMatcher;
use crate::rules::RoutingRule;
use crate::text::without_leading_at;

verus! {

/// Which export the aliases came from.
#[derive(Debug)]
pub enum ExportSource {
    SimpleLogin,
    Bitwarden,
}

/// The provenance label appended to every created rule's display name.
pub open spec fn source_label(source: ExportSource) -> Seq<char> {
    match source {
        ExportSource::SimpleLogin => "Imported from SimpleLogin"@,
        ExportSource::Bitwarden => "Imported from Bitwarden"@,
    }
}

/// The label as a string slice.
pub fn source_label_str(source: &ExportSource) -> (r: &'static str)
    ensures
        r@ == source_label(*source),
{
    match source {
        ExportSource::SimpleLogin => "Imported from SimpleLogin",
        ExportSource::Bitwarden => "Imported from Bitwarden",
    }
}

/// The full address a rule matches: the alias at the domain, the domain
/// normalized by stripping a leading `'@'`.
pub open spec fn alias_address_of(alias: Seq<char>, domain: Seq<char>) -> Seq<char> {
    alias + "@"@ + without_leading_at(domain)
}

/// Builds the matched address for `alias` under `domain`.
pub fn alias_address(alias: &str, domain: &str) -> (r: String)
    ensures
        r@ == alias_address_of(alias@, domain@),
{
    let tail = crate::text::domain_without_at(domain);
    String::from_str(alias).concat("@").concat(tail.as_str())
}

/// The display name of a created rule: the note, a blank line, then the
/// provenance label.
pub open spec fn display_name_of(note: Seq<char>, source: ExportSource) -> Seq<char> {
    note + "\n\n"@ + source_label(source)
}

/// Builds the forwarding-rule payload for one alias: a single literal
/// matcher on `to` for the alias at the domain, a single forward action to
/// the destination address, enabled, at priority 0, with no identifier.
pub fn build_rule_payload(
    alias: &str,
    note: &str,
    destination: &str,
    domain: &str,
    source: &ExportSource,
) -> (r: RoutingRule)
    ensures
        r.id is None,
        r.enabled == Some(true),
        r.priority == Some(0u64),
        r.actions@.len() == 1,
        r.actions@[0].kind is Forward,
        r.actions@[0].values@.len() == 1,
        r.actions@[0].values@[0]@ == destination@,
        r.matchers@.len() == 1,
        r.matchers@[0].kind is Literal,
        (r.matchers@[0].field matches Some(f) && f@ == "to"@),
        (r.matchers@[0].value matches Some(v) && v@ == alias_address_of(alias@, domain@)),
        (r.name matches Some(nm) && nm@ == display_name_of(note@, *source)),
{
    let mut values: Vec<String> = Vec::new();
    values.push(destination.to_owned());
    let mut actions: Vec<RouteAction> = Vec::new();
    actions.push(RouteAction { kind: ActionKind::Forward, values });
    let mut matchers: Vec<RouteMatcher> = Vec::new();
    matchers.push(
        RouteMatcher {
            kind: MatcherKind::Literal,
            field: Some(String::from_str("to")),
            value: Some(alias_address(alias, domain)),
        },
    );
    let name = String::from_str(note).concat("\n\n").concat(source_label_str(source));
    RoutingRule {
        id: None,
        actions,
        matchers,
        name: Some(name),
        enabled: Some(true),
        priority: Some(0),
    }
}

/// What the transport reported for one create request: a response with its
/// status, or no response at all.
#[derive(Debug)]
pub enum RequestOutcome {
    Response(u16),
    TransportFailure,
}

/// How one tolerated create request ended.
#[derive(Debug)]
pub enum CreateDisposition {
    /// The rule was created.
    Created,
    /// The rule already existed remotely; the duplicate conflict is
    /// tolerated and the run goes on.
    AlreadyExists,
}

/// What one create response means: a success status creates the rule, a
/// duplicate-rule conflict is tolerated, and anything else — another error
/// status or a transport failure — fails the run.
pub fn create_outcome(outcome: &RequestOutcome) -> (r: Result<CreateDisposition, RunError>)
    ensures
        match r {
            Ok(CreateDisposition::Created) => (outcome matches RequestOutcome::Response(s) && s
                < 400),
            Ok(CreateDisposition::AlreadyExists) => outcome == RequestOutcome::Response(409u16),
            Err(e) => {
                &&& e.phase is None
                &&& match outcome {
                    RequestOutcome::Response(s) => e.kind is ServiceFailure && s >= 400 && s
                        != 409,
                    RequestOutcome::TransportFailure => e.kind is Transport,
                }
            },
        },
        r is Err <==> (outcome is TransportFailure || (outcome matches RequestOutcome::Response(s)
            && s >= 400 && s != 409)),
{
    match outcome {
        RequestOutcome::Response(s) => {
            if *s < 400 {
                Ok(CreateDisposition::Created)
            } else if *s == 409 {
                Ok(CreateDisposition::AlreadyExists)
            } else {
                Err(RunError::new(ErrorKind::ServiceFailure))
            }
        },
        RequestOutcome::TransportFailure => Err(RunError::new(ErrorKind::Transport)),
    }
}

} // verus!
