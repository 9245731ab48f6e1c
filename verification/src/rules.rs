//! The routing-rule data model: the request-scoped copy of the remote
//! entity, and the page shape the listing endpoint answers with.
use vstd::prelude::*;

verus! {

/// What a rule does with a matched message.
#[derive(Debug)]
pub enum ActionKind {
    /// Discard the message.
    DropMail,
    /// Forward the message to the addresses in `values`.
    Forward,
    /// Hand the message to a worker.
    Worker,
}

/// How a matcher selects messages.
#[derive(Debug)]
pub enum MatcherKind {
    /// Matches every address: the catch-all rule's matcher.
    All,
    /// Matches one literal address bound by `field`/`value`.
    Literal,
}

/// One action of a routing rule.
#[derive(Debug)]
pub struct RouteAction {
    pub kind: ActionKind,
    pub values: Vec<String>,
}

/// One matcher of a routing rule. The catch-all matcher carries no
/// `field`/`value`; a literal matcher binds both.
#[derive(Debug)]
pub struct RouteMatcher {
    pub kind: MatcherKind,
    pub field: Option<String>,
    pub value: Option<String>,
}

/// A request-scoped copy of a remote routing rule. The identifier is
/// assigned by the remote service and absent before creation.
#[derive(Debug)]
pub struct RoutingRule {
    pub id: Option<String>,
    pub actions: Vec<RouteAction>,
    pub matchers: Vec<RouteMatcher>,
    pub name: Option<String>,
    pub enabled: Option<bool>,
    pub priority: Option<u64>,
}

/// One page of the listing endpoint's answer, reduced to what the lister
/// reads: the success flag and the rules of the page.
#[derive(Debug)]
pub struct ListPage {
    pub success: bool,
    pub result: Vec<RoutingRule>,
}

/// Whether `rule` is the catch-all rule: its first matcher matches all.
pub open spec fn is_catch_all(rule: &RoutingRule) -> bool {
    rule.matchers.len() > 0 && rule.matchers[0].kind is All
}

/// Executable test for [`is_catch_all`].
pub fn rule_is_catch_all(rule: &RoutingRule) -> (r: bool)
    ensures
        r == is_catch_all(rule),
{
    rule.matchers.len() > 0 && matches!(rule.matchers[0].kind, MatcherKind::All)
}

} // verus!
