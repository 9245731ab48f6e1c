//! The request template each component clones before fan-out: the endpoint
//! URLs under the zone, and the header values every request carries.
use vstd::prelude::*;
use vstd::string::StringExecFns;

verus! {

/// The listing/creation endpoint of a zone's routing rules.
pub open spec fn rules_endpoint(zone: Seq<char>) -> Seq<char> {
    "https://api.cloudflare.com/client/v4/zones/"@ + zone + "/email/routing/rules"@
}

/// Builds the listing/creation endpoint URL for `zone`.
pub fn rules_url(zone: &str) -> (r: String)
    ensures
        r@ == rules_endpoint(zone@),
{
    String::from_str("https://api.cloudflare.com/client/v4/zones/").concat(zone).concat(
        "/email/routing/rules",
    )
}

/// The deletion endpoint of one rule.
pub open spec fn rule_endpoint(zone: Seq<char>, id: Seq<char>) -> Seq<char> {
    rules_endpoint(zone) + "/"@ + id
}

/// Builds the deletion endpoint URL for rule `id` under `zone`.
pub fn rule_url(zone: &str, id: &str) -> (r: String)
    ensures
        r@ == rule_endpoint(zone@, id@),
{
    rules_url(zone).concat("/").concat(id)
}

/// The `Authorization` header value carrying the API credential.
pub open spec fn bearer_of(credential: Seq<char>) -> Seq<char> {
    "Bearer "@ + credential
}

/// Builds the `Authorization` header value for `credential`.
pub fn bearer_value(credential: &str) -> (r: String)
    ensures
        r@ == bearer_of(credential@),
{
    String::from_str("Bearer ").concat(credential)
}

} // verus!
