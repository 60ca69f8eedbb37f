//! Planning the HTTP requests: which URLs are fetched, which headers each
//! request carries, and how many requests go out for a given configuration.

use vstd::prelude::*;

use crate::decimal::decimal_spec;
use crate::decimal::u32_to_decimal;
use crate::token::Token;

verus! {

/// The term the client is fixed to.
pub const DEFAULT_TERM: u32 = 1;

/// The fixed scheme, host and path prefix of the service's term endpoints.
pub open spec fn base_url_spec() -> Seq<char> {
    "https://talloc.web.cse.unsw.edu.au/api/v1/terms/"@
}

/// The bulk-listing endpoint for a term.
pub open spec fn bulk_url_spec(term: nat) -> Seq<char> {
    base_url_spec() + decimal_spec(term) + "/applications"@
}

/// The per-identifier endpoint for one applicant in a term.
pub open spec fn application_url_spec(term: nat, zid: Seq<char>) -> Seq<char> {
    bulk_url_spec(term) + "/"@ + zid
}

/// The header that carries the bearer token on every request.
pub fn auth_header_name() -> (r: String)
    ensures
        r@ == "x-jwt-auth"@,
{
    String::from_str("x-jwt-auth")
}

/// The header that asks the service to skip its response cache.
pub fn bypass_header_name() -> (r: String)
    ensures
        r@ == "x-apicache-bypass"@,
{
    String::from_str("x-apicache-bypass")
}

/// The value sent with the cache-bypass header.
pub fn bypass_header_value() -> (r: String)
    ensures
        r@ == "true"@,
{
    String::from_str("true")
}

/// One GET request, ready to be issued: the URL, the token that goes into the
/// auth header, and whether the cache-bypass header is added.
pub struct RequestPlan {
    pub url: String,
    pub auth: String,
    pub bypass_cache: bool,
}

/// What the planned bulk-listing request must look like.
pub open spec fn bulk_plan_ok(r: RequestPlan, term: nat, token: Seq<char>, force: bool) -> bool {
    &&& r.url@ == bulk_url_spec(term)
    &&& r.auth@ == token
    &&& r.bypass_cache == force
}

/// What the planned request for one identifier must look like: the bypass
/// header is never sent on this path.
pub open spec fn application_plan_ok(
    r: RequestPlan,
    term: nat,
    token: Seq<char>,
    zid: Seq<char>,
) -> bool {
    &&& r.url@ == application_url_spec(term, zid)
    &&& r.auth@ == token
    &&& !r.bypass_cache
}

/// Builds the URL of the bulk-listing endpoint for a term.
pub fn bulk_url(term: u32) -> (r: String)
    ensures
        r@ == bulk_url_spec(term as nat),
{
    let mut url = String::from_str("https://talloc.web.cse.unsw.edu.au/api/v1/terms/");
    let t = u32_to_decimal(term);
    url.append(t.as_str());
    url.append("/applications");
    proof {
        assert(url@ =~= bulk_url_spec(term as nat));
    }
    url
}

/// Builds the URL of the per-identifier endpoint for one applicant.
pub fn application_url(term: u32, zid: &String) -> (r: String)
    ensures
        r@ == application_url_spec(term as nat, zid@),
{
    let mut url = bulk_url(term);
    url.append("/");
    url.append(zid.as_str());
    proof {
        assert(url@ =~= application_url_spec(term as nat, zid@));
    }
    url
}

/// Builds the bulk-listing request: the term's bulk URL, the auth header,
/// and the cache-bypass header exactly when `force` is set.
pub fn bulk_request(term: u32, token: &Token, force: bool) -> (r: RequestPlan)
    ensures
        bulk_plan_ok(r, term as nat, token@, force),
{
    RequestPlan { url: bulk_url(term), auth: token.text().clone(), bypass_cache: force }
}

/// Builds the request for one identifier: its own URL, the auth header, and
/// never the cache-bypass header.
pub fn application_request(term: u32, token: &Token, zid: &String) -> (r: RequestPlan)
    ensures
        application_plan_ok(r, term as nat, token@, zid@),
{
    RequestPlan { url: application_url(term, zid), auth: token.text().clone(), bypass_cache: false }
}

/// The whole fetch stage of one invocation: either one bulk-listing request,
/// or one request per supplied identifier.
pub enum FetchPlan {
    Bulk(RequestPlan),
    PerId(Vec<RequestPlan>),
}

/// How many requests a plan issues.
pub open spec fn request_count(p: FetchPlan) -> nat {
    match p {
        FetchPlan::Bulk(_) => 1,
        FetchPlan::PerId(v) => v@.len(),
    }
}

/// What the planned fetch stage must look like for a given configuration: no
/// identifiers means exactly one bulk request, carrying the cache-bypass
/// header exactly when `force` is set; otherwise exactly one request per
/// identifier, in the identifiers' order, never bypassing the cache.
pub open spec fn fetch_plan_ok(
    p: FetchPlan,
    term: nat,
    token: Seq<char>,
    force: bool,
    zids: Seq<Seq<char>>,
) -> bool {
    match p {
        FetchPlan::Bulk(r) => zids.len() == 0 && bulk_plan_ok(r, term, token, force),
        FetchPlan::PerId(v) => {
            &&& zids.len() > 0
            &&& v@.len() == zids.len()
            &&& forall|i: int|
                0 <= i < zids.len() ==> application_plan_ok(#[trigger] v@[i], term, token, zids[i])
        },
    }
}

/// Plans the fetch stage: one bulk request when no identifiers were given,
/// else one request per identifier in the identifiers' order.
pub fn plan_requests(term: u32, token: &Token, force: bool, zids: &Vec<String>) -> (p: FetchPlan)
    ensures
        fetch_plan_ok(p, term as nat, token@, force, zids@.map_values(|z: String| z@)),
        request_count(p) == if zids@.len() == 0 {
            1nat
        } else {
            zids@.len()
        },
{
    let ghost zid_views = zids@.map_values(|z: String| z@);
    if zids.len() == 0 {
        FetchPlan::Bulk(bulk_request(term, token, force))
    } else {
        let mut v: Vec<RequestPlan> = Vec::new();
        let mut i: usize = 0;
        while i < zids.len()
            invariant
                i <= zids@.len(),
                v@.len() == i,
                zid_views == zids@.map_values(|z: String| z@),
                forall|j: int|
                    0 <= j < i ==> application_plan_ok(
                        #[trigger] v@[j],
                        term as nat,
                        token@,
                        zid_views[j],
                    ),
            decreases zids@.len() - i,
        {
            let r = application_request(term, token, &zids[i]);
            proof {
                assert(zid_views[i as int] == zids@[i as int]@);
            }
            v.push(r);
            i = i + 1;
        }
        FetchPlan::PerId(v)
    }
}

} // verus!
