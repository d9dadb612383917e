//! Endpoint discovery: which parameters name the services' URLs, how the
//! values found are combined with local defaults, and how a failed lookup
//! is reported. The lookups themselves are performed by the caller.

use vstd::prelude::*;
use vstd::string::StrSliceExecFns;
use vstd::string::StringExecFns;

use crate::text::same_text;
use crate::types::Endpoints;

verus! {

/// The parameter path that holds each service's URL, by service name.
pub open spec fn default_parameters() -> Seq<(Seq<char>, Seq<char>)> {
    seq![
        ("petlistadoptions"@, "/petstore/petlistadoptionsurl"@),
        ("petsearch"@, "/petstore/searchapiurl"@),
        ("payforadoption"@, "/petstore/paymentapiurl"@),
        ("petfood"@, "/petstore/petfoodapiurl"@),
        ("petfoodcart"@, "/petstore/petfoodcarturl"@),
    ]
}

/// The view of a list of name/value pairs.
pub open spec fn pairs_view(pairs: Seq<(String, String)>) -> Seq<(Seq<char>, Seq<char>)> {
    pairs.map_values(|p: (String, String)| (p.0@, p.1@))
}

fn pair(a: &str, b: &str) -> (r: (String, String))
    ensures
        r.0@ == a@,
        r.1@ == b@,
{
    (String::from_str(a), String::from_str(b))
}

/// Service names and the parameter paths of their URLs.
pub fn default_service_parameters() -> (r: Vec<(String, String)>)
    ensures
        pairs_view(r@) == default_parameters(),
{
    let mut v: Vec<(String, String)> = Vec::new();
    v.push(pair("petlistadoptions", "/petstore/petlistadoptionsurl"));
    v.push(pair("petsearch", "/petstore/searchapiurl"));
    v.push(pair("payforadoption", "/petstore/paymentapiurl"));
    v.push(pair("petfood", "/petstore/petfoodapiurl"));
    v.push(pair("petfoodcart", "/petstore/petfoodcarturl"));
    proof {
        assert(pairs_view(v@) =~= default_parameters());
    }
    v
}

/// The value last given to `name` in `found`, if any.
pub open spec fn lookup(found: Seq<(String, String)>, name: Seq<char>) -> Option<Seq<char>>
    decreases found.len(),
{
    if found.len() == 0 {
        None
    } else if found.last().0@ == name {
        Some(found.last().1@)
    } else {
        lookup(found.drop_last(), name)
    }
}

fn find_value(found: &Vec<(String, String)>, name: &str) -> (r: Option<String>)
    ensures
        r matches Some(v) ==> lookup(found@, name@) == Some(v@),
        r is None ==> lookup(found@, name@) is None,
{
    let mut i: usize = found.len();
    proof {
        assert(found@.take(i as int) =~= found@);
    }
    while i > 0
        invariant
            i <= found@.len(),
            lookup(found@, name@) == lookup(found@.take(i as int), name@),
        decreases i,
    {
        proof {
            assert(found@.take(i as int).drop_last() =~= found@.take(i as int - 1));
            assert(found@.take(i as int).last() == found@[i as int - 1]);
        }
        if same_text(found[i - 1].0.as_str(), name) {
            return Some(found[i - 1].1.clone());
        }
        i = i - 1;
    }
    proof {
        assert(found@.take(0) =~= Seq::<(String, String)>::empty());
    }
    None
}

/// Endpoints after discovery, and which services kept their default.
#[derive(Debug)]
pub struct ResolvedEndpoints {
    pub endpoints: Endpoints,
    pub petlistadoptions_defaulted: bool,
    pub petsearch_defaulted: bool,
    pub payforadoption_defaulted: bool,
    pub petfood_defaulted: bool,
}

/// The discovered URL of a service, or its default.
pub open spec fn resolved(found: Seq<(String, String)>, name: Seq<char>, default: Seq<char>) -> Seq<char> {
    match lookup(found, name) {
        Some(v) => v,
        None => default,
    }
}

fn resolve_one(found: &Vec<(String, String)>, name: &str, default: &String) -> (r: (String, bool))
    ensures
        r.0@ == resolved(found@, name@, default@),
        r.1 == lookup(found@, name@) is None,
{
    match find_value(found, name) {
        Some(v) => (v, false),
        None => (default.clone(), true),
    }
}

/// Combines discovered `(service, url)` pairs with `defaults`: each service
/// takes the URL discovered for it, and keeps its default when none was.
pub fn resolve_endpoints(defaults: &Endpoints, found: &Vec<(String, String)>) -> (r: ResolvedEndpoints)
    ensures
        r.endpoints.petlistadoptions@ == resolved(found@, "petlistadoptions"@, defaults.petlistadoptions@),
        r.endpoints.petsearch@ == resolved(found@, "petsearch"@, defaults.petsearch@),
        r.endpoints.payforadoption@ == resolved(found@, "payforadoption"@, defaults.payforadoption@),
        r.endpoints.petfood@ == resolved(found@, "petfood"@, defaults.petfood@),
        r.petlistadoptions_defaulted == lookup(found@, "petlistadoptions"@) is None,
        r.petsearch_defaulted == lookup(found@, "petsearch"@) is None,
        r.payforadoption_defaulted == lookup(found@, "payforadoption"@) is None,
        r.petfood_defaulted == lookup(found@, "petfood"@) is None,
{
    let (a, da) = resolve_one(found, "petlistadoptions", &defaults.petlistadoptions);
    let (b, db) = resolve_one(found, "petsearch", &defaults.petsearch);
    let (c, dc) = resolve_one(found, "payforadoption", &defaults.payforadoption);
    let (d, dd) = resolve_one(found, "petfood", &defaults.petfood);
    ResolvedEndpoints {
        endpoints: Endpoints { petlistadoptions: a, petsearch: b, payforadoption: c, petfood: d },
        petlistadoptions_defaulted: da,
        petsearch_defaulted: db,
        payforadoption_defaulted: dc,
        petfood_defaulted: dd,
    }
}

/// Whether `needle` occurs in `text` at position `i`.
pub open spec fn occurs_at(text: Seq<char>, needle: Seq<char>, i: int) -> bool {
    0 <= i && i + needle.len() <= text.len() && text.subrange(i, i + needle.len()) == needle
}

/// Whether `needle` occurs in `text`.
pub open spec fn occurs_in(text: Seq<char>, needle: Seq<char>) -> bool {
    exists|i: int| occurs_at(text, needle, i)
}

fn occurs_at_exec(text: &str, n: usize, needle: &str, m: usize, i: usize) -> (r: bool)
    requires
        n == text@.len(),
        m == needle@.len(),
        i + m <= n,
    ensures
        r == occurs_at(text@, needle@, i as int),
{
    let mut j: usize = 0;
    while j < m
        invariant
            n == text@.len(),
            m == needle@.len(),
            i + m <= n,
            j <= m,
            forall|k: int| 0 <= k < j ==> text@[i + k] == needle@[k],
        decreases m - j,
    {
        if text.get_char(i + j) != needle.get_char(j) {
            proof {
                assert(text@.subrange(i as int, i + m)[j as int] != needle@[j as int]);
            }
            return false;
        }
        j = j + 1;
    }
    proof {
        assert(text@.subrange(i as int, i + m) =~= needle@);
    }
    true
}

/// Whether `needle` occurs in `text`.
pub fn contains_text(text: &str, needle: &str) -> (r: bool)
    ensures
        r == occurs_in(text@, needle@),
{
    let n = text.unicode_len();
    let m = needle.unicode_len();
    if m == 0 {
        proof {
            assert(text@.subrange(0, 0) =~= needle@);
            assert(occurs_at(text@, needle@, 0));
        }
        return true;
    }
    if m > n {
        return false;
    }
    let mut i: usize = 0;
    while i <= n - m
        invariant
            n == text@.len(),
            m == needle@.len(),
            1 <= m <= n,
            i <= n - m + 1,
            forall|k: int| 0 <= k < i ==> !occurs_at(text@, needle@, k),
        decreases n - m + 1 - i,
    {
        if occurs_at_exec(text, n, needle, m, i) {
            return true;
        }
        i = i + 1;
    }
    false
}

/// Why a parameter could not be read.
#[derive(Debug, Clone, Copy, PartialEq, Eq, Structural)]
pub enum FetchFault {
    /// The parameter does not exist.
    NotFound,
    /// Any other failure.
    Other,
}

/// Classifies a failed lookup by its error message.
pub fn classify_fetch_error(message: &str) -> (r: FetchFault)
    ensures
        r == (if occurs_in(message@, "ParameterNotFound"@) {
            FetchFault::NotFound
        } else {
            FetchFault::Other
        }),
{
    if contains_text(message, "ParameterNotFound") {
        FetchFault::NotFound
    } else {
        FetchFault::Other
    }
}

} // verus!
