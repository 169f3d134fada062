//! Small decisions at the gateway's rim: which sites a query goes to when
//! it names none, how the cross-origin setting is read, and the address of
//! the statistics service's criteria endpoint.

use vstd::prelude::*;
use vstd::string::StrSliceExecFns;
use vstd::string::StringExecFns;
use crate::text::str_eq;

verus! {

/// The configured default site list, or no sites at all.
pub fn default_sites(configured: &Option<Vec<String>>) -> (r: Vec<String>)
    ensures
        match configured {
            Some(v) => r@ == v@,
            None => r@ == Seq::<String>::empty(),
        },
{
    match configured {
        Some(v) => {
            let n: usize = v.len();
            let mut out: Vec<String> = Vec::new();
            let mut i: usize = 0;
            while i < n
                invariant
                    n == v@.len(),
                    i <= n,
                    out@.len() == i,
                    forall|k: int| 0 <= k < i ==> out@[k] == v@[k],
                decreases n - i,
            {
                out.push(v[i].clone());
                i = i + 1;
            }
            proof {
                assert(out@ =~= v@);
            }
            out
        },
        None => Vec::new(),
    }
}

/// How cross-origin requests are allowed.
#[derive(Debug, PartialEq, Eq)]
pub enum CorsMode {
    /// Any origin: configured as `*` or as `any` in any letter case.
    AllowAny,
    /// Exactly the configured origin.
    AllowExact,
}

/// The configurations that open the gateway to every origin: `*`, or the
/// word "any" written in any mix of letter cases.
pub open spec fn is_any_origin(v: Seq<char>) -> bool {
    v == "*"@ || (v.len() == 3 && (v[0] == 'a' || v[0] == 'A') && (v[1] == 'n' || v[1] == 'N') && (
    v[2] == 'y' || v[2] == 'Y'))
}

/// Read the cross-origin setting.
pub fn cors_mode(v: &str) -> (r: CorsMode)
    ensures
        r is AllowAny <==> is_any_origin(v@),
{
    if str_eq(v, "*") {
        CorsMode::AllowAny
    } else {
        let n: usize = v.unicode_len();
        if n == 3 {
            let c0: char = v.get_char(0);
            let c1: char = v.get_char(1);
            let c2: char = v.get_char(2);
            if (c0 == 'a' || c0 == 'A') && (c1 == 'n' || c1 == 'N') && (c2 == 'y' || c2 == 'Y') {
                CorsMode::AllowAny
            } else {
                CorsMode::AllowExact
            }
        } else {
            CorsMode::AllowExact
        }
    }
}

/// The base address with its trailing slashes removed.
pub open spec fn trimmed_slashes(s: Seq<char>) -> Seq<char>
    decreases s.len(),
{
    if s.len() > 0 && s.last() == '/' {
        trimmed_slashes(s.drop_last())
    } else {
        s
    }
}

/// The criteria endpoint under the statistics service's base address.
pub fn criteria_url(base: &str) -> (r: String)
    ensures
        r@ == trimmed_slashes(base@) + "/criteria"@,
{
    let mut n: usize = base.unicode_len();
    proof {
        assert(base@.subrange(0, base@.len() as int) =~= base@);
    }
    while n > 0 && base.get_char(n - 1) == '/'
        invariant
            n <= base@.len(),
            trimmed_slashes(base@) == trimmed_slashes(base@.subrange(0, n as int)),
        decreases n,
    {
        proof {
            assert(base@.subrange(0, n as int).drop_last() =~= base@.subrange(0, n - 1));
        }
        n = n - 1;
    }
    proof {
        assert(base@.subrange(0, n as int) == trimmed_slashes(base@.subrange(0, n as int)));
    }
    let mut s: String = base.substring_char(0, n).to_owned();
    s.append("/criteria");
    s
}

/// Whether a query body stands in the allow-list.
pub open spec fn in_allow_list(list: Seq<String>, query: Seq<char>) -> bool {
    exists|i: int| 0 <= i < list.len() && (#[trigger] list[i])@ == query
}

/// Whether the optional allow-list admits a query body: with no list
/// configured every query is allowed; with one, exactly its members are.
/// A refused query is rejected before any task is built.
#[verifier::loop_isolation(false)]
pub fn query_allowed(filter: &Option<Vec<String>>, query: &str) -> (r: bool)
    ensures
        (*filter) is Some ==> r == in_allow_list(((*filter)->0)@, query@),
        (*filter) is None ==> r == true,
{
    match filter {
        Some(list) => {
            let n: usize = list.len();
            let mut i: usize = 0;
            while i < n
                invariant
                    n == list@.len(),
                    i <= n,
                    forall|k: int| 0 <= k < i ==> (#[trigger] list@[k])@ != query@,
                decreases n - i,
            {
                if str_eq(list[i].as_str(), query) {
                    proof {
                        assert(in_allow_list(list@, query@)) by {
                            assert(0 <= i < list@.len() && (list@[i as int])@ == query@);
                        }
                    }
                    return true;
                }
                i = i + 1;
            }
            false
        },
        None => true,
    }
}

} // verus!
