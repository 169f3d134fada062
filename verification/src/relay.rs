//! The result relay's observation tap. The relay forwards every upstream
//! event verbatim; on the side, each event whose payload parsed as a result
//! with status "succeeded" has its origin's site name recorded. Parsing the
//! payload bytes happens at the boundary; the classification here is a
//! function of the parse outcome alone and is exact for every value of it.

use vstd::prelude::*;
use crate::text::{has_dot, second_seg, site_of_origin};

verus! {

/// The outcome of parsing one event payload: the origin identity and
/// whether the reported status was "succeeded".
#[derive(Debug, PartialEq, Eq)]
pub struct ResultMsg {
    /// The qualified origin identity, `app.SITE.broker`.
    pub from: String,
    /// Whether the parsed status was the terminal success.
    pub succeeded: bool,
}

/// One upstream stream event, forwarded verbatim: its event name and its
/// raw payload bytes.
#[derive(Debug, PartialEq, Eq)]
pub struct RelayEvent {
    pub name: String,
    pub data: Vec<u8>,
}

/// The site recorded for one parse outcome: the origin's second
/// dot-separated segment, and only for a message that parsed and succeeded.
pub open spec fn counted_site(p: Option<ResultMsg>) -> Option<Seq<char>> {
    match p {
        Some(m) => if m.succeeded && has_dot(m.from@) {
            Some(second_seg(m.from@))
        } else {
            None
        },
        None => None,
    }
}

/// The sites recorded over a whole stream, in arrival order.
pub open spec fn collected_sites(ps: Seq<Option<ResultMsg>>) -> Seq<Seq<char>>
    decreases ps.len(),
{
    if ps.len() == 0 {
        Seq::empty()
    } else {
        let rest = collected_sites(ps.drop_last());
        match counted_site(ps.last()) {
            Some(x) => rest.push(x),
            None => rest,
        }
    }
}

pub open spec fn site_views(ss: Seq<String>) -> Seq<Seq<char>> {
    Seq::new(ss.len(), |i: int| ss[i]@)
}

/// The observation made for one event: the site to record, if any. A
/// payload that did not parse, a status other than success, and an origin
/// without any dot are all not counted.
pub fn observe_result(parsed: &Option<ResultMsg>) -> (r: Option<String>)
    ensures
        match r {
            Some(site) => counted_site(*parsed) == Some(site@),
            None => counted_site(*parsed) is None,
        },
{
    match parsed {
        Some(m) => {
            if m.succeeded {
                site_of_origin(m.from.as_str())
            } else {
                None
            }
        },
        None => None,
    }
}

/// A whole stream, relayed: every event comes back exactly as it went in,
/// in order and unchanged, and beside them stand the recorded sites.
pub fn relay_events(events: Vec<RelayEvent>, parsed: &Vec<Option<ResultMsg>>) -> (r: (
    Vec<RelayEvent>,
    Vec<String>,
))
    ensures
        r.0 == events,
        site_views(r.1@) == collected_sites(parsed@),
{
    let n: usize = parsed.len();
    let mut sites: Vec<String> = Vec::new();
    let mut i: usize = 0;
    while i < n
        invariant
            n == parsed@.len(),
            i <= n,
            site_views(sites@) == collected_sites(parsed@.subrange(0, i as int)),
        decreases n - i,
    {
        let ghost before = sites@;
        match observe_result(&parsed[i]) {
            Some(site) => {
                sites.push(site);
            },
            None => {},
        }
        proof {
            assert(parsed@.subrange(0, i + 1).drop_last() =~= parsed@.subrange(0, i as int));
            assert(parsed@.subrange(0, i + 1).last() == parsed@[i as int]);
            assert(site_views(sites@) =~= collected_sites(parsed@.subrange(0, i + 1)));
        }
        i = i + 1;
    }
    proof {
        assert(parsed@.subrange(0, n as int) =~= parsed@);
    }
    (events, sites)
}

} // verus!
