//! The task builder and the submission protocol. A client query is fanned
//! out as one broker task: every site name is qualified into a full
//! recipient identity `<target-app>.<site>.<broker-domain>`, the failure
//! policy and time-to-live are fixed, and optional project metadata is
//! attached. A broker rejection that names a subset of the recipients as
//! invalid is recovered once, by resubmitting with those recipients removed;
//! every other failure, and any failure after that one resubmission, is
//! terminal.

use vstd::prelude::*;
use vstd::string::StrSliceExecFns;
use vstd::string::StringExecFns;
use crate::text::{
    str_eq, find_char_from, has_dot, tail_after_dot, second_seg, lemma_tail_after_dot_at,
    lemma_tail_after_dot_none, lemma_take_until_dot_at,
};

verus! {

/// A broker task derived from one client query.
#[derive(Debug, PartialEq, Eq)]
pub struct BeamTask {
    /// The client-chosen message identifier.
    pub id: String,
    /// The gateway's own broker identity.
    pub from: String,
    /// Fully qualified recipient identities, one per site.
    pub to: Vec<String>,
    /// The configured project tag, when there is one.
    pub metadata_project: Option<String>,
    /// The query text, unchanged.
    pub body: String,
    /// Fixed failure policy: retry with this backoff...
    pub retry_backoff_ms: u64,
    /// ...at most this many times.
    pub retry_max_tries: u64,
    /// Fixed time-to-live.
    pub ttl: String,
}

/// A recipient identity: `<target-app>.<site>.<broker-domain>`.
pub open spec fn qualified_id(app: Seq<char>, site: Seq<char>, broker: Seq<char>) -> Seq<char> {
    app + "."@ + site + "."@ + broker
}

/// One site name, qualified.
pub fn qualify_site(target_app: &str, site: &str, broker: &str) -> (r: String)
    ensures
        r@ == qualified_id(target_app@, site@, broker@),
{
    let mut s: String = target_app.to_owned();
    s.append(".");
    s.append(site);
    s.append(".");
    s.append(broker);
    s
}

/// Every qualified identity ends in a dot followed by the broker domain,
/// whatever the site name is.
pub proof fn lemma_qualified_id_suffix(app: Seq<char>, site: Seq<char>, broker: Seq<char>)
    ensures
        qualified_id(app, site, broker).len() == app.len() + site.len() + broker.len() + 2,
        qualified_id(app, site, broker).subrange(
            app.len() + site.len() + 1 as int,
            app.len() + site.len() + 2 + broker.len() as int,
        ) == "."@ + broker,
{
    reveal_strlit(".");
    assert(qualified_id(app, site, broker).subrange(
        app.len() + site.len() + 1 as int,
        app.len() + site.len() + 2 + broker.len() as int,
    ) =~= "."@ + broker);
}

/// The proxy part of an identity: everything after the first dot (empty when
/// there is no dot).
pub fn proxy_id_of(identity: &str) -> (r: String)
    ensures
        r@ == tail_after_dot(identity@),
{
    match find_char_from(identity, '.', 0) {
        Some(i) => {
            let n: usize = identity.unicode_len();
            let t: String = identity.substring_char(i + 1, n).to_owned();
            proof {
                lemma_tail_after_dot_at(identity@, i as int);
            }
            t
        },
        None => {
            proof {
                lemma_tail_after_dot_none(identity@);
            }
            String::new()
        },
    }
}

/// The broker domain inside the gateway's own identity
/// `app.site.broker-domain`: everything after the second dot. `None` when
/// the identity is malformed (fewer than two dots) - a startup-time fatal
/// condition for the caller.
pub fn broker_id_of(beam_app_id: &str) -> (r: Option<String>)
    ensures
        match r {
            Some(b) => has_dot(beam_app_id@) && has_dot(tail_after_dot(beam_app_id@)) && b@
                == tail_after_dot(tail_after_dot(beam_app_id@)),
            None => !has_dot(beam_app_id@) || !has_dot(tail_after_dot(beam_app_id@)),
        },
{
    let s = beam_app_id;
    match find_char_from(s, '.', 0) {
        Some(i) => {
            let n: usize = s.unicode_len();
            proof {
                lemma_tail_after_dot_at(s@, i as int);
            }
            match find_char_from(s, '.', i + 1) {
                Some(j) => {
                    let b: String = s.substring_char(j + 1, n).to_owned();
                    proof {
                        let t = s@.subrange(i + 1, s@.len() as int);
                        assert(t[j - (i + 1)] == s@[j as int]);
                        lemma_tail_after_dot_at(t, j - (i + 1));
                        assert(t.subrange(j - i, t.len() as int) =~= s@.subrange(
                            j + 1,
                            s@.len() as int,
                        ));
                    }
                    Some(b)
                },
                None => {
                    proof {
                        let t = s@.subrange(i + 1, s@.len() as int);
                        assert(forall|k: int| 0 <= k < t.len() ==> t[k] == s@[k + i + 1]);
                        assert(!has_dot(t));
                    }
                    None
                },
            }
        },
        None => None,
    }
}

/// The task built from one query: one qualified recipient per site, the
/// query text as the body unchanged, project metadata exactly when a project
/// tag is configured, and the fixed retry policy and time-to-live.
pub fn create_beam_task(
    id: String,
    target_sites: Vec<String>,
    query: String,
    beam_app_id: &str,
    target_app: &str,
    broker_id: &str,
    project: &Option<String>,
) -> (t: BeamTask)
    ensures
        t.id == id,
        t.from@ == beam_app_id@,
        t.body == query,
        t.to@.len() == target_sites@.len(),
        forall|i: int|
            0 <= i < target_sites@.len() ==> (#[trigger] t.to@[i])@ == qualified_id(
                target_app@,
                target_sites@[i]@,
                broker_id@,
            ),
        t.metadata_project == *project,
        t.retry_backoff_ms == 1000,
        t.retry_max_tries == 5,
        t.ttl@ == "360s"@,
{
    let n: usize = target_sites.len();
    let mut to: Vec<String> = Vec::new();
    let mut i: usize = 0;
    while i < n
        invariant
            n == target_sites@.len(),
            i <= n,
            to@.len() == i,
            forall|k: int|
                0 <= k < i ==> (#[trigger] to@[k])@ == qualified_id(
                    target_app@,
                    target_sites@[k]@,
                    broker_id@,
                ),
        decreases n - i,
    {
        let q: String = qualify_site(target_app, target_sites[i].as_str(), broker_id);
        to.push(q);
        i = i + 1;
    }
    let metadata_project: Option<String> = match project {
        Some(p) => Some(p.clone()),
        None => None,
    };
    BeamTask {
        id,
        from: beam_app_id.to_owned(),
        to,
        metadata_project,
        body: query,
        retry_backoff_ms: 1000,
        retry_max_tries: 5,
        ttl: "360s".to_owned(),
    }
}

/// Whether a recipient survives a rejection that names `invalid` proxy
/// identities: it does when its own proxy identity is named by none of them.
pub open spec fn kept_recipient(rec: String, invalid: Seq<String>) -> bool {
    forall|j: int| 0 <= j < invalid.len() ==> (#[trigger] invalid[j])@ != tail_after_dot(rec@)
}

/// The recipients that survive, in their original order.
pub open spec fn remaining_recipients(to: Seq<String>, invalid: Seq<String>) -> Seq<String>
    decreases to.len(),
{
    if to.len() == 0 {
        Seq::empty()
    } else {
        let rest = remaining_recipients(to.drop_last(), invalid);
        if kept_recipient(to.last(), invalid) {
            rest.push(to.last())
        } else {
            rest
        }
    }
}

/// The survivors are exactly the original list filtered by `kept_recipient`:
/// nothing else is removed, nothing is added, and the order is kept.
pub proof fn lemma_remaining_is_filter(to: Seq<String>, invalid: Seq<String>)
    ensures
        remaining_recipients(to, invalid) == to.filter(
            |r: String| kept_recipient(r, invalid),
        ),
    decreases to.len(),
{
    reveal(Seq::filter);
    if to.len() > 0 {
        lemma_remaining_is_filter(to.drop_last(), invalid);
    }
}

/// The recipients whose proxy identity the broker did not reject.
pub fn retain_valid_recipients(to: &Vec<String>, invalid: &Vec<String>) -> (r: Vec<String>)
    ensures
        r@ == remaining_recipients(to@, invalid@),
{
    let n: usize = to.len();
    let m: usize = invalid.len();
    let mut out: Vec<String> = Vec::new();
    let mut i: usize = 0;
    while i < n
        invariant
            n == to@.len(),
            m == invalid@.len(),
            i <= n,
            out@ == remaining_recipients(to@.subrange(0, i as int), invalid@),
        decreases n - i,
    {
        let pid: String = proxy_id_of(to[i].as_str());
        let mut bad: bool = false;
        let mut j: usize = 0;
        while j < m
            invariant
                m == invalid@.len(),
                j <= m,
                pid@ == tail_after_dot(to@[i as int]@),
                i < n,
                n == to@.len(),
                bad ==> !kept_recipient(to@[i as int], invalid@),
                !bad ==> forall|l: int| 0 <= l < j ==> (#[trigger] invalid@[l])@ != pid@,
            decreases m - j,
        {
            if str_eq(invalid[j].as_str(), pid.as_str()) {
                bad = true;
                j = m;
            } else {
                j = j + 1;
            }
        }
        if !bad {
            out.push(to[i].clone());
        }
        proof {
            assert(to@.subrange(0, i + 1).drop_last() =~= to@.subrange(0, i as int));
            assert(to@.subrange(0, i + 1).last() == to@[i as int]);
        }
        i = i + 1;
    }
    proof {
        assert(to@.subrange(0, n as int) =~= to@);
    }
    out
}

/// What the broker answered to a submission.
#[derive(Debug, PartialEq, Eq)]
pub enum BrokerReply {
    /// The task was accepted.
    Accepted,
    /// The task was rejected and these proxy identities were named invalid.
    InvalidReceivers(Vec<String>),
    /// Any other submission failure.
    OtherError,
}

/// What the gateway does next after a broker reply.
#[derive(Debug, PartialEq, Eq)]
pub enum SubmitStep {
    /// Answer the client: created.
    Created,
    /// Submit this reduced task, once.
    Resubmit(BeamTask),
    /// Answer the client: bad gateway.
    BadGateway,
}

/// The model of a broker reply.
pub ghost enum BrokerReplyV {
    Accepted,
    InvalidReceivers(Seq<String>),
    OtherError,
}

pub open spec fn reply_model(r: BrokerReply) -> BrokerReplyV {
    match r {
        BrokerReply::Accepted => BrokerReplyV::Accepted,
        BrokerReply::InvalidReceivers(inv) => BrokerReplyV::InvalidReceivers(inv@),
        BrokerReply::OtherError => BrokerReplyV::OtherError,
    }
}

/// The model of a decision: what matters is whether the task was created,
/// resubmitted (and to whom), or failed.
pub ghost enum SubmitDecision {
    Created,
    ResubmitTo(Seq<String>),
    BadGateway,
}

pub open spec fn step_model(s: SubmitStep) -> SubmitDecision {
    match s {
        SubmitStep::Created => SubmitDecision::Created,
        SubmitStep::Resubmit(t) => SubmitDecision::ResubmitTo(t.to@),
        SubmitStep::BadGateway => SubmitDecision::BadGateway,
    }
}

/// The submission protocol, as a function of the current recipients, the
/// broker's reply, and whether one resubmission has already been spent.
pub open spec fn submit_decision(
    to: Seq<String>,
    reply: BrokerReplyV,
    resubmitted: bool,
) -> SubmitDecision {
    match reply {
        BrokerReplyV::Accepted => SubmitDecision::Created,
        BrokerReplyV::InvalidReceivers(invalid) => if resubmitted {
            SubmitDecision::BadGateway
        } else {
            let rem = remaining_recipients(to, invalid);
            if rem.len() > 0 {
                SubmitDecision::ResubmitTo(rem)
            } else {
                SubmitDecision::BadGateway
            }
        },
        BrokerReplyV::OtherError => SubmitDecision::BadGateway,
    }
}

/// One step of the submission protocol. A resubmitted task differs from the
/// rejected one in its recipient list alone.
pub fn submission_step(task: &BeamTask, reply: &BrokerReply, resubmitted: bool) -> (r: SubmitStep)
    ensures
        step_model(r) == submit_decision(task.to@, reply_model(*reply), resubmitted),
        r matches SubmitStep::Resubmit(t2) ==> t2.id == task.id && t2.from == task.from
            && t2.metadata_project == task.metadata_project && t2.body == task.body
            && t2.retry_backoff_ms == task.retry_backoff_ms && t2.retry_max_tries
            == task.retry_max_tries && t2.ttl == task.ttl,
{
    match reply {
        BrokerReply::Accepted => SubmitStep::Created,
        BrokerReply::InvalidReceivers(invalid) => {
            if resubmitted {
                SubmitStep::BadGateway
            } else {
                let rem: Vec<String> = retain_valid_recipients(&task.to, invalid);
                if rem.len() > 0 {
                    let metadata_project: Option<String> = match &task.metadata_project {
                        Some(p) => Some(p.clone()),
                        None => None,
                    };
                    SubmitStep::Resubmit(
                        BeamTask {
                            id: task.id.clone(),
                            from: task.from.clone(),
                            to: rem,
                            metadata_project,
                            body: task.body.clone(),
                            retry_backoff_ms: task.retry_backoff_ms,
                            retry_max_tries: task.retry_max_tries,
                            ttl: task.ttl.clone(),
                        },
                    )
                } else {
                    SubmitStep::BadGateway
                }
            }
        },
        BrokerReply::OtherError => SubmitStep::BadGateway,
    }
}

/// The recovery protocol in full: a rejection that leaves some recipient
/// standing is answered by exactly one resubmission carrying the remaining
/// recipients, and acceptance of that resubmission creates the task; a
/// rejection naming every recipient is terminal at once; after the one
/// resubmission any failure is terminal; an unspecific error never leads to
/// a resubmission.
pub proof fn lemma_rejection_protocol(to: Seq<String>, invalid: Seq<String>)
    ensures
        remaining_recipients(to, invalid).len() > 0 ==> submit_decision(
            to,
            BrokerReplyV::InvalidReceivers(invalid),
            false,
        ) == SubmitDecision::ResubmitTo(remaining_recipients(to, invalid)),
        remaining_recipients(to, invalid).len() > 0 ==> submit_decision(
            remaining_recipients(to, invalid),
            BrokerReplyV::Accepted,
            true,
        ) == SubmitDecision::Created,
        remaining_recipients(to, invalid).len() == 0 ==> submit_decision(
            to,
            BrokerReplyV::InvalidReceivers(invalid),
            false,
        ) == SubmitDecision::BadGateway,
        forall|r: BrokerReplyV|
            !(r is Accepted) ==> #[trigger] submit_decision(
                remaining_recipients(to, invalid),
                r,
                true,
            ) == SubmitDecision::BadGateway,
        submit_decision(to, BrokerReplyV::OtherError, false) == SubmitDecision::BadGateway,
{
}

/// The site name survives qualification: when neither the application name
/// nor the site name holds a dot, the second dot-separated segment of the
/// qualified identity - what the result relay extracts from an origin - is
/// exactly the site name that went in.
pub proof fn lemma_site_recoverable(app: Seq<char>, site: Seq<char>, broker: Seq<char>)
    requires
        forall|k: int| 0 <= k < app.len() ==> app[k] != '.',
        forall|k: int| 0 <= k < site.len() ==> site[k] != '.',
    ensures
        second_seg(qualified_id(app, site, broker)) == site,
{
    reveal_strlit(".");
    let q = qualified_id(app, site, broker);
    assert("."@.len() == 1);
    assert(q[app.len() as int] == '.');
    assert(forall|k: int| 0 <= k < app.len() ==> q[k] == app[k]);
    lemma_tail_after_dot_at(q, app.len() as int);
    let t = q.subrange(app.len() + 1 as int, q.len() as int);
    assert(forall|k: int| 0 <= k < site.len() ==> t[k] == site[k]);
    assert(t[site.len() as int] == '.');
    lemma_take_until_dot_at(t, site.len() as int);
    assert(t.subrange(0, site.len() as int) =~= site);
}

} // verus!
