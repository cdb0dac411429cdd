//! Master-to-slave replication, slave side: the indefinitely retrying
//! fetch, the one-time bootstrap, and the catch-up loop that applies log
//! entries in strictly increasing id order.

use crate::codec::{decode_query, spec_dec_query};
use crate::envelope::{spec_fresh_query, QueryView, ServerTrans};
use vstd::prelude::*;

verus! {

/// How long one replication fetch may run before it is abandoned, seconds.
pub const FETCH_TIMEOUT_SECS: u64 = 800;

/// How long the fetch loop waits after a failed attempt, seconds.
pub const FETCH_RETRY_DELAY_SECS: u64 = 10;

/// How one replication fetch ended, as the HTTP boundary reports it.
pub enum FetchOutcome {
    /// The master replied: `ok` is whether the status was a success, and
    /// `body` the bytes, absent when reading them failed.
    Reply { ok: bool, body: Option<Vec<u8>> },
    /// The transport failed before any reply arrived.
    TransportFailed,
    /// No reply within [`FETCH_TIMEOUT_SECS`].
    TimedOut,
}

/// What the fetch loop does next.
pub enum FetchStep {
    /// The fetch succeeded: hand the body to the caller.
    Done(Vec<u8>),
    /// Anything else: retry the same request after
    /// [`FETCH_RETRY_DELAY_SECS`].
    RetryAfterDelay,
}

/// Decide one turn of the retrying fetch: only a success status whose body
/// was read ends the loop; a bad status, a transport error, an unreadable
/// body, or a timeout all retry the same request after the fixed delay, so
/// a failure is never surfaced and the id never advances on failure.
pub fn fetch_step(outcome: FetchOutcome) -> (r: FetchStep)
    ensures
        outcome matches FetchOutcome::Reply { ok: true, body: Some(b) } ==> (r
            matches FetchStep::Done(d) && d@ == b@),
        !(outcome matches FetchOutcome::Reply { ok: true, body: Some(b) }) ==> r
            is RetryAfterDelay,
{
    match outcome {
        FetchOutcome::Reply { ok: true, body: Some(b) } => FetchStep::Done(b),
        _ => FetchStep::RetryAfterDelay,
    }
}

/// The one-time bootstrap write of a freshly created slave: execute the
/// master's initialization script locally, without logging it.
pub fn bootstrap_trans(script: String, now: i64) -> (r: ServerTrans)
    ensures
        r.qy@ == (QueryView { sql: script@, ..spec_fresh_query(now) }),
        !r.log,
        !r.ext.tx_email,
        r.ext.sleep == 0,
        !r.ext.trans_wait,
{
    let mut st = ServerTrans::new(now);
    st.log = false;
    st.qy.sql = script;
    st
}

/// The slave's catch-up position: the next log id it expects.
pub struct SlaveState {
    pub next_id: u64,
}

/// What one catch-up turn decided.
pub enum CatchupStep {
    /// The entry is not yet available on the master: ask for the same id
    /// again.
    NotYet,
    /// A whole entry arrived: submit this local, non-logged write, then ask
    /// for the next id.
    Apply(ServerTrans),
    /// The body would not decode: a protocol violation, fatal rather than
    /// applied.
    Corrupt,
}

impl SlaveState {
    /// Start catching up at the given id.
    pub fn new(next_id: u64) -> (r: SlaveState)
        ensures
            r.next_id == next_id,
    {
        SlaveState { next_id }
    }

    /// One turn of the catch-up loop, on the body the master returned for
    /// this slave's next expected id: an empty body means the entry is not
    /// yet available and the id stays put; a whole entry becomes a local,
    /// non-logged write and the expected id advances by exactly one.
    pub fn catchup_step(&mut self, body: Vec<u8>, now: i64) -> (r: CatchupStep)
        requires
            old(self).next_id < u64::MAX,
        ensures
            body@.len() == 0 ==> r is NotYet && final(self).next_id == old(self).next_id,
            body@.len() > 0 ==> match spec_dec_query(body@) {
                Some(qv) => (r matches CatchupStep::Apply(st) && st.qy@ == qv && !st.log
                    && !st.ext.tx_email && st.ext.sleep == 0 && !st.ext.trans_wait)
                    && final(self).next_id == old(self).next_id + 1,
                None => r is Corrupt && final(self).next_id == old(self).next_id,
            },
    {
        if body.len() == 0 {
            return CatchupStep::NotYet;
        }
        match decode_query(&body) {
            None => CatchupStep::Corrupt,
            Some(q) => {
                self.next_id = self.next_id + 1;
                let mut st = ServerTrans::new(now);
                st.qy = q;
                st.log = false;
                CatchupStep::Apply(st)
            },
        }
    }
}

/// The ids a catch-up run applies, starting from `next`: one turn per
/// element of `ev`, true where the master returned a whole entry (which is
/// applied, and the expected id advances), false where it was not yet
/// available.
pub open spec fn slave_ids(next: int, ev: Seq<bool>) -> Seq<int>
    decreases ev.len(),
{
    if ev.len() == 0 {
        Seq::empty()
    } else if ev[0] {
        seq![next] + slave_ids(next + 1, ev.drop_first())
    } else {
        slave_ids(next, ev.drop_first())
    }
}

/// How many turns of `ev` returned a whole entry.
pub open spec fn count_applied(ev: Seq<bool>) -> int
    decreases ev.len(),
{
    if ev.len() == 0 {
        0
    } else {
        (if ev[0] {
            1int
        } else {
            0int
        }) + count_applied(ev.drop_first())
    }
}

/// Replication applies entries in strictly increasing id order, gap-free,
/// each exactly once: across any sequence of catch-up turns — available
/// entries and not-yet-available answers interleaved however transient
/// failures allow — a slave that starts expecting id `next` applies exactly
/// the ids `next, next + 1, ...`, in that order.  With `next == 1` and `N`
/// entries served, the slave applies ids 1 through N.
pub proof fn lemma_slave_in_order(next: int, ev: Seq<bool>)
    ensures
        slave_ids(next, ev).len() == count_applied(ev),
        forall|k: int| 0 <= k < slave_ids(next, ev).len() ==> slave_ids(next, ev)[k] == next + k,
    decreases ev.len(),
{
    if ev.len() == 0 {
    } else if ev[0] {
        lemma_slave_in_order(next + 1, ev.drop_first());
        assert forall|k: int| 0 <= k < slave_ids(next, ev).len() implies slave_ids(next, ev)[k]
            == next + k by {
            if k == 0 {
                assert(slave_ids(next, ev)[0] == next);
            } else {
                assert(slave_ids(next, ev)[k] == slave_ids(next + 1, ev.drop_first())[k - 1]);
            }
        }
    } else {
        lemma_slave_in_order(next, ev.drop_first());
    }
}

} // verus!
