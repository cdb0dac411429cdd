//! The re-armable sleep scheduler: a single timer that fires a fixed
//! scheduled-jobs script and can be told to fire sooner.

use vstd::prelude::*;
use crate::envelope::{spec_fresh_query, QueryView, ServerTrans};

verus! {

/// Interval the scheduler starts with: five seconds, in microseconds.
pub const INITIAL_SLEEP_MICROS: u64 = 5_000_000;

/// What woke the scheduler.
pub enum SleepEvent {
    /// A new interval (microseconds) arrived on the signal channel.
    NewInterval(u64),
    /// The current interval elapsed.
    Elapsed,
}

/// What the scheduler decided to do.
pub struct SleepDecision {
    /// Interval to wait for next, in microseconds.
    pub interval_micros: u64,
    /// Whether to run the scheduled-jobs script now.
    pub fire: bool,
}

/// One turn of the scheduler: a new interval replaces the current one and
/// restarts the wait without firing; an elapsed interval fires (on the
/// master) and re-arms with the same interval.
pub fn sleep_step(interval_micros: u64, event: SleepEvent, is_master: bool) -> (r: SleepDecision)
    ensures
        event matches SleepEvent::NewInterval(n) ==> r.interval_micros == n && !r.fire,
        event is Elapsed ==> r.interval_micros == interval_micros && r.fire == is_master,
{
    match event {
        SleepEvent::NewInterval(n) => SleepDecision { interval_micros: n, fire: false },
        SleepEvent::Elapsed => SleepDecision { interval_micros, fire: is_master },
    }
}

/// The script a firing timer executes.
pub open spec fn spec_scheduled_job_sql() -> Seq<char> {
    "EXEC timed.Run()"@
}

/// The write transaction a firing timer submits: the fixed scheduled-jobs
/// script, logged like any other write.
pub fn scheduled_job_trans(now: i64) -> (r: ServerTrans)
    ensures
        r.qy@ == (QueryView { sql: spec_scheduled_job_sql(), ..spec_fresh_query(now) }),
        r.log,
        !r.ext.tx_email,
        r.ext.sleep == 0,
        !r.ext.trans_wait,
{
    let mut st = ServerTrans::new(now);
    let sql_text: &str = "EXEC timed.Run()";
    st.qy.sql = sql_text.to_owned();
    st
}

} // verus!
