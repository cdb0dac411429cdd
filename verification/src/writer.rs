//! The writer actor's bookkeeping: the single serialized writer receives
//! admitted envelopes one at a time, lets the engine execute them, and
//! appends a serialized copy of each logged, state-changing write to the
//! id-ordered replication log.

use crate::codec::{encode_query, spec_enc_query};
use crate::envelope::{QueryView, ServerTrans};
use vstd::prelude::*;

verus! {

/// The views of the log's entries.
pub open spec fn entries_view(s: Seq<Vec<u8>>) -> Seq<Seq<u8>> {
    s.map_values(|e: Vec<u8>| e@)
}

/// The master's replication log: append-only, the entry at index `i`
/// carries id `i + 1`, so ids are assigned in strictly increasing order.
pub struct WriterLog {
    pub entries: Vec<Vec<u8>>,
}

impl View for WriterLog {
    type V = Seq<Seq<u8>>;

    open spec fn view(&self) -> Seq<Seq<u8>> {
        entries_view(self.entries@)
    }
}

impl WriterLog {
    /// The id the next logged write will get.
    pub open spec fn next_id(self) -> int {
        self@.len() as int + 1
    }

    /// An empty log; the first entry will get id 1.
    pub fn new() -> (r: WriterLog)
        ensures
            r@ == Seq::<Seq<u8>>::empty(),
            r.next_id() == 1,
    {
        let r = WriterLog { entries: Vec::new() };
        proof {
            assert(r@ =~= Seq::<Seq<u8>>::empty());
        }
        r
    }
}

/// What one writer turn did, beyond the engine's own effects.
pub struct WriteOutcome {
    /// The id the serialized query was appended under, when it was.
    pub logged_id: Option<u64>,
    /// Whether a commit notification is to be broadcast: pages were written.
    pub notify: bool,
}

/// One turn of the writer actor, after the engine has executed the admitted
/// envelope's script: append the serialized query to the log exactly when
/// the envelope asks for logging and the engine reported a state change,
/// and broadcast a commit notification exactly when pages were persisted.
pub fn writer_step(log: &mut WriterLog, st: &ServerTrans, changed: bool, updates: u64) -> (r:
    WriteOutcome)
    requires
        old(log)@.len() + 1 <= u64::MAX,
    ensures
        st.log && changed ==> final(log)@ == old(log)@.push(spec_enc_query(st.qy@)) && (
        r.logged_id matches Some(id) && id == old(log).next_id()),
        !(st.log && changed) ==> final(log)@ == old(log)@ && r.logged_id is None,
        r.notify == (updates > 0),
{
    let logged_id: Option<u64> = if st.log && changed {
        let e = encode_query(&st.qy);
        let id = (log.entries.len() as u64) + 1;
        let ghost log0 = log@;
        log.entries.push(e);
        proof {
            assert(log@ =~= log0.push(spec_enc_query(st.qy@)));
        }
        Some(id)
    } else {
        None
    };
    WriteOutcome { logged_id, notify: updates > 0 }
}

/// One admitted write, as the log model sees it: the query, whether the
/// envelope asked for logging, whether the engine reported a state change.
pub ghost struct AdmittedWrite {
    pub query: QueryView,
    pub log: bool,
    pub changed: bool,
}

/// What one admitted write does to the log.
pub open spec fn spec_writer_append(entries: Seq<Seq<u8>>, m: AdmittedWrite) -> Seq<Seq<u8>> {
    if m.log && m.changed {
        entries.push(spec_enc_query(m.query))
    } else {
        entries
    }
}

/// The log after the writer has taken the admitted writes in order.
pub open spec fn writer_run(entries: Seq<Seq<u8>>, msgs: Seq<AdmittedWrite>) -> Seq<Seq<u8>>
    decreases msgs.len(),
{
    if msgs.len() == 0 {
        entries
    } else {
        spec_writer_append(writer_run(entries, msgs.drop_last()), msgs.last())
    }
}

/// The serialized queries of the logged, state-changing writes among
/// `msgs`, in admission order.
pub open spec fn logged_entries(msgs: Seq<AdmittedWrite>) -> Seq<Seq<u8>>
    decreases msgs.len(),
{
    if msgs.len() == 0 {
        Seq::empty()
    } else if msgs.last().log && msgs.last().changed {
        logged_entries(msgs.drop_last()).push(spec_enc_query(msgs.last().query))
    } else {
        logged_entries(msgs.drop_last())
    }
}

/// Writes are applied in the order they were admitted: after the writer
/// takes any sequence of admitted writes one at a time, the log is exactly
/// the old log followed by the serialized queries of the logged,
/// state-changing writes, in admission order — append-only, nothing
/// reordered, nothing lost, nothing duplicated.
pub proof fn lemma_writer_fifo(entries: Seq<Seq<u8>>, msgs: Seq<AdmittedWrite>)
    ensures
        writer_run(entries, msgs) == entries + logged_entries(msgs),
    decreases msgs.len(),
{
    if msgs.len() == 0 {
        assert(entries + logged_entries(msgs) =~= entries);
    } else {
        lemma_writer_fifo(entries, msgs.drop_last());
        if msgs.last().log && msgs.last().changed {
            assert(writer_run(entries, msgs) =~= entries + logged_entries(msgs));
        } else {
            assert(writer_run(entries, msgs) =~= entries + logged_entries(msgs));
        }
    }
}

} // verus!
