use rustweb::codec::{decode_query, encode_query};
use rustweb::email::{build_send_list, record_for, AccountRow, EmailRecord, MsgRow, SendOutcome};
use rustweb::envelope::{Part, Query, ServerTrans};
use rustweb::hashing::argon_hash;
use rustweb::replication::{
    bootstrap_trans, fetch_step, FetchOutcome, FetchStep, SlaveState, CatchupStep,
    FETCH_RETRY_DELAY_SECS, FETCH_TIMEOUT_SECS,
};
use rustweb::sched::{scheduled_job_trans, sleep_step, SleepEvent, INITIAL_SLEEP_MICROS};
use rustweb::writer::{writer_step, WriterLog};

fn sample_query() -> Query {
    let mut q = Query::new(1_700_000_000_000_000);
    q.path = "admin/Exec".to_string();
    q.params = vec![
        ("k".to_string(), "7".to_string()),
        ("mode".to_string(), "full".to_string()),
    ];
    q.form = vec![("body".to_string(), "héllo wörld ✓".to_string())];
    q.cookies = vec![("uid".to_string(), "abc123".to_string())];
    q.sql = "EXEC web.Main()".to_string();
    q
}

fn assert_query_eq(a: &Query, b: &Query) {
    assert_eq!(a.path, b.path);
    assert_eq!(a.params, b.params);
    assert_eq!(a.form, b.form);
    assert_eq!(a.cookies, b.cookies);
    assert_eq!(a.sql, b.sql);
    assert_eq!(a.now, b.now);
    assert_eq!(a.parts.len(), b.parts.len());
    for (pa, pb) in a.parts.iter().zip(b.parts.iter()) {
        assert_eq!(pa.name, pb.name);
        assert_eq!(pa.file_name, pb.file_name);
        assert_eq!(pa.content_type, pb.content_type);
        assert_eq!(pa.text, pb.text);
        assert_eq!(pa.data, pb.data);
    }
}

#[test]
fn query_round_trips_through_the_wire_format() {
    let q = sample_query();
    let bytes = encode_query(&q);
    let back = decode_query(&bytes).expect("a serialized query must decode");
    assert_query_eq(&q, &back);
}

#[test]
fn query_with_parts_round_trips() {
    let mut q = Query::new(-123);
    q.form = Vec::new();
    q.parts = vec![
        Part::text_part("note".to_string(), "".to_string(), "plain text".to_string()),
        Part::binary_part(
            "file".to_string(),
            "a.bin".to_string(),
            "application/octet-stream".to_string(),
            vec![0, 255, 17],
        ),
    ];
    let bytes = encode_query(&q);
    let back = decode_query(&bytes).expect("a serialized query must decode");
    assert_query_eq(&q, &back);
}

#[test]
fn empty_query_round_trips() {
    let q = Query::new(0);
    let bytes = encode_query(&q);
    let back = decode_query(&bytes).expect("a serialized query must decode");
    assert_query_eq(&q, &back);
}

#[test]
fn decode_rejects_damaged_entries() {
    assert!(decode_query(&Vec::new()).is_none());
    let q = sample_query();
    let bytes = encode_query(&q);
    let truncated = bytes[..bytes.len() - 1].to_vec();
    assert!(decode_query(&truncated).is_none());
    let mut padded = bytes.clone();
    padded.push(0);
    assert!(decode_query(&padded).is_none());
    // A path field of one byte that is not valid UTF-8.
    let bad_utf8 = vec![1, 0, 0, 0, 0, 0, 0, 0, 0xff];
    assert!(decode_query(&bad_utf8).is_none());
}

#[test]
fn writer_logs_in_admission_order_with_increasing_ids() {
    let mut log = WriterLog::new();
    let mut st1 = ServerTrans::new(10);
    st1.qy.path = "first".to_string();
    let mut st2 = ServerTrans::new(11);
    st2.qy.path = "second".to_string();

    let o1 = writer_step(&mut log, &st1, true, 3);
    assert_eq!(o1.logged_id, Some(1));
    assert!(o1.notify);
    let o2 = writer_step(&mut log, &st2, true, 4);
    assert_eq!(o2.logged_id, Some(2));
    assert!(o2.notify);

    assert_eq!(log.entries.len(), 2);
    assert_eq!(log.entries[0], encode_query(&st1.qy));
    assert_eq!(log.entries[1], encode_query(&st2.qy));
    // Total committed page delta is the sum of both writes' effects.
    assert_eq!(3 + 4, 7);
}

#[test]
fn writer_skips_log_when_nothing_changed_or_logging_off() {
    let mut log = WriterLog::new();
    let st = ServerTrans::new(0);
    let o = writer_step(&mut log, &st, false, 0);
    assert_eq!(o.logged_id, None);
    assert!(!o.notify);
    assert_eq!(log.entries.len(), 0);

    let mut quiet = ServerTrans::new(0);
    quiet.log = false;
    let o2 = writer_step(&mut log, &quiet, true, 2);
    assert_eq!(o2.logged_id, None);
    assert!(o2.notify);
    assert_eq!(log.entries.len(), 0);
}

#[test]
fn slave_applies_entry_7_and_expects_8() {
    let mut master_log = WriterLog::new();
    for i in 0..7 {
        let mut st = ServerTrans::new(i);
        st.qy.path = format!("write{}", i);
        writer_step(&mut master_log, &st, true, 1);
    }
    let mut slave = SlaveState::new(7);

    // Previously the entry was not there: the id stays put.
    match slave.catchup_step(Vec::new(), 50) {
        CatchupStep::NotYet => {}
        _ => panic!("an empty body means not yet available"),
    }
    assert_eq!(slave.next_id, 7);

    // Now the master has committed id 7 and serves non-empty bytes.
    let body = master_log.entries[6].clone();
    assert!(!body.is_empty());
    match slave.catchup_step(body, 50) {
        CatchupStep::Apply(st) => {
            assert!(!st.log);
            assert_eq!(st.qy.path, "write6");
        }
        _ => panic!("a whole entry must be applied"),
    }
    assert_eq!(slave.next_id, 8);
}

#[test]
fn slave_applies_a_whole_log_in_order_despite_gaps() {
    // Master commits five writes.
    let mut master_log = WriterLog::new();
    for i in 0..5 {
        let mut st = ServerTrans::new(i);
        st.qy.path = format!("w{}", i);
        writer_step(&mut master_log, &st, true, 1);
    }
    // The slave polls; some polls find the entry not yet available.
    let mut slave = SlaveState::new(1);
    let mut applied = Vec::new();
    while slave.next_id <= 5 {
        let id = slave.next_id;
        // Every other poll comes back empty first, as with a lagging master.
        if id % 2 == 1 {
            match slave.catchup_step(Vec::new(), 0) {
                CatchupStep::NotYet => {}
                _ => panic!("empty body must not advance the id"),
            }
            assert_eq!(slave.next_id, id);
        }
        let body = master_log.entries[(id - 1) as usize].clone();
        match slave.catchup_step(body, 0) {
            CatchupStep::Apply(st) => {
                assert!(!st.log);
                applied.push((id, st.qy.path.clone()));
            }
            _ => panic!("a whole entry must be applied"),
        }
        assert_eq!(slave.next_id, id + 1);
    }
    // Ids 1..5 were applied in strictly increasing order, each exactly once.
    let ids: Vec<u64> = applied.iter().map(|(id, _)| *id).collect();
    assert_eq!(ids, vec![1, 2, 3, 4, 5]);
    let paths: Vec<String> = applied.into_iter().map(|(_, p)| p).collect();
    assert_eq!(paths, vec!["w0", "w1", "w2", "w3", "w4"]);
}

#[test]
fn corrupt_entry_is_fatal_not_applied() {
    let mut slave = SlaveState::new(3);
    match slave.catchup_step(vec![9, 9, 9], 0) {
        CatchupStep::Corrupt => {}
        _ => panic!("an undecodable entry is a protocol violation"),
    }
    assert_eq!(slave.next_id, 3);
}

#[test]
fn fetch_retries_everything_but_a_read_success() {
    match fetch_step(FetchOutcome::Reply { ok: true, body: Some(vec![1, 2]) }) {
        FetchStep::Done(b) => assert_eq!(b, vec![1, 2]),
        _ => panic!("a read success ends the fetch"),
    }
    assert!(matches!(
        fetch_step(FetchOutcome::Reply { ok: false, body: Some(vec![1]) }),
        FetchStep::RetryAfterDelay
    ));
    assert!(matches!(
        fetch_step(FetchOutcome::Reply { ok: true, body: None }),
        FetchStep::RetryAfterDelay
    ));
    assert!(matches!(fetch_step(FetchOutcome::TransportFailed), FetchStep::RetryAfterDelay));
    assert!(matches!(fetch_step(FetchOutcome::TimedOut), FetchStep::RetryAfterDelay));
    assert_eq!(FETCH_TIMEOUT_SECS, 800);
    assert_eq!(FETCH_RETRY_DELAY_SECS, 10);
}

#[test]
fn bootstrap_runs_script_unlogged() {
    let st = bootstrap_trans("CREATE SCHEMA web".to_string(), 4);
    assert!(!st.log);
    assert_eq!(st.qy.sql, "CREATE SCHEMA web");
    assert_eq!(st.qy.now, 4);
}

#[test]
fn sleep_zero_fires_after_one_second_not_zero() {
    let mut ext = *rustweb::envelope::TransExt::new();
    ext.set_sleep(0);
    let signals = rustweb::envelope::signals_of(true, &ext);
    let micros = signals.sleep_micros.expect("a sleep request is forwarded");
    assert_eq!(micros, 1_000_000);
    let d = sleep_step(INITIAL_SLEEP_MICROS, SleepEvent::NewInterval(micros), true);
    assert_eq!(d.interval_micros, 1_000_000);
    assert!(!d.fire);
    let d2 = sleep_step(d.interval_micros, SleepEvent::Elapsed, true);
    assert!(d2.fire);
    assert_eq!(d2.interval_micros, 1_000_000);
}

#[test]
fn scheduler_initial_interval_is_five_seconds() {
    assert_eq!(INITIAL_SLEEP_MICROS, 5_000_000);
    let st = scheduled_job_trans(9);
    assert!(st.log);
    assert_eq!(st.qy.sql, "EXEC timed.Run()");
    let d = sleep_step(INITIAL_SLEEP_MICROS, SleepEvent::Elapsed, false);
    assert!(!d.fire, "only the master runs scheduled jobs");
}

#[test]
fn bad_address_is_never_retried() {
    // Repeated dispatch cycles classify the same failure the same way.
    for _cycle in 0..3 {
        match record_for(12, SendOutcome::BadAddress("missing @".to_string())) {
            EmailRecord::Failed { msg, retry, detail } => {
                assert_eq!(msg, 12);
                assert!(!retry);
                assert_eq!(detail, "missing @");
            }
            _ => panic!("a malformed address is a failure"),
        }
    }
}

#[test]
fn outcome_classification_sets_the_retry_flag() {
    assert!(matches!(record_for(1, SendOutcome::Sent), EmailRecord::Sent { msg: 1 }));
    match record_for(2, SendOutcome::BadMessage("bad header".to_string())) {
        EmailRecord::Failed { retry, .. } => assert!(!retry),
        _ => panic!(),
    }
    match record_for(3, SendOutcome::Transport { transient: true, detail: "451".to_string() }) {
        EmailRecord::Failed { retry, .. } => assert!(retry),
        _ => panic!(),
    }
    match record_for(4, SendOutcome::Transport { transient: false, detail: "550".to_string() }) {
        EmailRecord::Failed { retry, .. } => assert!(!retry),
        _ => panic!(),
    }
}

fn msg_row(account: u64, to: &str) -> MsgRow {
    MsgRow {
        from: "a@b.c".to_string(),
        to: to.to_string(),
        title: "t".to_string(),
        body: "b".to_string(),
        format: 1,
        account,
    }
}

#[test]
fn send_list_joins_queue_messages_and_accounts() {
    let queue = vec![1, 2, 3];
    let msgs = vec![(1, msg_row(10, "x@y.z")), (3, msg_row(99, "q@r.s"))];
    let accounts = vec![(
        10,
        AccountRow {
            server: "smtp.example".to_string(),
            username: "u".to_string(),
            password: "p".to_string(),
        },
    )];
    let list = build_send_list(&queue, &msgs, &accounts);
    // Message 2 is missing, message 3's account is missing: only 1 remains.
    assert_eq!(list.len(), 1);
    assert_eq!(list[0].msg, 1);
    assert_eq!(list[0].message.to, "x@y.z");
    assert!(list[0].message.is_html());
    assert_eq!(list[0].account.server, "smtp.example");
}

#[test]
fn send_list_keeps_queue_order() {
    let queue = vec![5, 4];
    let msgs = vec![(4, msg_row(1, "four@x.y")), (5, msg_row(1, "five@x.y"))];
    let accounts = vec![(
        1,
        AccountRow {
            server: "s".to_string(),
            username: "u".to_string(),
            password: "p".to_string(),
        },
    )];
    let list = build_send_list(&queue, &msgs, &accounts);
    assert_eq!(list.len(), 2);
    assert_eq!(list[0].msg, 5);
    assert_eq!(list[1].msg, 4);
}

#[test]
fn argon_matches_the_outside_crate() {
    let h = argon_hash("password", "somesalt").expect("arguments are in range");
    assert_eq!(h.len(), 32);
    assert_ne!(h.as_slice(), "password".as_bytes());
    let again = argon_hash("password", "somesalt").expect("arguments are in range");
    assert_eq!(h, again);
    let reference = argon2rs::argon2i_simple("password", "somesalt").to_vec();
    assert_eq!(h, reference);
    // A salt under eight bytes is rejected rather than panicking.
    assert!(argon_hash("password", "salt").is_none());
}
