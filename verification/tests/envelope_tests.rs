use rustweb::config::Config;
use rustweb::envelope::{
    micros_of_secs, part_is_text, signals_of, Part, Query, ServerTrans, TransExt,
    COMMIT_WAIT_TIMEOUT_SECS,
};

#[test]
fn fresh_ext_requests_nothing() {
    let ext = TransExt::new();
    assert!(!ext.tx_email);
    assert_eq!(ext.sleep, 0);
    assert!(!ext.trans_wait);
}

#[test]
fn sleep_zero_clamps_to_one_second() {
    let mut ext = *TransExt::new();
    ext.set_sleep(0);
    assert_eq!(ext.sleep, 1);
    let mut ext2 = *TransExt::new();
    ext2.set_sleep(-5);
    assert_eq!(ext2.sleep, 1);
    let mut ext3 = *TransExt::new();
    ext3.set_sleep(7);
    assert_eq!(ext3.sleep, 7);
}

#[test]
fn signals_accumulate_and_last_sleep_wins() {
    let mut ext = *TransExt::new();
    ext.set_email();
    ext.set_sleep(3);
    ext.set_sleep(9);
    ext.set_trans_wait();
    assert!(ext.tx_email);
    assert_eq!(ext.sleep, 9);
    assert!(ext.trans_wait);
}

#[test]
fn master_forwards_signals_slave_ignores_them() {
    let mut ext = *TransExt::new();
    ext.set_email();
    ext.set_sleep(2);
    let s = signals_of(true, &ext);
    assert_eq!(s.sleep_micros, Some(2_000_000));
    assert!(s.email);
    let s2 = signals_of(false, &ext);
    assert_eq!(s2.sleep_micros, None);
    assert!(!s2.email);
    let quiet = *TransExt::new();
    let s3 = signals_of(true, &quiet);
    assert_eq!(s3.sleep_micros, None);
    assert!(!s3.email);
}

#[test]
fn micros_conversion_saturates() {
    assert_eq!(micros_of_secs(0), 0);
    assert_eq!(micros_of_secs(1), 1_000_000);
    assert_eq!(micros_of_secs(u64::MAX), u64::MAX);
    let top = u64::MAX / 1_000_000;
    assert_eq!(micros_of_secs(top), top * 1_000_000);
}

#[test]
fn commit_wait_timeout_is_600_seconds() {
    assert_eq!(COMMIT_WAIT_TIMEOUT_SECS, 600);
}

#[test]
fn fresh_trans_defaults() {
    let st = ServerTrans::new(77);
    assert!(st.log);
    assert_eq!(st.qy.sql, "EXEC web.Main()");
    assert_eq!(st.qy.now, 77);
    assert!(st.qy.path.is_empty());
    assert!(st.qy.params.is_empty());
    assert!(st.qy.form.is_empty());
    assert!(st.qy.cookies.is_empty());
    assert!(st.qy.parts.is_empty());
    assert_eq!(st.rp.status_code, 200);
    assert!(st.rp.headers.is_empty());
    assert!(st.rp.output.is_empty());
}

#[test]
fn get_builder_installs_request_line() {
    let mut st = ServerTrans::new(0);
    st.set_request(
        "admin/Page".to_string(),
        vec![("k".to_string(), "7".to_string())],
        vec![("uid".to_string(), "abc".to_string())],
    );
    assert_eq!(st.qy.path, "admin/Page");
    assert_eq!(st.qy.params, vec![("k".to_string(), "7".to_string())]);
    assert_eq!(st.qy.cookies, vec![("uid".to_string(), "abc".to_string())]);
    assert_eq!(st.qy.sql, "EXEC web.Main()");
}

#[test]
fn post_body_is_form_or_parts_never_both() {
    let mut st = ServerTrans::new(0);
    st.set_body(Some(vec![("a".to_string(), "1".to_string())]), Vec::new());
    assert_eq!(st.qy.form.len(), 1);
    assert_eq!(st.qy.parts.len(), 0);

    let mut st2 = ServerTrans::new(0);
    let p = Part::binary_part(
        "file".to_string(),
        "a.bin".to_string(),
        "application/octet-stream".to_string(),
        vec![1, 2, 3],
    );
    st2.set_body(None, vec![p]);
    assert_eq!(st2.qy.form.len(), 0);
    assert_eq!(st2.qy.parts.len(), 1);
}

#[test]
fn part_payload_is_text_or_bytes_never_both() {
    assert!(part_is_text(&"".to_string()));
    assert!(!part_is_text(&"text/plain".to_string()));
    let t = Part::text_part("f".to_string(), "".to_string(), "hello".to_string());
    assert_eq!(t.text, "hello");
    assert!(t.data.is_empty());
    assert!(t.content_type.is_empty());
    let b = Part::binary_part(
        "f".to_string(),
        "x.png".to_string(),
        "image/png".to_string(),
        vec![9, 8],
    );
    assert!(b.text.is_empty());
    assert_eq!(b.data, vec![9, 8]);
}

#[test]
fn role_follows_replication_source() {
    let master = Config::new(
        "0.0.0.0".to_string(),
        80,
        10,
        "".to_string(),
        "".to_string(),
    );
    assert!(master.is_master);
    assert_eq!(master.mem_limit, 10_000_000);
    let slave = Config::new(
        "0.0.0.0".to_string(),
        8080,
        10,
        "http://master:80".to_string(),
        "uid=99".to_string(),
    );
    assert!(!slave.is_master);
    assert_eq!(slave.replicate_source, "http://master:80");
    assert_eq!(slave.replicate_credentials, "uid=99");
}

#[test]
fn fresh_query_is_default_envelope() {
    let q = Query::new(5);
    assert_eq!(q.sql, "EXEC web.Main()");
    assert_eq!(q.now, 5);
    assert!(q.path.is_empty());
}
