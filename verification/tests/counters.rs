//! The kernel-counter parsers against sample /proc texts, well-formed and
//! malformed, and the textual process identifiers.

use translucence::proc_fs::kernel::parse_stack;
use translucence::proc_fs::net::parse_tcp;
use translucence::proc_fs::stats::{parse_io, parse_statm};
use translucence::proc_fs::{parse_i64_word, parse_u64_word, CounterError, ToPid};

#[test]
fn statm_parses_seven_counters() {
    let text = b"37972 437 315 9 0 121 0\n";
    let s = parse_statm(text).unwrap();
    assert_eq!(s.size, 37972);
    assert_eq!(s.resident, 437);
    assert_eq!(s.share, 315);
    assert_eq!(s.text, 9);
    assert_eq!(s.lib, 0);
    assert_eq!(s.data, 121);
    assert_eq!(s.dt, 0);
}

#[test]
fn statm_rejects_wrong_field_count() {
    assert_eq!(parse_statm(b"1 2 3"), Err(CounterError::Malformed));
    assert_eq!(parse_statm(b""), Err(CounterError::Malformed));
    assert_eq!(parse_statm(b"1 2 3 4 5 6 7 8"), Err(CounterError::Malformed));
}

#[test]
fn statm_rejects_non_numeric_field() {
    assert_eq!(parse_statm(b"1 2 3 four 5 6 7"), Err(CounterError::Malformed));
}

#[test]
fn io_parses_label_value_pairs() {
    let text = b"rchar: 10\nwchar: 20\nsyscr: 3\nsyscw: 4\nread_bytes: 5\nwrite_bytes: 6\ncancelled_write_bytes: 7\n";
    let s = parse_io(text).unwrap();
    assert_eq!(s.rchar, 10);
    assert_eq!(s.wchar, 20);
    assert_eq!(s.syscr, 3);
    assert_eq!(s.syscw, 4);
    assert_eq!(s.read_bytes, 5);
    assert_eq!(s.write_bytes, 6);
    assert_eq!(s.cancelled_write_bytes, 7);
}

#[test]
fn io_rejects_missing_pairs() {
    assert_eq!(parse_io(b"rchar: 10\nwchar: 20\n"), Err(CounterError::Malformed));
}

#[test]
fn tcp_parses_snmp_rows() {
    let text = b"Ip: Forwarding DefaultTTL\nIp: 1 64\nTcp: RtoAlgorithm RtoMin RtoMax MaxConn ActiveOpens PassiveOpens AttemptFails EstabResets CurrEstab InSegs OutSegs RetransSegs InErrs OutRsts InCsumErrors\nTcp: 1 200 120000 -1 10 20 30 40 50 60 70 80 90 100 5\n";
    let t = parse_tcp(text).unwrap();
    assert_eq!(t.rto_algorithm, 1);
    assert_eq!(t.rto_min, 200);
    assert_eq!(t.rto_max, 120000);
    assert_eq!(t.max_conn, -1);
    assert_eq!(t.active_opens, 10);
    assert_eq!(t.passive_opens, 20);
    assert_eq!(t.attempt_fails, 30);
    assert_eq!(t.establish_resets, 40);
    assert_eq!(t.current_establish, 50);
    assert_eq!(t.segments_received, 60);
    assert_eq!(t.segments_sent, 70);
    assert_eq!(t.segments_retransmitted, 80);
    assert_eq!(t.segments_errors_received, 90);
    assert_eq!(t.resets_sent, 100);
}

#[test]
fn tcp_needs_two_tcp_rows() {
    let text = b"Ip: 1 64\nTcp: RtoAlgorithm RtoMin\n";
    assert_eq!(parse_tcp(text), Err(CounterError::Malformed));
}

#[test]
fn tcp_value_row_needs_fifteen_words() {
    let text = b"Tcp: names\nTcp: 1 200 120000 -1 10 20 30 40 50 60 70 80 90 100\n";
    assert_eq!(parse_tcp(text), Err(CounterError::Malformed));
}

#[test]
fn stack_keeps_the_whole_text() {
    let s = parse_stack(b"[<0>] do_wait+0x1/0x2\n".to_vec()).unwrap();
    assert_eq!(s.kernel_trace, "[<0>] do_wait+0x1/0x2\n");
}

#[test]
fn stack_rejects_invalid_utf8() {
    assert!(parse_stack(vec![0xff, 0xfe]).is_err());
}

#[test]
fn unsigned_words_parse_to_the_limit() {
    assert_eq!(parse_u64_word(&b"0".to_vec()), Some(0));
    assert_eq!(parse_u64_word(&b"18446744073709551615".to_vec()), Some(u64::MAX));
    assert_eq!(parse_u64_word(&b"18446744073709551616".to_vec()), None);
    assert_eq!(parse_u64_word(&b"".to_vec()), None);
    assert_eq!(parse_u64_word(&b"12a".to_vec()), None);
}

#[test]
fn signed_words_parse_to_the_limits() {
    assert_eq!(parse_i64_word(&b"-9223372036854775808".to_vec()), Some(i64::MIN));
    assert_eq!(parse_i64_word(&b"9223372036854775807".to_vec()), Some(i64::MAX));
    assert_eq!(parse_i64_word(&b"9223372036854775808".to_vec()), None);
    assert_eq!(parse_i64_word(&b"-0".to_vec()), Some(0));
    assert_eq!(parse_i64_word(&b"-".to_vec()), None);
}

#[test]
fn pids_render_in_decimal() {
    assert_eq!((1234 as usize).to_pid(), "1234");
    assert_eq!((0 as u32).to_pid(), "0");
    assert_eq!((90210 as u32).to_pid(), "90210");
    assert_eq!(String::from("self").to_pid(), "self");
    assert_eq!("self".to_pid(), "self");
}
