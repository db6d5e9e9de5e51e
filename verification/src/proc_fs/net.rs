//! Host-wide TCP counters, from the `Tcp` rows of `/proc/net/snmp`.
//!
//! The file holds one label line and one value line per protocol; both lines
//! of a protocol start with its name. The TCP value line carries fifteen
//! whitespace-separated numbers, of which the first fourteen are kept.

use vstd::prelude::*;
use crate::proc_fs::{
    dec_value, is_signed_dec, is_u64_dec, parse_i64_word, parse_u64_word, signed_value,
    spec_words, split_words, tail_from, CounterError,
};

verus! {

/// The TCP counters of the whole host, in the order the kernel writes them.
#[derive(Clone, Copy, PartialEq, Eq, Structural, Debug)]
pub struct TcpStat {
    pub rto_algorithm: i8,
    pub rto_min: i64,
    pub rto_max: i64,
    /// -1 means dynamically determined
    pub max_conn: i64,
    pub active_opens: u64,
    pub passive_opens: u64,
    pub attempt_fails: u64,
    pub establish_resets: u64,
    pub current_establish: u64,
    pub segments_received: u64,
    pub segments_sent: u64,
    pub segments_retransmitted: u64,
    pub segments_errors_received: u64,
    pub resets_sent: u64,
}

/// The newline-separated lines of `s`, given the bytes of `cur` already read
/// as the beginning of the next line. A trailing newline ends the last line;
/// bytes after the last newline form one more line.
pub open spec fn spec_lines_acc(s: Seq<u8>, cur: Seq<u8>) -> Seq<Seq<u8>>
    decreases s.len(),
{
    if s.len() == 0 {
        if cur.len() == 0 {
            Seq::empty()
        } else {
            seq![cur]
        }
    } else if s[0] == 10 {
        seq![cur] + spec_lines_acc(s.drop_first(), Seq::empty())
    } else {
        spec_lines_acc(s.drop_first(), cur.push(s[0]))
    }
}

/// The lines of `s`.
pub open spec fn spec_lines(s: Seq<u8>) -> Seq<Seq<u8>> {
    spec_lines_acc(s, Seq::empty())
}

/// A line of the `Tcp` protocol: it starts with the three bytes `Tcp`.
pub open spec fn is_tcp_line(l: Seq<u8>) -> bool {
    l.len() >= 3 && l[0] == 84 && l[1] == 99 && l[2] == 112
}

/// The line predicate, as one function value, so that every use of `filter`
/// below speaks of the same function.
pub open spec fn tcp_line_pred() -> spec_fn(Seq<u8>) -> bool {
    |l: Seq<u8>| is_tcp_line(l)
}

/// The `Tcp` lines of the file, in order.
pub open spec fn tcp_lines(text: Seq<u8>) -> Seq<Seq<u8>> {
    spec_lines(text).filter(tcp_line_pred())
}

/// The words of the TCP value line, past its five-byte `Tcp: ` label.
pub open spec fn tcp_values(text: Seq<u8>) -> Seq<Seq<u8>> {
    spec_words(tcp_lines(text)[1].skip(5))
}

/// A well-shaped snmp text: at least two `Tcp` lines, both long enough to
/// carry the label, the second holding fifteen words whose first fourteen
/// parse into the counters' types.
pub open spec fn tcp_wf(text: Seq<u8>) -> bool {
    let tl = tcp_lines(text);
    &&& tl.len() >= 2
    &&& tl[0].len() >= 5
    &&& tl[1].len() >= 5
    &&& tcp_values(text).len() == 15
    &&& is_signed_dec(tcp_values(text)[0], -128, 127)
    &&& is_signed_dec(tcp_values(text)[1], i64::MIN as int, i64::MAX as int)
    &&& is_signed_dec(tcp_values(text)[2], i64::MIN as int, i64::MAX as int)
    &&& is_signed_dec(tcp_values(text)[3], i64::MIN as int, i64::MAX as int)
    &&& (forall|i: int| 4 <= i < 14 ==> is_u64_dec(#[trigger] tcp_values(text)[i]))
}

/// Splits file bytes into lines.
pub fn split_lines(text: &[u8]) -> (lines: Vec<Vec<u8>>)
    ensures
        lines.deep_view() == spec_lines(text@),
{
    let mut lines: Vec<Vec<u8>> = Vec::new();
    let mut cur: Vec<u8> = Vec::new();
    let mut i: usize = 0;
    proof {
        assert(text@.skip(0) =~= text@);
        assert(lines.deep_view() =~~= Seq::<Seq<u8>>::empty());
        assert(lines.deep_view() + spec_lines_acc(text@, Seq::empty()) =~~= spec_lines_acc(
            text@,
            Seq::empty(),
        ));
    }
    while i < text.len()
        invariant
            i <= text@.len(),
            spec_lines(text@) =~~= lines.deep_view() + spec_lines_acc(
                text@.skip(i as int),
                cur@,
            ),
        decreases text@.len() - i,
    {
        let ghost prev_lines = lines.deep_view();
        let ghost prev_cur = cur@;
        proof {
            assert(text@.skip(i as int).drop_first() =~= text@.skip(i as int + 1));
            assert(text@.skip(i as int)[0] == text@[i as int]);
        }
        let b = text[i];
        if b == 10 {
            lines.push(cur);
            cur = Vec::new();
            proof {
                assert(lines.deep_view() =~~= prev_lines + seq![prev_cur]);
                assert(prev_lines + (seq![prev_cur] + spec_lines_acc(
                    text@.skip(i as int + 1),
                    Seq::empty(),
                )) =~~= (prev_lines + seq![prev_cur]) + spec_lines_acc(
                    text@.skip(i as int + 1),
                    Seq::empty(),
                ));
            }
        } else {
            cur.push(b);
        }
        i = i + 1;
    }
    proof {
        assert(text@.skip(i as int) =~= Seq::<u8>::empty());
    }
    if cur.len() > 0 {
        let ghost prev_lines = lines.deep_view();
        let ghost prev_cur = cur@;
        lines.push(cur);
        proof {
            assert(lines.deep_view() =~~= prev_lines + seq![prev_cur]);
        }
    }
    proof {
        assert(lines.deep_view() =~~= spec_lines(text@));
    }
    lines
}

proof fn lemma_filter_singleton(l: Seq<u8>)
    ensures
        seq![l].filter(tcp_line_pred()) =~~= if is_tcp_line(l) {
            seq![l]
        } else {
            Seq::<Seq<u8>>::empty()
        },
{
    reveal_with_fuel(Seq::filter, 2);
    assert(seq![l].drop_last() =~= Seq::<Seq<u8>>::empty());
    assert(seq![l].last() == l);
    assert(Seq::<Seq<u8>>::empty().filter(tcp_line_pred()) =~~= Seq::<Seq<u8>>::empty());
}

/// Reads the text of `/proc/net/snmp` into the host's TCP counters.
/// Malformed text is reported, never trusted.
pub fn parse_tcp(text: &[u8]) -> (r: Result<TcpStat, CounterError>)
    ensures
        r is Ok <==> tcp_wf(text@),
        r is Ok ==> {
            let vs = tcp_values(text@);
            let t = r->Ok_0;
            &&& t.rto_algorithm == signed_value(vs[0])
            &&& t.rto_min == signed_value(vs[1])
            &&& t.rto_max == signed_value(vs[2])
            &&& t.max_conn == signed_value(vs[3])
            &&& t.active_opens == dec_value(vs[4])
            &&& t.passive_opens == dec_value(vs[5])
            &&& t.attempt_fails == dec_value(vs[6])
            &&& t.establish_resets == dec_value(vs[7])
            &&& t.current_establish == dec_value(vs[8])
            &&& t.segments_received == dec_value(vs[9])
            &&& t.segments_sent == dec_value(vs[10])
            &&& t.segments_retransmitted == dec_value(vs[11])
            &&& t.segments_errors_received == dec_value(vs[12])
            &&& t.resets_sent == dec_value(vs[13])
        },
        r is Err ==> r->Err_0 == CounterError::Malformed,
{
    let lines = split_lines(text);
    let mut tcp: Vec<Vec<u8>> = Vec::new();
    let mut i: usize = 0;
    while i < lines.len()
        invariant
            i <= lines@.len(),
            lines.deep_view() == spec_lines(text@),
            tcp.deep_view() =~~= spec_lines(text@).take(i as int).filter(tcp_line_pred()),
        decreases lines@.len() - i,
    {
        let ghost prev = tcp.deep_view();
        let ghost line_view = lines.deep_view()[i as int];
        proof {
            assert(lines.deep_view()[i as int] == lines@[i as int]@);
            assert(spec_lines(text@).take(i as int + 1) =~~= spec_lines(text@).take(i as int)
                + seq![line_view]);
            Seq::filter_distributes_over_add(
                spec_lines(text@).take(i as int),
                seq![line_view],
                tcp_line_pred(),
            );
            lemma_filter_singleton(line_view);
        }
        let l = &lines[i];
        if l.len() >= 3 && l[0] == 84 && l[1] == 99 && l[2] == 112 {
            let own = tail_from(l, 0);
            proof {
                assert(own@ =~= line_view);
            }
            tcp.push(own);
            proof {
                assert(tcp.deep_view() =~~= prev + seq![line_view]);
            }
        }
        i = i + 1;
    }
    proof {
        assert(spec_lines(text@).take(lines@.len() as int) =~= spec_lines(text@));
        assert(tcp.deep_view() =~~= tcp_lines(text@));
    }
    if tcp.len() < 2 {
        return Err(CounterError::Malformed);
    }
    proof {
        assert(tcp.deep_view()[0] == tcp@[0]@);
        assert(tcp.deep_view()[1] == tcp@[1]@);
    }
    if tcp[0].len() < 5 || tcp[1].len() < 5 {
        return Err(CounterError::Malformed);
    }
    let value_line = tail_from(&tcp[1], 5);
    proof {
        assert(tcp.deep_view()[1] == tcp@[1]@);
        assert(value_line@ =~= tcp_lines(text@)[1].skip(5));
    }
    let words = split_words(value_line.as_slice());
    if words.len() != 15 {
        return Err(CounterError::Malformed);
    }
    proof {
        assert(words.deep_view()[0] == words@[0]@);
        assert(words.deep_view()[1] == words@[1]@);
        assert(words.deep_view()[2] == words@[2]@);
        assert(words.deep_view()[3] == words@[3]@);
    }
    let rto_algorithm: i8 = match parse_i64_word(&words[0]) {
        Some(v) => {
            if -128 <= v && v <= 127 {
                v as i8
            } else {
                return Err(CounterError::Malformed);
            }
        },
        None => {
            return Err(CounterError::Malformed);
        },
    };
    let rto_min = match parse_i64_word(&words[1]) {
        Some(v) => v,
        None => {
            return Err(CounterError::Malformed);
        },
    };
    let rto_max = match parse_i64_word(&words[2]) {
        Some(v) => v,
        None => {
            return Err(CounterError::Malformed);
        },
    };
    let max_conn = match parse_i64_word(&words[3]) {
        Some(v) => v,
        None => {
            return Err(CounterError::Malformed);
        },
    };
    let mut vals: Vec<u64> = Vec::new();
    let mut j: usize = 4;
    while j < 14
        invariant
            4 <= j <= 14,
            words.deep_view() == tcp_values(text@),
            words@.len() == 15,
            vals@.len() == j - 4,
            forall|k: int| 4 <= k < j ==> is_u64_dec(#[trigger] tcp_values(text@)[k]),
            forall|k: int| 4 <= k < j ==> vals@[k - 4] == dec_value(
                #[trigger] tcp_values(text@)[k],
            ),
        decreases 14 - j,
    {
        proof {
            assert(words.deep_view()[j as int] == words@[j as int]@);
        }
        match parse_u64_word(&words[j]) {
            Some(v) => {
                vals.push(v);
            },
            None => {
                return Err(CounterError::Malformed);
            },
        }
        j = j + 1;
    }
    proof {
        assert(words.deep_view()[0] == words@[0]@);
        assert(words.deep_view()[1] == words@[1]@);
        assert(words.deep_view()[2] == words@[2]@);
        assert(words.deep_view()[3] == words@[3]@);
    }
    Ok(TcpStat {
        rto_algorithm,
        rto_min,
        rto_max,
        max_conn,
        active_opens: vals[0],
        passive_opens: vals[1],
        attempt_fails: vals[2],
        establish_resets: vals[3],
        current_establish: vals[4],
        segments_received: vals[5],
        segments_sent: vals[6],
        segments_retransmitted: vals[7],
        segments_errors_received: vals[8],
        resets_sent: vals[9],
    })
}

} // verus!
