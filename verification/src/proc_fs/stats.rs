//! Per-process memory and I/O counters, from the fixed-format texts of
//! `/proc/<pid>/statm` and `/proc/<pid>/io`.

use vstd::prelude::*;
use crate::proc_fs::{dec_value, is_u64_dec, parse_u64_word, spec_words, split_words, CounterError};

verus! {

/// The memory counters of one process: seven page counts, in the order the
/// kernel writes them.
#[derive(Clone, Copy, PartialEq, Eq, Structural, Debug)]
pub struct ProcStatm {
    /// total program size
    pub size: u64,
    /// resident set size
    pub resident: u64,
    /// shared pages (i.e. backed by file)
    pub share: u64,
    /// text (code)
    pub text: u64,
    /// library
    pub lib: u64,
    /// data + stack
    pub data: u64,
    /// dirty pages
    pub dt: u64,
}

/// The I/O counters of one process: seven byte and call counts. The file
/// alternates a label word and a value word; only the values are kept.
#[derive(Clone, Copy, PartialEq, Eq, Structural, Debug)]
pub struct ProcIo {
    /// bytes passed to read syscalls
    pub rchar: u64,
    /// bytes passed to write syscalls
    pub wchar: u64,
    /// read syscall count
    pub syscr: u64,
    /// write syscall count
    pub syscw: u64,
    /// count of bytes read from the storage layer
    pub read_bytes: u64,
    /// count of bytes sent to the storage layer
    pub write_bytes: u64,
    /// count of bytes the process caused to not be written
    pub cancelled_write_bytes: u64,
}

/// A well-shaped `statm` text: exactly seven words, each an unsigned decimal.
pub open spec fn statm_wf(text: Seq<u8>) -> bool {
    let ws = spec_words(text);
    ws.len() == 7 && forall|i: int| 0 <= i < 7 ==> is_u64_dec(#[trigger] ws[i])
}

/// Reads the text of `/proc/<pid>/statm` into its seven counters.
/// Malformed text is reported, never trusted.
pub fn parse_statm(text: &[u8]) -> (r: Result<ProcStatm, CounterError>)
    ensures
        r is Ok <==> statm_wf(text@),
        r is Ok ==> {
            let ws = spec_words(text@);
            let s = r->Ok_0;
            &&& s.size == dec_value(ws[0])
            &&& s.resident == dec_value(ws[1])
            &&& s.share == dec_value(ws[2])
            &&& s.text == dec_value(ws[3])
            &&& s.lib == dec_value(ws[4])
            &&& s.data == dec_value(ws[5])
            &&& s.dt == dec_value(ws[6])
        },
        r is Err ==> r->Err_0 == CounterError::Malformed,
{
    let words = split_words(text);
    if words.len() != 7 {
        return Err(CounterError::Malformed);
    }
    let mut vals: Vec<u64> = Vec::new();
    let mut i: usize = 0;
    while i < 7
        invariant
            i <= 7,
            words.deep_view() == spec_words(text@),
            words@.len() == 7,
            vals@.len() == i,
            forall|j: int| 0 <= j < i ==> is_u64_dec(#[trigger] spec_words(text@)[j]),
            forall|j: int| 0 <= j < i ==> vals@[j] == dec_value(#[trigger] spec_words(text@)[j]),
        decreases 7 - i,
    {
        proof {
            assert(words.deep_view()[i as int] == words@[i as int]@);
        }
        match parse_u64_word(&words[i]) {
            Some(v) => {
                vals.push(v);
            },
            None => {
                return Err(CounterError::Malformed);
            },
        }
        i = i + 1;
    }
    Ok(ProcStatm {
        size: vals[0],
        resident: vals[1],
        share: vals[2],
        text: vals[3],
        lib: vals[4],
        data: vals[5],
        dt: vals[6],
    })
}

/// The value words of an `io` text: the words at odd positions, each value
/// being preceded by its label.
pub open spec fn io_values(text: Seq<u8>) -> Seq<Seq<u8>> {
    let ws = spec_words(text);
    Seq::new(ws.len() / 2, |i: int| ws[2 * i + 1])
}

/// A well-shaped `io` text: seven label-value pairs, each value an unsigned
/// decimal.
pub open spec fn io_wf(text: Seq<u8>) -> bool {
    let vs = io_values(text);
    vs.len() == 7 && forall|i: int| 0 <= i < 7 ==> is_u64_dec(#[trigger] vs[i])
}

/// Reads the text of `/proc/<pid>/io` into its seven counters.
/// Malformed text is reported, never trusted.
pub fn parse_io(text: &[u8]) -> (r: Result<ProcIo, CounterError>)
    ensures
        r is Ok <==> io_wf(text@),
        r is Ok ==> {
            let vs = io_values(text@);
            let s = r->Ok_0;
            &&& s.rchar == dec_value(vs[0])
            &&& s.wchar == dec_value(vs[1])
            &&& s.syscr == dec_value(vs[2])
            &&& s.syscw == dec_value(vs[3])
            &&& s.read_bytes == dec_value(vs[4])
            &&& s.write_bytes == dec_value(vs[5])
            &&& s.cancelled_write_bytes == dec_value(vs[6])
        },
        r is Err ==> r->Err_0 == CounterError::Malformed,
{
    let words = split_words(text);
    if !(words.len() == 14 || words.len() == 15) {
        return Err(CounterError::Malformed);
    }
    let mut vals: Vec<u64> = Vec::new();
    let mut i: usize = 0;
    while i < 7
        invariant
            i <= 7,
            words.deep_view() == spec_words(text@),
            words@.len() == 14 || words@.len() == 15,
            vals@.len() == i,
            forall|j: int| 0 <= j < i ==> is_u64_dec(#[trigger] io_values(text@)[j]),
            forall|j: int| 0 <= j < i ==> vals@[j] == dec_value(#[trigger] io_values(text@)[j]),
        decreases 7 - i,
    {
        proof {
            assert(words.deep_view()[2 * i + 1] == words@[2 * i + 1]@);
            assert(io_values(text@)[i as int] == spec_words(text@)[2 * i + 1]);
        }
        match parse_u64_word(&words[2 * i + 1]) {
            Some(v) => {
                vals.push(v);
            },
            None => {
                return Err(CounterError::Malformed);
            },
        }
        i = i + 1;
    }
    Ok(ProcIo {
        rchar: vals[0],
        wchar: vals[1],
        syscr: vals[2],
        syscw: vals[3],
        read_bytes: vals[4],
        write_bytes: vals[5],
        cancelled_write_bytes: vals[6],
    })
}

} // verus!
