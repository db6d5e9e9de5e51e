//! A process's kernel-side stack trace, from `/proc/<pid>/stack`.

use vstd::prelude::*;
use vstd::utf8::{decode_utf8, encode_utf8, encode_utf8_decode_utf8, valid_utf8};
use crate::proc_fs::{bytes_to_string, CounterError};

verus! {

/// One process's kernel stack trace, kept as the text the kernel wrote.
#[derive(Debug)]
pub struct ProcStack {
    pub kernel_trace: String,
}

/// Reads the text of `/proc/<pid>/stack`. The file is free-form text; it is
/// only required to be valid UTF-8, and is kept whole.
pub fn parse_stack(text: Vec<u8>) -> (r: Result<ProcStack, CounterError>)
    ensures
        r is Ok <==> valid_utf8(text@),
        r is Ok ==> r->Ok_0.kernel_trace@ == decode_utf8(text@),
        r is Err ==> r->Err_0 == CounterError::Malformed,
{
    let ghost bytes = text@;
    match bytes_to_string(text) {
        Some(s) => {
            proof {
                encode_utf8_decode_utf8(s@);
            }
            Ok(ProcStack { kernel_trace: s })
        },
        None => Err(CounterError::Malformed),
    }
}

} // verus!
