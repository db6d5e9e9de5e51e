//! Kernel-exposed counter sources. The counters live in fixed-format textual
//! files; the unverified shell reads those files as bytes and the functions in
//! the submodules turn the bytes into typed counter records, rejecting
//! malformed input instead of panicking. This module holds what they share:
//! the tokenizer for whitespace-separated fields, decimal parsing, and the
//! textual process identifiers that name the files.

use vstd::prelude::*;
use vstd::string::StringExecFns;
use vstd::utf8::{encode_utf8, valid_utf8};

pub mod kernel;
pub mod net;
pub mod stats;

verus! {

/// A counter file could not be understood.
#[derive(Clone, Copy, PartialEq, Eq, Structural, Debug)]
pub enum CounterError {
    /// The file's text does not have the shape the kernel documents.
    Malformed,
}

/// The ASCII bytes the tokenizer treats as separators: space, tab, line feed,
/// form feed, carriage return.
pub open spec fn is_space(b: u8) -> bool {
    b == 32 || b == 9 || b == 10 || b == 12 || b == 13
}

/// The maximal separator-free runs of `s`, given that the bytes of `cur` have
/// already been read as the beginning of the next run.
pub open spec fn spec_words_acc(s: Seq<u8>, cur: Seq<u8>) -> Seq<Seq<u8>>
    decreases s.len(),
{
    if s.len() == 0 {
        if cur.len() == 0 {
            Seq::empty()
        } else {
            seq![cur]
        }
    } else if is_space(s[0]) {
        if cur.len() == 0 {
            spec_words_acc(s.drop_first(), Seq::empty())
        } else {
            seq![cur] + spec_words_acc(s.drop_first(), Seq::empty())
        }
    } else {
        spec_words_acc(s.drop_first(), cur.push(s[0]))
    }
}

/// The whitespace-separated words of `s`, in order.
pub open spec fn spec_words(s: Seq<u8>) -> Seq<Seq<u8>> {
    spec_words_acc(s, Seq::empty())
}

/// Splits a counter file's bytes into its whitespace-separated words.
pub fn split_words(text: &[u8]) -> (words: Vec<Vec<u8>>)
    ensures
        words.deep_view() == spec_words(text@),
{
    let mut words: Vec<Vec<u8>> = Vec::new();
    let mut cur: Vec<u8> = Vec::new();
    let mut i: usize = 0;
    proof {
        assert(text@.skip(0) =~= text@);
        assert(words.deep_view() =~~= Seq::<Seq<u8>>::empty());
        assert(words.deep_view() + spec_words_acc(text@, Seq::empty()) =~~= spec_words_acc(
            text@,
            Seq::empty(),
        ));
    }
    while i < text.len()
        invariant
            i <= text@.len(),
            spec_words(text@) =~~= words.deep_view() + spec_words_acc(
                text@.skip(i as int),
                cur@,
            ),
        decreases text@.len() - i,
    {
        let ghost prev_words = words.deep_view();
        let ghost prev_cur = cur@;
        proof {
            assert(text@.skip(i as int).drop_first() =~= text@.skip(i as int + 1));
            assert(text@.skip(i as int)[0] == text@[i as int]);
        }
        let b = text[i];
        if b == 32 || b == 9 || b == 10 || b == 12 || b == 13 {
            if cur.len() > 0 {
                words.push(cur);
                cur = Vec::new();
                proof {
                    assert(words.deep_view() =~~= prev_words + seq![prev_cur]);
                    assert(spec_words_acc(text@.skip(i as int), prev_cur) =~~= seq![prev_cur]
                        + spec_words_acc(text@.skip(i as int + 1), Seq::empty()));
                    assert(prev_words + (seq![prev_cur] + spec_words_acc(
                        text@.skip(i as int + 1),
                        Seq::empty(),
                    )) =~~= (prev_words + seq![prev_cur]) + spec_words_acc(
                        text@.skip(i as int + 1),
                        Seq::empty(),
                    ));
                }
            } else {
                proof {
                    assert(prev_cur =~= Seq::<u8>::empty());
                    assert(spec_words_acc(text@.skip(i as int), prev_cur) =~~= spec_words_acc(
                        text@.skip(i as int + 1),
                        Seq::empty(),
                    ));
                }
            }
        } else {
            cur.push(b);
            proof {
                assert(cur@ == prev_cur.push(text@[i as int]));
                assert(spec_words_acc(text@.skip(i as int), prev_cur) =~~= spec_words_acc(
                    text@.skip(i as int + 1),
                    cur@,
                ));
            }
        }
        i = i + 1;
    }
    proof {
        assert(text@.skip(i as int) =~= Seq::<u8>::empty());
    }
    if cur.len() > 0 {
        let ghost prev_words = words.deep_view();
        let ghost prev_cur = cur@;
        words.push(cur);
        proof {
            assert(words.deep_view() =~~= prev_words + seq![prev_cur]);
        }
    }
    proof {
        assert(words.deep_view() =~~= spec_words(text@));
    }
    words
}

/// An ASCII decimal digit.
pub open spec fn is_digit(b: u8) -> bool {
    48 <= b <= 57
}

/// The number a run of decimal digits denotes, most significant digit first.
pub open spec fn dec_value(w: Seq<u8>) -> int
    decreases w.len(),
{
    if w.len() == 0 {
        0
    } else {
        dec_value(w.drop_last()) * 10 + (w.last() - 48)
    }
}

/// A word that `u64` decimal parsing accepts: nonempty, all digits, in range.
pub open spec fn is_u64_dec(w: Seq<u8>) -> bool {
    &&& w.len() > 0
    &&& forall|i: int| 0 <= i < w.len() ==> is_digit(#[trigger] w[i])
    &&& dec_value(w) <= u64::MAX
}

pub proof fn lemma_dec_value_nonneg(w: Seq<u8>)
    requires
        forall|i: int| 0 <= i < w.len() ==> is_digit(#[trigger] w[i]),
    ensures
        dec_value(w) >= 0,
    decreases w.len(),
{
    if w.len() > 0 {
        lemma_dec_value_nonneg(w.drop_last());
    }
}

/// Among all-digit words, a prefix never denotes more than the whole.
pub proof fn lemma_dec_value_prefix_le(w: Seq<u8>, i: int)
    requires
        forall|j: int| 0 <= j < w.len() ==> is_digit(#[trigger] w[j]),
        0 <= i <= w.len(),
    ensures
        dec_value(w.take(i)) <= dec_value(w),
    decreases w.len() - i,
{
    if i == w.len() {
        assert(w.take(i) =~= w);
    } else {
        lemma_dec_value_prefix_le(w, i + 1);
        let t = w.take(i + 1);
        assert(t.drop_last() =~= w.take(i));
        lemma_dec_value_nonneg(w.take(i));
        assert(dec_value(t) == dec_value(w.take(i)) * 10 + (w[i] - 48));
        assert(dec_value(w.take(i)) * 10 >= dec_value(w.take(i))) by {
            lemma_dec_value_nonneg(w.take(i));
        }
    }
}

/// Reads a whitespace-separated word as an unsigned decimal counter.
pub fn parse_u64_word(w: &Vec<u8>) -> (r: Option<u64>)
    ensures
        r is Some <==> is_u64_dec(w@),
        r is Some ==> r->Some_0 == dec_value(w@),
{
    if w.len() == 0 {
        return None;
    }
    let mut acc: u64 = 0;
    let mut i: usize = 0;
    while i < w.len()
        invariant
            i <= w@.len(),
            forall|j: int| 0 <= j < i ==> is_digit(#[trigger] w@[j]),
            acc == dec_value(w@.take(i as int)),
        decreases w@.len() - i,
    {
        let b = w[i];
        if !(48 <= b && b <= 57) {
            return None;
        }
        let d = (b - 48) as u64;
        if acc > (u64::MAX - d) / 10 {
            proof {
                assert(w@.take(i + 1).drop_last() =~= w@.take(i as int));
                assert(dec_value(w@.take(i + 1)) == acc * 10 + d);
                assert(acc * 10 + d > u64::MAX) by (nonlinear_arith)
                    requires
                        acc > (u64::MAX - d) / 10,
                        d <= 9,
                ;
                if forall|j: int| 0 <= j < w@.len() ==> is_digit(#[trigger] w@[j]) {
                    lemma_dec_value_prefix_le(w@, i + 1);
                }
            }
            return None;
        }
        proof {
            assert(acc * 10 + d <= u64::MAX) by (nonlinear_arith)
                requires
                    acc <= (u64::MAX - d) / 10,
                    d <= 9,
            ;
            assert(w@.take(i + 1).drop_last() =~= w@.take(i as int));
        }
        acc = acc * 10 + d;
        i = i + 1;
    }
    proof {
        assert(w@.take(i as int) =~= w@);
    }
    Some(acc)
}

/// The number a word with an optional leading minus sign denotes.
pub open spec fn signed_value(w: Seq<u8>) -> int {
    if w.len() > 0 && w[0] == 45 {
        -dec_value(w.drop_first())
    } else {
        dec_value(w)
    }
}

/// A word that signed decimal parsing accepts into the range `lo ..= hi`.
pub open spec fn is_signed_dec(w: Seq<u8>, lo: int, hi: int) -> bool {
    let shape_ok = if w.len() > 0 && w[0] == 45 {
        w.len() > 1 && forall|i: int| 1 <= i < w.len() ==> is_digit(#[trigger] w[i])
    } else {
        w.len() > 0 && forall|i: int| 0 <= i < w.len() ==> is_digit(#[trigger] w[i])
    };
    shape_ok && lo <= signed_value(w) <= hi
}

/// A word's digits past its sign are the digits of its first-dropped form.
proof fn lemma_digits_shift(w: Seq<u8>)
    requires
        w.len() >= 1,
    ensures
        (forall|i: int| 1 <= i < w.len() ==> is_digit(#[trigger] w[i])) <==> (forall|i: int|
            0 <= i < w.drop_first().len() ==> is_digit(#[trigger] w.drop_first()[i])),
{
    if forall|i: int| 1 <= i < w.len() ==> is_digit(#[trigger] w[i]) {
        assert forall|i: int| 0 <= i < w.drop_first().len() implies is_digit(
            #[trigger] w.drop_first()[i],
        ) by {
            assert(w.drop_first()[i] == w[i + 1]);
        }
    }
    if forall|i: int| 0 <= i < w.drop_first().len() ==> is_digit(#[trigger] w.drop_first()[i]) {
        assert forall|i: int| 1 <= i < w.len() implies is_digit(#[trigger] w[i]) by {
            assert(w[i] == w.drop_first()[i - 1]);
        }
    }
}

/// Reads a whitespace-separated word as a signed decimal counter.
pub fn parse_i64_word(w: &Vec<u8>) -> (r: Option<i64>)
    ensures
        r is Some <==> is_signed_dec(w@, i64::MIN as int, i64::MAX as int),
        r is Some ==> r->Some_0 == signed_value(w@),
{
    if w.len() > 0 && w[0] == 45 {
        let tail = tail_from(w, 1);
        proof {
            assert(tail@ =~= w@.drop_first());
            lemma_digits_shift(w@);
        }
        match parse_u64_word(&tail) {
            None => {
                proof {
                    if is_signed_dec(w@, i64::MIN as int, i64::MAX as int) {
                        assert(is_u64_dec(w@.drop_first()));
                    }
                }
                None
            },
            Some(mag) => {
                if mag <= 0x7fff_ffff_ffff_ffffu64 {
                    Some(-(mag as i64))
                } else if mag == 0x8000_0000_0000_0000u64 {
                    Some(i64::MIN)
                } else {
                    None
                }
            },
        }
    } else {
        match parse_u64_word(w) {
            None => None,
            Some(v) => {
                if v <= 0x7fff_ffff_ffff_ffffu64 {
                    Some(v as i64)
                } else {
                    None
                }
            },
        }
    }
}

/// Copies the bytes of `v` from position `k` on.
pub fn tail_from(v: &Vec<u8>, k: usize) -> (r: Vec<u8>)
    requires
        k <= v@.len(),
    ensures
        r@ == v@.skip(k as int),
{
    let mut r: Vec<u8> = Vec::new();
    let mut i: usize = k;
    while i < v.len()
        invariant
            k <= i <= v@.len(),
            r@ =~= v@.subrange(k as int, i as int),
        decreases v@.len() - i,
    {
        r.push(v[i]);
        i = i + 1;
    }
    proof {
        assert(v@.subrange(k as int, v@.len() as int) =~= v@.skip(k as int));
    }
    r
}

/// Relies on `String::from_utf8`: it succeeds exactly on valid UTF-8 input
/// and returns the string whose UTF-8 encoding is that input.
#[verifier::external_body]
pub fn bytes_to_string(v: Vec<u8>) -> (r: Option<String>)
    ensures
        r is Some <==> valid_utf8(v@),
        r is Some ==> encode_utf8(r->Some_0@) == v@,
{
    String::from_utf8(v).ok()
}

/// The characters of the decimal rendering of `n`, most significant first.
pub open spec fn spec_dec_digits(n: nat) -> Seq<char>
    decreases n,
{
    if n < 10 {
        seq![spec_digit_char(n)]
    } else {
        spec_dec_digits(n / 10).push(spec_digit_char(n % 10))
    }
}

/// The character for one decimal digit.
pub open spec fn spec_digit_char(d: nat) -> char {
    if d == 0 {
        '0'
    } else if d == 1 {
        '1'
    } else if d == 2 {
        '2'
    } else if d == 3 {
        '3'
    } else if d == 4 {
        '4'
    } else if d == 5 {
        '5'
    } else if d == 6 {
        '6'
    } else if d == 7 {
        '7'
    } else if d == 8 {
        '8'
    } else {
        '9'
    }
}

/// Renders `n` in decimal, as the /proc paths spell a process id.
pub fn u64_to_dec(n: u64) -> (s: String)
    ensures
        s@ == spec_dec_digits(n as nat),
    decreases n,
{
    let d: &str = match n % 10 {
        0 => "0",
        1 => "1",
        2 => "2",
        3 => "3",
        4 => "4",
        5 => "5",
        6 => "6",
        7 => "7",
        8 => "8",
        _ => "9",
    };
    proof {
        reveal_strlit("0");
        reveal_strlit("1");
        reveal_strlit("2");
        reveal_strlit("3");
        reveal_strlit("4");
        reveal_strlit("5");
        reveal_strlit("6");
        reveal_strlit("7");
        reveal_strlit("8");
        reveal_strlit("9");
        assert(d@ =~= seq![spec_digit_char((n % 10) as nat)]);
    }
    if n < 10 {
        d.to_owned()
    } else {
        let mut s = u64_to_dec(n / 10);
        s.append(d);
        proof {
            assert(s@ =~= spec_dec_digits(n as nat));
        }
        s
    }
}

/// A value that can name a process in a /proc path.
pub trait ToPid {
    /// The characters of the identifier's textual form.
    spec fn pid_view(&self) -> Seq<char>;

    /// The identifier's textual form.
    fn to_pid(&self) -> (s: String)
        ensures
            s@ == self.pid_view(),
    ;
}

impl ToPid for usize {
    open spec fn pid_view(&self) -> Seq<char> {
        spec_dec_digits(*self as nat)
    }

    fn to_pid(&self) -> (s: String)
        ensures
            s@ == self.pid_view(),
    {
        u64_to_dec(*self as u64)
    }
}

impl ToPid for u32 {
    open spec fn pid_view(&self) -> Seq<char> {
        spec_dec_digits(*self as nat)
    }

    fn to_pid(&self) -> (s: String)
        ensures
            s@ == self.pid_view(),
    {
        u64_to_dec(*self as u64)
    }
}

impl ToPid for String {
    open spec fn pid_view(&self) -> Seq<char> {
        self@
    }

    fn to_pid(&self) -> (s: String)
        ensures
            s@ == self.pid_view(),
    {
        self.clone()
    }
}

impl<'a> ToPid for &'a str {
    open spec fn pid_view(&self) -> Seq<char> {
        self@
    }

    fn to_pid(&self) -> (s: String)
        ensures
            s@ == self.pid_view(),
    {
        (*self).to_owned()
    }
}

} // verus!
