//! Strict decoding of contract return data: a fixed-width unsigned integer
//! and a dynamic string, laid out in 32-byte words.
use vstd::prelude::*;

verus! {

/// Why return data does not have the expected layout.
#[derive(Debug, Clone, Copy, PartialEq, Eq, Structural)]
pub enum DecodeError {
    /// Fewer bytes than the layout needs.
    TooShort,
    /// The declared string length runs past the end of the data.
    LengthOutOfRange,
    /// The string payload is not valid UTF-8.
    InvalidUtf8,
}

/// Size of one ABI word.
pub const WORD_LEN: usize = 32;

/// Big-endian unsigned value of a byte sequence.
pub open spec fn be_value(s: Seq<u8>) -> nat
    decreases s.len(),
{
    if s.len() == 0 {
        0
    } else {
        be_value(s.drop_last()) * 256 + s.last() as nat
    }
}

/// The integer held in return data: the low four bytes of its first word.
pub open spec fn uint32_decoding(raw: Seq<u8>) -> Option<nat> {
    if raw.len() < 32 {
        None
    } else {
        Some(be_value(raw.subrange(28, 32)))
    }
}

/// The declared length of a dynamic string: the second word.
pub open spec fn declared_len(raw: Seq<u8>) -> nat {
    be_value(raw.subrange(32, 64))
}

/// The payload bytes of a dynamic string, when the layout is sound.
pub open spec fn string_payload(raw: Seq<u8>) -> Option<Seq<u8>> {
    if raw.len() < 96 {
        None
    } else if declared_len(raw) > raw.len() - 64 {
        None
    } else {
        Some(raw.subrange(64, 64 + declared_len(raw) as int))
    }
}

/// The text of a dynamic string, when the layout is sound and the payload is UTF-8.
pub open spec fn string_decoding(raw: Seq<u8>) -> Option<Seq<char>> {
    match string_payload(raw) {
        Some(p) => utf8_text(p),
        None => None,
    }
}

/// The error that string decoding reports on data it does not accept.
pub open spec fn string_error(raw: Seq<u8>) -> DecodeError {
    if raw.len() < 96 {
        DecodeError::TooShort
    } else if declared_len(raw) > raw.len() - 64 {
        DecodeError::LengthOutOfRange
    } else {
        DecodeError::InvalidUtf8
    }
}

/// Decoding depends on the bytes alone: equal data decode alike.
pub proof fn lemma_decoding_deterministic(a: Seq<u8>, b: Seq<u8>)
    requires
        a == b,
    ensures
        uint32_decoding(a) == uint32_decoding(b),
        string_decoding(a) == string_decoding(b),
        string_decoding(a).is_none() ==> string_error(a) == string_error(b),
{
}

/// What UTF-8 decoding yields on a byte sequence, `None` where it is not valid UTF-8.
pub uninterp spec fn utf8_text(bytes: Seq<u8>) -> Option<Seq<char>>;

/// Relies on `String::from_utf8`: it succeeds exactly on valid UTF-8, and the
/// characters it yields depend on the bytes alone.
#[verifier::external_body]
fn utf8_decode(bytes: Vec<u8>) -> (r: Option<String>)
    ensures
        match r {
            Some(s) => utf8_text(bytes@) == Some(s@),
            None => utf8_text(bytes@).is_none(),
        },
{
    String::from_utf8(bytes).ok()
}

proof fn lemma_be_value_push(s: Seq<u8>, i: int)
    requires
        0 <= i < s.len(),
    ensures
        be_value(s.subrange(0, i + 1)) == be_value(s.subrange(0, i)) * 256 + s[i] as nat,
{
    assert(s.subrange(0, i + 1).drop_last() =~= s.subrange(0, i));
}

/// The big-endian value of four bytes.
pub proof fn lemma_be_value_four(s: Seq<u8>, start: int)
    requires
        0 <= start,
        start + 4 <= s.len(),
    ensures
        be_value(s.subrange(start, start + 4)) == s[start] as nat * 16777216 + s[start + 1] as nat
            * 65536 + s[start + 2] as nat * 256 + s[start + 3] as nat,
{
    let w = s.subrange(start, start + 4);
    assert(w.drop_last() =~= s.subrange(start, start + 3));
    assert(w.drop_last().drop_last() =~= s.subrange(start, start + 2));
    assert(w.drop_last().drop_last().drop_last() =~= s.subrange(start, start + 1));
    assert(w.drop_last().drop_last().drop_last().drop_last() =~= Seq::<u8>::empty());
    reveal_with_fuel(be_value, 5);
}

/// Reads four bytes at `start` as a big-endian integer.
pub fn read_be_u32(bytes: &[u8], start: usize) -> (r: u32)
    requires
        start + 4 <= bytes@.len(),
    ensures
        r as nat == be_value(bytes@.subrange(start as int, start + 4)),
{
    proof {
        lemma_be_value_four(bytes@, start as int);
    }
    let b0 = bytes[start] as u32;
    let b1 = bytes[start + 1] as u32;
    let b2 = bytes[start + 2] as u32;
    let b3 = bytes[start + 3] as u32;
    b0 * 16777216 + b1 * 65536 + b2 * 256 + b3
}

/// Decodes return data as an unsigned 32-bit integer: the data must hold at
/// least one word, whose low four bytes are the value.
pub fn read_uint32(raw: &[u8]) -> (r: Result<u32, DecodeError>)
    ensures
        match r {
            Ok(v) => uint32_decoding(raw@) == Some(v as nat),
            Err(e) => uint32_decoding(raw@).is_none() && e == DecodeError::TooShort,
        },
{
    if raw.len() < WORD_LEN {
        Err(DecodeError::TooShort)
    } else {
        Ok(read_be_u32(raw, 28))
    }
}

/// Upper bound kept by the word reader: beyond it only "too large" matters.
pub const WORD_CAP: u128 = 0x1_0000_0000_0000_0000;

/// A value, or `WORD_CAP` where it is larger.
pub open spec fn capped(v: nat) -> nat {
    if v > WORD_CAP as nat {
        WORD_CAP as nat
    } else {
        v
    }
}

/// Reads the word at `start`, with values above `WORD_CAP` reported as `WORD_CAP`.
fn read_word_capped(raw: &[u8], start: usize) -> (r: u128)
    requires
        start + 32 <= raw@.len(),
    ensures
        r as nat == capped(be_value(raw@.subrange(start as int, start + 32))),
{
    let total = raw.len();
    let end = start + 32;
    let mut acc: u128 = 0;
    let mut i: usize = start;
    proof {
        assert(raw@.subrange(start as int, start as int) =~= Seq::<u8>::empty());
    }
    while i < end
        invariant
            end == start + 32,
            end <= total == raw@.len(),
            start <= i <= end,
            start + 32 <= raw@.len(),
            acc <= WORD_CAP,
            acc as nat == capped(be_value(raw@.subrange(start as int, i as int))),
        decreases end - i,
    {
        let ghost prev = be_value(raw@.subrange(start as int, i as int));
        proof {
            let w = raw@.subrange(start as int, i + 1);
            assert(w.drop_last() =~= raw@.subrange(start as int, i as int));
        }
        acc = acc * 256 + raw[i] as u128;
        if acc > WORD_CAP {
            acc = WORD_CAP;
        }
        i = i + 1;
        proof {
            assert(be_value(raw@.subrange(start as int, i as int)) == prev * 256 + raw@[i - 1] as nat);
        }
    }
    acc
}

/// Copies `len` bytes from `start`.
fn copy_range(raw: &[u8], start: usize, len: usize) -> (r: Vec<u8>)
    requires
        start + len <= raw@.len(),
    ensures
        r@ == raw@.subrange(start as int, start + len),
{
    let total = raw.len();
    let mut out: Vec<u8> = Vec::new();
    let mut i: usize = 0;
    while i < len
        invariant
            i <= len,
            total == raw@.len(),
            start + len <= raw@.len(),
            out@ =~= raw@.subrange(start as int, start + i),
        decreases len - i,
    {
        out.push(raw[start + i]);
        i = i + 1;
    }
    out
}

/// Decodes return data as a dynamic string: an offset word, a length word
/// `n`, then at least one payload word, of which the first `n` bytes are the
/// UTF-8 text.
pub fn read_string(raw: &[u8]) -> (r: Result<String, DecodeError>)
    ensures
        match r {
            Ok(s) => string_decoding(raw@) == Some(s@),
            Err(e) => string_decoding(raw@).is_none() && e == string_error(raw@),
        },
{
    if raw.len() < 3 * WORD_LEN {
        return Err(DecodeError::TooShort);
    }
    let n = read_word_capped(raw, WORD_LEN);
    let available = (raw.len() - 2 * WORD_LEN) as u128;
    if n > available {
        return Err(DecodeError::LengthOutOfRange);
    }
    let payload = copy_range(raw, 2 * WORD_LEN, n as usize);
    match utf8_decode(payload) {
        Some(s) => Ok(s),
        None => Err(DecodeError::InvalidUtf8),
    }
}

} // verus!
