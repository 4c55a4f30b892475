//! The structural heuristic that picks, from one execution call, the calls
//! worth resolving as token candidates.
use vstd::prelude::*;
use crate::abi::{be_value, read_be_u32};

verus! {

/// The kind of an execution call; only creations and plain calls matter here.
#[derive(Debug, Clone, Copy, PartialEq, Eq, Structural)]
pub enum CallType {
    Create,
    Call,
    Other,
}

/// Code written to an address during a call.
pub struct CodeChange {
    pub new_code: Vec<u8>,
}

/// One execution call of a transaction's flattened call tree.
pub struct Call {
    /// The callee.
    pub address: Vec<u8>,
    /// The calling context.
    pub caller: Vec<u8>,
    pub call_type: CallType,
    /// The call data.
    pub input: Vec<u8>,
    pub state_reverted: bool,
    pub code_changes: Vec<CodeChange>,
}

/// Why a call is not a candidate.
#[derive(Debug, Clone, Copy, PartialEq, Eq, Structural)]
pub enum SkipReason {
    Reverted,
    UnsupportedCallType,
    NotInitializer,
    CodeTooSmall,
    DeniedCaller,
}

/// A call that passed every structural filter.
pub struct Candidate {
    pub address: Vec<u8>,
    pub caller: Vec<u8>,
}

/// The outcome of the filter on one call.
pub enum Verdict {
    Skip(SkipReason),
    Candidate(Candidate),
}

/// Selector of the `initialize` entry point that upgradeable proxies call.
pub const INITIALIZE_SELECTOR: u32 = 0x1459457a;

/// Deployed code up to this many bytes is too small to be a token.
pub const MIN_CODE_LEN: u128 = 150;

/// Total length of the code written by a sequence of code changes.
pub open spec fn code_len_sum(cs: Seq<CodeChange>) -> nat
    decreases cs.len(),
{
    if cs.len() == 0 {
        0
    } else {
        code_len_sum(cs.drop_last()) + cs.last().new_code@.len()
    }
}

/// Whether call data starts with the `initialize` selector.
pub open spec fn is_initializer(input: Seq<u8>) -> bool {
    input.len() >= 4 && be_value(input.subrange(0, 4)) == INITIALIZE_SELECTOR as nat
}

/// The views of a list of addresses.
pub open spec fn addresses_view(list: Seq<Vec<u8>>) -> Seq<Seq<u8>> {
    list.map_values(|a: Vec<u8>| a@)
}

/// Why the filter skips a call, or `None` for a candidate; the first
/// matching reason wins.
pub open spec fn skip_reason(call: Call, denied: Seq<Seq<u8>>) -> Option<SkipReason> {
    if call.state_reverted {
        Some(SkipReason::Reverted)
    } else if call.call_type == CallType::Other {
        Some(SkipReason::UnsupportedCallType)
    } else if call.call_type == CallType::Call && !is_initializer(call.input@) {
        Some(SkipReason::NotInitializer)
    } else if call.call_type == CallType::Create && code_len_sum(call.code_changes@)
        <= MIN_CODE_LEN as nat {
        Some(SkipReason::CodeTooSmall)
    } else if denied.contains(call.caller@) {
        Some(SkipReason::DeniedCaller)
    } else {
        None
    }
}

/// A plain call whose data is shorter than a selector is never a candidate.
pub proof fn lemma_short_call_input_skipped(call: Call, denied: Seq<Seq<u8>>)
    requires
        call.call_type == CallType::Call,
        call.input@.len() < 4,
    ensures
        skip_reason(call, denied).is_some(),
{
}

/// A creation that writes at most the minimum code length is never a
/// candidate, so no read call is made for it.
pub proof fn lemma_small_creation_skipped(call: Call, denied: Seq<Seq<u8>>)
    requires
        call.call_type == CallType::Create,
        code_len_sum(call.code_changes@) <= MIN_CODE_LEN as nat,
    ensures
        skip_reason(call, denied).is_some(),
{
}

/// A call made by a denied caller is never a candidate, whatever its code
/// size or selector.
pub proof fn lemma_denied_caller_skipped(call: Call, denied: Seq<Seq<u8>>)
    requires
        denied.contains(call.caller@),
    ensures
        skip_reason(call, denied).is_some(),
{
}

/// Copies a byte vector.
pub fn copy_bytes(b: &Vec<u8>) -> (r: Vec<u8>)
    ensures
        r@ == b@,
{
    let mut out: Vec<u8> = Vec::new();
    let mut i: usize = 0;
    while i < b.len()
        invariant
            i <= b@.len(),
            out@ =~= b@.subrange(0, i as int),
        decreases b@.len() - i,
    {
        out.push(b[i]);
        i = i + 1;
    }
    out
}

/// Whether two byte vectors are equal.
pub fn bytes_equal(a: &Vec<u8>, b: &Vec<u8>) -> (r: bool)
    ensures
        r == (a@ == b@),
{
    if a.len() != b.len() {
        return false;
    }
    let mut i: usize = 0;
    while i < a.len()
        invariant
            a@.len() == b@.len(),
            i <= a@.len(),
            forall|k: int| 0 <= k < i ==> a@[k] == b@[k],
        decreases a@.len() - i,
    {
        if a[i] != b[i] {
            return false;
        }
        i = i + 1;
    }
    assert(a@ =~= b@);
    true
}

/// Whether `addr` is one of `list`.
pub fn contains_address(list: &Vec<Vec<u8>>, addr: &Vec<u8>) -> (r: bool)
    ensures
        r == addresses_view(list@).contains(addr@),
{
    let mut i: usize = 0;
    while i < list.len()
        invariant
            i <= list@.len(),
            forall|k: int| 0 <= k < i ==> list@[k]@ != addr@,
        decreases list@.len() - i,
    {
        if bytes_equal(&list[i], addr) {
            assert(addresses_view(list@)[i as int] == addr@);
            return true;
        }
        i = i + 1;
    }
    proof {
        if addresses_view(list@).contains(addr@) {
            let k = choose|k: int| 0 <= k < addresses_view(list@).len() && addresses_view(list@)[k] == addr@;
            assert(list@[k]@ == addr@);
        }
    }
    false
}

/// Total length of the code written by `cs`.
pub fn total_code_len(cs: &Vec<CodeChange>) -> (r: u128)
    ensures
        r as nat == code_len_sum(cs@),
{
    let mut total: u128 = 0;
    let mut i: usize = 0;
    while i < cs.len()
        invariant
            i <= cs@.len(),
            total as nat == code_len_sum(cs@.subrange(0, i as int)),
            total <= i * 0x1_0000_0000_0000_0000,
        decreases cs@.len() - i,
    {
        proof {
            assert(cs@.subrange(0, i + 1).drop_last() =~= cs@.subrange(0, i as int));
        }
        total = total + cs[i].new_code.len() as u128;
        i = i + 1;
    }
    assert(cs@.subrange(0, cs@.len() as int) =~= cs@);
    total
}

/// Whether call data starts with the `initialize` selector.
pub fn starts_with_initializer(input: &Vec<u8>) -> (r: bool)
    ensures
        r == is_initializer(input@),
{
    input.len() >= 4 && read_be_u32(input.as_slice(), 0) == INITIALIZE_SELECTOR
}

/// Applies the structural filter to one call, against a list of denied callers.
pub fn classify_call(call: &Call, denied: &Vec<Vec<u8>>) -> (r: Verdict)
    ensures
        match r {
            Verdict::Skip(reason) => skip_reason(*call, addresses_view(denied@)) == Some(reason),
            Verdict::Candidate(c) => skip_reason(*call, addresses_view(denied@)).is_none()
                && c.address@ == call.address@ && c.caller@ == call.caller@,
        },
{
    if call.state_reverted {
        return Verdict::Skip(SkipReason::Reverted);
    }
    if call.call_type == CallType::Other {
        return Verdict::Skip(SkipReason::UnsupportedCallType);
    }
    if call.call_type == CallType::Call && !starts_with_initializer(&call.input) {
        return Verdict::Skip(SkipReason::NotInitializer);
    }
    if call.call_type == CallType::Create && total_code_len(&call.code_changes) <= MIN_CODE_LEN {
        return Verdict::Skip(SkipReason::CodeTooSmall);
    }
    if contains_address(denied, &call.caller) {
        return Verdict::Skip(SkipReason::DeniedCaller);
    }
    Verdict::Candidate(Candidate { address: copy_bytes(&call.address), caller: copy_bytes(&call.caller) })
}

} // verus!
