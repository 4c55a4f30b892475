//! The walk over a block's call trace: candidates in scan order, and the
//! tokens they resolve to once their read calls have been answered.
use vstd::prelude::*;
use crate::filter::{
    addresses_view, classify_call, code_len_sum, skip_reason, Call, CallType, Candidate, Verdict,
    MIN_CODE_LEN,
};
use crate::rpc::RpcReadResponse;
use crate::token::{resolve_token, store_key, token_key, token_of, Token, TokenView};

verus! {

/// One transaction: its call tree, flattened in trace order.
pub struct Transaction {
    pub calls: Vec<Call>,
}

/// A processed block: its transactions in order.
pub struct Block {
    pub transactions: Vec<Transaction>,
}

/// The answers to one candidate's read calls.
pub struct CandidateResponses {
    pub decimals: RpcReadResponse,
    pub name: RpcReadResponse,
    pub symbol: RpcReadResponse,
}

/// Address and caller of each candidate of a list.
pub open spec fn candidates_view(cs: Seq<Candidate>) -> Seq<(Seq<u8>, Seq<u8>)> {
    cs.map_values(|c: Candidate| (c.address@, c.caller@))
}

/// Address and caller of each call that passes the filter, in order.
pub open spec fn call_candidates(calls: Seq<Call>, denied: Seq<Seq<u8>>) -> Seq<(Seq<u8>, Seq<u8>)>
    decreases calls.len(),
{
    if calls.len() == 0 {
        Seq::empty()
    } else {
        let prev = call_candidates(calls.drop_last(), denied);
        let c = calls.last();
        if skip_reason(c, denied).is_none() {
            prev.push((c.address@, c.caller@))
        } else {
            prev
        }
    }
}

/// The candidates of a block's transactions, in scan order.
pub open spec fn block_candidates(txs: Seq<Transaction>, denied: Seq<Seq<u8>>) -> Seq<(Seq<u8>, Seq<u8>)>
    decreases txs.len(),
{
    if txs.len() == 0 {
        Seq::empty()
    } else {
        block_candidates(txs.drop_last(), denied) + call_candidates(txs.last().calls@, denied)
    }
}

/// The tokens that candidates resolve to, given one set of responses each, in order.
pub open spec fn tokens_of(cands: Seq<(Seq<u8>, Seq<u8>)>, resps: Seq<CandidateResponses>) -> Seq<TokenView>
    decreases cands.len(),
{
    if cands.len() == 0 || resps.len() == 0 {
        Seq::empty()
    } else {
        let prev = tokens_of(cands.drop_last(), resps.drop_last());
        let r = resps.last();
        match token_of(cands.last().0, r.decimals, r.name, r.symbol) {
            Some(t) => prev.push(t),
            None => prev,
        }
    }
}

/// A creation that writes at most the minimum code length adds no candidate
/// to a trace, so no read call is ever made for it.
pub proof fn lemma_small_creation_adds_no_candidate(calls: Seq<Call>, call: Call, denied: Seq<Seq<u8>>)
    requires
        call.call_type == CallType::Create,
        code_len_sum(call.code_changes@) <= MIN_CODE_LEN as nat,
    ensures
        call_candidates(calls.push(call), denied) == call_candidates(calls, denied),
{
    assert(calls.push(call).drop_last() =~= calls);
}

/// A call made by a denied caller adds no candidate to a trace, whatever its
/// code size or selector.
pub proof fn lemma_denied_caller_adds_no_candidate(calls: Seq<Call>, call: Call, denied: Seq<Seq<u8>>)
    requires
        denied.contains(call.caller@),
    ensures
        call_candidates(calls.push(call), denied) == call_candidates(calls, denied),
{
    assert(calls.push(call).drop_last() =~= calls);
}

/// The views of a list of tokens.
pub open spec fn tokens_view(ts: Seq<Token>) -> Seq<TokenView> {
    ts.map_values(|t: Token| t@)
}

/// The callers that are known to deploy contracts that are not tokens.
pub open spec fn known_deployers() -> Seq<Seq<u8>> {
    seq![
        seq![0x00u8, 0x00, 0x00, 0x00, 0x00, 0x00, 0x49, 0x46, 0xc0, 0xe9, 0xf4, 0x3f, 0x4d, 0xee, 0x60, 0x7b, 0x0e, 0xf1, 0xfa, 0x1c],
        seq![0x00u8, 0x00, 0x00, 0x00, 0x68, 0x7f, 0x5b, 0x66, 0x63, 0x88, 0x56, 0x39, 0x6b, 0xee, 0x28, 0xc1, 0xdb, 0x01, 0x78, 0xd1],
    ]
}

/// Walks call traces, with a fixed list of callers whose calls are never candidates.
pub struct CallTraceScanner {
    pub denied_callers: Vec<Vec<u8>>,
}

impl CallTraceScanner {
    /// The denied callers, as values.
    pub open spec fn denied(&self) -> Seq<Seq<u8>> {
        addresses_view(self.denied_callers@)
    }

    /// A scanner that denies the given callers.
    pub fn new(denied_callers: Vec<Vec<u8>>) -> (r: Self)
        ensures
            r.denied_callers@ == denied_callers@,
    {
        CallTraceScanner { denied_callers }
    }

    /// A scanner that denies the known non-token deployers.
    pub fn with_known_deployers() -> (r: Self)
        ensures
            r.denied() == known_deployers(),
    {
        let a = vec![0x00u8, 0x00, 0x00, 0x00, 0x00, 0x00, 0x49, 0x46, 0xc0, 0xe9, 0xf4, 0x3f, 0x4d, 0xee, 0x60, 0x7b, 0x0e, 0xf1, 0xfa, 0x1c];
        let b = vec![0x00u8, 0x00, 0x00, 0x00, 0x68, 0x7f, 0x5b, 0x66, 0x63, 0x88, 0x56, 0x39, 0x6b, 0xee, 0x28, 0xc1, 0xdb, 0x01, 0x78, 0xd1];
        let r = CallTraceScanner { denied_callers: vec![a, b] };
        assert(r.denied() =~= known_deployers());
        r
    }

    /// The candidates of a block, in scan order.
    pub fn candidates(&self, block: &Block) -> (r: Vec<Candidate>)
        ensures
            candidates_view(r@) == block_candidates(block.transactions@, self.denied()),
    {
        let txs = &block.transactions;
        let mut out: Vec<Candidate> = Vec::new();
        let mut t: usize = 0;
        while t < txs.len()
            invariant
                t <= txs@.len(),
                candidates_view(out@) == block_candidates(txs@.subrange(0, t as int), self.denied()),
            decreases txs@.len() - t,
        {
            let calls = &txs[t].calls;
            let ghost before = candidates_view(out@);
            let mut c: usize = 0;
            while c < calls.len()
                invariant
                    c <= calls@.len(),
                    candidates_view(out@) == before + call_candidates(calls@.subrange(0, c as int), self.denied()),
                decreases calls@.len() - c,
            {
                proof {
                    assert(calls@.subrange(0, c + 1).drop_last() =~= calls@.subrange(0, c as int));
                }
                let ghost prev = out@;
                match classify_call(&calls[c], &self.denied_callers) {
                    Verdict::Candidate(cand) => {
                        out.push(cand);
                        assert(candidates_view(out@) =~= candidates_view(prev).push(
                            (calls@[c as int].address@, calls@[c as int].caller@),
                        ));
                    },
                    Verdict::Skip(_) => {},
                }
                c = c + 1;
            }
            proof {
                assert(calls@.subrange(0, calls@.len() as int) =~= calls@);
                assert(txs@.subrange(0, t + 1).drop_last() =~= txs@.subrange(0, t as int));
            }
            t = t + 1;
        }
        assert(txs@.subrange(0, txs@.len() as int) =~= txs@);
        out
    }

    /// The tokens of a block, in scan order, given the responses to the read
    /// calls of each of its candidates, in the same order.
    pub fn block_to_tokens(&self, block: &Block, responses: &Vec<CandidateResponses>) -> (r: Vec<Token>)
        requires
            responses@.len() == block_candidates(block.transactions@, self.denied()).len(),
        ensures
            tokens_view(r@) == tokens_of(block_candidates(block.transactions@, self.denied()), responses@),
    {
        let cands = self.candidates(block);
        let ghost cv = candidates_view(cands@);
        let mut out: Vec<Token> = Vec::new();
        let mut i: usize = 0;
        while i < cands.len()
            invariant
                cv == candidates_view(cands@),
                cands@.len() == responses@.len(),
                i <= cands@.len(),
                tokens_view(out@) == tokens_of(cv.subrange(0, i as int), responses@.subrange(0, i as int)),
            decreases cands@.len() - i,
        {
            proof {
                assert(cv.subrange(0, i + 1).drop_last() =~= cv.subrange(0, i as int));
                assert(responses@.subrange(0, i + 1).drop_last() =~= responses@.subrange(0, i as int));
            }
            let ghost prev = out@;
            let resp = &responses[i];
            match resolve_token(&cands[i].address, &resp.decimals, &resp.name, &resp.symbol) {
                Some(tok) => {
                    out.push(tok);
                    assert(tokens_view(out@) =~= tokens_view(prev).push(tok@));
                },
                None => {},
            }
            i = i + 1;
        }
        assert(cv.subrange(0, cv.len() as int) =~= cv);
        assert(responses@.subrange(0, responses@.len() as int) =~= responses@);
        out
    }
}

/// The store keys of a block's tokens, in order: `token:` and each address.
pub fn build_tokens_state(tokens: &Vec<Token>) -> (r: Vec<String>)
    ensures
        r@.len() == tokens@.len(),
        forall|i: int| 0 <= i < r@.len() ==> #[trigger] r@[i]@ == store_key(tokens@[i].address@),
{
    let mut out: Vec<String> = Vec::new();
    let mut i: usize = 0;
    while i < tokens.len()
        invariant
            i <= tokens@.len(),
            out@.len() == i,
            forall|k: int| 0 <= k < i ==> #[trigger] out@[k]@ == store_key(tokens@[k].address@),
        decreases tokens@.len() - i,
    {
        out.push(token_key(&tokens[i]));
        i = i + 1;
    }
    out
}

} // verus!
