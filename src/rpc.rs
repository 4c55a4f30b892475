//! Read-only contract calls that recover a candidate's token metadata.
use vstd::prelude::*;

verus! {

/// A read-only call: the target contract and the call data.
pub struct RpcReadRequest {
    pub to: Vec<u8>,
    pub data: Vec<u8>,
}

/// What the call executor returned for one request.
pub struct RpcReadResponse {
    pub raw: Vec<u8>,
    pub failed: bool,
}

/// Selector of `decimals()`.
pub const DECIMALS: u32 = 0x313ce567;

/// Selector of `name()`.
pub const NAME: u32 = 0x06fdde03;

/// Selector of `symbol()`.
pub const SYMBOL: u32 = 0x95d89b41;

/// The four big-endian bytes of a selector.
pub open spec fn selector_bytes(s: u32) -> Seq<u8> {
    seq![
        (s / 0x1000000) as u8,
        ((s / 0x10000) % 256) as u8,
        ((s / 0x100) % 256) as u8,
        (s % 256) as u8,
    ]
}

/// Whether `req` calls `selector` on `address` with no arguments.
pub open spec fn is_request(req: RpcReadRequest, address: Seq<u8>, selector: u32) -> bool {
    req.to@ == address && req.data@ == selector_bytes(selector)
}

/// Encodes a selector as call data.
pub fn selector_data(s: u32) -> (r: Vec<u8>)
    ensures
        r@ == selector_bytes(s),
{
    let v = vec![
        (s / 0x1000000) as u8,
        ((s / 0x10000) % 256) as u8,
        ((s / 0x100) % 256) as u8,
        (s % 256) as u8,
    ];
    assert(v@ =~= selector_bytes(s));
    v
}

/// One request per selector, in order, each aimed at `address`.
pub fn create_rpc_calls(address: &Vec<u8>, selectors: &Vec<u32>) -> (r: Vec<RpcReadRequest>)
    ensures
        r@.len() == selectors@.len(),
        forall|i: int| 0 <= i < r@.len() ==> is_request(#[trigger] r@[i], address@, selectors@[i]),
{
    let mut out: Vec<RpcReadRequest> = Vec::new();
    let mut i: usize = 0;
    while i < selectors.len()
        invariant
            i <= selectors@.len(),
            out@.len() == i,
            forall|k: int| 0 <= k < i ==> is_request(#[trigger] out@[k], address@, selectors@[k]),
        decreases selectors@.len() - i,
    {
        let req = RpcReadRequest { to: crate::filter::copy_bytes(address), data: selector_data(selectors[i]) };
        out.push(req);
        i = i + 1;
    }
    out
}

/// The batch that asks a candidate for `decimals()`.
pub fn decimals_batch(address: &Vec<u8>) -> (r: Vec<RpcReadRequest>)
    ensures
        r@.len() == 1,
        is_request(r@[0], address@, DECIMALS),
{
    let selectors = vec![DECIMALS];
    create_rpc_calls(address, &selectors)
}

/// The batch that asks a candidate for `name()` and then `symbol()`.
pub fn name_symbol_batch(address: &Vec<u8>) -> (r: Vec<RpcReadRequest>)
    ensures
        r@.len() == 2,
        is_request(r@[0], address@, NAME),
        is_request(r@[1], address@, SYMBOL),
{
    let selectors = vec![NAME, SYMBOL];
    create_rpc_calls(address, &selectors)
}

} // verus!
