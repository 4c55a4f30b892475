//! Assembly of a token record from a candidate's read-call responses.
use vstd::prelude::*;
use vstd::string::*;
use crate::abi::{read_string, read_uint32, string_decoding, uint32_decoding};
use crate::rpc::RpcReadResponse;

verus! {

/// A discovered token contract.
pub struct Token {
    /// `0x` and the lowercase hex digits of the contract address.
    pub address: String,
    pub name: String,
    /// Empty where the contract's symbol could not be decoded.
    pub symbol: String,
    /// Zero where the contract's decimals could not be read.
    pub decimals: u64,
}

/// The fields of a token, as values.
pub struct TokenView {
    pub address: Seq<char>,
    pub name: Seq<char>,
    pub symbol: Seq<char>,
    pub decimals: u64,
}

impl View for Token {
    type V = TokenView;

    open spec fn view(&self) -> TokenView {
        TokenView { address: self.address@, name: self.name@, symbol: self.symbol@, decimals: self.decimals }
    }
}

/// The lowercase hex digit of a value below 16.
pub open spec fn hex_digit(n: int) -> char {
    seq!['0', '1', '2', '3', '4', '5', '6', '7', '8', '9', 'a', 'b', 'c', 'd', 'e', 'f'][n]
}

/// Two lowercase hex digits per byte, most significant first.
pub open spec fn hex_of(b: Seq<u8>) -> Seq<char>
    decreases b.len(),
{
    if b.len() == 0 {
        Seq::empty()
    } else {
        hex_of(b.drop_last()) + seq![hex_digit(b.last() as int / 16), hex_digit(b.last() as int % 16)]
    }
}

/// The text form of an address: `0x` and its hex digits.
pub open spec fn address_text(b: Seq<u8>) -> Seq<char> {
    seq!['0', 'x'] + hex_of(b)
}

/// Relies on `substreams::Hex::encode`: two lowercase hex digits for each
/// byte, in order.
#[verifier::external_body]
fn lower_hex(b: &Vec<u8>) -> (r: String)
    ensures
        r@ == hex_of(b@),
{
    substreams::Hex::encode(b)
}

/// The text form of an address: `0x` and its lowercase hex digits.
pub fn address_to_string(b: &Vec<u8>) -> (r: String)
    ensures
        r@ == address_text(b@),
{
    let digits = lower_hex(b);
    let mut s = String::from_str("0x");
    proof {
        reveal_strlit("0x");
    }
    s.append(digits.as_str());
    assert(s@ =~= address_text(b@));
    s
}

/// The decimals that a `decimals()` response resolves to: zero where the call
/// failed or its data is not an integer.
pub open spec fn decimals_of(resp: RpcReadResponse) -> u64 {
    if resp.failed {
        0
    } else {
        match uint32_decoding(resp.raw@) {
            Some(v) => v as u64,
            None => 0,
        }
    }
}

/// The symbol that a decoded `symbol()` response resolves to: empty where its
/// data is not a string.
pub open spec fn symbol_of(raw: Seq<u8>) -> Seq<char> {
    match string_decoding(raw) {
        Some(s) => s,
        None => Seq::empty(),
    }
}

/// Whether a candidate yields a token: both `name()` and `symbol()` answered,
/// and the name decodes.
pub open spec fn yields_token(name: RpcReadResponse, symbol: RpcReadResponse) -> bool {
    !name.failed && !symbol.failed && string_decoding(name.raw@).is_some()
}

/// The token that a candidate at `address` resolves to, given its responses.
pub open spec fn token_of(
    address: Seq<u8>,
    decimals: RpcReadResponse,
    name: RpcReadResponse,
    symbol: RpcReadResponse,
) -> Option<TokenView> {
    if yields_token(name, symbol) {
        Some(
            TokenView {
                address: address_text(address),
                name: string_decoding(name.raw@).unwrap(),
                symbol: symbol_of(symbol.raw@),
                decimals: decimals_of(decimals),
            },
        )
    } else {
        None
    }
}

/// A failed or undecodable `decimals()` answer never rejects a candidate
/// whose name and symbol qualify: its decimals are zero.
pub proof fn lemma_decimals_failure_defaults(
    address: Seq<u8>,
    decimals: RpcReadResponse,
    name: RpcReadResponse,
    symbol: RpcReadResponse,
)
    requires
        decimals.failed || uint32_decoding(decimals.raw@).is_none(),
        yields_token(name, symbol),
    ensures
        token_of(address, decimals, name, symbol).is_some(),
        token_of(address, decimals, name, symbol).unwrap().decimals == 0,
{
}

/// A failed or undecodable `name()` answer always rejects the candidate.
pub proof fn lemma_name_failure_rejects(
    address: Seq<u8>,
    decimals: RpcReadResponse,
    name: RpcReadResponse,
    symbol: RpcReadResponse,
)
    requires
        name.failed || string_decoding(name.raw@).is_none(),
    ensures
        token_of(address, decimals, name, symbol).is_none(),
{
}

/// A `symbol()` answer that arrived but does not decode never rejects a
/// candidate whose name qualifies: its symbol is empty.
pub proof fn lemma_symbol_decode_failure_defaults(
    address: Seq<u8>,
    decimals: RpcReadResponse,
    name: RpcReadResponse,
    symbol: RpcReadResponse,
)
    requires
        !name.failed,
        string_decoding(name.raw@).is_some(),
        !symbol.failed,
        string_decoding(symbol.raw@).is_none(),
    ensures
        token_of(address, decimals, name, symbol).is_some(),
        token_of(address, decimals, name, symbol).unwrap().symbol == Seq::<char>::empty(),
{
}

/// The view of an optional token.
pub open spec fn option_view(t: Option<Token>) -> Option<TokenView> {
    match t {
        Some(t) => Some(t@),
        None => None,
    }
}

/// Resolves a `decimals()` response; failures default to zero.
pub fn resolve_decimals(resp: &RpcReadResponse) -> (r: u64)
    ensures
        r == decimals_of(*resp),
{
    if resp.failed {
        return 0;
    }
    match read_uint32(resp.raw.as_slice()) {
        Ok(v) => v as u64,
        Err(_) => 0,
    }
}

/// Decodes a `symbol()` response; a decode failure defaults to the empty string.
pub fn resolve_symbol(raw: &Vec<u8>) -> (r: String)
    ensures
        r@ == symbol_of(raw@),
{
    match read_string(raw.as_slice()) {
        Ok(s) => s,
        Err(_) => String::new(),
    }
}

/// Combines a candidate's three responses into a token, or `None` where the
/// candidate is rejected.
pub fn resolve_token(
    address: &Vec<u8>,
    decimals: &RpcReadResponse,
    name: &RpcReadResponse,
    symbol: &RpcReadResponse,
) -> (r: Option<Token>)
    ensures
        option_view(r) == token_of(address@, *decimals, *name, *symbol),
{
    let dec = resolve_decimals(decimals);
    if name.failed || symbol.failed {
        return None;
    }
    let decoded_name = match read_string(name.raw.as_slice()) {
        Ok(s) => s,
        Err(_) => {
            return None;
        },
    };
    let sym = resolve_symbol(&symbol.raw);
    Some(Token { address: address_to_string(address), name: decoded_name, symbol: sym, decimals: dec })
}

/// The key under which a token is stored: `token:` and its address.
pub open spec fn store_key(address: Seq<char>) -> Seq<char> {
    seq!['t', 'o', 'k', 'e', 'n', ':'] + address
}

/// The store key of a token.
pub fn token_key(token: &Token) -> (r: String)
    ensures
        r@ == store_key(token.address@),
{
    let mut s = String::from_str("token:");
    proof {
        reveal_strlit("token:");
    }
    s.append(token.address.as_str());
    assert(s@ =~= store_key(token.address@));
    s
}

} // verus!
