use eth_token::filter::{classify_call, Call, CallType, CodeChange, SkipReason, Verdict};
use eth_token::rpc::{decimals_batch, name_symbol_batch, RpcReadResponse};
use eth_token::scanner::{build_tokens_state, Block, CallTraceScanner, CandidateResponses, Transaction};
use eth_token::token::{address_to_string, resolve_decimals, resolve_symbol, resolve_token, token_key, Token};

const DENIED: [u8; 20] = [
    0x00, 0x00, 0x00, 0x00, 0x00, 0x00, 0x49, 0x46, 0xc0, 0xe9, 0xf4, 0x3f, 0x4d, 0xee, 0x60, 0x7b, 0x0e, 0xf1,
    0xfa, 0x1c,
];

fn addr(b: u8) -> Vec<u8> {
    let mut a = vec![0u8; 20];
    a[0] = 0xab;
    a[19] = b;
    a
}

fn word(v: u64) -> Vec<u8> {
    let mut w = vec![0u8; 24];
    w.extend_from_slice(&v.to_be_bytes());
    w
}

fn abi_string(s: &str) -> Vec<u8> {
    let mut out = word(32);
    out.extend(word(s.len() as u64));
    let mut payload = s.as_bytes().to_vec();
    let padded = ((payload.len() + 31) / 32).max(1) * 32;
    payload.resize(padded, 0);
    out.extend(payload);
    out
}

fn ok(raw: Vec<u8>) -> RpcReadResponse {
    RpcReadResponse { raw, failed: false }
}

fn failed() -> RpcReadResponse {
    RpcReadResponse { raw: b"execution reverted".to_vec(), failed: true }
}

fn create(address: Vec<u8>, caller: Vec<u8>, code_lens: &[usize]) -> Call {
    Call {
        address,
        caller,
        call_type: CallType::Create,
        input: vec![],
        state_reverted: false,
        code_changes: code_lens.iter().map(|n| CodeChange { new_code: vec![0x60; *n] }).collect(),
    }
}

fn plain_call(address: Vec<u8>, input: Vec<u8>) -> Call {
    Call { address, caller: addr(0xcc), call_type: CallType::Call, input, state_reverted: false, code_changes: vec![] }
}

fn weth_responses() -> CandidateResponses {
    CandidateResponses {
        decimals: ok(word(18)),
        name: ok(abi_string("Wrapped Ether")),
        symbol: ok(abi_string("WETH")),
    }
}

fn single_block(calls: Vec<Call>) -> Block {
    Block { transactions: vec![Transaction { calls }] }
}

fn skip_of(call: &Call) -> Option<SkipReason> {
    match classify_call(call, &vec![DENIED.to_vec()]) {
        Verdict::Skip(r) => Some(r),
        Verdict::Candidate(_) => None,
    }
}

fn expected_address(b: u8) -> String {
    format!("0xab{}{:02x}", "00".repeat(18), b)
}

#[test]
fn create_emits_token() {
    let scanner = CallTraceScanner::with_known_deployers();
    let block = single_block(vec![create(addr(1), addr(0xcc), &[120, 80])]);
    let cands = scanner.candidates(&block);
    assert_eq!(cands.len(), 1);
    let tokens = scanner.block_to_tokens(&block, &vec![weth_responses()]);
    assert_eq!(tokens.len(), 1);
    assert_eq!(tokens[0].address, expected_address(1));
    assert_eq!(tokens[0].address.len(), 42);
    assert_eq!(tokens[0].name, "Wrapped Ether");
    assert_eq!(tokens[0].symbol, "WETH");
    assert_eq!(tokens[0].decimals, 18);
}

#[test]
fn decimals_failure_defaults_to_zero() {
    let scanner = CallTraceScanner::with_known_deployers();
    let block = single_block(vec![create(addr(1), addr(0xcc), &[200])]);
    let mut resp = weth_responses();
    resp.decimals = failed();
    let tokens = scanner.block_to_tokens(&block, &vec![resp]);
    assert_eq!(tokens.len(), 1);
    assert_eq!(tokens[0].decimals, 0);
    assert_eq!(tokens[0].name, "Wrapped Ether");
    assert_eq!(tokens[0].symbol, "WETH");
}

#[test]
fn name_failure_emits_nothing() {
    let scanner = CallTraceScanner::with_known_deployers();
    let block = single_block(vec![create(addr(1), addr(0xcc), &[200])]);
    let mut resp = weth_responses();
    resp.name = failed();
    assert!(scanner.block_to_tokens(&block, &vec![resp]).is_empty());
}

#[test]
fn wrong_selector_is_skipped() {
    let call = plain_call(addr(2), vec![0xde, 0xad, 0xbe, 0xef, 0x00]);
    assert_eq!(skip_of(&call), Some(SkipReason::NotInitializer));
    let scanner = CallTraceScanner::with_known_deployers();
    assert!(scanner.candidates(&single_block(vec![call])).is_empty());
}

#[test]
fn denied_caller_is_skipped() {
    let call = create(addr(3), DENIED.to_vec(), &[151]);
    assert_eq!(skip_of(&call), Some(SkipReason::DeniedCaller));
    let scanner = CallTraceScanner::with_known_deployers();
    assert!(scanner.candidates(&single_block(vec![call])).is_empty());
}

#[test]
fn code_length_threshold() {
    assert_eq!(skip_of(&create(addr(1), addr(0xcc), &[150])), Some(SkipReason::CodeTooSmall));
    assert_eq!(skip_of(&create(addr(1), addr(0xcc), &[100, 50])), Some(SkipReason::CodeTooSmall));
    assert_eq!(skip_of(&create(addr(1), addr(0xcc), &[])), Some(SkipReason::CodeTooSmall));
    assert_eq!(skip_of(&create(addr(1), addr(0xcc), &[151])), None);
    assert_eq!(skip_of(&create(addr(1), addr(0xcc), &[100, 51])), None);
}

#[test]
fn short_call_input_is_skipped() {
    assert_eq!(skip_of(&plain_call(addr(2), vec![])), Some(SkipReason::NotInitializer));
    assert_eq!(skip_of(&plain_call(addr(2), vec![0x14, 0x59, 0x45])), Some(SkipReason::NotInitializer));
}

#[test]
fn initializer_call_is_candidate() {
    let call = plain_call(addr(2), vec![0x14, 0x59, 0x45, 0x7a, 0x01, 0x02]);
    assert_eq!(skip_of(&call), None);
    assert_eq!(skip_of(&plain_call(addr(2), vec![0x14, 0x59, 0x45, 0x7a])), None);
}

#[test]
fn reverted_and_other_calls_are_skipped() {
    let mut call = create(addr(1), addr(0xcc), &[400]);
    call.state_reverted = true;
    assert_eq!(skip_of(&call), Some(SkipReason::Reverted));
    let mut other = create(addr(1), addr(0xcc), &[400]);
    other.call_type = CallType::Other;
    assert_eq!(skip_of(&other), Some(SkipReason::UnsupportedCallType));
}

#[test]
fn denied_caller_skips_initializer_call() {
    let mut call = plain_call(addr(2), vec![0x14, 0x59, 0x45, 0x7a]);
    call.caller = DENIED.to_vec();
    assert_eq!(skip_of(&call), Some(SkipReason::DeniedCaller));
    let scanner = CallTraceScanner::new(vec![]);
    assert_eq!(scanner.candidates(&single_block(vec![call])).len(), 1);
}

#[test]
fn candidates_keep_scan_order_without_dedup() {
    let scanner = CallTraceScanner::with_known_deployers();
    let block = Block {
        transactions: vec![
            Transaction { calls: vec![create(addr(1), addr(0xcc), &[10]), create(addr(2), addr(0xcc), &[300])] },
            Transaction { calls: vec![] },
            Transaction {
                calls: vec![plain_call(addr(2), vec![0x14, 0x59, 0x45, 0x7a]), create(addr(4), addr(0xcc), &[300])],
            },
        ],
    };
    let cands = scanner.candidates(&block);
    let addrs: Vec<Vec<u8>> = cands.iter().map(|c| c.address.clone()).collect();
    assert_eq!(addrs, vec![addr(2), addr(2), addr(4)]);
    assert_eq!(cands[1].caller, addr(0xcc));

    let mut rejected = weth_responses();
    rejected.symbol = failed();
    let tokens = scanner.block_to_tokens(&block, &vec![weth_responses(), rejected, weth_responses()]);
    let got: Vec<String> = tokens.iter().map(|t| t.address.clone()).collect();
    assert_eq!(got, vec![expected_address(2), expected_address(4)]);
}

#[test]
fn empty_block_has_no_tokens() {
    let scanner = CallTraceScanner::with_known_deployers();
    let block = Block { transactions: vec![] };
    assert!(scanner.candidates(&block).is_empty());
    assert!(scanner.block_to_tokens(&block, &vec![]).is_empty());
}

#[test]
fn symbol_decode_failure_defaults_to_empty() {
    let tok = resolve_token(&addr(5), &ok(word(6)), &ok(abi_string("USD Coin")), &ok(vec![1, 2, 3])).unwrap();
    assert_eq!(tok.symbol, "");
    assert_eq!(tok.name, "USD Coin");
    assert_eq!(tok.decimals, 6);
    assert_eq!(resolve_symbol(&vec![0u8; 10]), "");
    assert_eq!(resolve_symbol(&abi_string("USDC")), "USDC");
}

#[test]
fn symbol_call_failure_rejects() {
    assert!(resolve_token(&addr(5), &ok(word(6)), &ok(abi_string("USD Coin")), &failed()).is_none());
}

#[test]
fn name_decode_failure_rejects() {
    assert!(resolve_token(&addr(5), &ok(word(6)), &ok(vec![0u8; 40]), &ok(abi_string("USDC"))).is_none());
}

#[test]
fn decimals_decode_failure_defaults_to_zero() {
    assert_eq!(resolve_decimals(&ok(vec![0u8; 4])), 0);
    assert_eq!(resolve_decimals(&failed()), 0);
    assert_eq!(resolve_decimals(&ok(word(8))), 8);
    let tok = resolve_token(&addr(5), &ok(vec![1]), &ok(abi_string("N")), &ok(abi_string("S"))).unwrap();
    assert_eq!(tok.decimals, 0);
}

#[test]
fn address_text_is_lowercase_hex_with_prefix() {
    let a: Vec<u8> = vec![0xAB, 0x01, 0xff, 0x00, 0x9c, 0x10, 0, 0, 0, 0, 0, 0, 0, 0, 0, 0, 0, 0, 0, 0x7e];
    assert_eq!(address_to_string(&a), "0xab01ff009c10000000000000000000000000007e");
    assert_eq!(address_to_string(&vec![]), "0x");
}

#[test]
fn request_batches() {
    let a = addr(7);
    let d = decimals_batch(&a);
    assert_eq!(d.len(), 1);
    assert_eq!(d[0].to, a);
    assert_eq!(d[0].data, vec![0x31, 0x3c, 0xe5, 0x67]);
    let ns = name_symbol_batch(&a);
    assert_eq!(ns.len(), 2);
    assert_eq!(ns[0].data, vec![0x06, 0xfd, 0xde, 0x03]);
    assert_eq!(ns[1].data, vec![0x95, 0xd8, 0x9b, 0x41]);
    assert_eq!(ns[1].to, a);
}

#[test]
fn store_keys() {
    let t = Token { address: expected_address(9), name: "N".into(), symbol: "S".into(), decimals: 1 };
    assert_eq!(token_key(&t), format!("token:{}", expected_address(9)));
    let keys = build_tokens_state(&vec![t]);
    assert_eq!(keys, vec![format!("token:{}", expected_address(9))]);
}

