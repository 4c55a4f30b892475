//! Detection of freshly deployed or proxy-initialized token contracts in a
//! block's call trace, and strict decoding of their `name`, `symbol` and
//! `decimals` read-call results.
pub mod abi;
pub mod filter;
pub mod rpc;
pub mod token;
pub mod scanner;
