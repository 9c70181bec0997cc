//! Probing a candidate with read-only calls, and the scan of a block that
//! turns the answers into tokens.
//!
//! The calls themselves are made by the caller of this module: the scan says
//! which requests to send, and takes the responses.

use crate::bytes::{copy_bytes, hex_text, to_hex};
use crate::decode::{read_string, read_uint32, string_of, uint32_of, DecodeError};
use vstd::prelude::*;

verus! {

/// One read-only call: the contract, and the call data.
#[derive(Clone, Debug, PartialEq, Eq)]
pub struct RpcRequest {
    pub to: Vec<u8>,
    pub data: Vec<u8>,
}

/// The outcome of one read-only call.
#[derive(Clone, Debug, PartialEq, Eq)]
pub struct RpcCallResult {
    /// Whether the call could not be executed.
    pub failed: bool,
    /// What the call returned, or the reason of the failure.
    pub raw: Vec<u8>,
}

/// A token contract that answered all three calls.
#[derive(Clone, Debug, PartialEq, Eq)]
pub struct Token {
    /// The contract's address, in hexadecimal.
    pub address: String,
    pub name: String,
    pub symbol: String,
    pub decimals: u64,
}

/// A token as plain values.
pub struct TokenView {
    pub address: Seq<char>,
    pub name: Seq<char>,
    pub symbol: Seq<char>,
    pub decimals: u64,
}

impl View for Token {
    type V = TokenView;

    open spec fn view(&self) -> TokenView {
        TokenView {
            address: self.address@,
            name: self.name@,
            symbol: self.symbol@,
            decimals: self.decimals,
        }
    }
}

/// Why a candidate was given up.
#[derive(Clone, Copy, Debug, PartialEq, Eq, Structural)]
pub enum Abandonment {
    /// The call for the decimals failed.
    DecimalsCallFailed,
    /// The decimals could not be decoded.
    DecimalsUndecodable(DecodeError),
    /// The call for the name or the call for the symbol failed.
    NameSymbolCallFailed,
    /// The name could not be decoded.
    NameUndecodable(DecodeError),
    /// The symbol could not be decoded.
    SymbolUndecodable(DecodeError),
}

/// The requests for a list of selectors at one address, as plain values:
/// one pair of address and call data for each selector, in order.
pub open spec fn requests_for(address: Seq<u8>, selectors: Seq<Seq<u8>>) -> Seq<
    (Seq<u8>, Seq<u8>),
> {
    Seq::new(selectors.len(), |i: int| (address, selectors[i]))
}

/// A list of requests as plain values.
pub open spec fn request_views(requests: Seq<RpcRequest>) -> Seq<(Seq<u8>, Seq<u8>)> {
    Seq::new(requests.len(), |i: int| (requests[i].to@, requests[i].data@))
}

/// Builds one request for each selector, all to the same address, in the
/// order of the selectors.
pub fn create_rpc_calls(address: &Vec<u8>, selectors: &Vec<Vec<u8>>) -> (r: Vec<RpcRequest>)
    ensures
        request_views(r@) == requests_for(address@, selectors@.map_values(|s: Vec<u8>| s@)),
{
    let mut out: Vec<RpcRequest> = Vec::new();
    let mut i: usize = 0;
    while i < selectors.len()
        invariant
            i <= selectors.len(),
            out@.len() == i,
            forall|k: int|
                0 <= k < i ==> (#[trigger] out@[k]).to@ == address@ && out@[k].data@
                    == selectors@[k]@,
        decreases selectors.len() - i,
    {
        out.push(RpcRequest { to: copy_bytes(address), data: copy_bytes(&selectors[i]) });
        i += 1;
    }
    assert(request_views(out@) =~= requests_for(
        address@,
        selectors@.map_values(|s: Vec<u8>| s@),
    ));
    out
}

/// What the answer to the decimals call says.
pub open spec fn decimals_outcome(response: RpcCallResult) -> Result<u32, Abandonment> {
    if response.failed {
        Err(Abandonment::DecimalsCallFailed)
    } else {
        match uint32_of(response.raw@) {
            Ok(d) => Ok(d),
            Err(e) => Err(Abandonment::DecimalsUndecodable(e)),
        }
    }
}

/// What the answers to the name and symbol calls say, for a candidate whose
/// decimals are known.
pub open spec fn token_outcome(
    address: Seq<u8>,
    decimals: u32,
    name: RpcCallResult,
    symbol: RpcCallResult,
) -> Result<TokenView, Abandonment> {
    if name.failed || symbol.failed {
        Err(Abandonment::NameSymbolCallFailed)
    } else {
        match string_of(name.raw@) {
            Err(e) => Err(Abandonment::NameUndecodable(e)),
            Ok(n) => match string_of(symbol.raw@) {
                Err(e) => Err(Abandonment::SymbolUndecodable(e)),
                Ok(s) => Ok(
                    TokenView {
                        address: hex_text(address),
                        name: n,
                        symbol: s,
                        decimals: decimals as u64,
                    },
                ),
            },
        }
    }
}

/// What the three answers say of a candidate.
pub open spec fn probe_outcome(
    address: Seq<u8>,
    decimals: RpcCallResult,
    name: RpcCallResult,
    symbol: RpcCallResult,
) -> Result<TokenView, Abandonment> {
    match decimals_outcome(decimals) {
        Err(a) => Err(a),
        Ok(d) => token_outcome(address, d, name, symbol),
    }
}

/// A candidate becomes a token exactly when all three calls succeeded and all
/// three answers decode; the token then holds what they decode to.
pub proof fn lemma_token_iff_all_succeed(
    address: Seq<u8>,
    decimals: RpcCallResult,
    name: RpcCallResult,
    symbol: RpcCallResult,
)
    ensures
        probe_outcome(address, decimals, name, symbol).is_ok() <==> (!decimals.failed
            && !name.failed && !symbol.failed && uint32_of(decimals.raw@).is_ok() && string_of(
            name.raw@,
        ).is_ok() && string_of(symbol.raw@).is_ok()),
        probe_outcome(address, decimals, name, symbol).is_ok() ==> probe_outcome(
            address,
            decimals,
            name,
            symbol,
        ).unwrap() == (TokenView {
            address: hex_text(address),
            name: string_of(name.raw@).unwrap(),
            symbol: string_of(symbol.raw@).unwrap(),
            decimals: uint32_of(decimals.raw@).unwrap() as u64,
        }),
{
}

/// Reads the answer to the decimals call.
pub fn check_decimals(response: &RpcCallResult) -> (r: Result<u32, Abandonment>)
    ensures
        r == decimals_outcome(*response),
{
    if response.failed {
        return Err(Abandonment::DecimalsCallFailed);
    }
    match read_uint32(&response.raw) {
        Ok(d) => Ok(d),
        Err(e) => Err(Abandonment::DecimalsUndecodable(e)),
    }
}

/// Puts a token together from the answers to the name and symbol calls.
pub fn assemble_token(
    address: &Vec<u8>,
    decimals: u32,
    name: &RpcCallResult,
    symbol: &RpcCallResult,
) -> (r: Result<Token, Abandonment>)
    ensures
        match r {
            Ok(t) => token_outcome(address@, decimals, *name, *symbol) == Ok::<
                TokenView,
                Abandonment,
            >(t@),
            Err(a) => token_outcome(address@, decimals, *name, *symbol) == Err::<
                TokenView,
                Abandonment,
            >(a),
        },
{
    if name.failed || symbol.failed {
        return Err(Abandonment::NameSymbolCallFailed);
    }
    let decoded_name = match read_string(&name.raw) {
        Ok(s) => s,
        Err(e) => {
            return Err(Abandonment::NameUndecodable(e));
        },
    };
    let decoded_symbol = match read_string(&symbol.raw) {
        Ok(s) => s,
        Err(e) => {
            return Err(Abandonment::SymbolUndecodable(e));
        },
    };
    Ok(
        Token {
            address: to_hex(address),
            name: decoded_name,
            symbol: decoded_symbol,
            decimals: decimals as u64,
        },
    )
}

/// Decides on a candidate from all three answers at once.
pub fn verify_candidate(
    address: &Vec<u8>,
    decimals: &RpcCallResult,
    name: &RpcCallResult,
    symbol: &RpcCallResult,
) -> (r: Result<Token, Abandonment>)
    ensures
        match r {
            Ok(t) => probe_outcome(address@, *decimals, *name, *symbol) == Ok::<
                TokenView,
                Abandonment,
            >(t@),
            Err(a) => probe_outcome(address@, *decimals, *name, *symbol) == Err::<
                TokenView,
                Abandonment,
            >(a),
        },
{
    match check_decimals(decimals) {
        Err(a) => Err(a),
        Ok(d) => assemble_token(address, d, name, symbol),
    }
}

} // verus!
