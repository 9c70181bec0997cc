//! The constants that the pipeline works with, gathered in one value.

use vstd::prelude::*;

verus! {

/// What the pipeline is told to look for.
#[derive(Clone, Debug, PartialEq, Eq)]
pub struct ScoutConfig {
    /// Address of the tracked non-fungible contract.
    pub tracked_contract: Vec<u8>,
    /// Selector of the deferred initialisation that a proxy calls.
    pub init_selector: Vec<u8>,
    /// First factory whose calls are never candidates.
    pub excluded_caller_a: Vec<u8>,
    /// Second factory whose calls are never candidates.
    pub excluded_caller_b: Vec<u8>,
    /// A creation that installs this many bytes of code, or fewer, is dropped.
    pub small_code_limit: usize,
    /// Selector of the method that returns the number of decimals.
    pub decimals_selector: Vec<u8>,
    /// Selector of the method that returns the name.
    pub name_selector: Vec<u8>,
    /// Selector of the method that returns the symbol.
    pub symbol_selector: Vec<u8>,
}

/// The address that stands for "no holder".
pub open spec fn null_address() -> Seq<u8> {
    Seq::new(20, |i: int| 0u8)
}

impl ScoutConfig {
    /// Addresses have 20 bytes and selectors have 4.
    pub open spec fn well_formed(&self) -> bool {
        &&& self.tracked_contract@.len() == 20
        &&& self.excluded_caller_a@.len() == 20
        &&& self.excluded_caller_b@.len() == 20
        &&& self.init_selector@.len() == 4
        &&& self.decimals_selector@.len() == 4
        &&& self.name_selector@.len() == 4
        &&& self.symbol_selector@.len() == 4
    }

    /// The configuration for the main network.
    pub fn mainnet() -> (cfg: ScoutConfig)
        ensures
            cfg.well_formed(),
            cfg.small_code_limit == 150,
            cfg.tracked_contract@ == seq![
                0xbcu8, 0x4c, 0xa0, 0xed, 0xa7, 0x64, 0x7a, 0x8a, 0xb7, 0xc2,
                0x06, 0x1c, 0x2e, 0x11, 0x8a, 0x18, 0xa9, 0x36, 0xf1, 0x3d,
            ],
            cfg.init_selector@ == seq![0x14u8, 0x59, 0x45, 0x7a],
            cfg.excluded_caller_a@ == seq![
                0x00u8, 0x00, 0x00, 0x00, 0x00, 0x00, 0x49, 0x46, 0xc0, 0xe9,
                0xf4, 0x3f, 0x4d, 0xee, 0x60, 0x7b, 0x0e, 0xf1, 0xfa, 0x1c,
            ],
            cfg.excluded_caller_b@ == seq![
                0x00u8, 0x00, 0x00, 0x00, 0x68, 0x7f, 0x5b, 0x66, 0x63, 0x88,
                0x56, 0x39, 0x6b, 0xee, 0x28, 0xc1, 0xdb, 0x01, 0x78, 0xd1,
            ],
            cfg.decimals_selector@ == seq![0x31u8, 0x3c, 0xe5, 0x67],
            cfg.name_selector@ == seq![0x06u8, 0xfd, 0xde, 0x03],
            cfg.symbol_selector@ == seq![0x95u8, 0xd8, 0x9b, 0x41],
    {
        ScoutConfig {
            tracked_contract: vec![
                0xbcu8, 0x4c, 0xa0, 0xed, 0xa7, 0x64, 0x7a, 0x8a, 0xb7, 0xc2,
                0x06, 0x1c, 0x2e, 0x11, 0x8a, 0x18, 0xa9, 0x36, 0xf1, 0x3d,
            ],
            init_selector: vec![0x14u8, 0x59, 0x45, 0x7a],
            excluded_caller_a: vec![
                0x00u8, 0x00, 0x00, 0x00, 0x00, 0x00, 0x49, 0x46, 0xc0, 0xe9,
                0xf4, 0x3f, 0x4d, 0xee, 0x60, 0x7b, 0x0e, 0xf1, 0xfa, 0x1c,
            ],
            excluded_caller_b: vec![
                0x00u8, 0x00, 0x00, 0x00, 0x68, 0x7f, 0x5b, 0x66, 0x63, 0x88,
                0x56, 0x39, 0x6b, 0xee, 0x28, 0xc1, 0xdb, 0x01, 0x78, 0xd1,
            ],
            small_code_limit: 150,
            decimals_selector: vec![0x31u8, 0x3c, 0xe5, 0x67],
            name_selector: vec![0x06u8, 0xfd, 0xde, 0x03],
            symbol_selector: vec![0x95u8, 0xd8, 0x9b, 0x41],
        }
    }
}

/// Whether an address is the null address: 20 bytes, all zero.
pub fn is_null_address(address: &Vec<u8>) -> (r: bool)
    ensures
        r == (address@ == null_address()),
{
    if address.len() != 20 {
        return false;
    }
    let mut i: usize = 0;
    while i < 20
        invariant
            i <= 20,
            address.len() == 20,
            forall|j: int| 0 <= j < i ==> address@[j] == 0u8,
        decreases 20 - i,
    {
        if address[i] != 0 {
            assert(null_address()[i as int] == 0u8);
            return false;
        }
        i += 1;
    }
    assert(address@ =~= null_address());
    true
}

} // verus!
