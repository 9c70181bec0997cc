//! Transfers of the tracked contract's tokens, made from the transfer events
//! of a block.

use crate::bytes::{be_nat, copy_bytes, read_be_capped};
use vstd::prelude::*;

verus! {

/// A transfer event of the tracked contract, as the block holds it.
#[derive(Clone, Debug, PartialEq, Eq)]
pub struct TransferEvent {
    /// Hash of the transaction that logged the event.
    pub trx_hash: Vec<u8>,
    pub from: Vec<u8>,
    pub to: Vec<u8>,
    /// The token's identifier: an unsigned number, big-endian, of any width.
    pub token_id: Vec<u8>,
    /// Position of the event's log in the block.
    pub block_index: u32,
}

/// A transfer of one token.
#[derive(Clone, Debug, PartialEq, Eq)]
pub struct Transfer {
    pub trx_hash: Vec<u8>,
    pub from: Vec<u8>,
    pub to: Vec<u8>,
    pub token_id: u64,
    /// Position within the block, by which ledger entries are merged.
    pub ordinal: u64,
}

/// A transfer as plain values.
pub struct TransferView {
    pub trx_hash: Seq<u8>,
    pub from: Seq<u8>,
    pub to: Seq<u8>,
    pub token_id: u64,
    pub ordinal: u64,
}

impl View for Transfer {
    type V = TransferView;

    open spec fn view(&self) -> TransferView {
        TransferView {
            trx_hash: self.trx_hash@,
            from: self.from@,
            to: self.to@,
            token_id: self.token_id,
            ordinal: self.ordinal,
        }
    }
}

/// Why the transfers of a block could not be made.
#[derive(Clone, Copy, Debug, PartialEq, Eq, Structural)]
pub enum ExtractError {
    /// The token identifier of the event at `index` does not fit in 64 bits.
    TokenIdTooLarge { index: usize },
}

/// Whether an event's token identifier fits in 64 bits.
pub open spec fn token_id_fits(event: TransferEvent) -> bool {
    be_nat(event.token_id@) <= u64::MAX
}

/// The transfer that an event with a fitting token identifier stands for.
pub open spec fn transfer_of(event: TransferEvent) -> TransferView {
    TransferView {
        trx_hash: event.trx_hash@,
        from: event.from@,
        to: event.to@,
        token_id: be_nat(event.token_id@) as u64,
        ordinal: event.block_index as u64,
    }
}

/// Calls `substreams::scalar::BigInt::from_unsigned_bytes_be` and then
/// `BigInt::to_u64`. The first reads the bytes as an unsigned big-endian
/// number; the second hands that number out where it fits in 64 bits, and
/// panics where it does not, which `requires` leaves out.
#[verifier::external_body]
pub(crate) fn narrow_to_u64(bytes: &Vec<u8>) -> (r: u64)
    requires
        be_nat(bytes@) <= u64::MAX,
    ensures
        r as nat == be_nat(bytes@),
{
    substreams::scalar::BigInt::from_unsigned_bytes_be(bytes.as_slice()).to_u64()
}

/// Narrows a token identifier to 64 bits, if it fits.
pub fn token_id_to_u64(bytes: &Vec<u8>) -> (r: Option<u64>)
    ensures
        match r {
            Some(v) => v as nat == be_nat(bytes@),
            None => be_nat(bytes@) > u64::MAX,
        },
{
    assert(bytes@.subrange(0, bytes@.len() as int) =~= bytes@);
    match read_be_capped(bytes, 0, bytes.len(), u64::MAX) {
        Some(_) => Some(narrow_to_u64(bytes)),
        None => None,
    }
}

/// Makes one transfer from each event, in order. The ordinal of a transfer is
/// the position of the event's log in the block. Fails at the first event
/// whose token identifier does not fit in 64 bits.
pub fn extract_transfers(events: &Vec<TransferEvent>) -> (r: Result<Vec<Transfer>, ExtractError>)
    ensures
        match r {
            Ok(transfers) => {
                &&& transfers@.len() == events@.len()
                &&& forall|i: int|
                    0 <= i < events@.len() ==> token_id_fits(#[trigger] events@[i])
                        && transfers@[i]@ == transfer_of(events@[i])
            },
            Err(ExtractError::TokenIdTooLarge { index }) => {
                &&& index < events@.len()
                &&& !token_id_fits(events@[index as int])
                &&& forall|i: int| 0 <= i < index ==> token_id_fits(#[trigger] events@[i])
            },
        },
{
    let mut out: Vec<Transfer> = Vec::new();
    let mut i: usize = 0;
    while i < events.len()
        invariant
            i <= events.len(),
            out@.len() == i,
            forall|k: int|
                0 <= k < i ==> token_id_fits(#[trigger] events@[k]) && out@[k]@ == transfer_of(
                    events@[k],
                ),
        decreases events.len() - i,
    {
        let event = &events[i];
        let token_id: u64 = match token_id_to_u64(&event.token_id) {
            Some(v) => v,
            None => {
                return Err(ExtractError::TokenIdTooLarge { index: i });
            },
        };
        out.push(
            Transfer {
                trx_hash: copy_bytes(&event.trx_hash),
                from: copy_bytes(&event.from),
                to: copy_bytes(&event.to),
                token_id,
                ordinal: event.block_index as u64,
            },
        );
        i += 1;
    }
    Ok(out)
}

} // verus!
