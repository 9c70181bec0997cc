//! The balance ledger: what each transfer adds to the balance of its holders.

use crate::bytes::{hex_text, to_hex};
use crate::config::{is_null_address, null_address, ScoutConfig};
use crate::transfer::{Transfer, TransferView};
use vstd::prelude::*;
use vstd::seq_lib::{commutative_foldl, lemma_fold_left_permutation};

verus! {

/// One application to the ledger: `delta` is added to the entry of `key`.
#[derive(Clone, Debug, PartialEq, Eq)]
pub struct LedgerDelta {
    pub ordinal: u64,
    pub key: String,
    pub delta: i64,
}

/// An application as plain values.
pub struct DeltaView {
    pub ordinal: u64,
    pub key: Seq<char>,
    pub delta: i64,
}

impl View for LedgerDelta {
    type V = DeltaView;

    open spec fn view(&self) -> DeltaView {
        DeltaView { ordinal: self.ordinal, key: self.key@, delta: self.delta }
    }
}

/// The key of a holder's entry: the word `total`, the holder and the tracked
/// contract in hexadecimal, with colons between them.
pub open spec fn key_text(holder: Seq<u8>, contract: Seq<u8>) -> Seq<char> {
    "total:"@ + hex_text(holder) + ":"@ + hex_text(contract)
}

/// Builds the key of a holder's entry.
pub fn generate_key(holder: &Vec<u8>, cfg: &ScoutConfig) -> (r: String)
    ensures
        r@ == key_text(holder@, cfg.tracked_contract@),
{
    let mut key = String::from_str("total:");
    let holder_hex = to_hex(holder);
    key.append(holder_hex.as_str());
    key.append(":");
    let contract_hex = to_hex(&cfg.tracked_contract);
    key.append(contract_hex.as_str());
    assert(key@ =~= key_text(holder@, cfg.tracked_contract@));
    key
}

/// The applications of one transfer: a debit of the sender unless it is the
/// null address, then a credit of the receiver unless it is the null address.
pub open spec fn deltas_of_one(t: TransferView, contract: Seq<u8>) -> Seq<DeltaView> {
    let debit = if t.from != null_address() {
        seq![DeltaView { ordinal: t.ordinal, key: key_text(t.from, contract), delta: -1i64 }]
    } else {
        Seq::empty()
    };
    let credit = if t.to != null_address() {
        seq![DeltaView { ordinal: t.ordinal, key: key_text(t.to, contract), delta: 1i64 }]
    } else {
        Seq::empty()
    };
    debit + credit
}

/// The applications of the first `n` transfers, in order.
pub open spec fn deltas_upto(transfers: Seq<Transfer>, contract: Seq<u8>, n: nat) -> Seq<
    DeltaView,
>
    decreases n,
{
    if n == 0 {
        Seq::empty()
    } else {
        deltas_upto(transfers, contract, (n - 1) as nat) + deltas_of_one(
            transfers[n - 1]@,
            contract,
        )
    }
}

/// The value of a key's entry after a sequence of applications: the sum of
/// the deltas applied to that key.
pub open spec fn balance(applied: Seq<DeltaView>, key: Seq<char>) -> int {
    applied.fold_left(
        0int,
        |sum: int, d: DeltaView|
            if d.key == key {
                sum + d.delta
            } else {
                sum
            },
    )
}

/// The applications that the transfers of a block make to the ledger, in the
/// order of the transfers.
pub fn ledger_deltas(transfers: &Vec<Transfer>, cfg: &ScoutConfig) -> (r: Vec<LedgerDelta>)
    ensures
        r@.map_values(|d: LedgerDelta| d@) == deltas_upto(
            transfers@,
            cfg.tracked_contract@,
            transfers@.len(),
        ),
{
    let mut out: Vec<LedgerDelta> = Vec::new();
    let mut i: usize = 0;
    while i < transfers.len()
        invariant
            i <= transfers.len(),
            out@.map_values(|d: LedgerDelta| d@) =~= deltas_upto(
                transfers@,
                cfg.tracked_contract@,
                i as nat,
            ),
        decreases transfers.len() - i,
    {
        let transfer = &transfers[i];
        let ghost before = out@.map_values(|d: LedgerDelta| d@);
        if !is_null_address(&transfer.from) {
            out.push(
                LedgerDelta {
                    ordinal: transfer.ordinal,
                    key: generate_key(&transfer.from, cfg),
                    delta: -1,
                },
            );
        }
        if !is_null_address(&transfer.to) {
            out.push(
                LedgerDelta {
                    ordinal: transfer.ordinal,
                    key: generate_key(&transfer.to, cfg),
                    delta: 1,
                },
            );
        }
        assert(out@.map_values(|d: LedgerDelta| d@) =~= before + deltas_of_one(
            transfer@,
            cfg.tracked_contract@,
        ));
        i += 1;
    }
    out
}

/// A transfer from the null address debits nobody, and one to the null
/// address credits nobody; every other side of a transfer is applied once.
pub proof fn lemma_mint_and_burn(t: TransferView, contract: Seq<u8>)
    ensures
        t.from == null_address() ==> forall|k: int|
            0 <= k < deltas_of_one(t, contract).len() ==> (#[trigger] deltas_of_one(
                t,
                contract,
            )[k]).delta != -1,
        t.to == null_address() ==> forall|k: int|
            0 <= k < deltas_of_one(t, contract).len() ==> (#[trigger] deltas_of_one(
                t,
                contract,
            )[k]).delta != 1,
        deltas_of_one(t, contract).len() == (if t.from != null_address() {
            1int
        } else {
            0int
        }) + (if t.to != null_address() {
            1int
        } else {
            0int
        }),
{
}

/// The value of an entry does not depend on the order of the applications:
/// two sequences that hold the same applications give every key the same
/// balance.
pub proof fn lemma_balance_order_independent(a: Seq<DeltaView>, b: Seq<DeltaView>, key: Seq<char>)
    requires
        a.to_multiset() == b.to_multiset(),
    ensures
        balance(a, key) == balance(b, key),
{
    let f = |sum: int, d: DeltaView|
        if d.key == key {
            sum + d.delta
        } else {
            sum
        };
    assert(commutative_foldl(f));
    lemma_fold_left_permutation(a, b, f, 0int);
}

/// One more application adds its delta to the entry of its key and leaves
/// every other entry as it was.
pub proof fn lemma_balance_push(applied: Seq<DeltaView>, d: DeltaView, key: Seq<char>)
    ensures
        balance(applied.push(d), key) == balance(applied, key) + (if d.key == key {
            d.delta as int
        } else {
            0int
        }),
{
    assert(applied.push(d).drop_last() =~= applied);
}

/// The value that a sequence of applications gives to the entry of a key.
pub fn net_balance(applied: &Vec<LedgerDelta>, key: &String) -> (r: i128)
    ensures
        r == balance(applied@.map_values(|d: LedgerDelta| d@), key@),
{
    let ghost views = applied@.map_values(|d: LedgerDelta| d@);
    let mut sum: i128 = 0;
    let mut i: usize = 0;
    assert(views.subrange(0, 0) =~= Seq::<DeltaView>::empty());
    while i < applied.len()
        invariant
            i <= applied.len(),
            views == applied@.map_values(|d: LedgerDelta| d@),
            sum == balance(views.subrange(0, i as int), key@),
            -(i as int) * 0x8000_0000_0000_0000 <= sum <= (i as int) * 0x8000_0000_0000_0000,
        decreases applied.len() - i,
    {
        proof {
            assert(views.subrange(0, i + 1) =~= views.subrange(0, i as int).push(views[i as int]));
            lemma_balance_push(views.subrange(0, i as int), views[i as int], key@);
        }
        if applied[i].key == *key {
            sum = sum + applied[i].delta as i128;
        }
        i += 1;
    }
    assert(views.subrange(0, i as int) =~= views);
    sum
}

/// Whether the transfers stand in the order of their ordinals.
pub open spec fn ordinals_ascend(transfers: Seq<Transfer>) -> bool {
    forall|i: int, j: int|
        0 <= i <= j < transfers.len() ==> transfers[i].ordinal <= transfers[j].ordinal
}

/// Transfers in the order of their ordinals are applied in that order: no
/// application follows one with a larger ordinal, on any key.
pub proof fn lemma_deltas_keep_order(transfers: Seq<Transfer>, contract: Seq<u8>, n: nat)
    requires
        n <= transfers.len(),
        ordinals_ascend(transfers),
    ensures
        forall|k: int|
            0 <= k < deltas_upto(transfers, contract, n).len() ==> n > 0 && (
            #[trigger] deltas_upto(transfers, contract, n)[k]).ordinal <= transfers[n
                - 1].ordinal,
        forall|i: int, j: int|
            0 <= i <= j < deltas_upto(transfers, contract, n).len() ==> deltas_upto(
                transfers,
                contract,
                n,
            )[i].ordinal <= deltas_upto(transfers, contract, n)[j].ordinal,
    decreases n,
{
    if n > 0 {
        lemma_deltas_keep_order(transfers, contract, (n - 1) as nat);
        let before = deltas_upto(transfers, contract, (n - 1) as nat);
        let one = deltas_of_one(transfers[n - 1]@, contract);
        let all = deltas_upto(transfers, contract, n);
        assert(all == before + one);
        assert forall|k: int| 0 <= k < all.len() implies (#[trigger] all[k]).ordinal
            <= transfers[n - 1].ordinal by {
            if k < before.len() {
                assert(all[k] == before[k]);
                assert(transfers[n - 2].ordinal <= transfers[n - 1].ordinal);
            } else {
                assert(all[k] == one[k - before.len()]);
            }
        }
        assert forall|i: int, j: int| 0 <= i <= j < all.len() implies all[i].ordinal
            <= all[j].ordinal by {
            if j < before.len() {
                assert(all[i] == before[i] && all[j] == before[j]);
            } else if i < before.len() {
                assert(all[i] == before[i]);
                assert(all[j] == one[j - before.len()]);
                assert(transfers[n - 2].ordinal <= transfers[n - 1].ordinal);
            } else {
                assert(all[i] == one[i - before.len()]);
                assert(all[j] == one[j - before.len()]);
            }
        }
    }
}

/// Whether the ordinals of the transfers grow from each to the next.
pub open spec fn ordinals_strictly_ascend(transfers: Seq<Transfer>) -> bool {
    forall|i: int, j: int|
        0 <= i < j < transfers.len() ==> transfers[i].ordinal < transfers[j].ordinal
}

/// Whether application `b` may follow application `a`: its ordinal is the
/// larger, or the two stand side by side as the debit and the credit of one
/// transfer.
pub open spec fn applied_in_order(a: DeltaView, b: DeltaView, adjacent: bool) -> bool {
    a.ordinal < b.ordinal || (adjacent && a.ordinal == b.ordinal && a.delta == -1 && b.delta
        == 1)
}

/// Transfers with growing ordinals are applied with growing ordinals: of two
/// applications the later has the larger ordinal, unless they are the debit
/// and the credit of one transfer, which share its ordinal.
pub proof fn lemma_deltas_strict_order(transfers: Seq<Transfer>, contract: Seq<u8>, n: nat)
    requires
        n <= transfers.len(),
        ordinals_strictly_ascend(transfers),
    ensures
        forall|k: int|
            0 <= k < deltas_upto(transfers, contract, n).len() ==> n > 0 && (
            #[trigger] deltas_upto(transfers, contract, n)[k]).ordinal <= transfers[n
                - 1].ordinal,
        forall|i: int, j: int|
            0 <= i < j < deltas_upto(transfers, contract, n).len() ==> applied_in_order(
                #[trigger] deltas_upto(transfers, contract, n)[i],
                #[trigger] deltas_upto(transfers, contract, n)[j],
                j == i + 1,
            ),
    decreases n,
{
    if n > 0 {
        lemma_deltas_strict_order(transfers, contract, (n - 1) as nat);
        let before = deltas_upto(transfers, contract, (n - 1) as nat);
        let one = deltas_of_one(transfers[n - 1]@, contract);
        let all = deltas_upto(transfers, contract, n);
        assert(all == before + one);
        assert forall|k: int| 0 <= k < all.len() implies (#[trigger] all[k]).ordinal
            <= transfers[n - 1].ordinal by {
            if k < before.len() {
                assert(all[k] == before[k]);
                assert(transfers[n - 2].ordinal < transfers[n - 1].ordinal);
            } else {
                assert(all[k] == one[k - before.len()]);
            }
        }
        assert forall|i: int, j: int| 0 <= i < j < all.len() implies applied_in_order(
            #[trigger] all[i],
            #[trigger] all[j],
            j == i + 1,
        ) by {
            if j < before.len() {
                assert(all[i] == before[i] && all[j] == before[j]);
            } else if i < before.len() {
                assert(all[i] == before[i]);
                assert(all[j] == one[j - before.len()]);
                assert(transfers[n - 2].ordinal < transfers[n - 1].ordinal);
            } else {
                assert(all[i] == one[i - before.len()]);
                assert(all[j] == one[j - before.len()]);
            }
        }
    }
}

} // verus!
