//! Call traces of a block: which calls may have made a token contract.

use crate::bytes::{bytes_equal, copy_bytes, starts_with};
use crate::config::ScoutConfig;
use vstd::prelude::*;

verus! {

/// How a call was made.
#[derive(Clone, Copy, Debug, PartialEq, Eq, Structural)]
pub enum CallKind {
    /// The call creates a contract.
    Create,
    /// The call sends a message to a contract.
    Call,
    /// Any other kind.
    Other,
}

/// A record of code installed by a call.
#[derive(Clone, Debug, PartialEq, Eq)]
pub struct CodeChange {
    /// Length of the code that was installed.
    pub new_code_len: usize,
}

/// One call in the call tree of a transaction.
#[derive(Clone, Debug, PartialEq, Eq)]
pub struct CallTrace {
    pub kind: CallKind,
    /// Whether the state changes of the call were undone.
    pub reverted: bool,
    pub caller: Vec<u8>,
    /// The contract that was called or created.
    pub address: Vec<u8>,
    pub input: Vec<u8>,
    pub code_changes: Vec<CodeChange>,
}

/// A transaction with its calls.
#[derive(Clone, Debug, PartialEq, Eq)]
pub struct TransactionTrace {
    pub hash: Vec<u8>,
    pub calls: Vec<CallTrace>,
}

/// The transactions of one block.
#[derive(Clone, Debug, PartialEq, Eq)]
pub struct Block {
    pub transactions: Vec<TransactionTrace>,
}

/// Position of a call in a block: the transaction, and the call within it.
#[derive(Clone, Copy, Debug, PartialEq, Eq, Structural)]
pub struct CallRef {
    pub trx: usize,
    pub call: usize,
}

/// Why a call is no candidate.
#[derive(Clone, Copy, Debug, PartialEq, Eq, Structural)]
pub enum Rejection {
    /// The call was reverted.
    Reverted,
    /// The call neither creates a contract nor sends a message.
    OtherKind,
    /// A message whose input does not begin with the initialisation selector.
    NotInitialization,
    /// A creation that installed too little code.
    CodeTooSmall,
    /// The caller is one of the excluded factories.
    ExcludedCaller,
}

/// What the classifier says of a call.
#[derive(Clone, Copy, Debug, PartialEq, Eq, Structural)]
pub enum Verdict {
    /// The contract at the call's address is to be probed.
    Candidate,
    Rejected(Rejection),
}

/// Total length of the code that a call installed.
pub open spec fn total_new_code(changes: Seq<CodeChange>) -> nat
    decreases changes.len(),
{
    if changes.len() == 0 {
        0
    } else {
        total_new_code(changes.drop_last()) + changes.last().new_code_len as nat
    }
}

/// Whether the first four bytes of an input are the selector. Shorter input
/// does not match.
pub open spec fn selector_matches(input: Seq<u8>, selector: Seq<u8>) -> bool {
    input.len() >= 4 && input.subrange(0, 4) == selector
}

/// The trace filter: a call that was not reverted and that creates a
/// contract, or sends the initialisation message.
pub open spec fn passes_filter(call: CallTrace, cfg: ScoutConfig) -> bool {
    !call.reverted && (call.kind == CallKind::Create || (call.kind == CallKind::Call
        && selector_matches(call.input@, cfg.init_selector@)))
}

/// The classifier's cascade, first failure first.
pub open spec fn verdict_of(call: CallTrace, cfg: ScoutConfig) -> Verdict {
    if call.reverted {
        Verdict::Rejected(Rejection::Reverted)
    } else if call.kind == CallKind::Other {
        Verdict::Rejected(Rejection::OtherKind)
    } else if call.kind == CallKind::Call && !selector_matches(call.input@, cfg.init_selector@) {
        Verdict::Rejected(Rejection::NotInitialization)
    } else if call.kind == CallKind::Create && total_new_code(call.code_changes@)
        <= cfg.small_code_limit {
        Verdict::Rejected(Rejection::CodeTooSmall)
    } else if call.caller@ == cfg.excluded_caller_a@ || call.caller@ == cfg.excluded_caller_b@ {
        Verdict::Rejected(Rejection::ExcludedCaller)
    } else {
        Verdict::Candidate
    }
}

/// Whether a call is selected: by the filter alone, or by the whole cascade.
pub open spec fn selected(call: CallTrace, cfg: ScoutConfig, classified: bool) -> bool {
    if classified {
        verdict_of(call, cfg) == Verdict::Candidate
    } else {
        passes_filter(call, cfg)
    }
}

/// The selected calls among the first `n` calls of transaction `t`, in order.
pub open spec fn selected_in_trx(
    calls: Seq<CallTrace>,
    cfg: ScoutConfig,
    classified: bool,
    t: usize,
    n: nat,
) -> Seq<CallRef>
    decreases n,
{
    if n == 0 {
        Seq::empty()
    } else {
        let before = selected_in_trx(calls, cfg, classified, t, (n - 1) as nat);
        if selected(calls[n - 1], cfg, classified) {
            before.push(CallRef { trx: t, call: (n - 1) as usize })
        } else {
            before
        }
    }
}

/// The selected calls of the first `n` transactions, in order.
pub open spec fn selected_in_block(
    trxs: Seq<TransactionTrace>,
    cfg: ScoutConfig,
    classified: bool,
    n: nat,
) -> Seq<CallRef>
    decreases n,
{
    if n == 0 {
        Seq::empty()
    } else {
        selected_in_block(trxs, cfg, classified, (n - 1) as nat) + selected_in_trx(
            trxs[n - 1].calls@,
            cfg,
            classified,
            (n - 1) as usize,
            trxs[n - 1].calls@.len(),
        )
    }
}

/// Whether a position names a call of the block.
pub open spec fn in_block(r: CallRef, trxs: Seq<TransactionTrace>) -> bool {
    r.trx < trxs.len() && r.call < trxs[r.trx as int].calls@.len()
}

/// The addresses of the calls that the classifier accepts, in the order of
/// the block.
pub open spec fn candidate_addresses_of(block: Block, cfg: ScoutConfig) -> Seq<Seq<u8>> {
    selected_in_block(block.transactions@, cfg, true, block.transactions@.len()).map_values(
        |r: CallRef| block.transactions@[r.trx as int].calls@[r.call as int].address@,
    )
}

/// The code installed by some of the records is no more than that of all.
pub proof fn lemma_total_new_code_prefix(changes: Seq<CodeChange>, k: int)
    requires
        0 <= k <= changes.len(),
    ensures
        total_new_code(changes.subrange(0, k)) <= total_new_code(changes),
    decreases changes.len(),
{
    if k == changes.len() {
        assert(changes.subrange(0, k) =~= changes);
    } else {
        lemma_total_new_code_prefix(changes.drop_last(), k);
        assert(changes.drop_last().subrange(0, k) =~= changes.subrange(0, k));
    }
}

/// Whether a call installed more code than `limit` bytes.
pub fn installs_more_than(changes: &Vec<CodeChange>, limit: usize) -> (r: bool)
    ensures
        r == (total_new_code(changes@) > limit),
{
    let mut acc: usize = 0;
    let mut i: usize = 0;
    assert(changes@.subrange(0, 0).len() == 0);
    while i < changes.len()
        invariant
            i <= changes.len(),
            acc as nat == total_new_code(changes@.subrange(0, i as int)),
            acc <= limit,
        decreases changes.len() - i,
    {
        let len: usize = changes[i].new_code_len;
        proof {
            let w = changes@.subrange(0, i + 1);
            assert(w.drop_last() =~= changes@.subrange(0, i as int));
            assert(w.last() == changes@[i as int]);
            lemma_total_new_code_prefix(changes@, i + 1);
        }
        if len > limit - acc {
            return true;
        }
        acc = acc + len;
        i += 1;
    }
    assert(changes@.subrange(0, i as int) =~= changes@);
    false
}

/// Tests `selector_matches`.
pub fn input_has_selector(input: &Vec<u8>, selector: &Vec<u8>) -> (r: bool)
    ensures
        r == selector_matches(input@, selector@),
{
    if selector.len() != 4 {
        assert(input@.len() >= 4 ==> input@.subrange(0, 4).len() == 4);
        return false;
    }
    starts_with(input, selector)
}

/// The trace filter on one call.
pub fn call_passes_filter(call: &CallTrace, cfg: &ScoutConfig) -> (r: bool)
    ensures
        r == passes_filter(*call, *cfg),
{
    if call.reverted {
        return false;
    }
    match call.kind {
        CallKind::Create => true,
        CallKind::Call => input_has_selector(&call.input, &cfg.init_selector),
        CallKind::Other => false,
    }
}

/// Classifies one call: a candidate, or the first reason against it.
pub fn classify(call: &CallTrace, cfg: &ScoutConfig) -> (r: Verdict)
    ensures
        r == verdict_of(*call, *cfg),
{
    if call.reverted {
        return Verdict::Rejected(Rejection::Reverted);
    }
    match call.kind {
        CallKind::Other => {
            return Verdict::Rejected(Rejection::OtherKind);
        },
        CallKind::Call => {
            if !input_has_selector(&call.input, &cfg.init_selector) {
                return Verdict::Rejected(Rejection::NotInitialization);
            }
        },
        CallKind::Create => {
            if !installs_more_than(&call.code_changes, cfg.small_code_limit) {
                return Verdict::Rejected(Rejection::CodeTooSmall);
            }
        },
    }
    if bytes_equal(&call.caller, &cfg.excluded_caller_a) || bytes_equal(
        &call.caller,
        &cfg.excluded_caller_b,
    ) {
        return Verdict::Rejected(Rejection::ExcludedCaller);
    }
    Verdict::Candidate
}

fn select_calls(block: &Block, cfg: &ScoutConfig, classified: bool) -> (r: Vec<CallRef>)
    ensures
        r@ == selected_in_block(
            block.transactions@,
            *cfg,
            classified,
            block.transactions@.len(),
        ),
        forall|k: int| 0 <= k < r@.len() ==> in_block(#[trigger] r@[k], block.transactions@),
{
    let mut out: Vec<CallRef> = Vec::new();
    let mut t: usize = 0;
    while t < block.transactions.len()
        invariant
            t <= block.transactions.len(),
            out@ == selected_in_block(block.transactions@, *cfg, classified, t as nat),
            forall|k: int| 0 <= k < out@.len() ==> in_block(#[trigger] out@[k], block.transactions@),
        decreases block.transactions.len() - t,
    {
        let calls = &block.transactions[t].calls;
        let ghost base = out@;
        let mut c: usize = 0;
        while c < calls.len()
            invariant
                c <= calls.len(),
                t < block.transactions.len(),
                calls == &block.transactions@[t as int].calls,
                forall|k: int|
                    0 <= k < out@.len() ==> in_block(#[trigger] out@[k], block.transactions@),
                out@ == base + selected_in_trx(calls@, *cfg, classified, t, c as nat),
            decreases calls.len() - c,
        {
            let keep: bool = if classified {
                classify(&calls[c], cfg) == Verdict::Candidate
            } else {
                call_passes_filter(&calls[c], cfg)
            };
            if keep {
                out.push(CallRef { trx: t, call: c });
            }
            assert(out@ =~= base + selected_in_trx(calls@, *cfg, classified, t, (c + 1) as nat));
            c += 1;
        }
        t += 1;
    }
    out
}

/// The trace filter on a block: the positions of the calls that pass it, in
/// the order of the block.
pub fn filter_calls(block: &Block, cfg: &ScoutConfig) -> (r: Vec<CallRef>)
    ensures
        r@ == selected_in_block(block.transactions@, *cfg, false, block.transactions@.len()),
        forall|k: int| 0 <= k < r@.len() ==> in_block(#[trigger] r@[k], block.transactions@),
{
    select_calls(block, cfg, false)
}

/// The positions of the calls that the classifier accepts, in the order of
/// the block.
pub fn candidate_calls(block: &Block, cfg: &ScoutConfig) -> (r: Vec<CallRef>)
    ensures
        r@ == selected_in_block(block.transactions@, *cfg, true, block.transactions@.len()),
        forall|k: int| 0 <= k < r@.len() ==> in_block(#[trigger] r@[k], block.transactions@),
{
    select_calls(block, cfg, true)
}

/// The addresses of the contracts to probe, in the order of the block.
pub fn candidate_addresses(block: &Block, cfg: &ScoutConfig) -> (r: Vec<Vec<u8>>)
    ensures
        r@.map_values(|a: Vec<u8>| a@) == candidate_addresses_of(*block, *cfg),
{
    let refs = candidate_calls(block, cfg);
    let mut out: Vec<Vec<u8>> = Vec::new();
    let mut i: usize = 0;
    while i < refs.len()
        invariant
            i <= refs.len(),
            forall|k: int| 0 <= k < refs@.len() ==> in_block(#[trigger] refs@[k], block.transactions@),
            out@.len() == i,
            forall|k: int|
                0 <= k < i ==> (#[trigger] out@[k])@ == block.transactions@[refs@[k].trx as int].calls@[refs@[k].call as int].address@,
        decreases refs.len() - i,
    {
        let at: CallRef = refs[i];
        assert(in_block(refs@[i as int], block.transactions@));
        out.push(copy_bytes(&block.transactions[at.trx].calls[at.call].address));
        i += 1;
    }
    assert(out@.map_values(|a: Vec<u8>| a@) =~= candidate_addresses_of(*block, *cfg));
    out
}

/// A call that the classifier accepts has passed the trace filter.
pub proof fn lemma_candidate_passes_filter(call: CallTrace, cfg: ScoutConfig)
    requires
        verdict_of(call, cfg) == Verdict::Candidate,
    ensures
        passes_filter(call, cfg),
{
}

/// A creation is a candidate only if it installed more code than the limit:
/// at the limit itself it is dropped.
pub proof fn lemma_small_creation_rejected(call: CallTrace, cfg: ScoutConfig)
    requires
        call.kind == CallKind::Create,
        total_new_code(call.code_changes@) <= cfg.small_code_limit,
    ensures
        verdict_of(call, cfg) != Verdict::Candidate,
        !call.reverted ==> verdict_of(call, cfg) == Verdict::Rejected(Rejection::CodeTooSmall),
{
}

/// A creation that was not reverted, installed more code than the limit and
/// was not made by an excluded factory is a candidate.
pub proof fn lemma_large_creation_retained(call: CallTrace, cfg: ScoutConfig)
    requires
        call.kind == CallKind::Create,
        !call.reverted,
        total_new_code(call.code_changes@) > cfg.small_code_limit,
        call.caller@ != cfg.excluded_caller_a@,
        call.caller@ != cfg.excluded_caller_b@,
    ensures
        verdict_of(call, cfg) == Verdict::Candidate,
{
}

/// A message whose first four input bytes are not the initialisation
/// selector is never a candidate, whatever code it installed.
pub proof fn lemma_unmatched_message_rejected(call: CallTrace, cfg: ScoutConfig)
    requires
        call.kind == CallKind::Call,
        !selector_matches(call.input@, cfg.init_selector@),
    ensures
        verdict_of(call, cfg) != Verdict::Candidate,
        !passes_filter(call, cfg),
{
}

/// A call made by one of the two excluded factories is never a candidate.
pub proof fn lemma_excluded_caller_rejected(call: CallTrace, cfg: ScoutConfig)
    requires
        call.caller@ == cfg.excluded_caller_a@ || call.caller@ == cfg.excluded_caller_b@,
    ensures
        verdict_of(call, cfg) != Verdict::Candidate,
{
}

} // verus!
