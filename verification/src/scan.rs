//! The scan of one block for token contracts, as a state machine.
//!
//! The scan holds the candidates of the block and probes them one after the
//! other. Its user sends the requests that `pending_requests` gives and hands
//! the responses to `resume`, until the scan is finished.

use crate::bytes::copy_bytes;
use crate::config::ScoutConfig;
use crate::probe::{
    assemble_token, check_decimals, create_rpc_calls, decimals_outcome, probe_outcome,
    request_views, token_outcome, Abandonment, RpcCallResult, RpcRequest, Token, TokenView,
};
use crate::trace::{candidate_addresses, candidate_addresses_of, Block};
use vstd::prelude::*;

verus! {

/// What the scan waits for.
#[derive(Clone, Copy, Debug, PartialEq, Eq, Structural)]
pub enum Awaiting {
    /// The answer to the decimals call of the current candidate.
    Decimals,
    /// The answers to the name and symbol calls of the current candidate.
    NameSymbol { decimals: u32 },
    /// Nothing: every candidate has been dealt with.
    Nothing,
}

/// What a step of the scan did.
#[derive(Clone, Copy, Debug, PartialEq, Eq, Structural)]
pub enum Progress {
    /// The decimals are known; the candidate is probed further.
    Continued,
    /// The candidate became a token.
    Emitted,
    /// The candidate was given up.
    Abandoned(Abandonment),
    /// The scan was finished already.
    Idle,
}

/// A failure that stops the scan of the block.
#[derive(Clone, Copy, Debug, PartialEq, Eq, Structural)]
pub enum ScanError {
    /// Fewer responses came than requests were sent.
    MissingResponse,
}

/// The scan of one block.
#[derive(Clone, Debug, PartialEq, Eq)]
pub struct TokenScan {
    /// Addresses of the candidates, in the order of the block.
    candidates: Vec<Vec<u8>>,
    /// Index of the current candidate.
    position: usize,
    awaiting: Awaiting,
    /// The tokens found so far.
    tokens: Vec<Token>,
}

/// A scan as plain values.
pub struct ScanView {
    /// Addresses of the candidates, in the order of the block.
    pub candidates: Seq<Seq<u8>>,
    /// Index of the current candidate.
    pub position: nat,
    pub awaiting: Awaiting,
    /// The tokens found so far.
    pub tokens: Seq<TokenView>,
}

/// Whether a scan has a current candidate exactly as long as it waits for
/// something.
pub open spec fn consistent(v: ScanView) -> bool {
    &&& v.position <= v.candidates.len()
    &&& (v.awaiting == Awaiting::Nothing) == (v.position == v.candidates.len())
}

impl View for TokenScan {
    type V = ScanView;

    closed spec fn view(&self) -> ScanView {
        ScanView {
            candidates: self.candidates@.map_values(|a: Vec<u8>| a@),
            position: self.position as nat,
            awaiting: self.awaiting,
            tokens: self.tokens@.map_values(|t: Token| t@),
        }
    }
}

/// How many responses a step needs.
pub open spec fn responses_needed(awaiting: Awaiting) -> nat {
    match awaiting {
        Awaiting::Decimals => 1,
        Awaiting::NameSymbol { .. } => 2,
        Awaiting::Nothing => 0,
    }
}

/// The scan after the current candidate has been dealt with.
pub open spec fn advanced(v: ScanView, tokens: Seq<TokenView>) -> ScanView {
    ScanView {
        candidates: v.candidates,
        position: v.position + 1,
        awaiting: if v.position + 1 < v.candidates.len() {
            Awaiting::Decimals
        } else {
            Awaiting::Nothing
        },
        tokens,
    }
}

/// The scan after a step on the given responses. The name is the first
/// response of its batch and the symbol the second.
pub open spec fn step(v: ScanView, responses: Seq<RpcCallResult>) -> ScanView {
    match v.awaiting {
        Awaiting::Nothing => v,
        Awaiting::Decimals => match decimals_outcome(responses[0]) {
            Ok(d) => ScanView {
                candidates: v.candidates,
                position: v.position,
                awaiting: Awaiting::NameSymbol { decimals: d },
                tokens: v.tokens,
            },
            Err(_) => advanced(v, v.tokens),
        },
        Awaiting::NameSymbol { decimals } => match token_outcome(
            v.candidates[v.position as int],
            decimals,
            responses[0],
            responses[1],
        ) {
            Ok(t) => advanced(v, v.tokens.push(t)),
            Err(_) => advanced(v, v.tokens),
        },
    }
}

/// What a step on the given responses reports.
pub open spec fn progress_of(v: ScanView, responses: Seq<RpcCallResult>) -> Progress {
    match v.awaiting {
        Awaiting::Nothing => Progress::Idle,
        Awaiting::Decimals => match decimals_outcome(responses[0]) {
            Ok(_) => Progress::Continued,
            Err(a) => Progress::Abandoned(a),
        },
        Awaiting::NameSymbol { decimals } => match token_outcome(
            v.candidates[v.position as int],
            decimals,
            responses[0],
            responses[1],
        ) {
            Ok(_) => Progress::Emitted,
            Err(a) => Progress::Abandoned(a),
        },
    }
}

/// The requests that a scan wants sent, as plain values: one for the
/// decimals, or one for the name and then one for the symbol.
pub open spec fn pending_of(v: ScanView, cfg: ScoutConfig) -> Seq<(Seq<u8>, Seq<u8>)> {
    match v.awaiting {
        Awaiting::Nothing => Seq::empty(),
        Awaiting::Decimals => seq![(v.candidates[v.position as int], cfg.decimals_selector@)],
        Awaiting::NameSymbol { .. } => seq![
            (v.candidates[v.position as int], cfg.name_selector@),
            (v.candidates[v.position as int], cfg.symbol_selector@),
        ],
    }
}

/// The scan after the current candidate has been probed with the three
/// answers: the decimals first, and the name and symbol only if the decimals
/// were good.
pub open spec fn probed(
    v: ScanView,
    decimals: RpcCallResult,
    name: RpcCallResult,
    symbol: RpcCallResult,
) -> ScanView {
    let after = step(v, seq![decimals]);
    if after.position == v.position {
        step(after, seq![name, symbol])
    } else {
        after
    }
}

/// Probing a candidate adds its token to the tokens found exactly when the
/// three answers make one, and adds nothing else; either way the scan moves
/// on to the next candidate.
pub proof fn lemma_probe_emits_iff_token(
    v: ScanView,
    decimals: RpcCallResult,
    name: RpcCallResult,
    symbol: RpcCallResult,
)
    requires
        v.awaiting == Awaiting::Decimals,
        v.position < v.candidates.len(),
    ensures
        probed(v, decimals, name, symbol) == advanced(
            v,
            match probe_outcome(v.candidates[v.position as int], decimals, name, symbol) {
                Ok(t) => v.tokens.push(t),
                Err(_) => v.tokens,
            },
        ),
{
    let after = step(v, seq![decimals]);
    assert(seq![decimals][0] == decimals);
    assert(seq![name, symbol][0] == name);
    assert(seq![name, symbol][1] == symbol);
}

/// A scan that has just been started: it stands at the first candidate and
/// has found nothing yet.
pub open spec fn fresh(v: ScanView) -> bool {
    &&& v.position == 0
    &&& v.tokens.len() == 0
    &&& v.awaiting == (if v.candidates.len() > 0 {
        Awaiting::Decimals
    } else {
        Awaiting::Nothing
    })
}

/// The scan after its next `n` candidates have been probed, candidate `i`
/// with the three answers at index `i`.
pub open spec fn probed_through(
    v: ScanView,
    answers: Seq<(RpcCallResult, RpcCallResult, RpcCallResult)>,
    n: nat,
) -> ScanView
    decreases n,
{
    if n == 0 {
        v
    } else {
        probed(
            probed_through(v, answers, (n - 1) as nat),
            answers[n - 1].0,
            answers[n - 1].1,
            answers[n - 1].2,
        )
    }
}

/// The tokens among the first `n` candidates, in their order: one for each
/// candidate whose three answers make a token.
pub open spec fn tokens_among(
    candidates: Seq<Seq<u8>>,
    answers: Seq<(RpcCallResult, RpcCallResult, RpcCallResult)>,
    n: nat,
) -> Seq<TokenView>
    decreases n,
{
    if n == 0 {
        Seq::empty()
    } else {
        let before = tokens_among(candidates, answers, (n - 1) as nat);
        match probe_outcome(candidates[n - 1], answers[n - 1].0, answers[n - 1].1, answers[n - 1].2) {
            Ok(t) => before.push(t),
            Err(_) => before,
        }
    }
}

/// A scan that probes its candidates one after the other finds exactly the
/// tokens among them, in the order of the candidates, and is finished when
/// the last candidate has been probed.
pub proof fn lemma_scan_finds_the_tokens(
    v: ScanView,
    answers: Seq<(RpcCallResult, RpcCallResult, RpcCallResult)>,
    n: nat,
)
    requires
        fresh(v),
        n <= v.candidates.len(),
        n <= answers.len(),
    ensures
        probed_through(v, answers, n).candidates == v.candidates,
        probed_through(v, answers, n).position == n,
        probed_through(v, answers, n).tokens == tokens_among(v.candidates, answers, n),
        probed_through(v, answers, n).awaiting == (if n < v.candidates.len() {
            Awaiting::Decimals
        } else {
            Awaiting::Nothing
        }),
    decreases n,
{
    if n == 0 {
        assert(v.tokens =~= Seq::<TokenView>::empty());
    } else {
        lemma_scan_finds_the_tokens(v, answers, (n - 1) as nat);
        let w = probed_through(v, answers, (n - 1) as nat);
        lemma_probe_emits_iff_token(w, answers[n - 1].0, answers[n - 1].1, answers[n - 1].2);
    }
}

/// An upper bound on the steps that a scan still takes: two for each
/// candidate not yet dealt with, less one where the decimals are known.
pub open spec fn steps_left(v: ScanView) -> int {
    2 * (v.candidates.len() - v.position) - (if v.awaiting is NameSymbol {
        1int
    } else {
        0int
    })
}

/// Every step of an unfinished scan brings it nearer to its end, whatever
/// the responses are, and leaves it consistent.
pub proof fn lemma_step_progress(v: ScanView, responses: Seq<RpcCallResult>)
    requires
        consistent(v),
        v.awaiting != Awaiting::Nothing,
    ensures
        consistent(step(v, responses)),
        0 <= steps_left(step(v, responses)) < steps_left(v),
{
}

impl TokenScan {
    /// The invariant of a scan: `consistent`, within the limits of the machine.
    pub closed spec fn well_formed(&self) -> bool {
        &&& self.position <= self.candidates@.len()
        &&& (self.awaiting == Awaiting::Nothing) == (self.position == self.candidates@.len())
    }

    /// A well-formed scan is consistent.
    pub proof fn lemma_well_formed_consistent(&self)
        requires
            self.well_formed(),
        ensures
            consistent(self@),
    {
    }

    /// Starts the scan of a block: finds its candidates and waits for the
    /// decimals of the first.
    pub fn start(block: &Block, cfg: &ScoutConfig) -> (scan: TokenScan)
        ensures
            scan.well_formed(),
            scan@.candidates == candidate_addresses_of(*block, *cfg),
            fresh(scan@),
    {
        let candidates = candidate_addresses(block, cfg);
        let awaiting = if candidates.len() > 0 {
            Awaiting::Decimals
        } else {
            Awaiting::Nothing
        };
        TokenScan { candidates, position: 0, awaiting, tokens: Vec::new() }
    }

    /// Whether every candidate has been dealt with.
    pub fn is_finished(&self) -> (r: bool)
        ensures
            r == (self@.awaiting == Awaiting::Nothing),
    {
        self.awaiting == Awaiting::Nothing
    }

    /// The requests to send next, as one batch. A finished scan wants none.
    pub fn pending_requests(&self, cfg: &ScoutConfig) -> (r: Vec<RpcRequest>)
        requires
            self.well_formed(),
        ensures
            request_views(r@) == pending_of(self@, *cfg),
    {
        match self.awaiting {
            Awaiting::Nothing => {
                let r: Vec<RpcRequest> = Vec::new();
                assert(request_views(r@) =~= pending_of(self@, *cfg));
                r
            },
            Awaiting::Decimals => {
                let mut selectors: Vec<Vec<u8>> = Vec::new();
                selectors.push(copy_bytes(&cfg.decimals_selector));
                let r = create_rpc_calls(&self.candidates[self.position], &selectors);
                assert(request_views(r@) =~= pending_of(self@, *cfg));
                r
            },
            Awaiting::NameSymbol { .. } => {
                let mut selectors: Vec<Vec<u8>> = Vec::new();
                selectors.push(copy_bytes(&cfg.name_selector));
                selectors.push(copy_bytes(&cfg.symbol_selector));
                let r = create_rpc_calls(&self.candidates[self.position], &selectors);
                assert(request_views(r@) =~= pending_of(self@, *cfg));
                r
            },
        }
    }

    fn advance(&mut self)
        requires
            old(self).well_formed(),
            old(self).position < old(self).candidates@.len(),
        ensures
            final(self).well_formed(),
            final(self)@ == advanced(old(self)@, old(self)@.tokens),
    {
        let count: usize = self.candidates.len();
        self.position = self.position + 1;
        self.awaiting = if self.position < count {
            Awaiting::Decimals
        } else {
            Awaiting::Nothing
        };
    }

    /// Takes the responses to the pending requests, in the order of the
    /// requests, and moves on. With fewer responses than requests the scan
    /// fails and stays as it was.
    pub fn resume(&mut self, responses: &Vec<RpcCallResult>) -> (r: Result<Progress, ScanError>)
        requires
            old(self).well_formed(),
        ensures
            final(self).well_formed(),
            match r {
                Ok(p) => responses@.len() >= responses_needed(old(self)@.awaiting) && final(self)@
                    == step(old(self)@, responses@) && p == progress_of(old(self)@, responses@),
                Err(e) => e == ScanError::MissingResponse && responses@.len() < responses_needed(
                    old(self)@.awaiting,
                ) && *final(self) == *old(self),
            },
    {
        match self.awaiting {
            Awaiting::Nothing => Ok(Progress::Idle),
            Awaiting::Decimals => {
                if responses.len() < 1 {
                    return Err(ScanError::MissingResponse);
                }
                match check_decimals(&responses[0]) {
                    Ok(d) => {
                        self.awaiting = Awaiting::NameSymbol { decimals: d };
                        Ok(Progress::Continued)
                    },
                    Err(a) => {
                        self.advance();
                        Ok(Progress::Abandoned(a))
                    },
                }
            },
            Awaiting::NameSymbol { decimals } => {
                if responses.len() < 2 {
                    return Err(ScanError::MissingResponse);
                }
                match assemble_token(
                    &self.candidates[self.position],
                    decimals,
                    &responses[0],
                    &responses[1],
                ) {
                    Ok(t) => {
                        let ghost before = self.tokens@;
                        self.tokens.push(t);
                        assert(self.tokens@.map_values(|t: Token| t@) =~= before.map_values(
                            |t: Token| t@,
                        ).push(t@));
                        self.advance();
                        Ok(Progress::Emitted)
                    },
                    Err(a) => {
                        self.advance();
                        Ok(Progress::Abandoned(a))
                    },
                }
            },
        }
    }

    /// Index of the current candidate: the number of candidates dealt with.
    pub fn position(&self) -> (r: usize)
        ensures
            r == self@.position,
    {
        self.position
    }

    /// What the scan waits for.
    pub fn awaiting(&self) -> (r: Awaiting)
        ensures
            r == self@.awaiting,
    {
        self.awaiting
    }

    /// Ends the scan and hands out the tokens found, in the order of their
    /// candidates.
    pub fn into_tokens(self) -> (r: Vec<Token>)
        ensures
            r@.map_values(|t: Token| t@) == self@.tokens,
    {
        self.tokens
    }
}

} // verus!
