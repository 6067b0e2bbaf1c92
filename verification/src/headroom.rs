//! The largest record that a turn may have to store. It sizes the store before
//! any work is admitted; it is never stored itself.
use crate::commit;
use crate::cost::CostTuple;
use crate::evidence::{
    CostProvenance, DebitApplication, DefinitePhase, HolderId, InfrastructureFailureClass,
    JournalProjection, MarkerProjection, OutputAdmission, ProviderEvidence, ReceiptCandidate,
    RollbackStatus, RoundObligation, SettlementDecision, SettlementPhase, SettlementProblem,
    ToolEffect, ToolEvidence, TurnObligation, TurnTerminal, UsageSnapshot,
};
use crate::ids::{
    BudgetEpoch, ReceiptId, SessionId, SettlementId, Sha256Digest, TokenId, TurnId, UnixTsMillis,
};
use crate::settlement::MAX_RECEIPT_BYTES;
use crate::slot::{MAX_METADATA_BYTES, MAX_ROUNDS, MAX_TOOLS_PER_ROUND};
use crate::slot_model;
use vstd::prelude::*;
use vstd::string::StringExecFns;

verus! {

/// The share of the largest cost that each probed tool takes.
pub const TOOL_SHARE: u64 = 1_000_000_000_000_000_000;

/// The same amount in every dimension.
pub open spec fn even_cost(n: u64) -> CostTuple {
    CostTuple { tokens_in: n, tokens_out: n, cents: n, wall_ms: n, attention_score: n }
}

fn even(n: u64) -> (r: CostTuple)
    ensures
        r == even_cost(n),
{
    CostTuple { tokens_in: n, tokens_out: n, cents: n, wall_ms: n, attention_score: n }
}

/// `n` copies of one character.
pub open spec fn run_of(c: char, n: nat) -> Seq<char> {
    Seq::new(n, |i: int| c)
}

fn repeated(unit: &str, n: usize) -> (r: String)
    requires
        unit@.len() == 1,
    ensures
        r@ == run_of(unit@[0], n as nat),
{
    let mut r = String::new();
    let mut i: usize = 0;
    assert(r@ =~= run_of(unit@[0], 0));
    while i < n
        invariant
            unit@.len() == 1,
            i <= n,
            r@ == run_of(unit@[0], i as nat),
        decreases n - i,
    {
        r.append(unit);
        assert(run_of(unit@[0], i as nat) + unit@ =~= run_of(unit@[0], (i + 1) as nat));
        i += 1;
    }
    r
}

/// A compact receipt of the largest size, in three dotted parts.
pub open spec fn widest_receipt() -> Seq<char> {
    seq!['a', '.'] + run_of('a', (MAX_RECEIPT_BYTES - 4) as nat) + seq!['.', 'a']
}

/// A label of the largest size that escapes to twice its size.
pub open spec fn widest_label() -> Seq<char> {
    run_of('"', MAX_METADATA_BYTES as nat)
}

fn widest_receipt_text() -> (r: String)
    ensures
        r@ == widest_receipt(),
{
    proof {
        reveal_strlit("a");
        reveal_strlit("a.");
        reveal_strlit(".a");
    }
    let mut r = String::new();
    r.append("a.");
    let body = repeated("a", MAX_RECEIPT_BYTES - 4);
    r.append(body.as_str());
    r.append(".a");
    assert(r@ =~= widest_receipt());
    r
}

fn widest_label_text() -> (r: String)
    ensures
        r@ == widest_label(),
{
    proof {
        reveal_strlit("\"");
    }
    repeated("\"", MAX_METADATA_BYTES)
}

/// A tool as the probe has it.
pub open spec fn probed_tool(tool: ToolEvidence, ordinal: int, digest: Sha256Digest) -> bool {
    &&& tool.ordinal == ordinal
    &&& tool.call_id@ == widest_label()
    &&& tool.name@ == widest_label()
    &&& tool.arguments_digest == digest
    &&& tool.effect == (ToolEffect::Completed { output_digest: digest, cost: even_cost(TOOL_SHARE) })
    &&& tool.output_admission is NotScanned
}

/// The provider's part of the largest cost.
pub open spec fn probed_provider_cost() -> CostTuple {
    even_cost((u64::MAX - MAX_TOOLS_PER_ROUND * TOOL_SHARE) as u64)
}

/// A receipt candidate as the probe has it: the widest receipt there is.
pub open spec fn probed_candidate(
    candidate: ReceiptCandidate,
    base: u128,
    digest: Sha256Digest,
) -> bool {
    &&& candidate.receipt_id == ReceiptId(base)
    &&& candidate.expected_parent == Some(digest)
    &&& candidate.expected_log_end == u64::MAX
    &&& candidate.jws_compact@ == widest_receipt()
    &&& candidate.jws_digest == commit::jws_digest(widest_receipt())
}

/// A round as the probe has it: as many tools as allowed, the widest labels
/// and numbers, and an unresolved phase that carries a receipt candidate.
pub open spec fn probed_round(
    round: crate::evidence::RoundModel,
    ordinal: int,
    epoch: BudgetEpoch,
    base: u128,
    digest: Sha256Digest,
) -> bool {
    &&& round.ordinal == ordinal
    &&& round.settlement_id == SettlementId(base.wrapping_add((6 + 3 * ordinal) as u128))
    &&& round.provider_request_id == base.wrapping_add((7 + 3 * ordinal) as u128)
    &&& round.request_digest == digest
    &&& round.provider@ == widest_label()
    &&& round.model@ == widest_label()
    &&& round.reserved == even_cost(u64::MAX)
    &&& round.tools.len() == MAX_TOOLS_PER_ROUND
    &&& forall|i: int| 0 <= i < round.tools.len() ==> probed_tool(#[trigger] round.tools[i], i, digest)
    &&& round.provider_evidence == (ProviderEvidence::Observed {
        usage: Some(UsageSnapshot { input_tokens: u64::MAX, output_tokens: u64::MAX }),
        cost: probed_provider_cost(),
        provenance: CostProvenance::PricedUsage(digest),
        finished: false,
        interrupted: false,
    })
    &&& round.known_incurred == even_cost(u64::MAX)
    &&& round.decision == Some(
        SettlementDecision::InfrastructureFailure(InfrastructureFailureClass::Provider),
    )
    &&& round.commit_ordinal == Some(u64::MAX)
    &&& round.projection == JournalProjection::Acknowledged(
        base.wrapping_add((8 + 3 * ordinal) as u128),
    )
    &&& round.phase matches SettlementPhase::Unresolved {
        last_definite,
        problem,
        application,
        candidate,
    } && last_definite is WorkObserved && problem is PriorEpochApplicationUnknown && application
        == Some(
        DebitApplication {
            epoch,
            requested_debit: even_cost(u64::MAX),
            applied_debit: even_cost(u64::MAX),
            reserved_credit: even_cost((u64::MAX - 1) as u64),
            additional_debit: even_cost((u64::MAX - 1) as u64),
            shortfall: CostTuple::zero(),
            rollback: RollbackStatus::Applied(even_cost(u64::MAX)),
        },
    ) && candidate is Some && probed_candidate(candidate->0, base, digest)
}

fn probe_tools(digest: Sha256Digest) -> (r: Vec<ToolEvidence>)
    ensures
        r@.len() == MAX_TOOLS_PER_ROUND,
        forall|i: int| 0 <= i < r@.len() ==> probed_tool(#[trigger] r@[i], i, digest),
{
    let mut r: Vec<ToolEvidence> = Vec::new();
    let mut n: u32 = 0;
    while (n as usize) < MAX_TOOLS_PER_ROUND
        invariant
            n <= MAX_TOOLS_PER_ROUND,
            r@.len() == n,
            forall|i: int| 0 <= i < r@.len() ==> probed_tool(#[trigger] r@[i], i, digest),
        decreases MAX_TOOLS_PER_ROUND - n,
    {
        r.push(
            ToolEvidence {
                ordinal: n,
                call_id: widest_label_text(),
                name: widest_label_text(),
                arguments_digest: digest,
                effect: ToolEffect::Completed { output_digest: digest, cost: even(TOOL_SHARE) },
                output_admission: OutputAdmission::NotScanned,
            },
        );
        n += 1;
    }
    r
}

/// The largest turn: as many rounds as allowed, each as large as allowed, and
/// a cancellation marker of its own. The identifiers are counted from `base`.
pub fn headroom_probe(base: u128) -> (r: TurnObligation)
    ensures
        r@.rounds.len() == MAX_ROUNDS,
        forall|i: int|
            0 <= i < r@.rounds.len() ==> probed_round(
                #[trigger] r@.rounds[i],
                i,
                r.budget_epoch,
                base,
                commit::jws_digest("capacity"@),
            ),
        r.turn_id == TurnId(base.wrapping_add(2)),
        r.budget_epoch == BudgetEpoch(base.wrapping_add(1)),
        r.request_session == SessionId(base.wrapping_add(3)),
        r.journal_owner == Some(SessionId(base.wrapping_add(4))),
        r.cap_token_id == TokenId(base.wrapping_add(5)),
        r.verified_subject.0@ == widest_label(),
        r.budget_holder.0@ == widest_label(),
        r.started_at == UnixTsMillis(u64::MAX),
        r.terminal == TurnTerminal::Unresolved(SettlementProblem::PriorEpochApplicationUnknown),
        r.cancellation_marker matches MarkerProjection::Prepared(c) && probed_candidate(
            c,
            base,
            commit::jws_digest("capacity"@),
        ),
{
    let digest = Sha256Digest::of_text("capacity");
    let maximum = even(u64::MAX);
    let provider_cost = even(u64::MAX - (MAX_TOOLS_PER_ROUND as u64) * TOOL_SHARE);
    let text = widest_receipt_text();
    let candidate = ReceiptCandidate {
        receipt_id: ReceiptId(base),
        expected_parent: Some(digest),
        expected_log_end: u64::MAX,
        jws_digest: Sha256Digest::of_text(text.as_str()),
        jws_compact: text,
    };
    let epoch = BudgetEpoch(base.wrapping_add(1));
    let mut turn = TurnObligation {
        turn_id: TurnId(base.wrapping_add(2)),
        budget_epoch: epoch,
        request_session: SessionId(base.wrapping_add(3)),
        journal_owner: Some(SessionId(base.wrapping_add(4))),
        verified_subject: HolderId(widest_label_text()),
        budget_holder: HolderId(widest_label_text()),
        cap_token_id: TokenId(base.wrapping_add(5)),
        started_at: UnixTsMillis(u64::MAX),
        rounds: Vec::new(),
        terminal: TurnTerminal::Unresolved(SettlementProblem::PriorEpochApplicationUnknown),
        cancellation_marker: MarkerProjection::Prepared(candidate.clone()),
    };
    let mut index: u32 = 0;
    while (index as usize) < MAX_ROUNDS
        invariant
            index <= MAX_ROUNDS,
            turn@.rounds.len() == index,
            forall|i: int|
                0 <= i < turn@.rounds.len() ==> probed_round(
                    #[trigger] turn@.rounds[i],
                    i,
                    epoch,
                    base,
                    digest,
                ),
            maximum == even_cost(u64::MAX),
            provider_cost == probed_provider_cost(),
            probed_candidate(candidate, base, digest),
            turn.turn_id == TurnId(base.wrapping_add(2)),
            turn.budget_epoch == epoch,
            turn.request_session == SessionId(base.wrapping_add(3)),
            turn.journal_owner == Some(SessionId(base.wrapping_add(4))),
            turn.cap_token_id == TokenId(base.wrapping_add(5)),
            turn.verified_subject.0@ == widest_label(),
            turn.budget_holder.0@ == widest_label(),
            turn.started_at == UnixTsMillis(u64::MAX),
            turn.terminal == TurnTerminal::Unresolved(
                SettlementProblem::PriorEpochApplicationUnknown,
            ),
            turn.cancellation_marker matches MarkerProjection::Prepared(c) && probed_candidate(
                c,
                base,
                digest,
            ),
        decreases MAX_ROUNDS - index,
    {
        let offset: u128 = 6 + 3 * (index as u128);
        let round = RoundObligation {
            settlement_id: SettlementId(base.wrapping_add(offset)),
            ordinal: index,
            provider_request_id: base.wrapping_add(offset + 1),
            provider: widest_label_text(),
            model: widest_label_text(),
            request_digest: digest,
            reserved: maximum,
            provider_evidence: ProviderEvidence::Observed {
                usage: Some(UsageSnapshot { input_tokens: u64::MAX, output_tokens: u64::MAX }),
                cost: provider_cost,
                provenance: CostProvenance::PricedUsage(digest),
                finished: false,
                interrupted: false,
            },
            tools: probe_tools(digest),
            known_incurred: maximum,
            decision: Some(
                SettlementDecision::InfrastructureFailure(InfrastructureFailureClass::Provider),
            ),
            phase: SettlementPhase::Unresolved {
                last_definite: DefinitePhase::WorkObserved,
                problem: SettlementProblem::PriorEpochApplicationUnknown,
                application: Some(
                    DebitApplication {
                        epoch,
                        requested_debit: maximum,
                        applied_debit: maximum,
                        reserved_credit: even(u64::MAX - 1),
                        additional_debit: even(u64::MAX - 1),
                        shortfall: CostTuple::zero(),
                        rollback: RollbackStatus::Applied(maximum),
                    },
                ),
                candidate: Some(candidate.clone()),
            },
            commit_ordinal: Some(u64::MAX),
            projection: JournalProjection::Acknowledged(base.wrapping_add(offset + 2)),
        };
        turn.push_round(round);
        index += 1;
    }
    turn
}

/// The probe's parts add up: the provider's cost and the tools' shares are the
/// known cost, exactly the largest there is.
pub proof fn law_probe_costs_add_up(tools: Seq<ToolEvidence>, digest: Sha256Digest)
    requires
        tools.len() == MAX_TOOLS_PER_ROUND,
        forall|i: int| 0 <= i < tools.len() ==> probed_tool(#[trigger] tools[i], i, digest),
    ensures
        slot_model::known_cost(probed_provider_cost(), tools) == Some(even_cost(u64::MAX)),
{
    lemma_probe_prefix(tools, digest, 8);
    assert(tools.take(8) =~= tools);
}

proof fn lemma_probe_prefix(tools: Seq<ToolEvidence>, digest: Sha256Digest, n: int)
    requires
        tools.len() == MAX_TOOLS_PER_ROUND,
        forall|i: int| 0 <= i < tools.len() ==> probed_tool(#[trigger] tools[i], i, digest),
        0 <= n <= 8,
    ensures
        slot_model::known_cost(probed_provider_cost(), tools.take(n)) == Some(
            even_cost((u64::MAX - (8 - n) * TOOL_SHARE) as u64),
        ),
    decreases n,
{
    if n > 0 {
        lemma_probe_prefix(tools, digest, n - 1);
        assert(tools.take(n).drop_last() =~= tools.take(n - 1));
        assert(probed_tool(tools[n - 1], n - 1, digest));
    }
}

/// The probe's texts are as large as any that is admitted: the receipt has
/// three parts and fills its bound, and a label fills its own with characters
/// that are escaped.
pub proof fn law_the_widest_texts_fill_their_bounds()
    ensures
        widest_receipt().len() == MAX_RECEIPT_BYTES,
        widest_label().len() == MAX_METADATA_BYTES,
        forall|i: int| 0 <= i < widest_label().len() ==> #[trigger] widest_label()[i] == '"',
        crate::encoding::middle_segment(widest_receipt()) matches Some(payload) && payload.len()
            == MAX_RECEIPT_BYTES - 4,
{
    let middle = run_of('a', (MAX_RECEIPT_BYTES - 4) as nat);
    let whole = seq!['a'] + seq!['.'] + middle + seq!['.'] + seq!['a'];
    assert(widest_receipt() =~= whole);
    crate::encoding::law_the_middle_of_three_is_the_payload(seq!['a'], middle, seq!['a']);
}

} // verus!
