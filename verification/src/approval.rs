//! The approval gate: a call with a gated capability needs a human decision,
//! and one approval authorises one execution.
use crate::classify::Capability;
use crate::errors::RuntimeError;
use crate::turn::ApprovalAnswer;
use vstd::hash_set::StringHashSet;
use vstd::prelude::*;
use vstd::string::StringExecFns;

verus! {

/// How often a call tries to win an approval before it gives up.
pub const MAX_APPROVAL_ATTEMPTS: u8 = 3;

/// The first capability of a tool that is gated, from `from` on.
pub open spec fn first_gated(
    capabilities: Seq<Capability>,
    gated: Set<Seq<char>>,
    from: int,
) -> Option<int>
    decreases capabilities.len() - from,
{
    if from >= capabilities.len() {
        None
    } else if gated.contains(capabilities[from].label@) {
        Some(from)
    } else {
        first_gated(capabilities, gated, from + 1)
    }
}

/// The first capability of a tool that needs approval.
pub fn gated_capability(capabilities: &Vec<Capability>, gated: &StringHashSet) -> (r: Option<usize>)
    ensures
        match r {
            Some(i) => i < capabilities@.len() && first_gated(capabilities@, gated@, 0) == Some(
                i as int,
            ),
            None => first_gated(capabilities@, gated@, 0) is None,
        },
        r is None <==> forall|i: int|
            0 <= i < capabilities@.len() ==> !gated@.contains((#[trigger] capabilities@[i]).label@),
        r matches Some(i) ==> {
            &&& i < capabilities@.len()
            &&& gated@.contains(capabilities@[i as int].label@)
            &&& forall|k: int|
                0 <= k < i ==> !gated@.contains((#[trigger] capabilities@[k]).label@)
        },
{
    let mut i: usize = 0;
    while i < capabilities.len()
        invariant
            i <= capabilities@.len(),
            forall|k: int|
                0 <= k < i ==> !gated@.contains((#[trigger] capabilities@[k]).label@),
            first_gated(capabilities@, gated@, 0) == first_gated(
                capabilities@,
                gated@,
                i as int,
            ),
        decreases capabilities@.len() - i,
    {
        if gated.contains(capabilities[i].label.as_str()) {
            return Some(i);
        }
        i = i + 1;
    }
    None
}

/// A call needs approval exactly if some capability that its tool requires is
/// gated, wherever it stands among them, and the one that is named is the
/// first of them.
pub proof fn law_any_gated_capability_needs_approval(
    capabilities: Seq<Capability>,
    gated: Set<Seq<char>>,
)
    ensures
        first_gated(capabilities, gated, 0) is Some <==> exists|i: int|
            0 <= i < capabilities.len() && gated.contains((#[trigger] capabilities[i]).label@),
        first_gated(capabilities, gated, 0) matches Some(i) ==> {
            &&& 0 <= i < capabilities.len()
            &&& gated.contains(capabilities[i].label@)
            &&& forall|k: int|
                0 <= k < i ==> !gated.contains((#[trigger] capabilities[k]).label@)
        },
{
    lemma_first_gated(capabilities, gated, 0);
}

proof fn lemma_first_gated(capabilities: Seq<Capability>, gated: Set<Seq<char>>, from: int)
    requires
        0 <= from,
    ensures
        match first_gated(capabilities, gated, from) {
            Some(i) => {
                &&& from <= i < capabilities.len()
                &&& gated.contains(capabilities[i].label@)
                &&& forall|k: int|
                    from <= k < i ==> !gated.contains((#[trigger] capabilities[k]).label@)
            },
            None => forall|k: int|
                from <= k < capabilities.len() ==> !gated.contains(
                    (#[trigger] capabilities[k]).label@,
                ),
        },
    decreases capabilities.len() - from,
{
    if from < capabilities.len() && !gated.contains(capabilities[from].label@) {
        lemma_first_gated(capabilities, gated, from + 1);
    }
}

/// Gating more never lets a call through that needed approval, and neither
/// does a tool that requires more.
pub proof fn law_more_gates_need_no_less_approval(
    capabilities: Seq<Capability>,
    more: Seq<Capability>,
    gated: Set<Seq<char>>,
    wider: Set<Seq<char>>,
)
    requires
        gated.subset_of(wider),
        first_gated(capabilities, gated, 0) is Some,
    ensures
        first_gated(capabilities, wider, 0) is Some,
        first_gated(capabilities + more, gated, 0) is Some,
        first_gated(more + capabilities, gated, 0) is Some,
{
    law_any_gated_capability_needs_approval(capabilities, gated);
    law_any_gated_capability_needs_approval(capabilities, wider);
    law_any_gated_capability_needs_approval(capabilities + more, gated);
    law_any_gated_capability_needs_approval(more + capabilities, gated);
    let i = choose|i: int|
        0 <= i < capabilities.len() && gated.contains((#[trigger] capabilities[i]).label@);
    assert((capabilities + more)[i] == capabilities[i]);
    assert((more + capabilities)[more.len() + i] == capabilities[i]);
}

/// The reason on a proposed card.
pub open spec fn gate_reason(tool: Seq<char>, capability: Seq<char>) -> Seq<char> {
    "tool `"@ + tool + "` requires capability `"@ + capability + "`, which is approval-gated"@
}

/// The reason on a proposed card.
pub fn approval_reason(tool: &str, capability: &str) -> (r: String)
    ensures
        r@ == gate_reason(tool@, capability@),
{
    let mut reason: String = String::from_str("tool `");
    reason.append(tool);
    reason.append("` requires capability `");
    reason.append(capability);
    reason.append("`, which is approval-gated");
    reason
}

/// Where a card stands.
#[derive(Clone, Copy, Debug, PartialEq, Eq, Structural)]
pub enum CardStatus {
    Approved,
    Denied,
    /// Not decided, or in any other state that is no approval.
    Open,
}

/// What a claim of an approved card gave.
#[derive(Clone, Copy, Debug, PartialEq, Eq, Structural)]
pub enum ClaimOutcome {
    Won,
    /// Another call won the card's execution.
    AlreadySpent,
    Failed,
    /// An outcome that is not known here.
    Unrecognized,
}

/// What came back from outside.
#[derive(Debug)]
pub enum ApprovalEvent {
    /// The card of this very call, found or newly proposed.
    Card {
        created: bool,
        status: CardStatus,
        /// The card's identifier, or the empty text.
        id: String,
        /// The reason on the card; for a denied one, that of the denial.
        reason: String,
    },
    StoreFailed,
    /// The receipt of a new card was written.
    Minted,
    NotMinted,
    Claimed(ClaimOutcome),
}

/// How the approval gate answered.
#[derive(Clone, Copy, Debug, PartialEq, Eq, Structural)]
pub enum ApprovalEnd {
    /// This call owns the approval's execution.
    Granted,
    Required,
    Rejected,
    StoreFailed,
    /// The receipt of a new card could not be written.
    NotMinted,
    ClaimFailed,
    /// The claim had an outcome that is not known here.
    Unrecognized,
    /// Other calls won every approval that this one found.
    Contention,
}

/// What the approval gate asks for.
#[derive(Clone, Copy, Debug, PartialEq, Eq, Structural)]
pub enum ApprovalAction {
    /// Find the card of this call or propose one, in one transaction.
    Propose,
    /// Write the receipt of the new card.
    MintReceipt,
    /// Claim the execution of the approved card.
    Claim,
    Finish(ApprovalEnd),
}

/// Where the approval gate stands.
#[derive(Clone, Copy, Debug, PartialEq, Eq, Structural)]
pub enum ApprovalPhase {
    Proposing,
    Minting,
    Claiming,
    Done,
}

/// The approval gate over mathematical values.
#[verifier::ext_equal]
pub ghost struct ApprovalModel {
    pub phase: ApprovalPhase,
    /// Attempts that are left, this one included.
    pub attempts: u8,
    pub card: Seq<char>,
    pub reason: Seq<char>,
}

/// What a step leads to.
pub type ApprovalStep = (ApprovalModel, ApprovalAction);

impl ApprovalModel {
    pub open spec fn ends(self, end: ApprovalEnd) -> ApprovalStep {
        (ApprovalModel { phase: ApprovalPhase::Done, ..self }, ApprovalAction::Finish(end))
    }

    /// An event that answers the last action.
    pub open spec fn expects(self, event: ApprovalEvent) -> bool {
        match self.phase {
            ApprovalPhase::Proposing => event is Card || event is StoreFailed,
            ApprovalPhase::Minting => event is Minted || event is NotMinted,
            ApprovalPhase::Claiming => event is Claimed,
            ApprovalPhase::Done => false,
        }
    }

    /// What the approval gate does with the result of its last action.
    pub open spec fn next(self, event: ApprovalEvent) -> ApprovalStep {
        match event {
            ApprovalEvent::Card { created, status, id, reason } => {
                let seen = ApprovalModel { card: id@, reason: reason@, ..self };
                if created {
                    (
                        ApprovalModel { phase: ApprovalPhase::Minting, ..seen },
                        ApprovalAction::MintReceipt,
                    )
                } else {
                    match status {
                        CardStatus::Approved => (
                            ApprovalModel { phase: ApprovalPhase::Claiming, ..seen },
                            ApprovalAction::Claim,
                        ),
                        CardStatus::Denied => seen.ends(ApprovalEnd::Rejected),
                        CardStatus::Open => seen.ends(ApprovalEnd::Required),
                    }
                }
            },
            ApprovalEvent::StoreFailed => self.ends(ApprovalEnd::StoreFailed),
            ApprovalEvent::Minted => self.ends(ApprovalEnd::Required),
            ApprovalEvent::NotMinted => self.ends(ApprovalEnd::NotMinted),
            ApprovalEvent::Claimed(ClaimOutcome::Won) => self.ends(ApprovalEnd::Granted),
            ApprovalEvent::Claimed(ClaimOutcome::AlreadySpent) => if self.attempts > 1 {
                (
                    ApprovalModel {
                        phase: ApprovalPhase::Proposing,
                        attempts: (self.attempts - 1) as u8,
                        ..self
                    },
                    ApprovalAction::Propose,
                )
            } else {
                self.ends(ApprovalEnd::Contention)
            },
            ApprovalEvent::Claimed(ClaimOutcome::Failed) => self.ends(ApprovalEnd::ClaimFailed),
            ApprovalEvent::Claimed(ClaimOutcome::Unrecognized) => self.ends(
                ApprovalEnd::Unrecognized,
            ),
        }
    }
}

/// The approval gate of one call.
#[derive(Debug)]
pub struct ApprovalGate {
    phase: ApprovalPhase,
    attempts: u8,
    card: String,
    reason: String,
}

impl View for ApprovalGate {
    type V = ApprovalModel;

    closed spec fn view(&self) -> ApprovalModel {
        ApprovalModel {
            phase: self.phase,
            attempts: self.attempts,
            card: self.card@,
            reason: self.reason@,
        }
    }
}

impl ApprovalGate {
    /// Begins to authorise a call whose capability is gated.
    pub fn begin() -> (r: (ApprovalGate, ApprovalAction))
        ensures
            r.0@ == (ApprovalModel {
                phase: ApprovalPhase::Proposing,
                attempts: MAX_APPROVAL_ATTEMPTS,
                card: Seq::empty(),
                reason: Seq::empty(),
            }),
            r.1 == ApprovalAction::Propose,
    {
        (
            ApprovalGate {
                phase: ApprovalPhase::Proposing,
                attempts: MAX_APPROVAL_ATTEMPTS,
                card: String::new(),
                reason: String::new(),
            },
            ApprovalAction::Propose,
        )
    }

    fn ends(&mut self, end: ApprovalEnd) -> (r: ApprovalAction)
        ensures
            (final(self)@, r) == old(self)@.ends(end),
    {
        self.phase = ApprovalPhase::Done;
        ApprovalAction::Finish(end)
    }

    /// Takes the result of the last action and says what to do next.
    pub fn advance(&mut self, event: ApprovalEvent) -> (r: ApprovalAction)
        requires
            old(self)@.expects(event),
        ensures
            (final(self)@, r) == old(self)@.next(event),
    {
        match event {
            ApprovalEvent::Card { created, status, id, reason } => {
                self.card = id;
                self.reason = reason;
                if created {
                    self.phase = ApprovalPhase::Minting;
                    return ApprovalAction::MintReceipt;
                }
                match status {
                    CardStatus::Approved => {
                        self.phase = ApprovalPhase::Claiming;
                        ApprovalAction::Claim
                    },
                    CardStatus::Denied => self.ends(ApprovalEnd::Rejected),
                    CardStatus::Open => self.ends(ApprovalEnd::Required),
                }
            },
            ApprovalEvent::StoreFailed => self.ends(ApprovalEnd::StoreFailed),
            ApprovalEvent::Minted => self.ends(ApprovalEnd::Required),
            ApprovalEvent::NotMinted => self.ends(ApprovalEnd::NotMinted),
            ApprovalEvent::Claimed(ClaimOutcome::Won) => self.ends(ApprovalEnd::Granted),
            ApprovalEvent::Claimed(ClaimOutcome::AlreadySpent) => {
                if self.attempts > 1 {
                    self.attempts = self.attempts - 1;
                    self.phase = ApprovalPhase::Proposing;
                    ApprovalAction::Propose
                } else {
                    self.ends(ApprovalEnd::Contention)
                }
            },
            ApprovalEvent::Claimed(ClaimOutcome::Failed) => self.ends(ApprovalEnd::ClaimFailed),
            ApprovalEvent::Claimed(ClaimOutcome::Unrecognized) => self.ends(
                ApprovalEnd::Unrecognized,
            ),
        }
    }

    /// The identifier of the card in hand.
    pub fn card(&self) -> (r: &String)
        ensures
            r@ == self@.card,
    {
        &self.card
    }

    /// The error of a call that the approval gate did not grant; `detail` is the text of
    /// the store's own error, where there was one.
    pub fn refusal(&self, end: ApprovalEnd, tool: &str, detail: &str) -> (r: Option<RuntimeError>)
        ensures
            match end {
                ApprovalEnd::Granted => r is None,
                ApprovalEnd::NotMinted => r is None,
                ApprovalEnd::Required => r matches Some(
                    RuntimeError::ApprovalRequired { approval_id, tool: named, reason },
                ) && approval_id@ == self@.card && named@ == tool@ && reason@ == self@.reason,
                ApprovalEnd::Rejected => r matches Some(
                    RuntimeError::ApprovalRejected { approval_id, tool: named, reason },
                ) && approval_id@ == self@.card && named@ == tool@ && reason@ == self@.reason,
                ApprovalEnd::StoreFailed => r matches Some(RuntimeError::Internal(text)) && text@
                    == "approval store lookup failed: "@ + detail@,
                ApprovalEnd::ClaimFailed => r matches Some(RuntimeError::Internal(text)) && text@
                    == "approval card "@ + self@.card + " could not be claimed: "@ + detail@,
                ApprovalEnd::Unrecognized => r matches Some(RuntimeError::Internal(text)) && text@
                    == "approval card "@ + self@.card
                    + " returned an unrecognized claim outcome"@,
                ApprovalEnd::Contention => r matches Some(RuntimeError::Internal(text)) && text@
                    == "approval claim contention for tool `"@ + tool@ + "`"@,
            },
    {
        match end {
            ApprovalEnd::Granted => None,
            ApprovalEnd::NotMinted => None,
            ApprovalEnd::Required => Some(
                RuntimeError::ApprovalRequired {
                    approval_id: self.card.clone(),
                    tool: String::from_str(tool),
                    reason: self.reason.clone(),
                },
            ),
            ApprovalEnd::Rejected => Some(
                RuntimeError::ApprovalRejected {
                    approval_id: self.card.clone(),
                    tool: String::from_str(tool),
                    reason: self.reason.clone(),
                },
            ),
            ApprovalEnd::StoreFailed => {
                let mut text: String = String::from_str("approval store lookup failed: ");
                text.append(detail);
                Some(RuntimeError::Internal(text))
            },
            ApprovalEnd::ClaimFailed => {
                let mut text: String = String::from_str("approval card ");
                text.append(self.card.as_str());
                text.append(" could not be claimed: ");
                text.append(detail);
                Some(RuntimeError::Internal(text))
            },
            ApprovalEnd::Unrecognized => {
                let mut text: String = String::from_str("approval card ");
                text.append(self.card.as_str());
                text.append(" returned an unrecognized claim outcome");
                Some(RuntimeError::Internal(text))
            },
            ApprovalEnd::Contention => {
                let mut text: String = String::from_str("approval claim contention for tool `");
                text.append(tool);
                text.append("`");
                Some(RuntimeError::Internal(text))
            },
        }
    }
}

/// How the approval gate's end answers the turn.
pub fn approval_answer(end: ApprovalEnd) -> (r: ApprovalAnswer)
    ensures
        r == (match end {
            ApprovalEnd::Granted => ApprovalAnswer::Granted,
            ApprovalEnd::Required => ApprovalAnswer::Required,
            ApprovalEnd::Rejected => ApprovalAnswer::Refused,
            _ => ApprovalAnswer::Undetermined,
        }),
        r is Granted <==> end is Granted,
        r is Required <==> end is Required,
        r is Refused <==> end is Rejected,
{
    match end {
        ApprovalEnd::Granted => ApprovalAnswer::Granted,
        ApprovalEnd::Required => ApprovalAnswer::Required,
        ApprovalEnd::Rejected => ApprovalAnswer::Refused,
        _ => ApprovalAnswer::Undetermined,
    }
}

/// Only a claim that this very call won lets it run. Seeing an approval that
/// another call spent confers nothing, nor does proposing a card.
pub proof fn law_only_a_won_claim_grants(m: ApprovalModel, event: ApprovalEvent)
    requires
        m.expects(event),
        m.next(event).1 == ApprovalAction::Finish(ApprovalEnd::Granted),
    ensures
        m.phase == ApprovalPhase::Claiming,
        event == ApprovalEvent::Claimed(ClaimOutcome::Won),
{
}

/// A receipt is written exactly for a card that this call proposed, and such a
/// call is not let through.
pub proof fn law_a_proposed_card_is_receipted_once(m: ApprovalModel, event: ApprovalEvent)
    requires
        m.expects(event),
    ensures
        m.next(event).1 == ApprovalAction::MintReceipt <==> (event matches ApprovalEvent::Card {
            created,
            ..
        } && created),
        m.phase == ApprovalPhase::Minting ==> (m.next(event).1 == ApprovalAction::Finish(
            ApprovalEnd::Required,
        ) || m.next(event).1 == ApprovalAction::Finish(ApprovalEnd::NotMinted)),
{
}

/// A card is answered as it stands: a new one gets its receipt, an approved one
/// is claimed, a denied one rejects the call and an open one asks for the
/// decision. What the card says is kept for the answer.
pub proof fn law_a_card_is_answered_as_it_stands(
    m: ApprovalModel,
    created: bool,
    status: CardStatus,
    id: String,
    reason: String,
)
    ensures
        ({
            let (n, action) = m.next(ApprovalEvent::Card { created, status, id, reason });
            &&& n.card == id@
            &&& n.reason == reason@
            &&& n.attempts == m.attempts
            &&& action == (if created {
                ApprovalAction::MintReceipt
            } else {
                match status {
                    CardStatus::Approved => ApprovalAction::Claim,
                    CardStatus::Denied => ApprovalAction::Finish(ApprovalEnd::Rejected),
                    CardStatus::Open => ApprovalAction::Finish(ApprovalEnd::Required),
                }
            })
        }),
{
}

/// A claim that another call won leads to a further try as long as one is left,
/// with one try less and nothing forgotten; any other claim is the end, and
/// so is a store or a receipt that fails, each under its own name.
pub proof fn law_a_lost_claim_is_tried_again(m: ApprovalModel)
    ensures
        m.attempts > 1 ==> m.next(ApprovalEvent::Claimed(ClaimOutcome::AlreadySpent)) == (
            ApprovalModel {
                phase: ApprovalPhase::Proposing,
                attempts: (m.attempts - 1) as u8,
                ..m
            },
            ApprovalAction::Propose,
        ),
        m.attempts <= 1 ==> m.next(ApprovalEvent::Claimed(ClaimOutcome::AlreadySpent)).1
            == ApprovalAction::Finish(ApprovalEnd::Contention),
        m.next(ApprovalEvent::Claimed(ClaimOutcome::Won)).1 == ApprovalAction::Finish(
            ApprovalEnd::Granted,
        ),
        m.next(ApprovalEvent::Claimed(ClaimOutcome::Failed)).1 == ApprovalAction::Finish(
            ApprovalEnd::ClaimFailed,
        ),
        m.next(ApprovalEvent::Claimed(ClaimOutcome::Unrecognized)).1 == ApprovalAction::Finish(
            ApprovalEnd::Unrecognized,
        ),
        m.next(ApprovalEvent::StoreFailed).1 == ApprovalAction::Finish(ApprovalEnd::StoreFailed),
        m.next(ApprovalEvent::NotMinted).1 == ApprovalAction::Finish(ApprovalEnd::NotMinted),
        m.next(ApprovalEvent::Minted).1 == ApprovalAction::Finish(ApprovalEnd::Required),
{
}

/// The rank of the approval gate, which every step lowers.
pub open spec fn remaining(m: ApprovalModel) -> int {
    match m.phase {
        ApprovalPhase::Proposing => 2 * m.attempts,
        ApprovalPhase::Minting => 1,
        ApprovalPhase::Claiming => 2 * m.attempts - 1,
        ApprovalPhase::Done => 0,
    }
}

/// The approval gate comes to an end: with a number of attempts left, every step that
/// does not end it lowers what remains, whatever other calls do.
pub proof fn law_contention_is_bounded(m: ApprovalModel, event: ApprovalEvent)
    requires
        m.expects(event),
        m.attempts > 0,
    ensures
        remaining(m.next(event).0) < remaining(m),
        m.next(event).0.attempts > 0,
{
}

/// The reason on a card names the tool and the capability, in that order.
pub proof fn law_a_card_names_its_tool_and_capability(tool: Seq<char>, capability: Seq<char>)
    ensures
        exists|before: Seq<char>, between: Seq<char>, behind: Seq<char>|
            gate_reason(tool, capability) == #[trigger] (before + tool + between + capability
                + behind),
        gate_reason(tool, capability).len() == gate_reason(
            Seq::empty(),
            Seq::empty(),
        ).len() + tool.len() + capability.len(),
{
    assert(gate_reason(tool, capability) =~= "tool `"@ + tool + "` requires capability `"@
        + capability + "`, which is approval-gated"@);
}

} // verus!
