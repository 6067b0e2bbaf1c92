//! Assembling a runtime: what it is configured with, and where its receipt
//! chain goes on.
use crate::authz::Attribute;
use crate::cost::{default_envelope, CostEnvelope, CostTuple};
use crate::ids::SessionId;
use crate::minting::COMPLETION_VERB;
use crate::receipts;
use crate::receipts::{chain_tail, PersistedReceipt};
use crate::reconcile::ReconciliationStrategy;
use crate::runtime::FusedRuntime;
use crate::settlement::SettlementCoordinator;
use vstd::hash_map::StringHashMap;
use vstd::hash_set::StringHashSet;
use vstd::prelude::*;
use vstd::string::StringExecFns;

verus! {

/// The bounds of a turn.
#[derive(Clone, Copy, Debug, PartialEq, Eq, Structural)]
pub struct TurnLimits {
    /// Most provider rounds of one turn.
    pub max_tool_iterations: u32,
    /// Bound on the streamed content of one round, in bytes.
    pub stream_content_max_bytes: usize,
    /// Most memories that are recalled for one turn.
    pub memory_recall_k: usize,
}

/// A runtime that is being configured.
pub struct FusedRuntimeBuilder {
    pub limits: TurnLimits,
    /// The audience that a token must be scoped to.
    pub audience: String,
    /// The capability that a turn exercises.
    pub tool: String,
    /// The units that a turn claims against its token.
    pub cost_units: u64,
    pub principal_entity_type: String,
    /// The action that a turn is authorised as.
    pub action: String,
    pub cedar_attributes: StringHashMap<Attribute>,
    pub max_tokens: u32,
    /// The verb of a round's receipt.
    pub verb: String,
    /// The cost that is reserved for a round.
    pub envelope: CostEnvelope,
    pub ceiling: Option<CostEnvelope>,
    pub provision_cap: Option<CostTuple>,
    pub reconciliation_strategy: ReconciliationStrategy,
    /// The capabilities that need approval.
    pub approval_gated: StringHashSet,
    /// A memory backend is attached.
    pub memory: bool,
    /// The session whose journal is attached.
    pub journal: Option<SessionId>,
    /// Committed rounds are mirrored.
    pub governance: bool,
    pub receipt_log: Option<String>,
}

impl FusedRuntimeBuilder {
    /// A builder with the defaults.
    pub fn new(limits: TurnLimits) -> (r: FusedRuntimeBuilder)
        ensures
            r.limits == limits,
            r.audience@ == "ardur"@,
            r.tool@ == "chat.submit"@,
            r.cost_units == 1,
            r.principal_entity_type@ == "User"@,
            r.action@ == "Action::Submit"@,
            r.cedar_attributes@ == Map::<Seq<char>, Attribute>::empty(),
            r.max_tokens == 1024,
            r.verb@ == COMPLETION_VERB@,
            r.envelope == default_envelope(),
            r.ceiling is None,
            r.provision_cap is None,
            r.reconciliation_strategy == ReconciliationStrategy::AppendSyntheticJournal,
            r.approval_gated@ == Set::<Seq<char>>::empty(),
            !r.memory,
            r.journal is None,
            !r.governance,
            r.receipt_log is None,
    {
        FusedRuntimeBuilder {
            limits,
            audience: String::from_str("ardur"),
            tool: String::from_str("chat.submit"),
            cost_units: 1,
            principal_entity_type: String::from_str("User"),
            action: String::from_str("Action::Submit"),
            cedar_attributes: StringHashMap::new(),
            max_tokens: 1024,
            verb: String::from_str(COMPLETION_VERB),
            envelope: default_envelope(),
            ceiling: None,
            provision_cap: None,
            reconciliation_strategy: ReconciliationStrategy::AppendSyntheticJournal,
            approval_gated: StringHashSet::new(),
            memory: false,
            journal: None,
            governance: false,
            receipt_log: None,
        }
    }

    /// Sets the audience that a token must be scoped to.
    pub fn audience(self, audience: String) -> (r: FusedRuntimeBuilder)
        ensures
            r == (FusedRuntimeBuilder { audience, ..self }),
    {
        FusedRuntimeBuilder { audience, ..self }
    }

    /// Sets the capability that a turn exercises.
    pub fn tool(self, tool: String) -> (r: FusedRuntimeBuilder)
        ensures
            r == (FusedRuntimeBuilder { tool, ..self }),
    {
        FusedRuntimeBuilder { tool, ..self }
    }

    /// Sets the units that a turn claims against its token.
    pub fn cost_units(self, cost_units: u64) -> (r: FusedRuntimeBuilder)
        ensures
            r == (FusedRuntimeBuilder { cost_units, ..self }),
    {
        FusedRuntimeBuilder { cost_units, ..self }
    }

    /// Sets the action that a turn is authorised as.
    pub fn action(self, action: String) -> (r: FusedRuntimeBuilder)
        ensures
            r == (FusedRuntimeBuilder { action, ..self }),
    {
        FusedRuntimeBuilder { action, ..self }
    }

    /// Sets the entity type of the principal; its identifier is always the
    /// verified subject.
    pub fn principal_entity_type(self, principal_entity_type: String) -> (r: FusedRuntimeBuilder)
        ensures
            r == (FusedRuntimeBuilder { principal_entity_type, ..self }),
    {
        FusedRuntimeBuilder { principal_entity_type, ..self }
    }

    /// Sets the attributes that a policy sees besides the verified facts.
    pub fn cedar_attributes(self, cedar_attributes: StringHashMap<Attribute>) -> (r:
        FusedRuntimeBuilder)
        ensures
            r == (FusedRuntimeBuilder { cedar_attributes, ..self }),
    {
        FusedRuntimeBuilder { cedar_attributes, ..self }
    }

    /// Sets the output bound of a provider request.
    pub fn max_tokens(self, max_tokens: u32) -> (r: FusedRuntimeBuilder)
        ensures
            r == (FusedRuntimeBuilder { max_tokens, ..self }),
    {
        FusedRuntimeBuilder { max_tokens, ..self }
    }

    /// Sets the verb of a round's receipt.
    pub fn verb(self, verb: String) -> (r: FusedRuntimeBuilder)
        ensures
            r == (FusedRuntimeBuilder { verb, ..self }),
    {
        FusedRuntimeBuilder { verb, ..self }
    }

    /// Sets the cost that is reserved for a round.
    pub fn projected_envelope(self, envelope: CostEnvelope) -> (r: FusedRuntimeBuilder)
        ensures
            r == (FusedRuntimeBuilder { envelope, ..self }),
    {
        FusedRuntimeBuilder { envelope, ..self }
    }

    /// Imposes a ceiling on the cost of one call.
    pub fn ceiling(self, ceiling: CostEnvelope) -> (r: FusedRuntimeBuilder)
        ensures
            r == (FusedRuntimeBuilder { ceiling: Some(ceiling), ..self }),
    {
        FusedRuntimeBuilder { ceiling: Some(ceiling), ..self }
    }

    /// Caps what a holder can be provisioned to by requests.
    pub fn provision_cap(self, cap: CostTuple) -> (r: FusedRuntimeBuilder)
        ensures
            r == (FusedRuntimeBuilder { provision_cap: Some(cap), ..self }),
    {
        FusedRuntimeBuilder { provision_cap: Some(cap), ..self }
    }

    /// Sets how orphan receipts are healed.
    pub fn reconciliation_strategy(self, strategy: ReconciliationStrategy) -> (r:
        FusedRuntimeBuilder)
        ensures
            r == (FusedRuntimeBuilder { reconciliation_strategy: strategy, ..self }),
    {
        FusedRuntimeBuilder { reconciliation_strategy: strategy, ..self }
    }

    /// Attaches a memory backend.
    pub fn with_memory(self) -> (r: FusedRuntimeBuilder)
        ensures
            r == (FusedRuntimeBuilder { memory: true, ..self }),
    {
        FusedRuntimeBuilder { memory: true, ..self }
    }

    /// Attaches the journal of a session.
    pub fn with_journal(self, session: SessionId) -> (r: FusedRuntimeBuilder)
        ensures
            r == (FusedRuntimeBuilder { journal: Some(session), ..self }),
    {
        FusedRuntimeBuilder { journal: Some(session), ..self }
    }

    /// Persists signed receipts to the log at `path`.
    pub fn receipt_log(self, path: String) -> (r: FusedRuntimeBuilder)
        ensures
            r == (FusedRuntimeBuilder { receipt_log: Some(path), ..self }),
    {
        FusedRuntimeBuilder { receipt_log: Some(path), ..self }
    }

    /// Assembles the runtime over the chain that its log holds: the next
    /// receipt is linked to the last one, across restarts.
    pub fn build(self, chain: &Vec<PersistedReceipt>, settlements: SettlementCoordinator) -> (r:
        FusedRuntime)
        ensures
            r.config == self,
            r.settlements == settlements,
            r.chain_tail == (if self.receipt_log is Some {
                receipts::expected_parent(receipts::chain_views(chain@), chain@.len() as int)
            } else {
                None
            }),
    {
        let tail = if self.receipt_log.is_some() {
            chain_tail(chain)
        } else {
            None
        };
        FusedRuntime { config: self, chain_tail: tail, settlements }
    }
}

} // verus!
