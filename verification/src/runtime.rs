//! The runtime: its configuration, the tail of its receipt chain and its
//! settlements, and the operations that start from them.
use crate::authz;
use crate::authz::{
    budget_holder, derive_principal, derive_resource, required_caveats,
    stage_cap_token, PerRequestProvisioning, RequiredCaveats, TokenFault,
    VerifiedClaims,
};
use crate::builder::FusedRuntimeBuilder;
use crate::commit;
use crate::commit::{CommitAction, CommitConfig, RoundCommit};
use crate::control;
use crate::control::{checkpoint_receipt, checkpoint_summary, ControlReceipt};
use crate::errors;
use crate::errors::{settlement_error, RuntimeError};
use crate::evidence::{HolderId, SettlementStoreError};
use crate::ids::{ReceiptId, SessionId, Sha256Digest, TurnId, UnixTsMillis};
use crate::minting;
use crate::operation::{ControlAction, ControlKind, ControlOperation};
use crate::receipts;
use crate::receipts::{PersistedReceipt, ReceiptBody};
use crate::reconcile;
use crate::reconcile::{
    OwnedRecovery, ReconciliationAction, ReconciliationError, ReconciliationPlan,
    ReconciliationReport, ReconciliationStrategy, SweepScope,
};
use crate::session;
use crate::session::SessionEntry;
use crate::settlement;
use crate::settlement::{
    SettlementCoordinator, SettlementSupervisor, TurnIdentity, TurnSettlementOwner,
};
use crate::turn;
use crate::turn::{Action, TurnConfig, TurnMachine};
use vstd::prelude::*;

verus! {

/// A runtime.
pub struct FusedRuntime {
    pub config: FusedRuntimeBuilder,
    /// The digest of the last receipt of the chain.
    pub chain_tail: Option<Sha256Digest>,
    pub settlements: SettlementCoordinator,
}

impl FusedRuntime {
    /// How a turn of this runtime is run.
    pub open spec fn turn_config(self, stream: bool, cancellable: bool) -> TurnConfig {
        TurnConfig {
            stream,
            cancellable,
            max_tool_iterations: self.config.limits.max_tool_iterations,
            stream_content_max_bytes: self.config.limits.stream_content_max_bytes,
            memory: self.config.memory,
            journal: self.config.journal is Some,
        }
    }

    /// A turn is bound by the limits of this runtime, recalls memories exactly
    /// if a memory is attached, and is journaled exactly if a journal is.
    pub open spec fn sets(self, config: TurnConfig) -> bool {
        &&& config.max_tool_iterations == self.config.limits.max_tool_iterations
        &&& config.stream_content_max_bytes == self.config.limits.stream_content_max_bytes
        &&& config.memory <==> self.config.memory
        &&& config.journal <==> self.config.journal is Some
    }

    fn configured(&self, stream: bool, cancellable: bool) -> (r: TurnConfig)
        ensures
            r == self.turn_config(stream, cancellable),
    {
        TurnConfig {
            stream,
            cancellable,
            max_tool_iterations: self.config.limits.max_tool_iterations,
            stream_content_max_bytes: self.config.limits.stream_content_max_bytes,
            memory: self.config.memory,
            journal: self.config.journal.is_some(),
        }
    }

    /// Starts a turn that answers once.
    pub fn submit_with_provisioning(&self) -> (r: (TurnMachine, Vec<Action>))
        ensures
            (r.0, r.1@) == turn::started(self.turn_config(false, false)),
            r.0.wf(),
            !r.0.config.stream,
            !r.0.config.cancellable,
            self.sets(r.0.config),
    {
        TurnMachine::new(self.configured(false, false))
    }

    /// Starts a turn that answers once and asks whether its caller is still
    /// there.
    pub fn submit_with_cancellation(&self) -> (r: (TurnMachine, Vec<Action>))
        ensures
            (r.0, r.1@) == turn::started(self.turn_config(false, true)),
            r.0.wf(),
            !r.0.config.stream,
            r.0.config.cancellable,
            self.sets(r.0.config),
    {
        TurnMachine::new(self.configured(false, true))
    }

    /// Starts a turn that streams.
    pub fn stream_with_provisioning(&self) -> (r: (TurnMachine, Vec<Action>))
        ensures
            (r.0, r.1@) == turn::started(self.turn_config(true, false)),
            r.0.wf(),
            r.0.config.stream,
            !r.0.config.cancellable,
            self.sets(r.0.config),
    {
        TurnMachine::new(self.configured(true, false))
    }

    /// A handle for supervising the settlements.
    pub fn settlement_supervisor(&self) -> (r: SettlementSupervisor)
        ensures
            r == (SettlementSupervisor {  }),
    {
        self.settlements.supervisor()
    }

    /// Who a turn's settlement is attributed to: the verified subject, and the
    /// holder that the request names if it names one.
    pub fn settlement_identity(
        &self,
        session: SessionId,
        claims: &VerifiedClaims,
        provisioning: &PerRequestProvisioning,
        now: UnixTsMillis,
    ) -> (r: TurnIdentity)
        ensures
            r.request_session == session,
            r.journal_owner == self.config.journal,
            r.verified_subject.0@ == claims.subject@,
            r.budget_holder.0@ == (match provisioning.subject {
                Some(subject) => subject@,
                None => claims.subject@,
            }),
            r.cap_token_id == claims.token_id,
            r.started_at == now,
    {
        TurnIdentity {
            request_session: session,
            journal_owner: self.config.journal,
            verified_subject: HolderId(claims.subject.clone()),
            budget_holder: HolderId(budget_holder(provisioning, claims)),
            cap_token_id: claims.token_id,
            started_at: now,
        }
    }

    /// Reserves the settlement of a turn before anything is admitted.
    /// `encoding` is what encoding the drafted turn found.
    pub fn begin_settlement(
        &mut self,
        identity: TurnIdentity,
        turn_id: TurnId,
        encoding: Option<SettlementStoreError>,
    ) -> (r: Result<TurnSettlementOwner, RuntimeError>)
        requires
            old(self).settlements.wf(),
            old(self).settlements@.is_fresh(turn_id),
        ensures
            final(self).settlements.wf(),
            final(self).config == old(self).config,
            final(self).chain_tail == old(self).chain_tail,
            match settlement::reserve_refusal(old(self).settlements@, encoding) {
                Some(error) => (r matches Err(e) && e == (if errors::exceeds_ceiling(error) {
                    RuntimeError::CostCeilingExceeded
                } else {
                    RuntimeError::Settlement(error)
                })) && final(self).settlements@ == old(self).settlements@,
                None => (r matches Ok(owner) && owner@ == turn_id) 
                    && final(self).settlements@.inventory.len() == old(self).settlements@.inventory.len() + 1
                    && final(self).settlements@ == (settlement::CoordinatorModel {
                    inventory: old(self).settlements@.inventory.insert(turn_id),
                    executing: Some(turn_id),
                    slots: old(self).settlements@.slots.insert(
                        turn_id,
                        Some(
                            settlement::fresh_slot(
                                settlement::opened_turn(
                                    old(self).settlements@.epoch,
                                    identity,
                                    turn_id,
                                ),
                            ),
                        ),
                    ),
                    ..old(self).settlements@
                }),
            },
    {
        match self.settlements.reserve_turn(identity, turn_id, encoding) {
            Ok(owner) => Ok(owner),
            Err(error) => Err(settlement_error(error)),
        }
    }

    /// What the token of a turn has to grant.
    pub fn turn_caveats(&self, provisioning: &PerRequestProvisioning, now_ms: u64) -> (r:
        RequiredCaveats)
        ensures
            r.now_unix == now_ms / 1000,
            r.audience@ == (match provisioning.audience {
                Some(named) => named@,
                None => self.config.audience@,
            }),
            r.tool@ == self.config.tool@,
            r.cost == self.config.cost_units,
    {
        required_caveats(
            provisioning,
            self.config.audience.as_str(),
            self.config.tool.as_str(),
            now_ms,
            self.config.cost_units,
        )
    }

    /// Verifies a token for a control capability; `answer` is what the
    /// verifier said of it.
    pub fn verify_cap_token_for_tool(
        &self,
        token: &str,
        answer: Result<VerifiedClaims, TokenFault>,
    ) -> (r: Result<VerifiedClaims, RuntimeError>)
        ensures
            authz::token_verdict(token@, answer, r),
    {
        stage_cap_token(token, answer)
    }

    /// Who acts, as a policy sees it.
    pub fn principal(&self, claims: &VerifiedClaims) -> (r: String)
        ensures
            r@ == self.config.principal_entity_type@ + "::\""@ + claims.subject@ + "\""@,
    {
        derive_principal(self.config.principal_entity_type.as_str(), claims)
    }

    /// What is acted upon, as a policy sees it.
    pub fn resource(&self, session: SessionId) -> (r: String)
        ensures
            r@ == "Session::\""@ + crate::encoding::uuid_text(session.0) + "\""@,
    {
        derive_resource(session)
    }

    /// Begins to commit a round under the commit lock.
    pub fn commit_round(
        &self,
        probed: bool,
        handshake: bool,
        iteration: u32,
        prompted: bool,
    ) -> (r: (RoundCommit, CommitAction))
        ensures
            (r.0@, r.1) == commit::fresh_commit(
                CommitConfig {
                    probed,
                    handshake,
                    mirrored: self.config.governance,
                    journaled: self.config.journal is Some,
                    iteration,
                    prompted,
                },
                self.chain_tail,
            ).begin(),
    {
        RoundCommit::begin(
            CommitConfig {
                probed,
                handshake,
                mirrored: self.config.governance,
                journaled: self.config.journal.is_some(),
                iteration,
                prompted,
            },
            self.chain_tail,
        )
    }

    /// Takes over the chain's tail from an operation that appended a receipt.
    pub fn move_tail(&mut self, tail: Option<Sha256Digest>)
        ensures
            *final(self) == (FusedRuntime { chain_tail: tail, ..*old(self) }),
    {
        self.chain_tail = tail;
    }

    /// Plans a checkpoint over a journal of `entries` entries: its label and
    /// its receipt.
    pub fn checkpoint(&self, label: Option<String>, entries: u64) -> (r: (String, ControlReceipt))
        ensures
            r.0@ == control::checkpoint_label(
                match label {
                    Some(label) => Some(label@),
                    None => None,
                },
                entries as nat,
            ),
            r.1 == control::free_receipt(
                "session.checkpoint.created.v1",
                minting::text_digest(r.0@),
            ),
    {
        let summary: String = checkpoint_summary(label, entries);
        let receipt: ControlReceipt = checkpoint_receipt(summary.as_str());
        (summary, receipt)
    }

    /// Begins to compact a journal.
    pub fn compact(&self) -> (r: ControlOperation)
        ensures
            r.kind == ControlKind::Compact,
            r.action == ControlAction::Authorize,
    {
        ControlOperation::begin(ControlKind::Compact)
    }

    /// Begins to summarize a journal without changing it.
    pub fn preview_compact(&self) -> (r: ControlOperation)
        ensures
            r.kind == ControlKind::Preview,
            r.action == ControlAction::Authorize,
    {
        ControlOperation::begin(ControlKind::Preview)
    }

    /// Begins to run a background task.
    pub fn run_background_task(&self) -> (r: ControlOperation)
        ensures
            r.kind == ControlKind::Task,
            r.action == ControlAction::Authorize,
    {
        ControlOperation::begin(ControlKind::Task)
    }

    /// How orphan receipts are healed.
    pub fn reconciliation_strategy(&self) -> (r: ReconciliationStrategy)
        ensures
            r == self.config.reconciliation_strategy,
    {
        self.config.reconciliation_strategy
    }

    /// The report of a runtime that lacks a journal or a receipt log: neither
    /// store alone can have an orphan.
    pub fn nothing_to_reconcile(&self, dry_run: bool) -> (r: Option<ReconciliationReport>)
        ensures
            r is Some <==> self.config.journal is None || self.config.receipt_log is None,
            r matches Some(report) ==> report.receipt_count == 0 && report.journaled_receipt_count
                == 0 && report.orphan_receipt_ids@.len() == 0 && report.action
                == ReconciliationAction::NoOrphans && report.dry_run == dry_run,
    {
        if self.config.journal.is_some() && self.config.receipt_log.is_some() {
            return None;
        }
        Some(
            ReconciliationReport {
                receipt_count: 0,
                journaled_receipt_count: 0,
                orphan_receipt_ids: Vec::new(),
                action: ReconciliationAction::NoOrphans,
                dry_run,
            },
        )
    }

    /// Decides a sweep of this runtime's receipt log against its journal.
    pub fn reconcile_receipts(
        &self,
        chain: &Vec<PersistedReceipt>,
        signed: &Vec<Option<ReceiptBody>>,
        entries: &Vec<SessionEntry>,
        modern: &Vec<ReceiptId>,
        owed: &Vec<OwnedRecovery>,
        session: SessionId,
        dry_run: bool,
        now: UnixTsMillis,
    ) -> (r: Result<ReconciliationPlan, ReconciliationError>)
        requires
            signed@.len() == chain@.len(),
        ensures
            ({
                let sweep = reconcile::Sweep {
                    chain: receipts::chain_views(chain@),
                    entries: session::entry_views(entries@),
                    modern: modern@,
                    owed: reconcile::owed_views(owed@),
                    session,
                    verb: self.config.verb@,
                    strategy: self.config.reconciliation_strategy,
                    dry_run,
                    now,
                };
                match receipts::first_error(sweep.chain, receipts::decoded_views(signed@), 0) {
                    Some(error) => r == Err::<ReconciliationPlan, ReconciliationError>(
                        ReconciliationError::ReceiptChain(error),
                    ),
                    None => match sweep.action() {
                        Err(error) => r == Err::<ReconciliationPlan, ReconciliationError>(error),
                        Ok(_) => r matches Ok(plan) && reconcile::carries_out(plan, sweep),
                    },
                }
            }),
    {
        let scope = SweepScope {
            session,
            verb: self.config.verb.clone(),
            strategy: self.config.reconciliation_strategy,
            dry_run,
            now,
        };
        crate::reconcile::reconcile_receipts(chain, signed, entries, modern, owed, &scope)
    }
}

} // verus!
