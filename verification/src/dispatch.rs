//! A paid provider call outside a turn: it is admitted, observed, receipted
//! and settled as a turn's round is.
use crate::commit;
use crate::errors::{map_provider_error, settlement_error, ProviderError, RuntimeError};
use crate::evidence::{ReceiptBinding, ReceiptCandidate};
use crate::ids::{ReceiptId, Sha256Digest};
use crate::slot::SettlementError;
use vstd::prelude::*;
use vstd::string::StringExecFns;

verus! {

/// Why the settlement of a call that was made stays unresolved.
#[derive(Clone, Copy, Debug, PartialEq, Eq, Structural)]
pub enum StopReason {
    NotSigned,
    LogUnreadable,
    NotAppended,
}

/// Where a dispatch stands.
#[derive(Clone, Copy, Debug, PartialEq, Eq, Structural)]
pub enum DispatchPhase {
    Permitting,
    Reserving,
    BindingToken,
    Encoding,
    Admitting,
    Announcing,
    Calling,
    Refunding(ProviderError),
    Observing,
    Touching,
    CheckingVerb,
    Locking,
    Signing,
    Measuring,
    Preparing,
    Finalizing,
    Appending,
    Stopping(StopReason),
    Marking(StopReason),
    BindingReceipt,
    ReleasingPermit,
    Draining,
    Done,
}

/// How a dispatch ended.
#[derive(Clone, Copy, Debug, PartialEq, Eq, Structural)]
pub enum DispatchEnd {
    Completed,
    Settlement(SettlementError),
    NotEncoded,
    Provider(ProviderError),
    InvalidVerb,
    /// The call was made and its settlement is unresolved.
    Unresolved(StopReason),
}

/// What a dispatch asks for.
#[derive(Clone, Copy, Debug, PartialEq, Eq, Structural)]
pub enum DispatchAction {
    /// Wait for the economic permit.
    AwaitPermit,
    /// Reserve settlement capacity for the call.
    BeginSettlement,
    /// Bind the verified token to its holder.
    BindToken,
    /// Digest the request.
    EncodeRequest,
    /// Reserve the projected cost.
    AdmitRound,
    /// Record that the call is about to be made.
    ObserveDispatch,
    CallProvider,
    /// Refund the reservation as an infrastructure failure.
    ReleaseFailure,
    /// Record usage and cost.
    ObserveResponse,
    /// Refresh the reservation's lease.
    TouchReservation,
    CheckVerb,
    /// Take the commit lock and read the chain's tail.
    TakeCommitLock,
    Sign,
    MeasureLog,
    PrepareReceipt,
    Finalize,
    AppendReceipt,
    StopAdmission,
    MarkUnresolved,
    BindReceipt,
    ReleasePermit,
    DrainSettlements,
    Finish(DispatchEnd),
}

/// What came of an action.
#[derive(Debug)]
pub enum DispatchEvent {
    Passed,
    Failed,
    Refused(SettlementError),
    ProviderFailed(ProviderError),
    Locked { tail: Option<Sha256Digest> },
    Signed { receipt_id: ReceiptId, jws: String },
    Measured(u64),
}

/// A dispatch over mathematical values.
#[verifier::ext_equal]
pub ghost struct DispatchModel {
    pub phase: DispatchPhase,
    pub tail: Option<Sha256Digest>,
    pub receipt_id: ReceiptId,
    pub jws: Seq<char>,
    pub log_end: u64,
}

/// What a step leads to.
pub type DispatchStep = (DispatchModel, DispatchAction);

impl DispatchModel {
    pub open spec fn to(self, phase: DispatchPhase, action: DispatchAction) -> DispatchStep {
        (DispatchModel { phase, ..self }, action)
    }

    pub open spec fn ends(self, end: DispatchEnd) -> DispatchStep {
        self.to(DispatchPhase::Done, DispatchAction::Finish(end))
    }

    /// A failure behind the call: nobody is admitted until it is resolved.
    pub open spec fn stops(self, reason: StopReason) -> DispatchStep {
        self.to(DispatchPhase::Stopping(reason), DispatchAction::StopAdmission)
    }

    /// An event that answers the last action.
    pub open spec fn expects(self, event: DispatchEvent) -> bool {
        match self.phase {
            DispatchPhase::Permitting
            | DispatchPhase::BindingToken
            | DispatchPhase::Refunding(_)
            | DispatchPhase::Touching
            | DispatchPhase::Stopping(_)
            | DispatchPhase::ReleasingPermit => event is Passed,
            DispatchPhase::Reserving
            | DispatchPhase::Admitting
            | DispatchPhase::Announcing
            | DispatchPhase::Observing
            | DispatchPhase::Preparing
            | DispatchPhase::Finalizing
            | DispatchPhase::Marking(_)
            | DispatchPhase::BindingReceipt
            | DispatchPhase::Draining => event is Passed || event is Refused,
            DispatchPhase::Encoding
            | DispatchPhase::CheckingVerb
            | DispatchPhase::Appending => event is Passed || event is Failed,
            DispatchPhase::Calling => event is Passed || event is ProviderFailed,
            DispatchPhase::Locking => event is Locked,
            DispatchPhase::Signing => event is Signed || event is Failed,
            DispatchPhase::Measuring => event is Measured || event is Failed,
            DispatchPhase::Done => false,
        }
    }

    /// What the dispatch does with the result of its last action.
    pub open spec fn next(self, event: DispatchEvent) -> DispatchStep {
        if let DispatchEvent::Refused(error) = event {
            self.ends(DispatchEnd::Settlement(error))
        } else {
            match self.phase {
                DispatchPhase::Permitting => self.to(
                    DispatchPhase::Reserving,
                    DispatchAction::BeginSettlement,
                ),
                DispatchPhase::Reserving => self.to(
                    DispatchPhase::BindingToken,
                    DispatchAction::BindToken,
                ),
                DispatchPhase::BindingToken => self.to(
                    DispatchPhase::Encoding,
                    DispatchAction::EncodeRequest,
                ),
                DispatchPhase::Encoding => if event is Passed {
                    self.to(DispatchPhase::Admitting, DispatchAction::AdmitRound)
                } else {
                    self.ends(DispatchEnd::NotEncoded)
                },
                DispatchPhase::Admitting => self.to(
                    DispatchPhase::Announcing,
                    DispatchAction::ObserveDispatch,
                ),
                DispatchPhase::Announcing => self.to(
                    DispatchPhase::Calling,
                    DispatchAction::CallProvider,
                ),
                DispatchPhase::Calling => match event {
                    DispatchEvent::ProviderFailed(error) => self.to(
                        DispatchPhase::Refunding(error),
                        DispatchAction::ReleaseFailure,
                    ),
                    _ => self.to(DispatchPhase::Observing, DispatchAction::ObserveResponse),
                },
                DispatchPhase::Refunding(error) => self.ends(DispatchEnd::Provider(error)),
                DispatchPhase::Observing => self.to(
                    DispatchPhase::Touching,
                    DispatchAction::TouchReservation,
                ),
                DispatchPhase::Touching => self.to(
                    DispatchPhase::CheckingVerb,
                    DispatchAction::CheckVerb,
                ),
                DispatchPhase::CheckingVerb => if event is Passed {
                    self.to(DispatchPhase::Locking, DispatchAction::TakeCommitLock)
                } else {
                    self.ends(DispatchEnd::InvalidVerb)
                },
                DispatchPhase::Locking => match event {
                    DispatchEvent::Locked { tail } => (DispatchModel { tail, ..self }).to(
                        DispatchPhase::Signing,
                        DispatchAction::Sign,
                    ),
                    _ => self.ends(DispatchEnd::InvalidVerb),
                },
                DispatchPhase::Signing => match event {
                    DispatchEvent::Signed { receipt_id, jws } => (DispatchModel {
                        receipt_id,
                        jws: jws@,
                        ..self
                    }).to(DispatchPhase::Measuring, DispatchAction::MeasureLog),
                    _ => self.stops(StopReason::NotSigned),
                },
                DispatchPhase::Measuring => match event {
                    DispatchEvent::Measured(len) => (DispatchModel { log_end: len, ..self }).to(
                        DispatchPhase::Preparing,
                        DispatchAction::PrepareReceipt,
                    ),
                    _ => self.stops(StopReason::LogUnreadable),
                },
                DispatchPhase::Preparing => self.to(
                    DispatchPhase::Finalizing,
                    DispatchAction::Finalize,
                ),
                DispatchPhase::Finalizing => self.to(
                    DispatchPhase::Appending,
                    DispatchAction::AppendReceipt,
                ),
                DispatchPhase::Appending => if event is Passed {
                    (DispatchModel { tail: Some(commit::jws_digest(self.jws)), ..self }).to(
                        DispatchPhase::BindingReceipt,
                        DispatchAction::BindReceipt,
                    )
                } else {
                    self.stops(StopReason::NotAppended)
                },
                DispatchPhase::Stopping(reason) => self.to(
                    DispatchPhase::Marking(reason),
                    DispatchAction::MarkUnresolved,
                ),
                DispatchPhase::Marking(reason) => self.ends(DispatchEnd::Unresolved(reason)),
                DispatchPhase::BindingReceipt => self.to(
                    DispatchPhase::ReleasingPermit,
                    DispatchAction::ReleasePermit,
                ),
                DispatchPhase::ReleasingPermit => self.to(
                    DispatchPhase::Draining,
                    DispatchAction::DrainSettlements,
                ),
                DispatchPhase::Draining => self.ends(DispatchEnd::Completed),
                DispatchPhase::Done => self.ends(DispatchEnd::Completed),
            }
        }
    }

    /// The provider was called and answered.
    pub open spec fn paid(self) -> bool {
        match self.phase {
            DispatchPhase::Observing
            | DispatchPhase::Touching
            | DispatchPhase::CheckingVerb
            | DispatchPhase::Locking
            | DispatchPhase::Signing
            | DispatchPhase::Measuring
            | DispatchPhase::Preparing
            | DispatchPhase::Finalizing
            | DispatchPhase::Appending
            | DispatchPhase::Stopping(_)
            | DispatchPhase::Marking(_)
            | DispatchPhase::BindingReceipt
            | DispatchPhase::ReleasingPermit
            | DispatchPhase::Draining => true,
            _ => false,
        }
    }
}

/// A provider call of a control operation.
#[derive(Debug)]
pub struct ControlDispatch {
    phase: DispatchPhase,
    tail: Option<Sha256Digest>,
    receipt_id: ReceiptId,
    jws: String,
    log_end: u64,
}

impl View for ControlDispatch {
    type V = DispatchModel;

    closed spec fn view(&self) -> DispatchModel {
        DispatchModel {
            phase: self.phase,
            tail: self.tail,
            receipt_id: self.receipt_id,
            jws: self.jws@,
            log_end: self.log_end,
        }
    }
}

impl ControlDispatch {
    /// Begins a provider call of a control operation.
    pub fn begin() -> (r: (ControlDispatch, DispatchAction))
        ensures
            r.0@ == (DispatchModel {
                phase: DispatchPhase::Permitting,
                tail: None,
                receipt_id: ReceiptId(0),
                jws: Seq::empty(),
                log_end: 0,
            }),
            r.1 == DispatchAction::AwaitPermit,
    {
        (
            ControlDispatch {
                phase: DispatchPhase::Permitting,
                tail: None,
                receipt_id: ReceiptId(0),
                jws: String::new(),
                log_end: 0,
            },
            DispatchAction::AwaitPermit,
        )
    }

    fn to(&mut self, phase: DispatchPhase, action: DispatchAction) -> (r: DispatchAction)
        ensures
            (final(self)@, r) == old(self)@.to(phase, action),
    {
        self.phase = phase;
        action
    }

    fn ends(&mut self, end: DispatchEnd) -> (r: DispatchAction)
        ensures
            (final(self)@, r) == old(self)@.ends(end),
    {
        self.to(DispatchPhase::Done, DispatchAction::Finish(end))
    }

    fn stops(&mut self, reason: StopReason) -> (r: DispatchAction)
        ensures
            (final(self)@, r) == old(self)@.stops(reason),
    {
        self.to(DispatchPhase::Stopping(reason), DispatchAction::StopAdmission)
    }

    /// Takes the result of the last action and says what to do next.
    pub fn advance(&mut self, event: DispatchEvent) -> (r: DispatchAction)
        requires
            old(self)@.expects(event),
        ensures
            (final(self)@, r) == old(self)@.next(event),
    {
        if let DispatchEvent::Refused(error) = event {
            return self.ends(DispatchEnd::Settlement(error));
        }
        let passed: bool = matches!(event, DispatchEvent::Passed);
        match self.phase {
            DispatchPhase::Permitting => self.to(
                DispatchPhase::Reserving,
                DispatchAction::BeginSettlement,
            ),
            DispatchPhase::Reserving => self.to(
                DispatchPhase::BindingToken,
                DispatchAction::BindToken,
            ),
            DispatchPhase::BindingToken => self.to(
                DispatchPhase::Encoding,
                DispatchAction::EncodeRequest,
            ),
            DispatchPhase::Encoding => {
                if passed {
                    self.to(DispatchPhase::Admitting, DispatchAction::AdmitRound)
                } else {
                    self.ends(DispatchEnd::NotEncoded)
                }
            },
            DispatchPhase::Admitting => self.to(
                DispatchPhase::Announcing,
                DispatchAction::ObserveDispatch,
            ),
            DispatchPhase::Announcing => self.to(
                DispatchPhase::Calling,
                DispatchAction::CallProvider,
            ),
            DispatchPhase::Calling => match event {
                DispatchEvent::ProviderFailed(error) => self.to(
                    DispatchPhase::Refunding(error),
                    DispatchAction::ReleaseFailure,
                ),
                _ => self.to(DispatchPhase::Observing, DispatchAction::ObserveResponse),
            },
            DispatchPhase::Refunding(error) => self.ends(DispatchEnd::Provider(error)),
            DispatchPhase::Observing => self.to(
                DispatchPhase::Touching,
                DispatchAction::TouchReservation,
            ),
            DispatchPhase::Touching => self.to(
                DispatchPhase::CheckingVerb,
                DispatchAction::CheckVerb,
            ),
            DispatchPhase::CheckingVerb => {
                if passed {
                    self.to(DispatchPhase::Locking, DispatchAction::TakeCommitLock)
                } else {
                    self.ends(DispatchEnd::InvalidVerb)
                }
            },
            DispatchPhase::Locking => match event {
                DispatchEvent::Locked { tail } => {
                    self.tail = tail;
                    self.to(DispatchPhase::Signing, DispatchAction::Sign)
                },
                _ => self.ends(DispatchEnd::InvalidVerb),
            },
            DispatchPhase::Signing => match event {
                DispatchEvent::Signed { receipt_id, jws } => {
                    self.receipt_id = receipt_id;
                    self.jws = jws;
                    self.to(DispatchPhase::Measuring, DispatchAction::MeasureLog)
                },
                _ => self.stops(StopReason::NotSigned),
            },
            DispatchPhase::Measuring => match event {
                DispatchEvent::Measured(len) => {
                    self.log_end = len;
                    self.to(DispatchPhase::Preparing, DispatchAction::PrepareReceipt)
                },
                _ => self.stops(StopReason::LogUnreadable),
            },
            DispatchPhase::Preparing => self.to(
                DispatchPhase::Finalizing,
                DispatchAction::Finalize,
            ),
            DispatchPhase::Finalizing => self.to(
                DispatchPhase::Appending,
                DispatchAction::AppendReceipt,
            ),
            DispatchPhase::Appending => {
                if passed {
                    self.tail = Some(Sha256Digest::of_text(self.jws.as_str()));
                    self.to(DispatchPhase::BindingReceipt, DispatchAction::BindReceipt)
                } else {
                    self.stops(StopReason::NotAppended)
                }
            },
            DispatchPhase::Stopping(reason) => self.to(
                DispatchPhase::Marking(reason),
                DispatchAction::MarkUnresolved,
            ),
            DispatchPhase::Marking(reason) => self.ends(DispatchEnd::Unresolved(reason)),
            DispatchPhase::BindingReceipt => self.to(
                DispatchPhase::ReleasingPermit,
                DispatchAction::ReleasePermit,
            ),
            DispatchPhase::ReleasingPermit => self.to(
                DispatchPhase::Draining,
                DispatchAction::DrainSettlements,
            ),
            DispatchPhase::Draining => self.ends(DispatchEnd::Completed),
            DispatchPhase::Done => self.ends(DispatchEnd::Completed),
        }
    }

    /// The digest of the last receipt of the chain, as far as this call knows.
    pub fn tail(&self) -> (r: Option<Sha256Digest>)
        ensures
            r == self@.tail,
    {
        self.tail
    }

    /// The candidate that is made durable before the debit.
    pub fn candidate(&self) -> (r: ReceiptCandidate)
        ensures
            r.receipt_id == self@.receipt_id,
            r.expected_parent == self@.tail,
            r.expected_log_end == self@.log_end,
            r.jws_compact@ == self@.jws,
            r.jws_digest == commit::jws_digest(self@.jws),
    {
        ReceiptCandidate {
            receipt_id: self.receipt_id,
            expected_parent: self.tail,
            expected_log_end: self.log_end,
            jws_compact: self.jws.clone(),
            jws_digest: Sha256Digest::of_text(self.jws.as_str()),
        }
    }

    /// The binding of the settlement to the appended receipt.
    pub fn binding(&self) -> (r: ReceiptBinding)
        ensures
            r.receipt_id == self@.receipt_id,
            r.jws_digest == commit::jws_digest(self@.jws),
    {
        ReceiptBinding {
            receipt_id: self.receipt_id,
            jws_digest: Sha256Digest::of_text(self.jws.as_str()),
        }
    }
}

/// The text in front of the detail of an unresolved settlement.
pub open spec fn stop_text(reason: StopReason) -> &'static str {
    match reason {
        StopReason::NotSigned => "receipt mint failed: ",
        StopReason::LogUnreadable => "receipt log unreadable after dispatch: ",
        StopReason::NotAppended => "settlement receipt unresolved: ",
    }
}

/// The error of a dispatch that did not complete; `detail` is the text of the
/// failure itself.
pub fn dispatch_error(end: DispatchEnd, detail: &str) -> (r: Option<RuntimeError>)
    ensures
        match end {
            DispatchEnd::Completed => r is None,
            DispatchEnd::Settlement(error) => r == Some(
                if crate::errors::exceeds_ceiling(error) {
                    RuntimeError::CostCeilingExceeded
                } else {
                    RuntimeError::Settlement(error)
                },
            ),
            DispatchEnd::Provider(error) => r == Some(
                match error {
                    ProviderError::CostCeilingExceeded => RuntimeError::CostCeilingExceeded,
                    ProviderError::Other => RuntimeError::ProviderUnavailable,
                },
            ),
            DispatchEnd::NotEncoded => r matches Some(RuntimeError::Internal(text)) && text@
                == detail@,
            DispatchEnd::InvalidVerb => r matches Some(RuntimeError::Internal(text)) && text@
                == "invalid receipt verb: "@ + detail@,
            DispatchEnd::Unresolved(reason) => r matches Some(RuntimeError::Internal(text)) && text@
                == stop_text(reason)@ + detail@,
        },
{
    match end {
        DispatchEnd::Completed => None,
        DispatchEnd::Settlement(error) => Some(settlement_error(error)),
        DispatchEnd::Provider(error) => Some(map_provider_error(error)),
        DispatchEnd::NotEncoded => Some(RuntimeError::Internal(String::from_str(detail))),
        DispatchEnd::InvalidVerb => {
            let mut text: String = String::from_str("invalid receipt verb: ");
            text.append(detail);
            Some(RuntimeError::Internal(text))
        },
        DispatchEnd::Unresolved(reason) => {
            let mut text: String = String::from_str(
                match reason {
                    StopReason::NotSigned => "receipt mint failed: ",
                    StopReason::LogUnreadable => "receipt log unreadable after dispatch: ",
                    StopReason::NotAppended => "settlement receipt unresolved: ",
                },
            );
            text.append(detail);
            Some(RuntimeError::Internal(text))
        },
    }
}

/// The provider is reached only once the projected cost is reserved and the
/// call is on record; a refused admission never reaches it.
pub proof fn law_admission_precedes_the_call(m: DispatchModel, event: DispatchEvent)
    requires
        m.expects(event),
    ensures
        m.next(event).1 == DispatchAction::CallProvider ==> m.phase == DispatchPhase::Announcing
            && event is Passed,
        m.next(event).1 == DispatchAction::ObserveDispatch ==> m.phase == DispatchPhase::Admitting
            && event is Passed,
        m.next(event).1 == DispatchAction::AdmitRound ==> m.phase == DispatchPhase::Encoding
            && event is Passed,
{
}

/// A provider failure gives the reservation back and reports the failure.
pub proof fn law_a_failed_call_is_refunded(m: DispatchModel, error: ProviderError)
    requires
        m.phase == DispatchPhase::Calling,
    ensures
        m.next(DispatchEvent::ProviderFailed(error)).1 == DispatchAction::ReleaseFailure,
        m.next(DispatchEvent::ProviderFailed(error)).0.next(DispatchEvent::Passed).1
            == DispatchAction::Finish(DispatchEnd::Provider(error)),
{
}

/// A call that was made is never passed over in silence: it completes only
/// with its receipt in the chain, and a receipt that cannot be signed,
/// measured or appended stops admission and stays marked as unresolved.
pub proof fn law_a_made_call_leaves_a_trace(m: DispatchModel, event: DispatchEvent)
    requires
        m.expects(event),
        m.paid(),
    ensures
        m.next(event).1 == DispatchAction::Finish(DispatchEnd::Completed) ==> m.phase
            == DispatchPhase::Draining,
        event is Failed && m.phase != DispatchPhase::CheckingVerb ==> m.next(event).1
            == DispatchAction::StopAdmission,
        m.next(event).1 matches DispatchAction::Finish(DispatchEnd::Unresolved(reason))
            ==> m.phase == DispatchPhase::Marking(reason),
        m.next(event).1 != DispatchAction::ReleaseFailure,
{
}

/// The chain's tail moves exactly when the receipt was appended.
pub proof fn law_a_dispatch_moves_the_tail_with_the_log(m: DispatchModel, event: DispatchEvent)
    requires
        m.expects(event),
        m.phase != DispatchPhase::Locking,
    ensures
        m.next(event).0.tail == (if m.phase == DispatchPhase::Appending && event is Passed {
            Some(commit::jws_digest(m.jws))
        } else {
            m.tail
        }),
{
}

/// The same failure reads the same, whether it stops a dispatch or a commit.
pub proof fn law_a_failure_reads_the_same_everywhere()
    ensures
        stop_text(StopReason::NotSigned)@ == commit::failure_text(commit::CommitEnd::NotSigned)@,
        stop_text(StopReason::NotAppended)@ == commit::failure_text(
            commit::CommitEnd::Unresolved,
        )@,
{
}

} // verus!
