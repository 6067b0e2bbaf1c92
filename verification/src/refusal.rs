//! Settling a refusal after the provider was paid: the known cost is charged
//! under the class of the refusal, and no receipt is written.
use crate::evidence::{InfrastructureFailureClass, RefusalClass, SettlementDecision};
use crate::slot;
use crate::slot::{Disposition, SettlementError};
use crate::turn::SettlementReason;
use vstd::prelude::*;

verus! {

impl SettlementReason {
    /// The class under which a refusal is settled. A tool that failed or did
    /// not return in time is settled as an infrastructure failure.
    pub open spec fn settled_as(self) -> Disposition {
        match self {
            SettlementReason::UnknownTool => Disposition::Refusal(RefusalClass::UnknownTool),
            SettlementReason::ToolCapacity => Disposition::Refusal(RefusalClass::Capacity),
            SettlementReason::ToolAuthorization => Disposition::Refusal(
                RefusalClass::Authorization,
            ),
            SettlementReason::CapabilityDenied => Disposition::Refusal(
                RefusalClass::MissingCapability,
            ),
            SettlementReason::ApprovalRequired => Disposition::Refusal(
                RefusalClass::ApprovalRequired,
            ),
            SettlementReason::ApprovalRejected => Disposition::Refusal(
                RefusalClass::ApprovalRejected,
            ),
            SettlementReason::ApprovalFailed => Disposition::Refusal(RefusalClass::ApprovalError),
            SettlementReason::OutputScan => Disposition::Refusal(RefusalClass::OutputBlocked),
            SettlementReason::OutputScanFailed => Disposition::Refusal(RefusalClass::ScannerError),
            SettlementReason::ToolFailed => Disposition::Infrastructure(
                InfrastructureFailureClass::Provider,
            ),
            SettlementReason::ToolTimeoutUncertain => Disposition::Infrastructure(
                InfrastructureFailureClass::Provider,
            ),
        }
    }

    /// The class under which a refusal is settled.
    pub fn disposition(&self) -> (r: Disposition)
        ensures
            r == self.settled_as(),
    {
        match self {
            SettlementReason::UnknownTool => Disposition::Refusal(RefusalClass::UnknownTool),
            SettlementReason::ToolCapacity => Disposition::Refusal(RefusalClass::Capacity),
            SettlementReason::ToolAuthorization => Disposition::Refusal(
                RefusalClass::Authorization,
            ),
            SettlementReason::CapabilityDenied => Disposition::Refusal(
                RefusalClass::MissingCapability,
            ),
            SettlementReason::ApprovalRequired => Disposition::Refusal(
                RefusalClass::ApprovalRequired,
            ),
            SettlementReason::ApprovalRejected => Disposition::Refusal(
                RefusalClass::ApprovalRejected,
            ),
            SettlementReason::ApprovalFailed => Disposition::Refusal(RefusalClass::ApprovalError),
            SettlementReason::OutputScan => Disposition::Refusal(RefusalClass::OutputBlocked),
            SettlementReason::OutputScanFailed => Disposition::Refusal(RefusalClass::ScannerError),
            SettlementReason::ToolFailed => Disposition::Infrastructure(
                InfrastructureFailureClass::Provider,
            ),
            SettlementReason::ToolTimeoutUncertain => Disposition::Infrastructure(
                InfrastructureFailureClass::Provider,
            ),
        }
    }
}

/// A refusal is settled under a class whose label in the journal is the
/// refusal's own, so that no two refusals are confused; a tool that failed or
/// did not return is settled as a failure of the infrastructure and nothing
/// else is.
pub proof fn law_a_refusal_keeps_its_label(reason: SettlementReason)
    ensures
        reason.settled_as() is Infrastructure <==> reason is ToolFailed || reason
            is ToolTimeoutUncertain,
        reason.settled_as() matches Disposition::Refusal(class) ==> slot::reason_label(
            Some(SettlementDecision::Refusal(class)),
        ) == reason.label(),
        reason.settled_as() matches Disposition::Infrastructure(class) ==> class
            == InfrastructureFailureClass::Provider,
        reason is ToolFailed ==> slot::reason_label(
            Some(
                SettlementDecision::InfrastructureFailure(InfrastructureFailureClass::Provider),
            ),
        ) == reason.label(),
{
}

/// What settling a refusal asks for.
#[derive(Clone, Copy, Debug, PartialEq, Eq, Structural)]
pub enum RefusalAction {
    /// Make the decision and the known cost durable.
    Prepare,
    /// Debit the known cost.
    Finalize,
    /// Project what settlements owe to the journal.
    DrainSettlements,
    /// Give the debit back: the journal proved that it wrote nothing.
    Compensate,
    /// Retire the reservation.
    Commit,
    /// The refusal is settled, or the settlement's error takes precedence.
    Finish(Option<SettlementError>),
}

/// Where the settlement of a refusal stands.
#[derive(Clone, Copy, Debug, PartialEq, Eq, Structural)]
pub enum RefusalSettlement {
    Preparing,
    Finalizing,
    Draining,
    Compensating,
    Committing,
    Done,
}

impl RefusalSettlement {
    /// What the settlement does with the result of its last action, which is
    /// an error or `None`.
    pub open spec fn next(self, refused: Option<SettlementError>) -> (
        RefusalSettlement,
        RefusalAction,
    ) {
        match (self, refused) {
            (RefusalSettlement::Draining, Some(SettlementError::ProjectionNotApplied)) => (
                RefusalSettlement::Compensating,
                RefusalAction::Compensate,
            ),
            (_, Some(error)) => (RefusalSettlement::Done, RefusalAction::Finish(Some(error))),
            (RefusalSettlement::Preparing, None) => (
                RefusalSettlement::Finalizing,
                RefusalAction::Finalize,
            ),
            (RefusalSettlement::Finalizing, None) => (
                RefusalSettlement::Draining,
                RefusalAction::DrainSettlements,
            ),
            (RefusalSettlement::Draining, None) => (
                RefusalSettlement::Committing,
                RefusalAction::Commit,
            ),
            (RefusalSettlement::Compensating, None) => (
                RefusalSettlement::Done,
                RefusalAction::Finish(Some(SettlementError::ProjectionNotApplied)),
            ),
            (RefusalSettlement::Committing, None) => (
                RefusalSettlement::Done,
                RefusalAction::Finish(None),
            ),
            (RefusalSettlement::Done, None) => (
                RefusalSettlement::Done,
                RefusalAction::Finish(None),
            ),
        }
    }

    /// Begins to settle a refusal.
    pub fn begin() -> (r: (RefusalSettlement, RefusalAction))
        ensures
            r == (RefusalSettlement::Preparing, RefusalAction::Prepare),
    {
        (RefusalSettlement::Preparing, RefusalAction::Prepare)
    }

    /// Takes the result of the last action and says what to do next.
    pub fn advance(&mut self, refused: Option<SettlementError>) -> (r: RefusalAction)
        ensures
            (*final(self), r) == old(self).next(refused),
    {
        if let Some(error) = refused {
            if *self == RefusalSettlement::Draining && error
                == SettlementError::ProjectionNotApplied {
                *self = RefusalSettlement::Compensating;
                return RefusalAction::Compensate;
            }
            *self = RefusalSettlement::Done;
            return RefusalAction::Finish(Some(error));
        }
        match *self {
            RefusalSettlement::Preparing => {
                *self = RefusalSettlement::Finalizing;
                RefusalAction::Finalize
            },
            RefusalSettlement::Finalizing => {
                *self = RefusalSettlement::Draining;
                RefusalAction::DrainSettlements
            },
            RefusalSettlement::Draining => {
                *self = RefusalSettlement::Committing;
                RefusalAction::Commit
            },
            RefusalSettlement::Compensating => {
                *self = RefusalSettlement::Done;
                RefusalAction::Finish(Some(SettlementError::ProjectionNotApplied))
            },
            RefusalSettlement::Committing => {
                *self = RefusalSettlement::Done;
                RefusalAction::Finish(None)
            },
            RefusalSettlement::Done => RefusalAction::Finish(None),
        }
    }
}

/// A refusal counts as settled only once its decision was made durable, its
/// cost debited, the journal written and the reservation retired.
pub proof fn law_a_settled_refusal_went_through_every_step(
    a: Option<SettlementError>,
    b: Option<SettlementError>,
    c: Option<SettlementError>,
    d: Option<SettlementError>,
)
    ensures
        ({
            let s1 = RefusalSettlement::Preparing.next(a);
            let s2 = s1.0.next(b);
            let s3 = s2.0.next(c);
            let s4 = s3.0.next(d);
            &&& s1.1 == RefusalAction::Finalize <==> a is None
            &&& (a is None && b is None && c is None && d is None) <==> (s1.1
                == RefusalAction::Finalize && s2.1 == RefusalAction::DrainSettlements && s3.1
                == RefusalAction::Commit && s4.1 == RefusalAction::Finish(None))
        }),
{
}

/// A debit whose journal entry was proved not to be written is given back, and
/// the refusal is reported as not settled.
pub proof fn law_an_unwritten_projection_is_compensated(compensated: Option<SettlementError>)
    ensures
        ({
            let s = RefusalSettlement::Draining.next(Some(SettlementError::ProjectionNotApplied));
            &&& s.1 == RefusalAction::Compensate
            &&& s.0.next(compensated).1 == RefusalAction::Finish(
                Some(
                    match compensated {
                        Some(error) => error,
                        None => SettlementError::ProjectionNotApplied,
                    },
                ),
            )
        }),
{
}

} // verus!
