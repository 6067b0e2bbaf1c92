//! What holds over any number of passes over the owed journal entries.
use crate::cost::CostTuple;
use crate::evidence::{
    InfrastructureFailureClass, JournalProjection, ReceiptBinding, ReceiptCandidate, RefusalClass,
    SettlementProblem, WriteResolution,
};
use crate::ids::{BudgetEpoch, SessionId, TurnId};
use crate::projection;
use crate::projection::{owed_apart, place_of, Place, ProjectionWork, Registry, Tried};
use crate::projection_laws;
use crate::slot;
use crate::slot::{
    AdmissionAttempt, AfterRetire, AfterWrite, Disposition, Event, JournalEntry,
    RejectedObservation, SettlementError, Step,
};
use crate::slot_laws;
use crate::slot_laws::SlotOp;
use crate::slot_model::ProjectionOutcome;
use crate::standing_laws;
use crate::standing_laws::{keeps_round, placed, projections_kept};
use vstd::prelude::*;

verus! {

/// What happens to a slot while passes come and go.
pub ghost enum Happening {
    /// An operation other than a projection begins.
    Begun(SlotOp),
    /// The step of the operation in progress is answered.
    Resumed(Event),
    /// A pass asks for an owed entry.
    HandedOut { ordinal: int, id: u128, journal: SessionId },
    /// The journal answers the entry that was handed out last.
    Answered(ProjectionOutcome),
}

/// An entry that was handed out and is not answered.
pub ghost struct HandedOut {
    pub ordinal: int,
    pub id: u128,
}

/// A slot with the step that its operation waits for and the entry that was
/// handed out last and is not answered. A finished step is no operation.
pub ghost struct Course {
    pub slot: slot::SlotModel,
    pub step: Step,
    pub out: Option<HandedOut>,
}

impl Course {
    /// The slot and its operation fit together.
    pub open spec fn wf(self) -> bool {
        self.slot.wf() && self.slot.ready(self.step) && placed(self.slot)
    }

    /// The slot hands the entry out.
    pub open spec fn hands_out(self, ordinal: int, id: u128, journal: SessionId) -> bool {
        &&& 0 <= ordinal < self.slot.turn.rounds.len()
        &&& self.slot.turn.rounds[ordinal].projection == JournalProjection::Pending(id)
        &&& self.slot.project(ordinal, id, journal).1 matches Ok(Some(_))
    }

    /// It can happen now: one operation runs at a time, and only owed entries
    /// are asked for.
    pub open spec fn allows(self, h: Happening) -> bool {
        match h {
            Happening::Begun(op) => self.step is Finished && !(op is Projected),
            Happening::Resumed(event) => self.slot.awaits(self.step) && self.slot.answers(
                self.step,
                event,
            ),
            Happening::HandedOut { ordinal, id, .. } => {
                &&& self.step is Finished
                &&& 0 <= ordinal < self.slot.turn.rounds.len()
                &&& self.slot.turn.rounds[ordinal].projection == JournalProjection::Pending(id)
            },
            Happening::Answered(_) => self.step is Finished && self.out is Some,
        }
    }

    /// What it leads to.
    pub open spec fn after(self, h: Happening, epoch: BudgetEpoch) -> Course {
        match h {
            Happening::Begun(op) => {
                let (slot, step) = self.slot.start(op);
                Course { slot, step, ..self }
            },
            Happening::Resumed(event) => {
                let (slot, step) = self.slot.advance(self.step, event, epoch);
                Course { slot, step, ..self }
            },
            Happening::HandedOut { ordinal, id, journal } => Course {
                slot: self.slot.project(ordinal, id, journal).0,
                out: if self.hands_out(ordinal, id, journal) {
                    Some(HandedOut { ordinal, id })
                } else {
                    self.out
                },
                ..self
            },
            Happening::Answered(outcome) => {
                let (slot, step) = self.slot.projected(self.out->0.ordinal, self.out->0.id, outcome);
                Course { slot, step, out: None }
            },
        }
    }
}

/// The course after everything that happened.
pub open spec fn ran(c: Course, happened: Seq<Happening>, epoch: BudgetEpoch) -> Course
    decreases happened.len(),
{
    if happened.len() == 0 {
        c
    } else {
        ran(c, happened.drop_last(), epoch).after(happened.last(), epoch)
    }
}

/// Each of it could happen when it did.
pub open spec fn possible(c: Course, happened: Seq<Happening>, epoch: BudgetEpoch) -> bool
    decreases happened.len(),
{
    happened.len() == 0 || (possible(c, happened.drop_last(), epoch) && ran(
        c,
        happened.drop_last(),
        epoch,
    ).allows(happened.last()))
}

/// The journal said of this entry that it did not take it.
pub open spec fn taken_back(c: Course, happened: Seq<Happening>, epoch: BudgetEpoch, id: u128) -> bool
    decreases happened.len(),
{
    happened.len() > 0 && (taken_back(c, happened.drop_last(), epoch, id) || (happened.last()
        == Happening::Answered(ProjectionOutcome::DefinitelyNotApplied) && (ran(
        c,
        happened.drop_last(),
        epoch,
    ).out matches Some(out) && out.id == id)))
}

/// The step records this entry as acknowledged.
pub open spec fn records(step: Step, id: u128) -> bool {
    match step {
        Step::Encode { then_do, .. } => then_do == AfterWrite::Projected(id),
        Step::Write { then_do } => then_do == AfterWrite::Projected(id),
        _ => false,
    }
}

proof fn lemma_records_one_persist(s: slot::SlotModel, next: AfterWrite, id: u128)
    ensures
        records(s.persist(next).1, id) ==> next == AfterWrite::Projected(id),
{
}

proof fn lemma_records_persist(id: u128)
    ensures
        forall|s: slot::SlotModel, next: AfterWrite|
            records((#[trigger] s.persist(next)).1, id) ==> next == AfterWrite::Projected(id),
{
    assert forall|s: slot::SlotModel, next: AfterWrite|
        records((#[trigger] s.persist(next)).1, id) implies next == AfterWrite::Projected(id) by {
        lemma_records_one_persist(s, next, id);
    }
}

proof fn lemma_records_retire(s: slot::SlotModel, next: AfterRetire, id: u128)
    ensures
        !records(s.retire(next).1, id),
        !records(s.finish_resolve().1, id),
{
}

proof fn lemma_records_admit_round(
    s: slot::SlotModel,
    attempt: AdmissionAttempt,
    preflight: Option<SettlementProblem>,
    ordinal: u64,
    id: u128,
)
    ensures
        !records(s.admit_round(attempt, preflight, ordinal).1, id),
{
    lemma_records_persist(id);
}

proof fn lemma_records_observe(s: slot::SlotModel, o: RejectedObservation, id: u128)
    ensures
        !records(s.observe(o).1, id),
{
    lemma_records_persist(id);
}

proof fn lemma_records_prepare(
    s: slot::SlotModel,
    decision: Disposition,
    requested: CostTuple,
    id: u128,
)
    ensures
        !records(s.prepare(decision, requested).1, id),
{
    lemma_records_persist(id);
}

proof fn lemma_records_finalize(s: slot::SlotModel, id: u128)
    ensures
        !records(s.finalize().1, id),
{
    lemma_records_persist(id);
}

proof fn lemma_records_commit_disposition(s: slot::SlotModel, id: u128)
    ensures
        !records(s.commit_disposition().1, id),
{
    lemma_records_persist(id);
    lemma_records_retire(s, AfterRetire::Report, id);
}

proof fn lemma_records_finish_refused(s: slot::SlotModel, class: RefusalClass, id: u128)
    ensures
        !records(s.finish_refused(class).1, id),
{
    lemma_records_persist(id);
}

proof fn lemma_records_prepare_receipt(
    s: slot::SlotModel,
    candidate: ReceiptCandidate,
    final_answer: bool,
    requested: CostTuple,
    id: u128,
)
    ensures
        !records(s.prepare_receipt(candidate, final_answer, requested).1, id),
{
    lemma_records_persist(id);
}

proof fn lemma_records_receipt_unresolved(s: slot::SlotModel, id: u128)
    ensures
        !records(s.receipt_unresolved().1, id),
{
    lemma_records_persist(id);
}

proof fn lemma_records_commit_receipt(s: slot::SlotModel, binding: ReceiptBinding, id: u128)
    ensures
        !records(s.commit_receipt(binding).1, id),
{
    lemma_records_persist(id);
    lemma_records_retire(s, AfterRetire::Report, id);
}

proof fn lemma_records_refund(
    s: slot::SlotModel,
    failure: Option<InfrastructureFailureClass>,
    id: u128,
)
    ensures
        !records(s.refund(failure).1, id),
{
    lemma_records_persist(id);
}

proof fn lemma_records_retry_refund(s: slot::SlotModel, id: u128)
    ensures
        !records(s.retry_refund().1, id),
{
    lemma_records_persist(id);
}

proof fn lemma_records_resolve_storage(s: slot::SlotModel, id: u128)
    ensures
        !records(s.resolve_storage().1, id),
{
    lemma_records_persist(id);
    lemma_records_retire(s, AfterRetire::Report, id);
}

proof fn lemma_records_compensate(s: slot::SlotModel, id: u128)
    ensures
        !records(s.compensate().1, id),
{
    lemma_records_persist(id);
}

proof fn lemma_records_start(s: slot::SlotModel, op: SlotOp, id: u128)
    requires
        !(op is Projected),
    ensures
        !records(s.start(op).1, id),
{
    match op {
        SlotOp::AdmitRound { attempt, preflight, ordinal } => {
            lemma_records_admit_round(s, attempt, preflight, ordinal, id)
        },
        SlotOp::Observe(o) => lemma_records_observe(s, o, id),
        SlotOp::Prepare { decision, requested } => lemma_records_prepare(s, decision, requested, id),
        SlotOp::Finalize => lemma_records_finalize(s, id),
        SlotOp::CommitDisposition => lemma_records_commit_disposition(s, id),
        SlotOp::FinishRefused(class) => lemma_records_finish_refused(s, class, id),
        SlotOp::PrepareReceipt { candidate, final_answer, requested } => {
            lemma_records_prepare_receipt(s, candidate, final_answer, requested, id)
        },
        SlotOp::ReceiptUnresolved => lemma_records_receipt_unresolved(s, id),
        SlotOp::CommitReceipt(binding) => lemma_records_commit_receipt(s, binding, id),
        SlotOp::Refund(failure) => lemma_records_refund(s, failure, id),
        SlotOp::RetryRefund => lemma_records_retry_refund(s, id),
        SlotOp::ResolveStorage => lemma_records_resolve_storage(s, id),
        SlotOp::Compensate => lemma_records_compensate(s, id),
        SlotOp::Projected { .. } => {},
    }
}

proof fn lemma_records_written(
    s: slot::SlotModel,
    next: AfterWrite,
    result: Result<(), SettlementError>,
    id: u128,
)
    ensures
        !records(s.after_write(next, result).1, id),
{
    lemma_records_persist(id);
    if let AfterWrite::Retire(retire) = next {
        lemma_records_retire(s, retire, id);
    }
    lemma_records_retire(s, AfterRetire::Report, id);
}

proof fn lemma_records_advance(
    s: slot::SlotModel,
    step: Step,
    event: Event,
    epoch: BudgetEpoch,
    id: u128,
)
    requires
        !records(step, id),
    ensures
        !records(s.advance(step, event, epoch).1, id),
{
    lemma_records_persist(id);
    match (step, event) {
        (Step::Encode { then_do, .. }, Event::Encoded(Err(e))) => {
            let error = SettlementError::Invalid(slot::encoding_problem(e));
            lemma_records_written(s.failing(error), then_do, Err(error), id);
        },
        (Step::Write { then_do }, Event::Written(resolution)) => {
            let (b, result) = s.acknowledge(resolution);
            lemma_records_written(b, then_do, result, id);
        },
        (Step::Resolve, Event::Written(resolution)) => {
            lemma_records_retire(s.acknowledge(resolution).0, AfterRetire::Report, id);
        },
        (Step::Rewrite, Event::Written(resolution)) => {
            lemma_records_retire(s.acknowledge(resolution).0, AfterRetire::Report, id);
        },
        _ => {},
    }
}

proof fn lemma_course_stays(c: Course, h: Happening, epoch: BudgetEpoch)
    requires
        c.wf(),
        c.allows(h),
    ensures
        c.after(h, epoch).wf(),
{
    match h {
        Happening::Begun(op) => {
            slot_laws::law_start_evolves(c.slot, op);
            standing_laws::lemma_kept_start(c.slot, op);
        },
        Happening::Resumed(event) => {
            slot_laws::law_advance_evolves(c.slot, c.step, event, epoch);
            standing_laws::lemma_kept_advance(c.slot, c.step, event, epoch);
        },
        Happening::HandedOut { ordinal, id, journal } => {},
        Happening::Answered(outcome) => {
            let HandedOut { ordinal, id } = c.out->0;
            slot_laws::law_start_evolves(c.slot, SlotOp::Projected { ordinal, id, outcome });
            standing_laws::lemma_projected_placed(c.slot, ordinal, id, outcome);
        },
    }
}

/// The entry is acknowledged, or its attempt is outstanding and nothing is about
/// to forget it.
pub open spec fn spent(c: Course, ordinal: int, id: u128) -> bool {
    &&& 0 <= ordinal < c.slot.turn.rounds.len()
    &&& c.slot.turn.rounds[ordinal].projection == JournalProjection::Acknowledged(id) || (
    c.slot.attempted(id) && !records(c.step, id) && (c.out matches Some(out) ==> out.id == id
        ==> out.ordinal == ordinal))
}

proof fn lemma_spent_begun(c: Course, op: SlotOp, ordinal: int, id: u128)
    requires
        c.wf(),
        spent(c, ordinal, id),
        !(op is Projected),
    ensures
        ({
            let (slot, step) = c.slot.start(op);
            spent(Course { slot, step, ..c }, ordinal, id)
        }),
{
    standing_laws::lemma_kept_start(c.slot, op);
    assert(keeps_round(c.slot.turn.rounds[ordinal], c.slot.start(op).0.turn.rounds[ordinal]));
    lemma_records_start(c.slot, op, id);
    projection_laws::lemma_attempts_start(c.slot, op);
}

proof fn lemma_spent_resumed(c: Course, event: Event, epoch: BudgetEpoch, ordinal: int, id: u128)
    requires
        c.wf(),
        spent(c, ordinal, id),
    ensures
        ({
            let (slot, step) = c.slot.advance(c.step, event, epoch);
            spent(Course { slot, step, ..c }, ordinal, id)
        }),
{
    standing_laws::lemma_kept_advance(c.slot, c.step, event, epoch);
    let n = c.slot.advance(c.step, event, epoch).0;
    assert(keeps_round(c.slot.turn.rounds[ordinal], n.turn.rounds[ordinal]));
    if c.slot.attempted(id) && !records(c.step, id) {
        lemma_records_advance(c.slot, c.step, event, epoch, id);
        projection_laws::lemma_attempts_advance(c.slot, c.step, event, epoch, id);
    }
}

proof fn lemma_spent_handed_out(
    c: Course,
    at: int,
    other: u128,
    journal: SessionId,
    epoch: BudgetEpoch,
    ordinal: int,
    id: u128,
)
    requires
        c.wf(),
        spent(c, ordinal, id),
    ensures
        spent(c.after(Happening::HandedOut { ordinal: at, id: other, journal }, epoch), ordinal, id),
{
    let n = c.slot.project(at, other, journal).0;
    if c.slot.attempted(id) {
        let i = choose|i: int|
            0 <= i < c.slot.projection_attempts.len() && (
            #[trigger] c.slot.projection_attempts[i]).id == id;
        assert(n.projection_attempts[i] == c.slot.projection_attempts[i]);
        assert(n.attempted(id));
    }
}

proof fn lemma_spent_answered(
    c: Course,
    outcome: ProjectionOutcome,
    epoch: BudgetEpoch,
    ordinal: int,
    id: u128,
)
    requires
        c.wf(),
        spent(c, ordinal, id),
        c.out is Some,
        !(outcome is DefinitelyNotApplied && c.out->0.id == id),
    ensures
        spent(c.after(Happening::Answered(outcome), epoch), ordinal, id),
{
    let HandedOut { ordinal: at, id: other } = c.out->0;
    let (n, step) = c.slot.projected(at, other, outcome);
    lemma_records_persist(id);
    projection_laws::lemma_attempts_any_persist();
    standing_laws::lemma_rounds_persist();
    if c.slot.attempted(id) && other != id {
        projection_laws::lemma_forgetting_another(c.slot, other, id);
    }
}

proof fn lemma_spent(c: Course, h: Happening, epoch: BudgetEpoch, ordinal: int, id: u128)
    requires
        c.wf(),
        c.allows(h),
        spent(c, ordinal, id),
        !(h == Happening::Answered(ProjectionOutcome::DefinitelyNotApplied) && c.out->0.id == id),
    ensures
        spent(c.after(h, epoch), ordinal, id),
{
    match h {
        Happening::Begun(op) => lemma_spent_begun(c, op, ordinal, id),
        Happening::Resumed(event) => lemma_spent_resumed(c, event, epoch, ordinal, id),
        Happening::HandedOut { ordinal: at, id: other, journal } => {
            lemma_spent_handed_out(c, at, other, journal, epoch, ordinal, id)
        },
        Happening::Answered(outcome) => lemma_spent_answered(c, outcome, epoch, ordinal, id),
    }
}

proof fn lemma_spent_over_a_course(
    c: Course,
    happened: Seq<Happening>,
    epoch: BudgetEpoch,
    ordinal: int,
    id: u128,
)
    requires
        c.wf(),
        spent(c, ordinal, id),
        possible(c, happened, epoch),
        !taken_back(c, happened, epoch, id),
    ensures
        ran(c, happened, epoch).wf(),
        spent(ran(c, happened, epoch), ordinal, id),
    decreases happened.len(),
{
    if happened.len() > 0 {
        let before = happened.drop_last();
        lemma_spent_over_a_course(c, before, epoch, ordinal, id);
        let b = ran(c, before, epoch);
        lemma_course_stays(b, happened.last(), epoch);
        lemma_spent(b, happened.last(), epoch, ordinal, id);
    }
}

/// Over any number of passes, between which any other operation may run: an
/// entry that was handed out once is never handed out again, whether the
/// journal answered that it holds it, that it does not know, or not at all.
/// Only where it answered that it did not take it may it be asked again.
pub proof fn law_an_entry_is_handed_out_once(
    c: Course,
    happened: Seq<Happening>,
    epoch: BudgetEpoch,
    ordinal: int,
    id: u128,
    journal: SessionId,
    later: SessionId,
)
    requires
        c.wf(),
        c.allows(Happening::HandedOut { ordinal, id, journal }),
        c.hands_out(ordinal, id, journal),
        ({
            let first = c.after(Happening::HandedOut { ordinal, id, journal }, epoch);
            possible(first, happened, epoch) && !taken_back(first, happened, epoch, id)
        }),
    ensures
        ({
            let first = c.after(Happening::HandedOut { ordinal, id, journal }, epoch);
            !ran(first, happened, epoch).hands_out(ordinal, id, later)
        }),
{
    let h = Happening::HandedOut { ordinal, id, journal };
    let first = c.after(h, epoch);
    lemma_course_stays(c, h, epoch);
    let n = c.slot.projection_attempts.len() as int;
    assert(first.slot.projection_attempts[n].id == id);
    assert(first.slot.attempted(id));
    lemma_spent_over_a_course(first, happened, epoch, ordinal, id);
    let last = ran(first, happened, epoch);
    if last.slot.attempted(id) {
        projection::law_an_outstanding_attempt_is_not_repeated(last.slot, ordinal, id, later);
    }
}

/// From `before` the entry is handed out and the journal holds it. By the time
/// of the answer the slot is `between`, and `after` once the record is stored.
pub open spec fn acknowledges(
    before: slot::SlotModel,
    between: slot::SlotModel,
    after: slot::SlotModel,
    work: ProjectionWork,
    journal: SessionId,
    bytes: Vec<u8>,
    epoch: BudgetEpoch,
) -> bool {
    let ordinal = work.ordinal as int;
    let (handed, entry) = before.project(ordinal, work.id, journal);
    let (recorded, step) = between.projected(ordinal, work.id, ProjectionOutcome::Durable);
    &&& entry matches Ok(Some(_))
    &&& projections_kept(handed, between)
    &&& step matches Step::Encode { revision, .. } && ({
        let written = recorded.advance(step, Event::Encoded(Ok(bytes)), epoch);
        after == written.0.advance(
            written.1,
            Event::Written(WriteResolution::Durable(revision)),
            epoch,
        ).0
    })
}

/// What one try of a pass does to the slot of its entry.
pub open spec fn trial(
    before: slot::SlotModel,
    after: slot::SlotModel,
    work: ProjectionWork,
    tried: Tried,
    journal: SessionId,
    epoch: BudgetEpoch,
) -> bool {
    match tried {
        Tried::Skipped => before.project(work.ordinal as int, work.id, journal) == (
            after,
            Ok::<Option<JournalEntry>, SettlementError>(None),
        ),
        Tried::Acknowledged => exists|between: slot::SlotModel, bytes: Vec<u8>| #[trigger]
            acknowledges(before, between, after, work, journal, bytes, epoch),
        Tried::Failed(_) => true,
    }
}

/// The entry is tried somewhere between `a` and `b`, around which any other
/// operation may run on its slot.
pub open spec fn tries(
    a: slot::SlotModel,
    b: slot::SlotModel,
    work: ProjectionWork,
    tried: Tried,
    journal: SessionId,
    epoch: BudgetEpoch,
) -> bool {
    exists|before: slot::SlotModel, after: slot::SlotModel| #[trigger]
        trial(before, after, work, tried, journal, epoch) && projections_kept(a, before)
            && projections_kept(after, b)
}

/// One try of a pass: its own slot is tried, on every other slot any other
/// operation may run.
pub open spec fn pass_step(
    a: Registry,
    b: Registry,
    work: ProjectionWork,
    tried: Tried,
    journal: SessionId,
    epoch: BudgetEpoch,
) -> bool {
    &&& a.dom() == b.dom()
    &&& a.contains_key(work.turn)
    &&& tries(a[work.turn], b[work.turn], work, tried, journal, epoch)
    &&& forall|t: TurnId|
        t != work.turn && #[trigger] a.contains_key(t) ==> projections_kept(a[t], b[t])
}

/// The rounds whose projection went from pending to acknowledged.
pub open spec fn newly_acknowledged(a: Registry, b: Registry) -> Set<Place> {
    Set::new(
        |p: Place|
            a.contains_key(p.turn) && 0 <= p.ordinal < a[p.turn].turn.rounds.len()
                && a[p.turn].turn.rounds[p.ordinal].projection is Pending
                && b[p.turn].turn.rounds[p.ordinal].projection is Acknowledged,
    )
}

/// The rounds whose entry a pass counted.
pub open spec fn counted(work: Seq<ProjectionWork>, tried: Seq<Tried>) -> Set<Place>
    decreases tried.len(),
{
    if tried.len() == 0 {
        Set::empty()
    } else {
        let rest = counted(work, tried.drop_last());
        if tried.last() is Acknowledged {
            rest.insert(place_of(work[tried.len() - 1]))
        } else {
            rest
        }
    }
}

/// A pass from one registry to the next, try by try.
pub open spec fn pass_runs(
    registries: Seq<Registry>,
    work: Seq<ProjectionWork>,
    tried: Seq<Tried>,
    journal: SessionId,
    epoch: BudgetEpoch,
) -> bool {
    &&& registries.len() == tried.len() + 1
    &&& tried.len() <= work.len()
    &&& forall|k: int|
        0 <= k < tried.len() ==> pass_step(
            #[trigger] registries[k],
            registries[k + 1],
            work[k],
            tried[k],
            journal,
            epoch,
        )
}

proof fn lemma_trial(
    before: slot::SlotModel,
    after: slot::SlotModel,
    work: ProjectionWork,
    tried: Tried,
    journal: SessionId,
    epoch: BudgetEpoch,
)
    requires
        placed(before),
        work.ordinal < before.turn.rounds.len(),
        !(tried is Failed),
        trial(before, after, work, tried, journal, epoch),
    ensures
        placed(after),
        before.turn.rounds.len() <= after.turn.rounds.len(),
        forall|i: int|
            0 <= i < before.turn.rounds.len() && !(tried is Acknowledged && i == work.ordinal)
                ==> keeps_round(#[trigger] before.turn.rounds[i], after.turn.rounds[i]),
        forall|i: int|
            before.turn.rounds.len() <= i < after.turn.rounds.len() ==> !((
            #[trigger] after.turn.rounds[i]).projection is Acknowledged),
        tried is Acknowledged ==> after.turn.rounds[work.ordinal as int].projection is Acknowledged
            && after.turn.rounds[work.ordinal as int].commit_ordinal is Some,
{
    let at = work.ordinal as int;
    if tried is Acknowledged {
        let (between, bytes) = choose|between: slot::SlotModel, bytes: Vec<u8>| #[trigger]
            acknowledges(before, between, after, work, journal, bytes, epoch);
        let handed = before.project(at, work.id, journal).0;
        assert(handed.turn == before.turn);
        let (recorded, step) = between.projected(at, work.id, ProjectionOutcome::Durable);
        standing_laws::lemma_rounds_persist();
        standing_laws::lemma_projected_placed(between, at, work.id, ProjectionOutcome::Durable);
        assert(between.turn.rounds[at].projection == JournalProjection::Pending(work.id));
        assert(between.turn.rounds[at].commit_ordinal is Some);
        lemma_written(recorded, step, bytes, epoch);
        assert(after.turn.rounds == recorded.turn.rounds);
        assert forall|i: int| 0 <= i < before.turn.rounds.len() && i != at implies keeps_round(
            #[trigger] before.turn.rounds[i],
            after.turn.rounds[i],
        ) by {
            assert(keeps_round(handed.turn.rounds[i], between.turn.rounds[i]));
            assert(recorded.turn.rounds[i] == between.turn.rounds[i]);
        }
        assert forall|i: int|
            before.turn.rounds.len() <= i < after.turn.rounds.len() implies !((
        #[trigger] after.turn.rounds[i]).projection is Acknowledged) by {
            assert(recorded.turn.rounds[i] == between.turn.rounds[i]);
        }
    } else {
        assert(after.turn == before.turn);
    }
}

proof fn lemma_written(s: slot::SlotModel, step: Step, bytes: Vec<u8>, epoch: BudgetEpoch)
    requires
        step is Encode,
    ensures
        ({
            let written = s.advance(step, Event::Encoded(Ok(bytes)), epoch);
            let after = written.0.advance(
                written.1,
                Event::Written(WriteResolution::Durable(step->Encode_revision)),
                epoch,
            ).0;
            after.turn.rounds == s.turn.rounds
        }),
{
    let written = s.advance(step, Event::Encoded(Ok(bytes)), epoch);
    let (b, result) = written.0.acknowledge(WriteResolution::Durable(step->Encode_revision));
    standing_laws::lemma_rounds_written(b, step->Encode_then_do, result);
}

/// What holds of the registry after some tries, if `acked` are those that were
/// acknowledged.
spec fn stands(first: Registry, now: Registry, acked: Set<Place>) -> bool {
    &&& first.dom() == now.dom()
    &&& forall|t: TurnId| #[trigger]
        now.contains_key(t) ==> placed(now[t]) && first[t].turn.rounds.len()
            <= now[t].turn.rounds.len()
    &&& forall|t: TurnId, i: int|
        first.contains_key(t) && 0 <= i < first[t].turn.rounds.len() ==> ({
            let p = #[trigger] now[t].turn.rounds[i];
            if acked.contains(Place { turn: t, ordinal: i }) {
                p.projection is Acknowledged && p.commit_ordinal is Some
            } else {
                keeps_round(first[t].turn.rounds[i], p)
            }
        })
}

proof fn lemma_stands(
    first: Registry,
    now: Registry,
    next: Registry,
    acked: Set<Place>,
    work: ProjectionWork,
    tried: Tried,
    journal: SessionId,
    epoch: BudgetEpoch,
)
    requires
        stands(first, now, acked),
        pass_step(now, next, work, tried, journal, epoch),
        work.ordinal < first[work.turn].turn.rounds.len(),
        !(tried is Failed),
    ensures
        stands(
            first,
            next,
            if tried is Acknowledged {
                acked.insert(place_of(work))
            } else {
                acked
            },
        ),
{
    let after = if tried is Acknowledged {
        acked.insert(place_of(work))
    } else {
        acked
    };
    let (x, y) = choose|x: slot::SlotModel, y: slot::SlotModel| #[trigger]
        trial(x, y, work, tried, journal, epoch) && projections_kept(now[work.turn], x)
            && projections_kept(y, next[work.turn]);
    assert(placed(now[work.turn]));
    lemma_trial(x, y, work, tried, journal, epoch);
    assert forall|t: TurnId| #[trigger] next.contains_key(t) implies placed(next[t])
        && first[t].turn.rounds.len() <= next[t].turn.rounds.len() by {
        assert(now.contains_key(t));
        if t != work.turn {
            assert(projections_kept(now[t], next[t]));
        }
    }
    assert forall|t: TurnId, i: int|
        first.contains_key(t) && 0 <= i < first[t].turn.rounds.len() implies ({
        let p = #[trigger] next[t].turn.rounds[i];
        if after.contains(Place { turn: t, ordinal: i }) {
            p.projection is Acknowledged && p.commit_ordinal is Some
        } else {
            keeps_round(first[t].turn.rounds[i], p)
        }
    }) by {
        assert(now.contains_key(t));
        let was = now[t].turn.rounds[i];
        let is = next[t].turn.rounds[i];
        if t != work.turn {
            assert(projections_kept(now[t], next[t]));
            assert(keeps_round(was, is));
        } else {
            assert(keeps_round(was, x.turn.rounds[i]));
            assert(keeps_round(y.turn.rounds[i], is));
            if !(tried is Acknowledged && i == work.ordinal) {
                assert(keeps_round(x.turn.rounds[i], y.turn.rounds[i]));
            }
        }
    }
}

proof fn lemma_pass(
    registries: Seq<Registry>,
    work: Seq<ProjectionWork>,
    tried: Seq<Tried>,
    journal: SessionId,
    epoch: BudgetEpoch,
)
    requires
        pass_runs(registries, work, tried, journal, epoch),
        owed_apart(registries[0], work),
        forall|t: TurnId| #[trigger] registries[0].contains_key(t) ==> placed(registries[0][t]),
        forall|k: int| 0 <= k < tried.len() ==> !((#[trigger] tried[k]) is Failed),
    ensures
        stands(registries[0], registries.last(), counted(work, tried)),
        counted(work, tried).finite(),
        counted(work, tried).len() == projection::acknowledged_among(tried),
        forall|p: Place| #[trigger]
            counted(work, tried).contains(p) ==> exists|k: int|
                0 <= k < tried.len() && place_of(#[trigger] work[k]) == p,
    decreases tried.len(),
{
    let n = tried.len() as int;
    if n > 0 {
        let before = tried.drop_last();
        let earlier = registries.drop_last();
        assert forall|k: int| 0 <= k < before.len() implies pass_step(
            #[trigger] earlier[k],
            earlier[k + 1],
            work[k],
            before[k],
            journal,
            epoch,
        ) by {
            assert(earlier[k] == registries[k]);
            assert(earlier[k + 1] == registries[k + 1]);
        }
        assert forall|k: int| 0 <= k < before.len() implies !((#[trigger] before[k]) is Failed) by {
            assert(before[k] == tried[k]);
        }
        lemma_pass(earlier, work, before, journal, epoch);
        let now = registries[n - 1];
        assert(earlier.last() == now);
        assert(pass_step(registries[n - 1], registries[n], work[n - 1], tried[n - 1], journal, epoch));
        assert(registries[0].contains_key(work[n - 1].turn));
        assert(!(tried[n - 1] is Failed));
        let acked = counted(work, before);
        lemma_stands(
            registries[0],
            now,
            registries[n],
            acked,
            work[n - 1],
            tried[n - 1],
            journal,
            epoch,
        );
        if acked.contains(place_of(work[n - 1])) {
            let k = choose|k: int|
                0 <= k < before.len() && place_of(#[trigger] work[k]) == place_of(work[n - 1]);
            assert(place_of(work[k]) != place_of(work[n - 1]));
        }
        assert forall|p: Place| #[trigger] counted(work, tried).contains(p) implies exists|k: int|
            0 <= k < tried.len() && place_of(#[trigger] work[k]) == p by {
            if acked.contains(p) {
                let k = choose|k: int| 0 <= k < before.len() && place_of(#[trigger] work[k]) == p;
                assert(place_of(work[k]) == p);
            } else {
                assert(place_of(work[n - 1]) == p);
            }
        }
    } else {
        assert forall|t: TurnId, i: int|
            registries[0].contains_key(t) && 0 <= i
                < registries[0][t].turn.rounds.len() implies keeps_round(
            registries[0][t].turn.rounds[i],
            #[trigger] registries[0][t].turn.rounds[i],
        ) by {
            assert(placed(registries[0][t]));
        }
    }
}

/// A pass that reports `Ok(n)` has acknowledged exactly `n` projections: those
/// that it counted went from pending to acknowledged, and no other one did,
/// whatever else ran on the registry meanwhile.
pub proof fn law_a_pass_counts_what_it_acknowledged(
    registries: Seq<Registry>,
    work: Seq<ProjectionWork>,
    tried: Seq<Tried>,
    journal: SessionId,
    epoch: BudgetEpoch,
)
    requires
        projection::takes(work, tried),
        pass_runs(registries, work, tried, journal, epoch),
        owed_apart(registries[0], work),
        forall|t: TurnId| #[trigger] registries[0].contains_key(t) ==> placed(registries[0][t]),
    ensures
        projection::passed(work, tried).result() matches Ok(n) ==> {
            &&& newly_acknowledged(registries[0], registries.last()) == counted(work, tried)
            &&& newly_acknowledged(registries[0], registries.last()).len() == n
        },
{
    projection::law_a_pass_stops_at_its_first_failure(work, tried);
    if projection::passed(work, tried).result() is Ok {
        assert forall|k: int| 0 <= k < tried.len() implies !((#[trigger] tried[k]) is Failed) by {
            if k == tried.len() - 1 {
                assert(tried.last() == tried[k]);
            }
        }
        lemma_pass(registries, work, tried, journal, epoch);
        let first = registries[0];
        let last = registries.last();
        let acked = counted(work, tried);
        assert forall|p: Place| newly_acknowledged(first, last).contains(p) == acked.contains(p) by {
            if acked.contains(p) {
                let k = choose|k: int| 0 <= k < tried.len() && place_of(#[trigger] work[k]) == p;
                assert(first.contains_key(work[k].turn));
                let now = last[p.turn].turn.rounds[p.ordinal];
                assert(now.projection is Acknowledged);
            } else if newly_acknowledged(first, last).contains(p) {
                let now = last[p.turn].turn.rounds[p.ordinal];
                assert(placed(first[p.turn]));
                assert(keeps_round(first[p.turn].turn.rounds[p.ordinal], now));
            }
        }
        assert(newly_acknowledged(first, last) =~= acked);
    }
}

} // verus!
