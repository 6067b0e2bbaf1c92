//! What leaves a turn: the text of a tool's output, the record of a turn in
//! memory, and the facts of a committed round that are mirrored.
use crate::chat::ToolCall;
use crate::classify::{round_side_effect, ActionClass, SideEffectClass};
use crate::cost::CostTuple;
use crate::digest;
use crate::encoding;
use crate::encoding::text_of_uuid;
use crate::evidence::{
    CostProvenance, OutputAdmission, ProviderEvidence, ToolEffect, ToolEvidence, ToolFailureClass,
    UsageSnapshot,
};
use crate::ids::{ReceiptId, Sha256Digest, UnixTsMillis};
use crate::receipts;
use crate::receipts::{ReceiptBody, ToolCallReceipt};
use crate::streaming;
use crate::streaming::Usage;
use crate::turn::{ScanVerdict, ToolEnd};
use vstd::prelude::*;
use vstd::string::StringExecFns;

verus! {

/// The resource family of a mirrored round.
pub const CHAT_RESOURCE_FAMILY: &'static str = "llm_completion";

/// The lifetime of a mirrored receipt, in seconds.
pub const ER_TTL_SECS: u64 = 300;

/// What a round's usage is evidence of: its cost was priced by the rate card
/// with these bytes.
pub fn usage_evidence(usage: Usage, cost: CostTuple, rate_card: &[u8], finished: bool) -> (r:
    ProviderEvidence)
    ensures
        r == (ProviderEvidence::Observed {
            usage: Some(
                UsageSnapshot {
                    input_tokens: usage.tokens_in as u64,
                    output_tokens: usage.tokens_out as u64,
                },
            ),
            cost,
            provenance: CostProvenance::PricedUsage(digest::digest_of(rate_card@)),
            finished,
            interrupted: false,
        }),
        r->cost == cost,
        r->usage == Some(
            UsageSnapshot {
                input_tokens: usage.tokens_in as u64,
                output_tokens: usage.tokens_out as u64,
            },
        ),
        r->finished == finished,
        !r->interrupted,
{
    ProviderEvidence::Observed {
        usage: Some(
            UsageSnapshot {
                input_tokens: usage.tokens_in as u64,
                output_tokens: usage.tokens_out as u64,
            },
        ),
        cost,
        provenance: CostProvenance::PricedUsage(Sha256Digest::of(rate_card)),
        finished,
        interrupted: false,
    }
}

/// What an answer that came in one piece is evidence of.
pub fn response_evidence(usage: Usage, cost: CostTuple) -> (r: ProviderEvidence)
    ensures
        r == (ProviderEvidence::Observed {
            usage: Some(
                UsageSnapshot {
                    input_tokens: usage.tokens_in as u64,
                    output_tokens: usage.tokens_out as u64,
                },
            ),
            cost,
            provenance: CostProvenance::ResponseCost,
            finished: true,
            interrupted: false,
        }),
        r->cost == cost,
        r->usage == Some(
            UsageSnapshot {
                input_tokens: usage.tokens_in as u64,
                output_tokens: usage.tokens_out as u64,
            },
        ),
        r->finished,
        !r->interrupted,
{
    ProviderEvidence::Observed {
        usage: Some(
            UsageSnapshot {
                input_tokens: usage.tokens_in as u64,
                output_tokens: usage.tokens_out as u64,
            },
        ),
        cost,
        provenance: CostProvenance::ResponseCost,
        finished: true,
        interrupted: false,
    }
}

/// What the settlement observes of how a tool ended. An output that was not
/// let through counts as blocked, whatever stopped it.
pub open spec fn effect_of_end(end: ToolEnd, output: Seq<u8>, cost: CostTuple) -> (
    ToolEffect,
    OutputAdmission,
) {
    match end {
        ToolEnd::Completed(verdict) => (
            ToolEffect::Completed { output_digest: digest::digest_of(output), cost },
            if verdict is Allowed {
                OutputAdmission::Allowed
            } else {
                OutputAdmission::Blocked
            },
        ),
        ToolEnd::Failed => (
            ToolEffect::Failed { class: ToolFailureClass::Execution, effect_unknown: true },
            OutputAdmission::NotScanned,
        ),
        ToolEnd::TimedOut => (ToolEffect::InterruptedUnknown, OutputAdmission::NotScanned),
    }
}

/// A tool that returned is observed at its cost, one that did not at none; its
/// output counts as admitted exactly if the filters let it through, and as
/// blocked whatever else they said of it.
pub proof fn law_an_output_is_admitted_only_if_allowed(
    end: ToolEnd,
    output: Seq<u8>,
    cost: CostTuple,
)
    ensures
        effect_of_end(end, output, cost).0 matches ToolEffect::Completed { cost: observed, .. }
            ==> end is Completed && observed == cost,
        effect_of_end(end, output, cost).0 is Completed <==> end is Completed,
        effect_of_end(end, output, cost).1 == OutputAdmission::Allowed <==> end
            == ToolEnd::Completed(ScanVerdict::Allowed),
        effect_of_end(end, output, cost).1 == OutputAdmission::Blocked <==> end is Completed && end
            != ToolEnd::Completed(ScanVerdict::Allowed),
        effect_of_end(end, output, cost).0 matches ToolEffect::Completed { output_digest, .. }
            ==> output_digest == digest::digest_of(output),
        effect_of_end(end, output, cost).0 matches ToolEffect::Failed { effect_unknown, .. }
            ==> effect_unknown && end is Failed,
        effect_of_end(end, output, cost).0 is InterruptedUnknown <==> end is TimedOut,
        effect_of_end(end, output, cost).0 is Failed <==> end is Failed,
{
}

/// What the settlement observes of how a tool ended.
pub fn observed_effect(end: ToolEnd, output: &[u8], cost: CostTuple) -> (r: (
    ToolEffect,
    OutputAdmission,
))
    ensures
        r == effect_of_end(end, output@, cost),
        match end {
            ToolEnd::Completed(_) => r.0 == (ToolEffect::Completed {
                output_digest: digest::digest_of(output@),
                cost,
            }),
            ToolEnd::Failed => r.0 == (ToolEffect::Failed {
                class: ToolFailureClass::Execution,
                effect_unknown: true,
            }),
            ToolEnd::TimedOut => r.0 == ToolEffect::InterruptedUnknown,
        },
        r.1 == OutputAdmission::Allowed <==> end == ToolEnd::Completed(ScanVerdict::Allowed),
        r.1 == OutputAdmission::NotScanned <==> !(end is Completed),
{
    match end {
        ToolEnd::Completed(verdict) => (
            ToolEffect::Completed { output_digest: Sha256Digest::of(output), cost },
            if verdict == ScanVerdict::Allowed {
                OutputAdmission::Allowed
            } else {
                OutputAdmission::Blocked
            },
        ),
        ToolEnd::Failed => (
            ToolEffect::Failed { class: ToolFailureClass::Execution, effect_unknown: true },
            OutputAdmission::NotScanned,
        ),
        ToolEnd::TimedOut => (ToolEffect::InterruptedUnknown, OutputAdmission::NotScanned),
    }
}

/// How a call that returned is recorded: a scan that failed leaves the
/// admission of its output undetermined.
#[derive(Debug)]
pub struct CompletedOutcome {
    pub output_digest: String,
    pub cost: CostTuple,
    pub output_admission: ScanVerdict,
}

/// The recorded outcome of a call that returned.
pub fn completed_outcome(output: &[u8], cost: CostTuple, verdict: ScanVerdict) -> (r:
    CompletedOutcome)
    ensures
        r.output_digest@ == streaming::digest_hex(digest::digest_of(output@)),
        r.cost == cost,
        r.output_admission == verdict,
{
    CompletedOutcome {
        output_digest: Sha256Digest::of(output).to_hex(),
        cost,
        output_admission: verdict,
    }
}

/// What is observed of a tool call: never its arguments, only their digest.
pub fn tool_evidence(
    ordinal: u32,
    call: &ToolCall,
    effect: ToolEffect,
    admission: OutputAdmission,
) -> (r: ToolEvidence)
    ensures
        r.ordinal == ordinal,
        r.call_id@ == call.id@,
        r.name@ == call.name@,
        r.arguments_digest == digest::digest_of(call.arguments@),
        r.effect == effect,
        r.output_admission == admission,
{
    ToolEvidence {
        ordinal,
        call_id: call.id.clone(),
        name: call.name.clone(),
        arguments_digest: Sha256Digest::of(call.arguments.as_slice()),
        effect,
        output_admission: admission,
    }
}

/// A JSON value as text: its compact rendering, and what it holds where it is
/// a string.
#[derive(Debug)]
pub struct JsonText {
    pub string: Option<String>,
    pub rendered: String,
}

impl View for JsonText {
    type V = Seq<char>;

    /// The value as a reader sees it: a string without its quotes.
    open spec fn view(&self) -> Seq<char> {
        match self.string {
            Some(string) => string@,
            None => self.rendered@,
        }
    }
}

/// The text of a tool's output in its result message: a JSON string is
/// unwrapped, anything else is rendered.
pub fn tool_output_text(value: JsonText) -> (r: String)
    ensures
        r@ == value@,
{
    match value.string {
        Some(string) => string,
        None => value.rendered,
    }
}

/// The text of a memory's payload: that of its `object` where it has one.
pub fn memory_payload_text(object: Option<JsonText>, payload: JsonText) -> (r: String)
    ensures
        r@ == (match object {
            Some(object) => object@,
            None => payload@,
        }),
{
    match object {
        Some(object) => tool_output_text(object),
        None => tool_output_text(payload),
    }
}

/// The memory of a completed turn: an observation of its holder, valid from
/// the moment it is recorded.
#[derive(Debug)]
pub struct TurnRecord {
    pub holder: String,
    pub response: String,
    pub receipt_id: String,
    pub source: &'static str,
    pub workspace_id: String,
    pub event_time: UnixTsMillis,
    pub valid_from: UnixTsMillis,
    pub valid_to: Option<UnixTsMillis>,
    pub recorded_at: UnixTsMillis,
    pub source_receipt_id: Option<ReceiptId>,
}

/// The memory record of a turn that ended with `receipt`.
pub fn turn_record(subject: &str, response: &str, receipt: &ReceiptBody, now: UnixTsMillis) -> (r:
    TurnRecord)
    ensures
        r.holder@ == subject@,
        r.response@ == response@,
        r.receipt_id@ == encoding::uuid_text(receipt.receipt_id.0),
        r.source@ == "turn"@,
        r.workspace_id@ == subject@,
        r.event_time == now,
        r.valid_from == now,
        r.valid_to is None,
        r.recorded_at == now,
        r.source_receipt_id == Some(receipt.receipt_id),
{
    TurnRecord {
        holder: String::from_str(subject),
        response: String::from_str(response),
        receipt_id: text_of_uuid(receipt.receipt_id.0),
        source: "turn",
        workspace_id: String::from_str(subject),
        event_time: now,
        valid_from: now,
        valid_to: None,
        recorded_at: now,
        source_receipt_id: Some(receipt.receipt_id),
    }
}

/// A tool call of a mirrored round: its digests in hexadecimal.
#[derive(Debug)]
pub struct MirroredToolCall {
    pub call_id: String,
    pub tool_name: String,
    pub arguments_digest: String,
    pub output_digest: String,
    pub cost: CostTuple,
}

/// What is mirrored of a committed round.
#[derive(Debug)]
pub struct ErRoundFacts {
    pub trace_id: String,
    pub step_id: String,
    pub timestamp_millis: u64,
    pub tool: String,
    pub provider: String,
    pub tool_calls: Vec<MirroredToolCall>,
    /// The round's entries were journaled.
    pub persisted_transcript: bool,
}

/// A mirrored call over mathematical values.
#[verifier::ext_equal]
pub ghost struct MirroredModel {
    pub call_id: Seq<char>,
    pub tool_name: Seq<char>,
    pub arguments_digest: Seq<char>,
    pub output_digest: Seq<char>,
    pub cost: CostTuple,
}

impl View for MirroredToolCall {
    type V = MirroredModel;

    open spec fn view(&self) -> MirroredModel {
        MirroredModel {
            call_id: self.call_id@,
            tool_name: self.tool_name@,
            arguments_digest: self.arguments_digest@,
            output_digest: self.output_digest@,
            cost: self.cost,
        }
    }
}

/// Mirrored calls as models.
pub open spec fn mirrored_views(calls: Seq<MirroredToolCall>) -> Seq<MirroredModel> {
    calls.map_values(|call: MirroredToolCall| call@)
}

/// A recorded call as it is mirrored.
pub open spec fn mirrored(call: receipts::ToolCallModel) -> MirroredModel {
    MirroredModel {
        call_id: call.call_id,
        tool_name: call.tool_name,
        arguments_digest: streaming::digest_hex(call.arguments_digest),
        output_digest: streaming::digest_hex(call.output_digest),
        cost: call.cost,
    }
}

fn mirrored_calls(calls: &Vec<ToolCallReceipt>) -> (r: Vec<MirroredToolCall>)
    ensures
        mirrored_views(r@) == receipts::call_views(calls@).map_values(
            |call: receipts::ToolCallModel| mirrored(call),
        ),
{
    let ghost wanted = receipts::call_views(calls@).map_values(
        |call: receipts::ToolCallModel| mirrored(call),
    );
    let mut list: Vec<MirroredToolCall> = Vec::new();
    let mut i: usize = 0;
    assert(mirrored_views(list@) =~= wanted.take(0));
    while i < calls.len()
        invariant
            i <= calls@.len(),
            wanted == receipts::call_views(calls@).map_values(
                |call: receipts::ToolCallModel| mirrored(call),
            ),
            mirrored_views(list@) == wanted.take(i as int),
        decreases calls@.len() - i,
    {
        let call = MirroredToolCall {
            call_id: calls[i].call_id.clone(),
            tool_name: calls[i].tool_name.clone(),
            arguments_digest: calls[i].arguments_digest.to_hex(),
            output_digest: calls[i].output_digest.to_hex(),
            cost: calls[i].cost,
        };
        let ghost before = mirrored_views(list@);
        let ghost model = call@;
        list.push(call);
        assert(mirrored_views(list@) =~= before.push(model));
        assert(wanted[i as int] == mirrored(calls@[i as int]@));
        assert(mirrored_views(list@) =~= wanted.take(i + 1));
        i = i + 1;
    }
    assert(wanted.take(i as int) =~= wanted);
    list
}

/// A mirrored call is the recorded one: the same call, tool and cost, and the
/// same digests in hexadecimal.
pub proof fn law_a_mirrored_call_is_the_recorded_one(call: receipts::ToolCallModel)
    ensures
        mirrored(call).call_id == call.call_id,
        mirrored(call).tool_name == call.tool_name,
        mirrored(call).arguments_digest == streaming::digest_hex(call.arguments_digest),
        mirrored(call).output_digest == streaming::digest_hex(call.output_digest),
        mirrored(call).cost == call.cost,
{
}

/// The facts of a committed round, all of them out of its signed receipt.
pub fn round_facts(receipt: &ReceiptBody, tool: &str, persisted_transcript: bool) -> (r:
    ErRoundFacts)
    ensures
        r.trace_id@ == (match receipt.session_id {
            Some(session) => encoding::uuid_text(session.0),
            None => Seq::empty(),
        }),
        r.step_id@ == encoding::uuid_text(receipt.receipt_id.0),
        r.timestamp_millis == receipt.issued_at.0,
        r.tool@ == tool@,
        r.provider@ == (match receipt.provider {
            Some(provider) => provider@,
            None => Seq::empty(),
        }),
        mirrored_views(r.tool_calls@) == receipts::call_views(receipt.tool_calls@).map_values(
            |call: receipts::ToolCallModel| mirrored(call),
        ),
        r.persisted_transcript == persisted_transcript,
{
    let trace_id: String = match receipt.session_id {
        Some(session) => text_of_uuid(session.0),
        None => String::new(),
    };
    let provider: String = match &receipt.provider {
        Some(provider) => provider.clone(),
        None => String::new(),
    };
    ErRoundFacts {
        trace_id,
        step_id: text_of_uuid(receipt.receipt_id.0),
        timestamp_millis: receipt.issued_at.0,
        tool: String::from_str(tool),
        provider,
        tool_calls: mirrored_calls(&receipt.tool_calls),
        persisted_transcript,
    }
}

/// A call in the argument envelope.
#[derive(Debug)]
pub struct CallArguments {
    pub call_id: String,
    pub tool: String,
    pub arguments_sha256: String,
    pub output_sha256: String,
}

/// The argument envelope that a mirrored receipt digests: the identity of the
/// round and the digests of its calls.
#[derive(Debug)]
pub struct RoundArguments {
    pub capability: String,
    pub native_receipt_id: String,
    pub provider: String,
    pub tool_calls: Vec<CallArguments>,
}

/// A call of the envelope is the mirrored one.
pub open spec fn envelope_of(call: CallArguments, mirrored: MirroredToolCall) -> bool {
    &&& call.call_id@ == mirrored.call_id@
    &&& call.tool@ == mirrored.tool_name@
    &&& call.arguments_sha256@ == mirrored.arguments_digest@
    &&& call.output_sha256@ == mirrored.output_digest@
}

/// The argument envelope of a committed round.
pub fn round_arguments(facts: &ErRoundFacts) -> (r: RoundArguments)
    ensures
        r.capability@ == facts.tool@,
        r.native_receipt_id@ == facts.step_id@,
        r.provider@ == facts.provider@,
        r.tool_calls@.len() == facts.tool_calls@.len(),
        forall|i: int|
            0 <= i < r.tool_calls@.len() ==> envelope_of(
                #[trigger] r.tool_calls@[i],
                facts.tool_calls@[i],
            ),
        forall|i: int|
            0 <= i < r.tool_calls@.len() ==> (#[trigger] r.tool_calls@[i]).call_id@
                == facts.tool_calls@[i].call_id@ && r.tool_calls@[i].tool@
                == facts.tool_calls@[i].tool_name@ && r.tool_calls@[i].arguments_sha256@
                == facts.tool_calls@[i].arguments_digest@ && r.tool_calls@[i].output_sha256@
                == facts.tool_calls@[i].output_digest@,
{
    let mut tool_calls: Vec<CallArguments> = Vec::new();
    let mut i: usize = 0;
    while i < facts.tool_calls.len()
        invariant
            i <= facts.tool_calls@.len(),
            tool_calls@.len() == i,
            forall|k: int|
                0 <= k < i ==> envelope_of(#[trigger] tool_calls@[k], facts.tool_calls@[k]),
        decreases facts.tool_calls@.len() - i,
    {
        let call: &MirroredToolCall = &facts.tool_calls[i];
        tool_calls.push(
            CallArguments {
                call_id: call.call_id.clone(),
                tool: call.tool_name.clone(),
                arguments_sha256: call.arguments_digest.clone(),
                output_sha256: call.output_digest.clone(),
            },
        );
        i = i + 1;
    }
    RoundArguments {
        capability: facts.tool.clone(),
        native_receipt_id: facts.step_id.clone(),
        provider: facts.provider.clone(),
        tool_calls,
    }
}

/// The invocation that a committed round stands for.
#[derive(Debug)]
pub struct RoundInvocation {
    pub tool: String,
    pub action_class: ActionClass,
    pub target: String,
    pub resource_family: &'static str,
    pub side_effect_class: SideEffectClass,
    pub ttl_secs: u64,
}

/// How a committed round is mirrored: a summary by the provider, whose effect
/// goes by what was persisted and not by how many tools ran.
pub fn round_invocation(facts: &ErRoundFacts) -> (r: RoundInvocation)
    ensures
        r.tool@ == facts.tool@,
        r.action_class == ActionClass::Summarize,
        r.target@ == facts.provider@,
        r.resource_family == CHAT_RESOURCE_FAMILY,
        r.side_effect_class == (if facts.persisted_transcript {
            SideEffectClass::InternalWrite
        } else {
            SideEffectClass::NoEffect
        }),
        r.ttl_secs == ER_TTL_SECS,
{
    RoundInvocation {
        tool: facts.tool.clone(),
        action_class: ActionClass::Summarize,
        target: facts.provider.clone(),
        resource_family: CHAT_RESOURCE_FAMILY,
        side_effect_class: round_side_effect(facts.persisted_transcript),
        ttl_secs: ER_TTL_SECS,
    }
}

} // verus!
