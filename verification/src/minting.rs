//! What the receipts of a runtime state: rounds, control operations, and the
//! marker of a turn that ended after a round was committed.
use crate::authz::VerifiedClaims;
use crate::chat;
use crate::chat::ToolCall;
use crate::cost::{
    amount, held_at_most, law_costs_are_counted_in_each_dimension, CostTuple, Dimension,
};
use crate::digest;
use crate::ids::{ReceiptId, SessionId, Sha256Digest, UnixTsMillis};
use crate::receipts;
use crate::receipts::{ReceiptBody, ToolCallReceipt};
use crate::reconcile::CANCELLED_VERB;
use vstd::prelude::*;
use vstd::string::StringExecFns;

verus! {

/// The verb of a completed round.
pub const COMPLETION_VERB: &'static str = "llm.completion.minted.v1";

/// The digest of a text.
pub open spec fn text_digest(text: Seq<char>) -> Sha256Digest {
    digest::digest_of(vstd::utf8::encode_utf8(text))
}

/// A completed tool call in a receipt.
pub fn tool_receipt(call: &ToolCall, output: &[u8], cost: CostTuple) -> (r: ToolCallReceipt)
    ensures
        r@ == (receipts::ToolCallModel {
            call_id: call.id@,
            tool_name: call.name@,
            arguments_digest: digest::digest_of(call.arguments@),
            output_digest: digest::digest_of(output@),
            cost,
        }),
{
    ToolCallReceipt {
        call_id: call.id.clone(),
        tool_name: call.name.clone(),
        arguments_digest: Sha256Digest::of(call.arguments.as_slice()),
        output_digest: Sha256Digest::of(output),
        cost,
    }
}

/// A requested call that was never run: no output and no cost.
pub open spec fn unrun_call(call: chat::CallModel) -> receipts::ToolCallModel {
    receipts::ToolCallModel {
        call_id: call.id,
        tool_name: call.name,
        arguments_digest: digest::digest_of(call.arguments),
        output_digest: digest::digest_of(Seq::<u8>::empty()),
        cost: CostTuple::zero(),
    }
}

/// The calls that a model requested past the last allowed round, recorded for
/// audit though none of them runs.
pub fn unrun_receipts(requested: &Vec<ToolCall>) -> (r: Vec<ToolCallReceipt>)
    ensures
        receipts::call_views(r@) == chat::call_models(requested@).map_values(
            |call: chat::CallModel| unrun_call(call),
        ),
{
    let ghost calls = chat::call_models(requested@);
    let ghost expected = calls.map_values(|call: chat::CallModel| unrun_call(call));
    let empty: Vec<u8> = Vec::new();
    assert(empty@ =~= Seq::<u8>::empty());
    let mut list: Vec<ToolCallReceipt> = Vec::new();
    let mut i: usize = 0;
    while i < requested.len()
        invariant
            i <= requested@.len(),
            empty@ == Seq::<u8>::empty(),
            calls == chat::call_models(requested@),
            expected == calls.map_values(|call: chat::CallModel| unrun_call(call)),
            list@.len() == i,
            forall|k: int| 0 <= k < i ==> (#[trigger] list@[k])@ == expected[k],
        decreases requested@.len() - i,
    {
        assert(calls[i as int] == requested@[i as int]@);
        let receipt: ToolCallReceipt = tool_receipt(
            &requested[i],
            empty.as_slice(),
            CostTuple::zero(),
        );
        list.push(receipt);
        i = i + 1;
    }
    assert(receipts::call_views(list@) =~= expected);
    list
}

/// The calls that a round's receipt lists: those that ran, or, where the model
/// asked past the last allowed round and none ran, those it asked for.
pub open spec fn listed_calls(
    ran: Seq<receipts::ToolCallModel>,
    requested: Seq<chat::CallModel>,
) -> Seq<receipts::ToolCallModel> {
    if ran.len() == 0 {
        requested.map_values(|call: chat::CallModel| unrun_call(call))
    } else {
        ran
    }
}

/// The tool calls of a round's receipt.
pub fn round_receipts(ran: Vec<ToolCallReceipt>, requested: &Vec<ToolCall>) -> (r: Vec<
    ToolCallReceipt,
>)
    ensures
        receipts::call_views(r@) == listed_calls(
            receipts::call_views(ran@),
            chat::call_models(requested@),
        ),
{
    if ran.len() == 0 {
        unrun_receipts(requested)
    } else {
        ran
    }
}

/// A receipt lists exactly the calls that ran, if any did. Where none ran, it
/// lists each call that was asked for, in order, with the digest of its
/// arguments, no output and no cost.
pub proof fn law_a_receipt_lists_what_ran(
    ran: Seq<receipts::ToolCallModel>,
    requested: Seq<chat::CallModel>,
)
    ensures
        ran.len() > 0 ==> listed_calls(ran, requested) == ran,
        ran.len() == 0 ==> listed_calls(ran, requested).len() == requested.len(),
        ran.len() == 0 ==> forall|i: int|
            0 <= i < requested.len() ==> {
                let listed = #[trigger] listed_calls(ran, requested)[i];
                &&& listed.call_id == requested[i].id
                &&& listed.tool_name == requested[i].name
                &&& listed.arguments_digest == digest::digest_of(requested[i].arguments)
                &&& listed.output_digest == digest::digest_of(Seq::<u8>::empty())
                &&& listed.cost == CostTuple::zero()
            },
{
}

/// Who a receipt is issued for, when, and behind which other receipt.
pub struct ReceiptFrame {
    pub receipt_id: ReceiptId,
    pub parent_hash: Option<Sha256Digest>,
    pub issued_at: UnixTsMillis,
    pub session: SessionId,
}

/// A receipt in a frame.
pub open spec fn framed(
    frame: ReceiptFrame,
    claims: VerifiedClaims,
    verb: Seq<char>,
    payload: Sha256Digest,
    cost: CostTuple,
    calls: Seq<receipts::ToolCallModel>,
    provider: Option<Seq<char>>,
) -> receipts::BodyModel {
    receipts::BodyModel {
        receipt_id: frame.receipt_id,
        parent_hash: frame.parent_hash,
        verb,
        issued_at: frame.issued_at,
        subject: claims.subject@,
        cap_token_id: claims.token_id,
        payload_digest: payload,
        session_id: Some(frame.session),
        cost,
        tool_calls: calls,
        provider,
    }
}

fn body_in_frame(
    frame: &ReceiptFrame,
    claims: &VerifiedClaims,
    verb: &str,
    payload: Sha256Digest,
    cost: CostTuple,
    calls: Vec<ToolCallReceipt>,
    provider: Option<&str>,
) -> (r: ReceiptBody)
    ensures
        r@ == framed(
            *frame,
            *claims,
            verb@,
            payload,
            cost,
            receipts::call_views(calls@),
            match provider {
                Some(name) => Some(name@),
                None => None,
            },
        ),
{
    ReceiptBody {
        receipt_id: frame.receipt_id,
        parent_hash: frame.parent_hash,
        verb: String::from_str(verb),
        issued_at: frame.issued_at,
        subject: claims.subject.clone(),
        cap_token_id: claims.token_id,
        payload_digest: payload,
        session_id: Some(frame.session),
        cost,
        tool_calls: calls,
        provider: match provider {
            Some(name) => Some(String::from_str(name)),
            None => None,
        },
    }
}

/// A receipt states what it is issued for: whose token, which session, when,
/// behind which receipt, and what it is told of the operation.
pub proof fn law_a_receipt_states_what_it_is_issued_for(
    frame: ReceiptFrame,
    claims: VerifiedClaims,
    verb: Seq<char>,
    payload: Sha256Digest,
    cost: CostTuple,
    calls: Seq<receipts::ToolCallModel>,
    provider: Option<Seq<char>>,
)
    ensures
        ({
            let body = framed(frame, claims, verb, payload, cost, calls, provider);
            &&& body.receipt_id == frame.receipt_id
            &&& body.parent_hash == frame.parent_hash
            &&& body.issued_at == frame.issued_at
            &&& body.session_id == Some(frame.session)
            &&& body.subject == claims.subject@
            &&& body.cap_token_id == claims.token_id
            &&& body.verb == verb
            &&& body.payload_digest == payload
            &&& body.cost == cost
            &&& body.tool_calls == calls
            &&& body.provider == provider
        }),
{
}

/// The receipt of a round: the digest of the answer, the tool calls, and the
/// cost of the provider and the tools together.
pub fn round_body(
    frame: &ReceiptFrame,
    claims: &VerifiedClaims,
    verb: &str,
    content: &str,
    response_cost: CostTuple,
    tool_cost: CostTuple,
    calls: Vec<ToolCallReceipt>,
    provider: &str,
) -> (r: ReceiptBody)
    ensures
        r@ == framed(
            *frame,
            *claims,
            verb@,
            text_digest(content@),
            response_cost.capped_plus(tool_cost),
            receipts::call_views(calls@),
            Some(provider@),
        ),
        forall|d: Dimension|
            #![trigger amount(r.cost, d)]
            amount(r.cost, d) == held_at_most(amount(response_cost, d) + amount(tool_cost, d)),
        r.payload_digest == text_digest(content@),
        receipts::call_views(r.tool_calls@) == receipts::call_views(calls@),
        r.verb@ == verb@,
        r.subject@ == claims.subject@,
{
    proof {
        law_costs_are_counted_in_each_dimension(response_cost, tool_cost);
    }
    let cost: CostTuple = response_cost.saturating_add(&tool_cost);
    body_in_frame(
        frame,
        claims,
        verb,
        Sha256Digest::of_text(content),
        cost,
        calls,
        Some(provider),
    )
}

/// The receipt of a paid control operation, at the cost that was observed.
pub fn completion_body(
    frame: &ReceiptFrame,
    claims: &VerifiedClaims,
    verb: &str,
    content: &str,
    cost: CostTuple,
    provider: &str,
) -> (r: ReceiptBody)
    ensures
        r@ == framed(
            *frame,
            *claims,
            verb@,
            text_digest(content@),
            cost,
            Seq::empty(),
            Some(provider@),
        ),
{
    let calls: Vec<ToolCallReceipt> = Vec::new();
    assert(receipts::call_views(calls@) =~= Seq::empty());
    body_in_frame(frame, claims, verb, Sha256Digest::of_text(content), cost, calls, Some(provider))
}

/// The receipt of a control operation that called no provider.
pub fn control_body(
    frame: &ReceiptFrame,
    claims: &VerifiedClaims,
    verb: &str,
    payload: Sha256Digest,
    cost: CostTuple,
) -> (r: ReceiptBody)
    ensures
        r@ == framed(*frame, *claims, verb@, payload, cost, Seq::empty(), None),
{
    let calls: Vec<ToolCallReceipt> = Vec::new();
    assert(receipts::call_views(calls@) =~= Seq::empty());
    body_in_frame(frame, claims, verb, payload, cost, calls, None)
}

/// The receipt that ends the chain of a turn that was abandoned after `rounds`
/// of its rounds were committed. It costs nothing: each committed round is
/// billed by its own receipt. A turn without a committed round leaves none.
pub fn record_turn_cancellation(
    frame: &ReceiptFrame,
    claims: &VerifiedClaims,
    rounds: u32,
    provider: &str,
) -> (r: Option<ReceiptBody>)
    ensures
        r is Some <==> rounds > 0,
        r matches Some(body) ==> body@ == framed(
            *frame,
            *claims,
            CANCELLED_VERB@,
            text_digest("turn cancelled before settling"@),
            CostTuple::zero(),
            Seq::empty(),
            Some(provider@),
        ),
{
    if rounds == 0 {
        return None;
    }
    let calls: Vec<ToolCallReceipt> = Vec::new();
    assert(receipts::call_views(calls@) =~= Seq::empty());
    Some(
        body_in_frame(
            frame,
            claims,
            CANCELLED_VERB,
            Sha256Digest::of_text("turn cancelled before settling"),
            CostTuple::zero(),
            calls,
            Some(provider),
        ),
    )
}

/// A receipt in a frame over the tail of a linked chain extends that chain,
/// whatever it states.
pub proof fn law_minted_receipts_extend_the_chain(
    chain: Seq<receipts::PersistedModel>,
    receipt: receipts::PersistedModel,
    frame: ReceiptFrame,
    claims: VerifiedClaims,
    verb: Seq<char>,
    payload: Sha256Digest,
    cost: CostTuple,
    calls: Seq<receipts::ToolCallModel>,
    provider: Option<Seq<char>>,
)
    requires
        receipts::linked(chain),
        frame.parent_hash == receipts::expected_parent(chain, chain.len() as int),
        receipt.body == framed(frame, claims, verb, payload, cost, calls, provider),
    ensures
        receipts::linked(chain.push(receipt)),
{
    receipts::law_a_receipt_links_to_the_tail(chain, receipt);
}

} // verus!
