//! Transcripts: what is sent to the provider, and what is looked up in it.
use crate::errors::RuntimeError;
use crate::turn::ScanVerdict;
use vstd::prelude::*;
use vstd::string::StringExecFns;

verus! {

/// Who speaks.
#[derive(Clone, Copy, Debug, PartialEq, Eq, Structural)]
pub enum Role {
    System,
    User,
    Assistant,
    Tool,
}

/// A tool call that the model requested.
#[derive(Debug)]
pub struct ToolCall {
    pub id: String,
    pub name: String,
    /// The arguments, serialized.
    pub arguments: Vec<u8>,
}

/// A message of a transcript.
#[derive(Debug)]
pub struct ChatMessage {
    pub role: Role,
    pub content: String,
    /// The calls that an assistant message requests.
    pub tool_calls: Vec<ToolCall>,
    /// The call that a tool message answers.
    pub tool_call_id: Option<String>,
}

/// A tool call over mathematical values.
#[verifier::ext_equal]
pub ghost struct CallModel {
    pub id: Seq<char>,
    pub name: Seq<char>,
    pub arguments: Seq<u8>,
}

/// A message over mathematical values.
#[verifier::ext_equal]
pub ghost struct MessageModel {
    pub role: Role,
    pub content: Seq<char>,
    pub tool_calls: Seq<CallModel>,
    pub tool_call_id: Option<Seq<char>>,
}

impl View for ToolCall {
    type V = CallModel;

    open spec fn view(&self) -> CallModel {
        CallModel { id: self.id@, name: self.name@, arguments: self.arguments@ }
    }
}

/// Tool calls as models.
pub open spec fn call_models(calls: Seq<ToolCall>) -> Seq<CallModel> {
    calls.map_values(|call: ToolCall| call@)
}

impl View for ChatMessage {
    type V = MessageModel;

    open spec fn view(&self) -> MessageModel {
        MessageModel {
            role: self.role,
            content: self.content@,
            tool_calls: call_models(self.tool_calls@),
            tool_call_id: match self.tool_call_id {
                Some(id) => Some(id@),
                None => None,
            },
        }
    }
}

/// A transcript as models.
pub open spec fn message_views(messages: Seq<ChatMessage>) -> Seq<MessageModel> {
    messages.map_values(|message: ChatMessage| message@)
}

/// A message without tool calls.
pub open spec fn plain(role: Role, content: Seq<char>) -> MessageModel {
    MessageModel { role, content, tool_calls: Seq::empty(), tool_call_id: None }
}

impl ChatMessage {
    fn plain(role: Role, content: String) -> (r: ChatMessage)
        ensures
            r@ == plain(role, content@),
    {
        let r = ChatMessage { role, content, tool_calls: Vec::new(), tool_call_id: None };
        assert(call_models(r.tool_calls@) =~= Seq::empty());
        r
    }

    /// A system message.
    pub fn system(content: String) -> (r: ChatMessage)
        ensures
            r@ == plain(Role::System, content@),
    {
        ChatMessage::plain(Role::System, content)
    }

    /// A user message.
    pub fn user(content: String) -> (r: ChatMessage)
        ensures
            r@ == plain(Role::User, content@),
    {
        ChatMessage::plain(Role::User, content)
    }

    /// An assistant message.
    pub fn assistant(content: String) -> (r: ChatMessage)
        ensures
            r@ == plain(Role::Assistant, content@),
    {
        ChatMessage::plain(Role::Assistant, content)
    }

    /// An assistant message that requests tool calls.
    pub fn assistant_tool_calls(content: String, calls: Vec<ToolCall>) -> (r: ChatMessage)
        ensures
            r@ == (MessageModel {
                tool_calls: call_models(calls@),
                ..plain(Role::Assistant, content@)
            }),
    {
        ChatMessage { role: Role::Assistant, content, tool_calls: calls, tool_call_id: None }
    }

    /// The result of a tool call.
    pub fn tool_result(call_id: String, content: String) -> (r: ChatMessage)
        ensures
            r@ == (MessageModel {
                tool_call_id: Some(call_id@),
                ..plain(Role::Tool, content@)
            }),
    {
        let r = ChatMessage {
            role: Role::Tool,
            content,
            tool_calls: Vec::new(),
            tool_call_id: Some(call_id),
        };
        assert(call_models(r.tool_calls@) =~= Seq::empty());
        r
    }
}

impl Clone for ToolCall {
    fn clone(&self) -> (r: Self)
        ensures
            r@ == self@,
    {
        let arguments: Vec<u8> = self.arguments.clone();
        assert(arguments@ =~= self.arguments@);
        ToolCall { id: self.id.clone(), name: self.name.clone(), arguments }
    }
}

impl Clone for ChatMessage {
    fn clone(&self) -> (r: Self)
        ensures
            r@ == self@,
    {
        let mut calls: Vec<ToolCall> = Vec::new();
        let mut i: usize = 0;
        while i < self.tool_calls.len()
            invariant
                i <= self.tool_calls@.len(),
                calls@.len() == i,
                forall|k: int| 0 <= k < i ==> (#[trigger] calls@[k])@ == self.tool_calls@[k]@,
            decreases self.tool_calls@.len() - i,
        {
            calls.push(self.tool_calls[i].clone());
            i = i + 1;
        }
        assert(call_models(calls@) =~= call_models(self.tool_calls@));
        ChatMessage {
            role: self.role,
            content: self.content.clone(),
            tool_calls: calls,
            tool_call_id: match &self.tool_call_id {
                Some(id) => Some(id.clone()),
                None => None,
            },
        }
    }
}

/// The position of the last user message among the first `n`.
pub open spec fn last_user_before(messages: Seq<MessageModel>, n: int) -> Option<int>
    decreases n,
{
    if n <= 0 {
        None
    } else if messages[n - 1].role == Role::User {
        Some(n - 1)
    } else {
        last_user_before(messages, n - 1)
    }
}

/// The position of the last user message.
pub open spec fn last_user(messages: Seq<MessageModel>) -> Option<int> {
    last_user_before(messages, messages.len() as int)
}

/// The position of the last user message.
pub fn last_user_index(messages: &Vec<ChatMessage>) -> (r: Option<usize>)
    ensures
        match r {
            Some(i) => i < messages@.len() && last_user(message_views(messages@)) == Some(i as int)
                && message_views(messages@)[i as int].role == Role::User,
            None => last_user(message_views(messages@)) is None,
        },
        r is None <==> forall|k: int|
            0 <= k < messages@.len() ==> (#[trigger] messages@[k]).role != Role::User,
        r matches Some(i) ==> {
            &&& i < messages@.len()
            &&& messages@[i as int].role == Role::User
            &&& forall|k: int|
                i < k < messages@.len() ==> (#[trigger] messages@[k]).role != Role::User
        },
{
    let ghost views = message_views(messages@);
    let mut n: usize = messages.len();
    while n > 0
        invariant
            n <= messages@.len(),
            views == message_views(messages@),
            forall|k: int|
                n <= k < messages@.len() ==> (#[trigger] messages@[k]).role != Role::User,
            last_user(views) == last_user_before(views, n as int),
        decreases n,
    {
        assert(views[n - 1] == messages@[n - 1]@);
        if messages[n - 1].role == Role::User {
            return Some(n - 1);
        }
        n = n - 1;
    }
    None
}

/// The last user message of a transcript.
pub fn last_user_message(messages: &Vec<ChatMessage>) -> (r: Option<&String>)
    ensures
        match r {
            Some(content) => last_user(message_views(messages@)) is Some && content@
                == message_views(messages@)[last_user(message_views(messages@))->0].content,
            None => last_user(message_views(messages@)) is None,
        },
        r is None <==> forall|k: int|
            0 <= k < messages@.len() ==> (#[trigger] messages@[k]).role != Role::User,
        r matches Some(content) ==> exists|i: int|
            {
                &&& 0 <= i < messages@.len()
                &&& (#[trigger] messages@[i]).role == Role::User
                &&& messages@[i].content@ == content@
                &&& forall|k: int|
                    i < k < messages@.len() ==> (#[trigger] messages@[k]).role != Role::User
            },
{
    match last_user_index(messages) {
        Some(i) => {
            assert(message_views(messages@)[i as int] == messages@[i as int]@);
            Some(&messages[i].content)
        },
        None => None,
    }
}

/// The message that a turn is about is the last one that the user wrote:
/// whatever follows it, no other message of the user does, and there is one
/// exactly if the user wrote any.
pub proof fn law_the_last_user_message_is_found(messages: Seq<MessageModel>)
    ensures
        last_user(messages) is Some <==> exists|k: int|
            0 <= k < messages.len() && (#[trigger] messages[k]).role == Role::User,
        last_user(messages) matches Some(i) ==> {
            &&& 0 <= i < messages.len()
            &&& messages[i].role == Role::User
            &&& forall|k: int| i < k < messages.len() ==> (#[trigger] messages[k]).role != Role::User
        },
{
    lemma_last_user(messages, messages.len() as int);
}

proof fn lemma_last_user(messages: Seq<MessageModel>, n: int)
    requires
        0 <= n <= messages.len(),
    ensures
        match last_user_before(messages, n) {
            Some(i) => {
                &&& 0 <= i < n
                &&& messages[i].role == Role::User
                &&& forall|k: int| i < k < n ==> (#[trigger] messages[k]).role != Role::User
            },
            None => forall|k: int| 0 <= k < n ==> (#[trigger] messages[k]).role != Role::User,
        },
    decreases n,
{
    if n > 0 && messages[n - 1].role != Role::User {
        lemma_last_user(messages, n - 1);
    }
}

/// A message speaks in the role that it is made for, with the given text and
/// nothing else.
pub proof fn law_a_plain_message_is_only_its_text(role: Role, content: Seq<char>)
    ensures
        plain(role, content).role == role,
        plain(role, content).content == content,
        plain(role, content).tool_calls.len() == 0,
        plain(role, content).tool_call_id is None,
{
}

/// The bytes of the first `n` messages' contents.
pub open spec fn content_bytes(messages: Seq<MessageModel>, n: int) -> nat
    decreases n,
{
    if n <= 0 {
        0
    } else {
        content_bytes(messages, n - 1) + vstd::utf8::encode_utf8(messages[n - 1].content).len()
    }
}

proof fn lemma_content_bytes_grow(messages: Seq<MessageModel>, i: int, n: int)
    requires
        0 <= i <= n,
    ensures
        content_bytes(messages, i) <= content_bytes(messages, n),
    decreases n - i,
{
    if i < n {
        lemma_content_bytes_grow(messages, i, n - 1);
    }
}

/// A transcript weighs the contents of all its messages: none of an empty one,
/// and each further message as much as its text takes in bytes.
pub proof fn law_a_transcript_weighs_all_its_contents(
    messages: Seq<MessageModel>,
    more: MessageModel,
)
    ensures
        content_bytes(Seq::<MessageModel>::empty(), 0) == 0,
        content_bytes(messages.push(more), messages.len() as int + 1) == content_bytes(
            messages,
            messages.len() as int,
        ) + vstd::utf8::encode_utf8(more.content).len(),
{
    lemma_same_bytes(messages, messages.push(more), messages.len() as int);
}

proof fn lemma_same_bytes(a: Seq<MessageModel>, b: Seq<MessageModel>, n: int)
    requires
        0 <= n <= a.len() <= b.len(),
        forall|k: int| 0 <= k < n ==> a[k] == b[k],
    ensures
        content_bytes(a, n) == content_bytes(b, n),
    decreases n,
{
    if n > 0 {
        lemma_same_bytes(a, b, n - 1);
    }
}

/// A rough size of a transcript in tokens: a quarter of its bytes, rounded up.
pub fn estimate_tokens(messages: &Vec<ChatMessage>) -> (r: u64)
    requires
        content_bytes(message_views(messages@), messages@.len() as int) <= usize::MAX,
    ensures
        r == (content_bytes(message_views(messages@), messages@.len() as int) + 3) / 4,
        4 * r >= content_bytes(message_views(messages@), messages@.len() as int),
        4 * r < content_bytes(message_views(messages@), messages@.len() as int) + 4,
{
    let ghost views = message_views(messages@);
    let mut bytes: usize = 0;
    let mut i: usize = 0;
    while i < messages.len()
        invariant
            i <= messages@.len(),
            views == message_views(messages@),
            content_bytes(views, messages@.len() as int) <= usize::MAX,
            bytes == content_bytes(views, i as int),
        decreases messages@.len() - i,
    {
        assert(views[i as int] == messages@[i as int]@);
        proof {
            lemma_content_bytes_grow(views, i + 1, messages@.len() as int);
        }
        bytes = bytes + messages[i].content.as_str().as_bytes().len();
        i = i + 1;
    }
    let total: u64 = bytes as u64;
    if total % 4 == 0 {
        total / 4
    } else {
        total / 4 + 1
    }
}

/// What the injection filters said of a text.
#[derive(Debug)]
pub enum ScanOutcome {
    Allow,
    /// Allowed once rewritten.
    Sanitized(String),
    Block { reason: String, flags: Vec<String> },
    /// The scan itself failed.
    Failed(String),
}

/// The filter that a blocked text is reported under.
pub const INJECTION_FILTER_STAGE_ID: &'static str = "injection-defense";

/// The message that is scanned before a request goes out: the last user
/// message, unless no filter is configured.
pub fn scan_target(filters: usize, messages: &Vec<ChatMessage>) -> (r: Option<usize>)
    ensures
        match r {
            Some(i) => filters > 0 && i < messages@.len() && last_user(message_views(messages@))
                == Some(i as int),
            None => filters == 0 || last_user(message_views(messages@)) is None,
        },
        r is None <==> filters == 0 || forall|k: int|
            0 <= k < messages@.len() ==> (#[trigger] messages@[k]).role != Role::User,
        r matches Some(i) ==> {
            &&& i < messages@.len()
            &&& messages@[i as int].role == Role::User
            &&& forall|k: int|
                i < k < messages@.len() ==> (#[trigger] messages@[k]).role != Role::User
        },
{
    if filters == 0 {
        None
    } else {
        last_user_index(messages)
    }
}

/// The error of a blocked or failed scan.
pub open spec fn scan_refusal(outcome: ScanOutcome, context: Seq<char>, error: RuntimeError) -> bool {
    match outcome {
        ScanOutcome::Block { reason, flags } => error matches RuntimeError::InjectionBlocked {
            filter_id,
            reason: told,
            flags: raised,
        } && filter_id@ == INJECTION_FILTER_STAGE_ID@ && told == reason && raised == flags,
        ScanOutcome::Failed(detail) => error matches RuntimeError::Internal(text) && text@ == context
            + detail@,
        _ => false,
    }
}

/// Applies the verdict on the message at `target`: an allowed request goes out
/// as it is, a sanitized one with that message rewritten, and a blocked or
/// failed scan stops the request.
pub fn scan_outbound_request(
    messages: &mut Vec<ChatMessage>,
    target: usize,
    outcome: ScanOutcome,
) -> (r: Result<(), RuntimeError>)
    requires
        target < old(messages)@.len(),
    ensures
        r is Ok <==> outcome is Allow || outcome is Sanitized,
        message_views(final(messages)@) == (match outcome {
            ScanOutcome::Sanitized(text) => message_views(old(messages)@).update(
                target as int,
                MessageModel {
                    content: text@,
                    ..message_views(old(messages)@)[target as int]
                },
            ),
            _ => message_views(old(messages)@),
        }),
        r matches Err(error) ==> scan_refusal(outcome, "injection scan failed: "@, error),
        outcome matches ScanOutcome::Block { reason, flags } ==> (r matches Err(
            RuntimeError::InjectionBlocked { filter_id, reason: told, flags: raised },
        ) && filter_id@ == "injection-defense"@ && told == reason && raised == flags),
        outcome matches ScanOutcome::Failed(detail) ==> (r matches Err(
            RuntimeError::Internal(text),
        ) && text@ == "injection scan failed: "@ + detail@),
{
    let ghost before = message_views(messages@);
    match outcome {
        ScanOutcome::Allow => Ok(()),
        ScanOutcome::Sanitized(text) => {
            let mut message: ChatMessage = messages[target].clone();
            assert(before[target as int] == messages@[target as int]@);
            message.content = text;
            let ghost model = message@;
            messages.set(target, message);
            assert(message_views(messages@) =~= before.update(target as int, model));
            Ok(())
        },
        ScanOutcome::Block { reason, flags } => Err(
            RuntimeError::InjectionBlocked {
                filter_id: String::from_str(INJECTION_FILTER_STAGE_ID),
                reason,
                flags,
            },
        ),
        ScanOutcome::Failed(detail) => {
            let mut text: String = String::from_str("injection scan failed: ");
            text.append(detail.as_str());
            Err(RuntimeError::Internal(text))
        },
    }
}

/// What a scan of a tool's output means for the turn. An output that the
/// filters would rewrite is allowed as it is.
pub open spec fn output_verdict(outcome: ScanOutcome) -> ScanVerdict {
    match outcome {
        ScanOutcome::Allow | ScanOutcome::Sanitized(_) => ScanVerdict::Allowed,
        ScanOutcome::Block { .. } => ScanVerdict::Blocked,
        ScanOutcome::Failed(_) => ScanVerdict::Undetermined,
    }
}

/// A tool's output goes back to the model exactly if the filters let it
/// through: one that they block is blocked and one that could not be scanned is
/// neither allowed nor blocked. Each is refused with an error of its own.
pub proof fn law_a_blocked_output_is_never_allowed(outcome: ScanOutcome, error: RuntimeError)
    ensures
        output_verdict(outcome) == ScanVerdict::Allowed <==> outcome is Allow || outcome
            is Sanitized,
        output_verdict(outcome) == ScanVerdict::Blocked <==> outcome is Block,
        output_verdict(outcome) == ScanVerdict::Undetermined <==> outcome is Failed,
        scan_refusal(outcome, "tool-output injection scan failed: "@, error) ==> (outcome is Block
            && error is InjectionBlocked) || (outcome is Failed && error is Internal),
{
}

/// Applies the verdict on a tool's output (`None` if no filter is configured).
pub fn scan_tool_output(outcome: Option<ScanOutcome>) -> (r: (ScanVerdict, Result<(), RuntimeError>))
    ensures
        r.0 == (match outcome {
            None => ScanVerdict::Allowed,
            Some(outcome) => output_verdict(outcome),
        }),
        r.1 is Ok <==> r.0 == ScanVerdict::Allowed,
        r.1 matches Err(error) ==> outcome is Some && scan_refusal(
            outcome->0,
            "tool-output injection scan failed: "@,
            error,
        ),
        r.0 == ScanVerdict::Allowed <==> outcome is None || outcome->0 is Allow || outcome->0
            is Sanitized,
        r.0 == ScanVerdict::Blocked <==> outcome is Some && outcome->0 is Block,
        r.0 == ScanVerdict::Undetermined <==> outcome is Some && outcome->0 is Failed,
        outcome matches Some(ScanOutcome::Block { reason, flags }) ==> (r.1 matches Err(
            RuntimeError::InjectionBlocked { filter_id, reason: told, flags: raised },
        ) && filter_id@ == "injection-defense"@ && told == reason && raised == flags),
        outcome matches Some(ScanOutcome::Failed(detail)) ==> (r.1 matches Err(
            RuntimeError::Internal(text),
        ) && text@ == "tool-output injection scan failed: "@ + detail@),
{
    match outcome {
        None => (ScanVerdict::Allowed, Ok(())),
        Some(ScanOutcome::Allow) => (ScanVerdict::Allowed, Ok(())),
        Some(ScanOutcome::Sanitized(_)) => (ScanVerdict::Allowed, Ok(())),
        Some(ScanOutcome::Block { reason, flags }) => (
            ScanVerdict::Blocked,
            Err(
                RuntimeError::InjectionBlocked {
                    filter_id: String::from_str(INJECTION_FILTER_STAGE_ID),
                    reason,
                    flags,
                },
            ),
        ),
        Some(ScanOutcome::Failed(detail)) => {
            let mut text: String = String::from_str("tool-output injection scan failed: ");
            text.append(detail.as_str());
            (ScanVerdict::Undetermined, Err(RuntimeError::Internal(text)))
        },
    }
}

/// The instruction of a summary request.
pub const SUMMARY_INSTRUCTION: &'static str = "Summarize the conversation below for continuation by another AI agent. Use exactly this structure:\n\n## Active Task\n[the most recent unfulfilled user request, exact wording where possible]\n\n## Completed Actions\n[concrete actions taken, with outcomes, commands, file paths, test results]\n\n## Open Items\n[pending tasks, blockers, unanswered questions]\n\n## Decisions\n[decisions made and why]\n\n## Critical Exact Values\n[paths, IDs, error strings, hashes, names, ports — redact any secrets]\n\n## Next Best Step\n[one concise statement of what to do next]\n\nBe concise. Omit a section entirely if it has nothing to report.";

/// The instruction of a summary request, with its focus.
pub open spec fn summary_instruction(focus: Option<Seq<char>>) -> Seq<char> {
    match focus {
        None => SUMMARY_INSTRUCTION@,
        Some(focus) => SUMMARY_INSTRUCTION@ + "\n\nPrioritize preserving detail related to: "@
            + focus,
    }
}

fn clone_messages(messages: &Vec<ChatMessage>, copy: &mut Vec<ChatMessage>)
    ensures
        message_views(final(copy)@) == message_views(old(copy)@) + message_views(messages@),
{
    let ghost before = message_views(copy@);
    let ghost views = message_views(messages@);
    let mut i: usize = 0;
    assert(before + views.take(0) =~= before);
    while i < messages.len()
        invariant
            i <= messages@.len(),
            views == message_views(messages@),
            message_views(copy@) == before + views.take(i as int),
        decreases messages@.len() - i,
    {
        let ghost so_far = message_views(copy@);
        let message: ChatMessage = messages[i].clone();
        let ghost model = message@;
        assert(model == views[i as int]);
        copy.push(message);
        assert(message_views(copy@) =~= so_far.push(model));
        assert(message_views(copy@) =~= before + views.take(i + 1));
        i = i + 1;
    }
    assert(views.take(i as int) =~= views);
}

/// The transcript that asks for a summary of `history`: the instruction, and
/// the history behind it unchanged.
pub fn summarize_request(history: &Vec<ChatMessage>, focus: Option<&str>) -> (r: Vec<ChatMessage>)
    ensures
        message_views(r@) == seq![
            plain(
                Role::System,
                summary_instruction(
                    match focus {
                        Some(focus) => Some(focus@),
                        None => None,
                    },
                ),
            ),
        ] + message_views(history@),
        r@.len() == history@.len() + 1,
        r@[0].role == Role::System,
        forall|i: int| 0 <= i < history@.len() ==> (#[trigger] r@[i + 1])@ == history@[i]@,
{
    let mut instruction: String = String::from_str(SUMMARY_INSTRUCTION);
    if let Some(focus) = focus {
        instruction.append("\n\nPrioritize preserving detail related to: ");
        instruction.append(focus);
    }
    let mut messages: Vec<ChatMessage> = Vec::new();
    let message: ChatMessage = ChatMessage::system(instruction);
    let ghost model = message@;
    messages.push(message);
    assert(message_views(messages@) =~= seq![model]);
    clone_messages(history, &mut messages);
    proof {
        let views = message_views(messages@);
        assert(views.len() == messages@.len());
        assert(message_views(history@).len() == history@.len());
        assert(views == seq![model] + message_views(history@));
        assert(messages@[0]@ == views[0]);
        assert forall|i: int| 0 <= i < history@.len() implies (#[trigger] messages@[i + 1])@
            == history@[i]@ by {
            assert(messages@[i + 1]@ == views[i + 1]);
            assert(views[i + 1] == message_views(history@)[i]);
        }
    }
    messages
}

/// A summary is asked for by one instruction in front of the history, which
/// stays as it is. The instruction opens with the fixed text and, where a focus
/// is given, ends with it.
pub proof fn law_a_summary_instruction_keeps_its_text_and_focus(focus: Option<Seq<char>>)
    ensures
        SUMMARY_INSTRUCTION@.len() <= summary_instruction(focus).len(),
        summary_instruction(focus).take(SUMMARY_INSTRUCTION@.len() as int)
            == SUMMARY_INSTRUCTION@,
        focus is None ==> summary_instruction(focus) == SUMMARY_INSTRUCTION@,
        focus matches Some(wanted) ==> wanted.len() <= summary_instruction(focus).len()
            && summary_instruction(focus).skip(summary_instruction(focus).len() - wanted.len())
            == wanted,
{
    let text = summary_instruction(focus);
    assert(text.take(SUMMARY_INSTRUCTION@.len() as int) =~= SUMMARY_INSTRUCTION@);
    if let Some(wanted) = focus {
        assert(text.skip(text.len() - wanted.len()) =~= wanted);
    }
}

/// Folds a round into the transcript: the assistant's message with the calls
/// it requested, and the results behind it.
pub fn fold_round(
    messages: &mut Vec<ChatMessage>,
    content: String,
    calls: Vec<ToolCall>,
    results: &Vec<ChatMessage>,
)
    ensures
        message_views(final(messages)@) == message_views(old(messages)@).push(
            MessageModel {
                tool_calls: call_models(calls@),
                ..plain(Role::Assistant, content@)
            },
        ) + message_views(results@),
        final(messages)@.len() == old(messages)@.len() + 1 + results@.len(),
        forall|i: int|
            0 <= i < old(messages)@.len() ==> (#[trigger] final(messages)@[i])@ == old(
                messages,
            )@[i]@,
        final(messages)@[old(messages)@.len() as int].role == Role::Assistant,
        final(messages)@[old(messages)@.len() as int].content@ == content@,
        forall|i: int|
            0 <= i < results@.len() ==> (#[trigger] final(messages)@[old(messages)@.len() + 1 + i])@
                == results@[i]@,
{
    let ghost before = message_views(messages@);
    let ghost first = messages@;
    let message: ChatMessage = ChatMessage::assistant_tool_calls(content, calls);
    let ghost model = message@;
    messages.push(message);
    assert(message_views(messages@) =~= before.push(model));
    clone_messages(results, messages);
    proof {
        let views = message_views(messages@);
        assert(views.len() == messages@.len());
        assert(before.len() == first.len());
        assert(message_views(results@).len() == results@.len());
        assert(views == before.push(model) + message_views(results@));
        assert forall|i: int| 0 <= i < first.len() implies (#[trigger] messages@[i])@
            == first[i]@ by {
            assert(messages@[i]@ == views[i]);
            assert(views[i] == before[i]);
        }
        assert(messages@[first.len() as int]@ == views[first.len() as int]);
        assert forall|i: int| 0 <= i < results@.len() implies (#[trigger] messages@[first.len() + 1
            + i])@ == results@[i]@ by {
            assert(messages@[first.len() + 1 + i]@ == views[first.len() + 1 + i]);
            assert(views[first.len() + 1 + i] == message_views(results@)[i]);
        }
    }
}

} // verus!
