//! The chain of signed receipts: how it is read from its log, and how its
//! linkage and signatures are checked.
use crate::cost::CostTuple;
use crate::digest;
use crate::encoding::decode_payload;
use crate::ids::{ReceiptId, SessionId, Sha256Digest, TokenId, UnixTsMillis};
use crate::text;
use crate::text::{blank, LINE_FEED};
use vstd::prelude::*;
use vstd::string::StringExecFns;

verus! {

/// A tool call as a receipt records it.
#[derive(Debug)]
pub struct ToolCallReceipt {
    pub call_id: String,
    pub tool_name: String,
    pub arguments_digest: Sha256Digest,
    pub output_digest: Sha256Digest,
    pub cost: CostTuple,
}

/// What a receipt states.
#[derive(Debug)]
pub struct ReceiptBody {
    pub receipt_id: ReceiptId,
    /// The digest of the receipt before it; a first receipt has none.
    pub parent_hash: Option<Sha256Digest>,
    pub verb: String,
    pub issued_at: UnixTsMillis,
    pub subject: String,
    pub cap_token_id: TokenId,
    pub payload_digest: Sha256Digest,
    pub session_id: Option<SessionId>,
    pub cost: CostTuple,
    pub tool_calls: Vec<ToolCallReceipt>,
    pub provider: Option<String>,
}

/// A receipt as it stands in the log: its compact signed form, and the body
/// that was decoded from it.
#[derive(Debug)]
pub struct PersistedReceipt {
    pub jws_compact: String,
    pub body: ReceiptBody,
}

/// A tool call over mathematical values.
#[verifier::ext_equal]
pub ghost struct ToolCallModel {
    pub call_id: Seq<char>,
    pub tool_name: Seq<char>,
    pub arguments_digest: Sha256Digest,
    pub output_digest: Sha256Digest,
    pub cost: CostTuple,
}

/// A receipt body over mathematical values.
#[verifier::ext_equal]
pub ghost struct BodyModel {
    pub receipt_id: ReceiptId,
    pub parent_hash: Option<Sha256Digest>,
    pub verb: Seq<char>,
    pub issued_at: UnixTsMillis,
    pub subject: Seq<char>,
    pub cap_token_id: TokenId,
    pub payload_digest: Sha256Digest,
    pub session_id: Option<SessionId>,
    pub cost: CostTuple,
    pub tool_calls: Seq<ToolCallModel>,
    pub provider: Option<Seq<char>>,
}

/// A persisted receipt over mathematical values.
#[verifier::ext_equal]
pub ghost struct PersistedModel {
    pub jws: Seq<char>,
    pub body: BodyModel,
}

impl View for ToolCallReceipt {
    type V = ToolCallModel;

    open spec fn view(&self) -> ToolCallModel {
        ToolCallModel {
            call_id: self.call_id@,
            tool_name: self.tool_name@,
            arguments_digest: self.arguments_digest,
            output_digest: self.output_digest,
            cost: self.cost,
        }
    }
}

/// The tool calls of a receipt as models.
pub open spec fn call_views(calls: Seq<ToolCallReceipt>) -> Seq<ToolCallModel> {
    calls.map_values(|call: ToolCallReceipt| call@)
}

/// An optional text as characters.
pub open spec fn text_option(text: Option<String>) -> Option<Seq<char>> {
    match text {
        Some(text) => Some(text@),
        None => None,
    }
}

impl View for ReceiptBody {
    type V = BodyModel;

    open spec fn view(&self) -> BodyModel {
        BodyModel {
            receipt_id: self.receipt_id,
            parent_hash: self.parent_hash,
            verb: self.verb@,
            issued_at: self.issued_at,
            subject: self.subject@,
            cap_token_id: self.cap_token_id,
            payload_digest: self.payload_digest,
            session_id: self.session_id,
            cost: self.cost,
            tool_calls: call_views(self.tool_calls@),
            provider: text_option(self.provider),
        }
    }
}

impl View for PersistedReceipt {
    type V = PersistedModel;

    open spec fn view(&self) -> PersistedModel {
        PersistedModel { jws: self.jws_compact@, body: self.body@ }
    }
}

/// The receipts of a chain as models.
pub open spec fn chain_views(chain: Seq<PersistedReceipt>) -> Seq<PersistedModel> {
    chain.map_values(|receipt: PersistedReceipt| receipt@)
}

impl Clone for ToolCallReceipt {
    fn clone(&self) -> (r: Self)
        ensures
            r@ == self@,
    {
        ToolCallReceipt {
            call_id: self.call_id.clone(),
            tool_name: self.tool_name.clone(),
            arguments_digest: self.arguments_digest,
            output_digest: self.output_digest,
            cost: self.cost,
        }
    }
}

fn clone_calls(calls: &Vec<ToolCallReceipt>) -> (r: Vec<ToolCallReceipt>)
    ensures
        call_views(r@) == call_views(calls@),
{
    let mut copy: Vec<ToolCallReceipt> = Vec::new();
    let mut i: usize = 0;
    while i < calls.len()
        invariant
            i <= calls@.len(),
            copy@.len() == i,
            forall|k: int| 0 <= k < i ==> (#[trigger] copy@[k])@ == calls@[k]@,
        decreases calls@.len() - i,
    {
        copy.push(calls[i].clone());
        i = i + 1;
    }
    assert(call_views(copy@) =~= call_views(calls@));
    copy
}

fn same_calls(a: &Vec<ToolCallReceipt>, b: &Vec<ToolCallReceipt>) -> (r: bool)
    ensures
        r == (call_views(a@) == call_views(b@)),
{
    if a.len() != b.len() {
        assert(call_views(a@).len() != call_views(b@).len());
        return false;
    }
    let mut i: usize = 0;
    while i < a.len()
        invariant
            i <= a@.len() == b@.len(),
            forall|k: int| 0 <= k < i ==> (#[trigger] a@[k])@ == b@[k]@,
        decreases a@.len() - i,
    {
        let x: &ToolCallReceipt = &a[i];
        let y: &ToolCallReceipt = &b[i];
        if !(x.call_id == y.call_id && x.tool_name == y.tool_name && x.arguments_digest
            == y.arguments_digest && x.output_digest == y.output_digest && x.cost == y.cost) {
            assert(call_views(a@)[i as int] != call_views(b@)[i as int]);
            return false;
        }
        i = i + 1;
    }
    assert(call_views(a@) =~= call_views(b@));
    true
}

fn same_text_option(a: &Option<String>, b: &Option<String>) -> (r: bool)
    ensures
        r == (text_option(*a) == text_option(*b)),
{
    match (a, b) {
        (Some(x), Some(y)) => *x == *y,
        (None, None) => true,
        _ => false,
    }
}

impl Clone for ReceiptBody {
    fn clone(&self) -> (r: Self)
        ensures
            r@ == self@,
    {
        ReceiptBody {
            receipt_id: self.receipt_id,
            parent_hash: self.parent_hash,
            verb: self.verb.clone(),
            issued_at: self.issued_at,
            subject: self.subject.clone(),
            cap_token_id: self.cap_token_id,
            payload_digest: self.payload_digest,
            session_id: self.session_id,
            cost: self.cost,
            tool_calls: clone_calls(&self.tool_calls),
            provider: match &self.provider {
                Some(provider) => Some(provider.clone()),
                None => None,
            },
        }
    }
}

impl Clone for PersistedReceipt {
    fn clone(&self) -> (r: Self)
        ensures
            r@ == self@,
    {
        PersistedReceipt { jws_compact: self.jws_compact.clone(), body: self.body.clone() }
    }
}

impl ReceiptBody {
    /// Whether two bodies state the same.
    pub fn same(&self, other: &ReceiptBody) -> (r: bool)
        ensures
            r == (self@ == other@),
    {
        self.receipt_id == other.receipt_id && self.parent_hash == other.parent_hash && self.verb
            == other.verb && self.issued_at == other.issued_at && self.subject == other.subject
            && self.cap_token_id == other.cap_token_id && self.payload_digest
            == other.payload_digest && self.session_id == other.session_id && self.cost
            == other.cost && same_calls(&self.tool_calls, &other.tool_calls) && same_text_option(
            &self.provider,
            &other.provider,
        )
    }
}

/// Why a receipt log cannot be used; `at` is a position in the chain.
#[derive(Clone, Copy, Debug, PartialEq, Eq, Structural)]
pub enum ReceiptChainError {
    /// The log cannot be read as text.
    Io,
    /// A line is not a signed receipt.
    Malformed,
    /// A receipt does not name the one before it.
    BrokenChain { at: usize },
    /// A receipt's signature does not verify.
    InvalidSignature { at: usize },
    /// A decoded body is not the one that was signed.
    BodyMismatch { at: usize },
}

/// A line of a receipt log that is not blank.
#[derive(Debug)]
pub struct ReceiptLine {
    pub text: String,
    /// The byte offset of the line in the log.
    pub start: usize,
    /// The line ends in a line feed.
    pub terminated: bool,
}

/// A line of a receipt log over mathematical values.
#[verifier::ext_equal]
pub ghost struct LineModel {
    pub text: Seq<char>,
    pub start: int,
    pub terminated: bool,
}

impl View for ReceiptLine {
    type V = LineModel;

    open spec fn view(&self) -> LineModel {
        LineModel { text: self.text@, start: self.start as int, terminated: self.terminated }
    }
}

/// The lines of a log as models.
pub open spec fn line_views(lines: Seq<ReceiptLine>) -> Seq<LineModel> {
    lines.map_values(|line: ReceiptLine| line@)
}

/// The segment from `from` up to its line feed or the end of the log.
pub open spec fn segment(log: Seq<u8>, from: int) -> Seq<u8> {
    log.subrange(from, text::line_end(log, from))
}

/// Every segment from `from` on is UTF-8.
pub open spec fn readable_from(log: Seq<u8>, from: int) -> bool
    decreases log.len() - from + 1,
    when 0 <= from
    via readable_from_decreases
{
    from >= log.len() || (vstd::utf8::valid_utf8(segment(log, from)) && readable_from(
        log,
        text::line_end(log, from) + 1,
    ))
}

#[via_fn]
proof fn readable_from_decreases(log: Seq<u8>, from: int) {
    if from < log.len() {
        text::lemma_line_end(log, from);
    }
}

/// The lines from `from` on that are not blank.
pub open spec fn receipt_lines_from(log: Seq<u8>, from: int) -> Seq<LineModel>
    decreases log.len() - from + 1,
    when 0 <= from
    via receipt_lines_from_decreases
{
    if from >= log.len() {
        Seq::empty()
    } else {
        let end = text::line_end(log, from);
        let line = vstd::utf8::decode_utf8(segment(log, from));
        let rest = receipt_lines_from(log, end + 1);
        if text::is_blank(line) {
            rest
        } else {
            seq![LineModel { text: line, start: from, terminated: end < log.len() }] + rest
        }
    }
}

#[via_fn]
proof fn receipt_lines_from_decreases(log: Seq<u8>, from: int) {
    if from < log.len() {
        text::lemma_line_end(log, from);
    }
}

/// The lines of a receipt log that are not blank.
pub fn receipt_lines(log: &[u8]) -> (r: Result<Vec<ReceiptLine>, ReceiptChainError>)
    ensures
        match r {
            Ok(lines) => readable_from(log@, 0) && line_views(lines@) == receipt_lines_from(
                log@,
                0,
            ),
            Err(error) => !readable_from(log@, 0) && error == ReceiptChainError::Io,
        },
{
    let n: usize = log.len();
    let ghost all = receipt_lines_from(log@, 0);
    let mut lines: Vec<ReceiptLine> = Vec::new();
    let mut from: usize = 0;
    assert(all =~= line_views(lines@) + receipt_lines_from(log@, 0));
    while from < n
        invariant
            n == log@.len(),
            from <= n,
            all == receipt_lines_from(log@, 0),
            all == line_views(lines@) + receipt_lines_from(log@, from as int),
            readable_from(log@, 0) == readable_from(log@, from as int),
        decreases n - from,
    {
        let mut end: usize = from;
        while end < n && log[end] != LINE_FEED
            invariant
                n == log@.len(),
                from <= end <= n,
                text::line_end(log@, from as int) == text::line_end(log@, end as int),
            decreases n - end,
        {
            end = end + 1;
        }
        assert(text::line_end(log@, from as int) == end);
        let bytes: &[u8] = vstd::slice::slice_subrange(log, from, end);
        assert(bytes@ == segment(log@, from as int));
        let ghost rest = receipt_lines_from(log@, end + 1);
        let ghost before = lines@;
        match text::text_of_bytes(bytes) {
            None => {
                return Err(ReceiptChainError::Io);
            },
            Some(line) => {
                if blank(line) {
                    assert(receipt_lines_from(log@, from as int) == rest);
                } else {
                    let entry = ReceiptLine {
                        text: String::from_str(line),
                        start: from,
                        terminated: end < n,
                    };
                    let ghost model = entry@;
                    lines.push(entry);
                    assert(line_views(lines@) =~= line_views(before).push(model));
                    assert(all =~= line_views(lines@) + rest);
                }
            },
        }
        if end >= n {
            assert(readable_from(log@, end + 1) && readable_from(log@, n as int));
            assert(rest =~= Seq::empty());
            assert(receipt_lines_from(log@, n as int) =~= Seq::empty());
            from = n;
        } else {
            from = end + 1;
        }
    }
    assert(all =~= line_views(lines@));
    Ok(lines)
}

/// The bodies that the lines decoded to, where they did.
pub open spec fn decoded_views(decoded: Seq<Option<ReceiptBody>>) -> Seq<Option<BodyModel>> {
    decoded.map_values(|body: Option<ReceiptBody>| body_option(body))
}

/// An optional body as a model.
pub open spec fn body_option(body: Option<ReceiptBody>) -> Option<BodyModel> {
    match body {
        Some(body) => Some(body@),
        None => None,
    }
}

/// A chain that was read from a log.
#[derive(Debug)]
pub struct ReadChain {
    pub receipts: Vec<PersistedReceipt>,
    /// Where the log must be cut because its last line is torn.
    pub torn_at: Option<usize>,
}

/// A chain that was read from a log, over mathematical values.
pub ghost struct ReadModel {
    pub receipts: Seq<PersistedModel>,
    pub torn_at: Option<int>,
}

impl View for ReadChain {
    type V = ReadModel;

    open spec fn view(&self) -> ReadModel {
        ReadModel {
            receipts: chain_views(self.receipts@),
            torn_at: match self.torn_at {
                Some(at) => Some(at as int),
                None => None,
            },
        }
    }
}

/// The first line that did not decode, from `from` on.
pub open spec fn first_undecoded(decoded: Seq<Option<BodyModel>>, from: int) -> int
    decreases decoded.len() - from,
{
    if from >= decoded.len() || decoded[from] is None {
        from
    } else {
        first_undecoded(decoded, from + 1)
    }
}

/// The receipts of the first `n` lines.
pub open spec fn receipts_of(
    lines: Seq<LineModel>,
    decoded: Seq<Option<BodyModel>>,
    n: int,
) -> Seq<PersistedModel> {
    Seq::new(n as nat, |i: int| PersistedModel { jws: lines[i].text, body: decoded[i]->0 })
}

/// The chain of a log, given its lines and the body that each decoded to.
pub open spec fn chain_of(lines: Seq<LineModel>, decoded: Seq<Option<BodyModel>>) -> Result<
    ReadModel,
    ReceiptChainError,
> {
    let stop = first_undecoded(decoded, 0);
    let receipts = receipts_of(lines, decoded, stop);
    if stop == decoded.len() {
        Ok(ReadModel { receipts, torn_at: None })
    } else if !lines[stop].terminated {
        Ok(ReadModel { receipts, torn_at: Some(lines[stop].start) })
    } else {
        Err(ReceiptChainError::Malformed)
    }
}

/// Assembles the chain of a log from its lines and the body that each line
/// decoded to. A line that does not decode is refused, unless it is a last
/// line without a line feed: that is what a crash in the middle of an append
/// leaves, so it is cut off.
pub fn parse_receipt_lines(lines: &Vec<ReceiptLine>, decoded: &Vec<Option<ReceiptBody>>) -> (r:
    Result<ReadChain, ReceiptChainError>)
    requires
        lines@.len() == decoded@.len(),
    ensures
        match chain_of(line_views(lines@), decoded_views(decoded@)) {
            Ok(chain) => r matches Ok(read) && read@ == chain,
            Err(error) => r matches Err(e) && e == error,
        },
{
    let ghost bodies = decoded_views(decoded@);
    let ghost views = line_views(lines@);
    let mut receipts: Vec<PersistedReceipt> = Vec::new();
    let mut i: usize = 0;
    assert(chain_views(receipts@) =~= receipts_of(views, bodies, 0));
    while i < lines.len()
        invariant
            i <= lines@.len() == decoded@.len(),
            bodies == decoded_views(decoded@),
            views == line_views(lines@),
            first_undecoded(bodies, 0) == first_undecoded(bodies, i as int),
            chain_views(receipts@) == receipts_of(views, bodies, i as int),
        decreases lines@.len() - i,
    {
        assert(bodies[i as int] == body_option(decoded@[i as int]));
        assert(views[i as int] == lines@[i as int]@);
        let ghost before = receipts@;
        match &decoded[i] {
            Some(body) => {
                let receipt = PersistedReceipt {
                    jws_compact: lines[i].text.clone(),
                    body: body.clone(),
                };
                let ghost model = receipt@;
                receipts.push(receipt);
                assert(chain_views(receipts@) =~= chain_views(before).push(model));
                assert(chain_views(receipts@) =~= receipts_of(views, bodies, i + 1));
            },
            None => {
                if lines[i].terminated {
                    return Err(ReceiptChainError::Malformed);
                }
                return Ok(ReadChain { receipts, torn_at: Some(lines[i].start) });
            },
        }
        i = i + 1;
    }
    Ok(ReadChain { receipts, torn_at: None })
}

/// The digest that the receipt at `at` has to name: that of the receipt before
/// it, and none for the first one.
pub open spec fn expected_parent(chain: Seq<PersistedModel>, at: int) -> Option<Sha256Digest> {
    if at == 0 {
        None
    } else {
        Some(digest::digest_of(vstd::utf8::encode_utf8(chain[at - 1].jws)))
    }
}

/// The first receipt from `from` on that does not name the one before it, or
/// the length of the chain.
pub open spec fn first_break(chain: Seq<PersistedModel>, from: int) -> int
    decreases chain.len() - from,
{
    if from >= chain.len() || chain[from].body.parent_hash != expected_parent(chain, from) {
        from
    } else {
        first_break(chain, from + 1)
    }
}

/// Every receipt names the one before it.
pub open spec fn linked(chain: Seq<PersistedModel>) -> bool {
    forall|i: int|
        0 <= i < chain.len() ==> (#[trigger] chain[i]).body.parent_hash == expected_parent(chain, i)
}

pub(crate) fn parent_of(chain: &Vec<PersistedReceipt>, at: usize) -> (r: Option<Sha256Digest>)
    requires
        at <= chain@.len(),
    ensures
        r == expected_parent(chain_views(chain@), at as int),
{
    if at == 0 {
        None
    } else {
        assert(chain_views(chain@)[at - 1] == chain@[at - 1]@);
        Some(Sha256Digest::of_text(chain[at - 1].jws_compact.as_str()))
    }
}

/// The digest that the next receipt of the chain will name.
pub fn chain_tail(chain: &Vec<PersistedReceipt>) -> (r: Option<Sha256Digest>)
    ensures
        r == expected_parent(chain_views(chain@), chain@.len() as int),
{
    parent_of(chain, chain.len())
}

/// Checks the linkage of a chain: the first receipt names no parent, and every
/// other one the digest of the one before it.
#[verifier::rlimit(40)]
pub fn verify_persisted_chain(chain: &Vec<PersistedReceipt>) -> (r: Result<(), ReceiptChainError>)
    ensures
        ({
            let at = first_break(chain_views(chain@), 0);
            if at == chain@.len() {
                r is Ok
            } else {
                r == Err::<(), ReceiptChainError>(
                    ReceiptChainError::BrokenChain { at: at as usize },
                )
            }
        }),
        r is Ok <==> linked(chain_views(chain@)),
{
    let ghost views = chain_views(chain@);
    let mut i: usize = 0;
    while i < chain.len()
        invariant
            i <= chain@.len(),
            views == chain_views(chain@),
            first_break(views, 0) == first_break(views, i as int),
            forall|k: int|
                0 <= k < i ==> (#[trigger] views[k]).body.parent_hash == expected_parent(views, k),
        decreases chain@.len() - i,
    {
        assert(views[i as int] == chain@[i as int]@);
        if chain[i].body.parent_hash != parent_of(chain, i) {
            return Err(ReceiptChainError::BrokenChain { at: i });
        }
        i = i + 1;
    }
    Ok(())
}

/// What is wrong with the receipt at `at`, given the body that its signature
/// vouches for.
pub open spec fn receipt_error(
    chain: Seq<PersistedModel>,
    signed: Seq<Option<BodyModel>>,
    at: int,
) -> Option<ReceiptChainError> {
    match signed[at] {
        None => Some(ReceiptChainError::InvalidSignature { at: at as usize }),
        Some(body) => if body != chain[at].body {
            Some(ReceiptChainError::BodyMismatch { at: at as usize })
        } else if body.parent_hash != expected_parent(chain, at) {
            Some(ReceiptChainError::BrokenChain { at: at as usize })
        } else {
            None
        },
    }
}

/// The first thing that is wrong from `from` on.
pub open spec fn first_error(
    chain: Seq<PersistedModel>,
    signed: Seq<Option<BodyModel>>,
    from: int,
) -> Option<ReceiptChainError>
    decreases chain.len() - from,
{
    if from >= chain.len() {
        None
    } else {
        match receipt_error(chain, signed, from) {
            Some(error) => Some(error),
            None => first_error(chain, signed, from + 1),
        }
    }
}

/// Authenticates the receipts from `from` on: `signed` holds for each receipt
/// the body that its signature vouches for, if it verifies.
pub fn verify_persisted_chain_range(
    chain: &Vec<PersistedReceipt>,
    signed: &Vec<Option<ReceiptBody>>,
    from: usize,
) -> (r: Result<(), ReceiptChainError>)
    requires
        signed@.len() == chain@.len(),
    ensures
        match first_error(chain_views(chain@), decoded_views(signed@), from as int) {
            Some(error) => r == Err::<(), ReceiptChainError>(error),
            None => r is Ok,
        },
{
    let ghost views = chain_views(chain@);
    let ghost bodies = decoded_views(signed@);
    let mut i: usize = from;
    while i < chain.len()
        invariant
            signed@.len() == chain@.len(),
            views == chain_views(chain@),
            bodies == decoded_views(signed@),
            first_error(views, bodies, from as int) == first_error(views, bodies, i as int),
        decreases chain@.len() - i,
    {
        assert(views[i as int] == chain@[i as int]@);
        assert(bodies[i as int] == body_option(signed@[i as int]));
        match &signed[i] {
            None => {
                return Err(ReceiptChainError::InvalidSignature { at: i });
            },
            Some(body) => {
                if !body.same(&chain[i].body) {
                    return Err(ReceiptChainError::BodyMismatch { at: i });
                }
                if body.parent_hash != parent_of(chain, i) {
                    return Err(ReceiptChainError::BrokenChain { at: i });
                }
            },
        }
        i = i + 1;
    }
    Ok(())
}

/// Authenticates a whole chain: every signature verifies, every decoded body
/// is the signed one, and every receipt names the one before it.
pub fn verify_persisted_chain_with_jwks(
    chain: &Vec<PersistedReceipt>,
    signed: &Vec<Option<ReceiptBody>>,
) -> (r: Result<(), ReceiptChainError>)
    requires
        signed@.len() == chain@.len(),
    ensures
        match first_error(chain_views(chain@), decoded_views(signed@), 0) {
            Some(error) => r == Err::<(), ReceiptChainError>(error),
            None => r is Ok,
        },
{
    verify_persisted_chain_range(chain, signed, 0)
}

/// A receipt's payload bytes, or that the line is not a signed receipt.
pub fn receipt_payload(jws_compact: &str) -> (r: Result<Vec<u8>, ReceiptChainError>)
    ensures
        match crate::encoding::payload_of(jws_compact@) {
            Ok(bytes) => r matches Ok(payload) && payload@ == bytes,
            Err(_) => r matches Err(error) && error == ReceiptChainError::Malformed,
        },
{
    match decode_payload(jws_compact) {
        Ok(payload) => Ok(payload),
        Err(_) => Err(ReceiptChainError::Malformed),
    }
}

/// A receipt names the one before it: the digest of that one's signed form, and
/// nothing where it is the first.
pub open spec fn names_its_parent(chain: Seq<PersistedModel>, at: int) -> bool {
    match chain[at].body.parent_hash {
        None => at == 0,
        Some(parent) => at > 0 && parent == digest::digest_of(
            vstd::utf8::encode_utf8(chain[at - 1].jws),
        ),
    }
}

/// A receipt is what its signature vouches for, and names the one before it.
pub open spec fn authentic(
    chain: Seq<PersistedModel>,
    signed: Seq<Option<BodyModel>>,
    at: int,
) -> bool {
    signed[at] == Some(chain[at].body) && names_its_parent(chain, at)
}

/// A chain is accepted exactly if every receipt in it is authentic. Otherwise
/// the first that is not is reported, under what is wrong with it: that its
/// signature vouches for nothing, or for another body, or that it does not name
/// the one before it.
pub proof fn law_the_first_flaw_is_reported(
    chain: Seq<PersistedModel>,
    signed: Seq<Option<BodyModel>>,
    from: int,
)
    requires
        signed.len() == chain.len() <= usize::MAX,
        0 <= from <= chain.len(),
    ensures
        first_error(chain, signed, from) is None <==> forall|i: int|
            from <= i < chain.len() ==> #[trigger] authentic(chain, signed, i),
        match first_error(chain, signed, from) {
            None => true,
            Some(ReceiptChainError::InvalidSignature { at }) => from <= at < chain.len()
                && signed[at as int] is None && forall|i: int|
                from <= i < at ==> #[trigger] authentic(chain, signed, i),
            Some(ReceiptChainError::BodyMismatch { at }) => from <= at < chain.len() && (
            signed[at as int] matches Some(body) && body != chain[at as int].body) && forall|i: int|
                from <= i < at ==> #[trigger] authentic(chain, signed, i),
            Some(ReceiptChainError::BrokenChain { at }) => from <= at < chain.len()
                && signed[at as int] == Some(chain[at as int].body) && !names_its_parent(
                chain,
                at as int,
            ) && forall|i: int| from <= i < at ==> #[trigger] authentic(chain, signed, i),
            Some(_) => false,
        },
    decreases chain.len() - from,
{
    if from < chain.len() {
        law_the_first_flaw_is_reported(chain, signed, from + 1);
        assert(authentic(chain, signed, from) <==> receipt_error(chain, signed, from) is None);
        if receipt_error(chain, signed, from) is None {
            assert forall|i: int|
                from <= i < chain.len() && (forall|j: int|
                    from + 1 <= j < chain.len() ==> #[trigger] authentic(
                        chain,
                        signed,
                        j,
                    )) implies #[trigger] authentic(chain, signed, i) by {
                if i > from {
                    assert(authentic(chain, signed, i));
                }
            }
        }
    }
}

/// The first receipt that does not name the one before it is the one that is
/// reported, and all before it do; a chain in which all do is accepted.
pub proof fn law_the_first_break_is_reported(chain: Seq<PersistedModel>, from: int)
    requires
        0 <= from <= chain.len(),
    ensures
        from <= first_break(chain, from) <= chain.len(),
        first_break(chain, from) < chain.len() ==> !names_its_parent(
            chain,
            first_break(chain, from),
        ),
        forall|i: int|
            from <= i < first_break(chain, from) ==> #[trigger] names_its_parent(chain, i),
        linked(chain) <==> forall|i: int|
            0 <= i < chain.len() ==> #[trigger] names_its_parent(chain, i),
    decreases chain.len() - from,
{
    assert forall|i: int| 0 <= i < chain.len() implies (#[trigger] names_its_parent(chain, i)
        <==> chain[i].body.parent_hash == expected_parent(chain, i)) by {}
    if linked(chain) {
        assert forall|i: int| 0 <= i < chain.len() implies #[trigger] names_its_parent(
            chain,
            i,
        ) by {
            assert(chain[i].body.parent_hash == expected_parent(chain, i));
        }
    }
    if forall|i: int| 0 <= i < chain.len() ==> #[trigger] names_its_parent(chain, i) {
        assert forall|i: int| 0 <= i < chain.len() implies (#[trigger] chain[i]).body.parent_hash
            == expected_parent(chain, i) by {
            assert(names_its_parent(chain, i));
        }
    }
    if from < chain.len() && chain[from].body.parent_hash == expected_parent(chain, from) {
        law_the_first_break_is_reported(chain, from + 1);
        assert(names_its_parent(chain, from));
    }
}

/// The chain of a log is what its lines decode to, one receipt for each line,
/// up to the first that does not decode. Such a line is cut off where it lacks
/// its line feed, and is otherwise the reason to refuse the log.
pub proof fn law_every_decoded_line_is_a_receipt(
    lines: Seq<LineModel>,
    decoded: Seq<Option<BodyModel>>,
)
    requires
        lines.len() == decoded.len(),
    ensures
        match chain_of(lines, decoded) {
            Ok(read) => {
                let n = read.receipts.len() as int;
                &&& n <= lines.len()
                &&& forall|i: int|
                    0 <= i < n ==> (#[trigger] read.receipts[i]).jws == lines[i].text && decoded[i]
                        == Some(read.receipts[i].body)
                &&& read.torn_at is None ==> n == lines.len()
                &&& read.torn_at matches Some(at) ==> n < lines.len() && decoded[n] is None
                    && !lines[n].terminated && at == lines[n].start
            },
            Err(error) => error == ReceiptChainError::Malformed && exists|n: int|
                0 <= n < lines.len() && decoded[n] is None && #[trigger] lines[n].terminated && (
                forall|i: int| 0 <= i < n ==> (#[trigger] decoded[i]) is Some),
        },
{
    lemma_first_undecoded(decoded, 0);
    let stop = first_undecoded(decoded, 0);
    if chain_of(lines, decoded) is Err {
        assert(lines[stop].terminated);
    }
}

/// A prefix of a linked chain is linked: cutting receipts off the end leaves a
/// chain that the next receipt can be linked to.
pub proof fn law_a_prefix_stays_linked(chain: Seq<PersistedModel>, kept: int)
    requires
        linked(chain),
        0 <= kept <= chain.len(),
    ensures
        linked(chain.take(kept)),
{
    let cut = chain.take(kept);
    assert forall|i: int| 0 <= i < cut.len() implies (#[trigger] cut[i]).body.parent_hash
        == expected_parent(cut, i) by {
        assert(cut[i] == chain[i]);
        if i > 0 {
            assert(cut[i - 1] == chain[i - 1]);
        }
    }
}

/// A receipt extends a linked chain exactly if it names the digest of the last
/// receipt.
pub proof fn law_a_receipt_links_to_the_tail(chain: Seq<PersistedModel>, receipt: PersistedModel)
    requires
        linked(chain),
    ensures
        linked(chain.push(receipt)) <==> receipt.body.parent_hash == expected_parent(
            chain,
            chain.len() as int,
        ),
{
    let longer = chain.push(receipt);
    let n = chain.len() as int;
    assert(longer[n] == receipt);
    if n > 0 {
        assert(longer[n - 1] == chain[n - 1]);
    }
    assert(expected_parent(longer, n) == expected_parent(chain, n));
    if receipt.body.parent_hash == expected_parent(chain, n) {
        assert forall|i: int| 0 <= i < longer.len() implies (#[trigger] longer[i]).body.parent_hash
            == expected_parent(longer, i) by {
            if i < n {
                assert(longer[i] == chain[i]);
                if i > 0 {
                    assert(longer[i - 1] == chain[i - 1]);
                }
            }
        }
    }
}

/// An authenticated chain is linked.
pub proof fn law_authenticated_chains_are_linked(
    chain: Seq<PersistedModel>,
    signed: Seq<Option<BodyModel>>,
    from: int,
)
    requires
        signed.len() == chain.len(),
        0 <= from <= chain.len(),
        first_error(chain, signed, from) is None,
    ensures
        forall|i: int|
            from <= i < chain.len() ==> (#[trigger] chain[i]).body.parent_hash == expected_parent(
                chain,
                i,
            ) && signed[i] == Some(chain[i].body),
        from == 0 ==> linked(chain),
    decreases chain.len() - from,
{
    if from < chain.len() {
        law_authenticated_chains_are_linked(chain, signed, from + 1);
    }
}

proof fn lemma_clean_prefix(
    chain: Seq<PersistedModel>,
    signed: Seq<Option<BodyModel>>,
    from: int,
    mid: int,
)
    requires
        signed.len() == chain.len(),
        0 <= from <= mid <= chain.len(),
        forall|i: int| from <= i < mid ==> receipt_error(chain, signed, i) is None,
    ensures
        first_error(chain, signed, from) == first_error(chain, signed, mid),
    decreases mid - from,
{
    if from < mid {
        assert(receipt_error(chain, signed, from) is None);
        lemma_clean_prefix(chain, signed, from + 1, mid);
    }
}

/// A grown log needs only its new receipts authenticated: where the first
/// `known` receipts are those of a chain that was authenticated, checking the
/// rest answers what checking everything would.
pub proof fn law_checking_the_tail_suffices(
    known: Seq<PersistedModel>,
    known_signed: Seq<Option<BodyModel>>,
    chain: Seq<PersistedModel>,
    signed: Seq<Option<BodyModel>>,
)
    requires
        known_signed.len() == known.len(),
        signed.len() == chain.len(),
        first_error(known, known_signed, 0) is None,
        known.len() <= chain.len(),
        chain.take(known.len() as int) == known,
        signed.take(known.len() as int) == known_signed,
    ensures
        first_error(chain, signed, 0) == first_error(chain, signed, known.len() as int),
{
    let n = known.len() as int;
    law_authenticated_chains_are_linked(known, known_signed, 0);
    assert forall|i: int| 0 <= i < n implies receipt_error(chain, signed, i) is None by {
        assert(known[i] == chain[i]);
        assert(known_signed[i] == signed[i]);
        if i > 0 {
            assert(known[i - 1] == chain[i - 1]);
        }
        assert(known[i].body.parent_hash == expected_parent(known, i));
    }
    lemma_clean_prefix(chain, signed, 0, n);
}

proof fn lemma_appended_receipt(log: Seq<u8>, line: Seq<u8>, from: int)
    requires
        !text::is_torn(log),
        forall|i: int| 0 <= i < line.len() ==> #[trigger] line[i] != LINE_FEED,
        !text::is_blank(vstd::utf8::decode_utf8(line)),
        0 <= from <= log.len(),
    ensures
        receipt_lines_from(log + line.push(LINE_FEED), from) == receipt_lines_from(log, from).push(
            LineModel {
                text: vstd::utf8::decode_utf8(line),
                start: log.len() as int,
                terminated: true,
            },
        ),
        readable_from(log + line.push(LINE_FEED), from) == (readable_from(log, from)
            && vstd::utf8::valid_utf8(line)),
    decreases log.len() - from,
{
    let one = line.push(LINE_FEED);
    let whole = log + one;
    if from == log.len() {
        text::lemma_line_end_shifts(log, one, 0);
        text::lemma_one_line(line, 0);
        let end = text::line_end(whole, from);
        assert(end == log.len() + line.len());
        assert(segment(whole, from) =~= line);
        assert(receipt_lines_from(whole, end + 1) =~= Seq::empty());
        assert(readable_from(whole, end + 1));
        assert(receipt_lines_from(log, from) =~= Seq::empty());
        assert(receipt_lines_from(whole, from) =~= seq![
            LineModel {
                text: vstd::utf8::decode_utf8(line),
                start: log.len() as int,
                terminated: true,
            },
        ]);
    } else {
        text::lemma_line_end_of_prefix(log, one, from);
        text::lemma_line_end(log, from);
        let end = text::line_end(log, from);
        assert(segment(whole, from) =~= segment(log, from));
        lemma_appended_receipt(log, line, end + 1);
        assert(receipt_lines_from(whole, from) =~= receipt_lines_from(log, from).push(
            LineModel {
                text: vstd::utf8::decode_utf8(line),
                start: log.len() as int,
                terminated: true,
            },
        ));
    }
}

/// A receipt that is appended to a log as one line is read back behind the
/// lines that were there. Left out are a log that ends in the middle of a
/// line, and a line that is blank or holds a line feed.
pub proof fn law_an_appended_receipt_is_read_back(log: Seq<u8>, line: Seq<u8>)
    requires
        !text::is_torn(log),
        readable_from(log, 0),
        vstd::utf8::valid_utf8(line),
        forall|i: int| 0 <= i < line.len() ==> #[trigger] line[i] != LINE_FEED,
        !text::is_blank(vstd::utf8::decode_utf8(line)),
    ensures
        readable_from(log + line.push(LINE_FEED), 0),
        receipt_lines_from(log + line.push(LINE_FEED), 0) == receipt_lines_from(log, 0).push(
            LineModel {
                text: vstd::utf8::decode_utf8(line),
                start: log.len() as int,
                terminated: true,
            },
        ),
{
    lemma_appended_receipt(log, line, 0);
}

proof fn lemma_appended_piece(log: Seq<u8>, piece: Seq<u8>, from: int)
    requires
        !text::is_torn(log),
        0 <= from <= log.len(),
    ensures
        receipt_lines_from(log + piece, from) == receipt_lines_from(log, from)
            + receipt_lines_from(log + piece, log.len() as int),
    decreases log.len() - from,
{
    let whole = log + piece;
    if from == log.len() {
        assert(receipt_lines_from(log, from) =~= Seq::empty());
        assert(receipt_lines_from(whole, from) =~= receipt_lines_from(log, from)
            + receipt_lines_from(whole, log.len() as int));
    } else {
        text::lemma_line_end_of_prefix(log, piece, from);
        text::lemma_line_end(log, from);
        let end = text::line_end(log, from);
        assert(segment(whole, from) =~= segment(log, from));
        lemma_appended_piece(log, piece, end + 1);
        assert(receipt_lines_from(whole, from) =~= receipt_lines_from(log, from)
            + receipt_lines_from(whole, log.len() as int));
    }
}

proof fn lemma_no_feed(line: Seq<u8>, from: int)
    requires
        0 <= from <= line.len(),
        forall|i: int| 0 <= i < line.len() ==> #[trigger] line[i] != LINE_FEED,
    ensures
        text::line_end(line, from) == line.len(),
    decreases line.len() - from,
{
    if from < line.len() {
        lemma_no_feed(line, from + 1);
    }
}

/// What stands behind the last line feed of a log is read as its last line, and
/// marked as one without a line feed; a blank line, with or without a line
/// feed, is not read at all.
pub proof fn law_an_unfinished_receipt_is_marked(log: Seq<u8>, line: Seq<u8>)
    requires
        !text::is_torn(log),
        forall|i: int| 0 <= i < line.len() ==> #[trigger] line[i] != LINE_FEED,
    ensures
        receipt_lines_from(log + line, 0) == (if text::is_blank(vstd::utf8::decode_utf8(line))
            || line.len() == 0 {
            receipt_lines_from(log, 0)
        } else {
            receipt_lines_from(log, 0).push(
                LineModel {
                    text: vstd::utf8::decode_utf8(line),
                    start: log.len() as int,
                    terminated: false,
                },
            )
        }),
        text::is_blank(vstd::utf8::decode_utf8(line)) ==> receipt_lines_from(
            log + line.push(LINE_FEED),
            0,
        ) == receipt_lines_from(log, 0),
{
    let n = log.len() as int;
    let whole = log + line;
    lemma_appended_piece(log, line, 0);
    lemma_no_feed(line, 0);
    text::lemma_line_end_shifts(log, line, 0);
    if line.len() > 0 {
        assert(segment(whole, n) =~= line);
        assert(receipt_lines_from(whole, whole.len() as int + 1) =~= Seq::empty());
    } else {
        assert(receipt_lines_from(whole, n) =~= Seq::empty());
    }
    let one = line.push(LINE_FEED);
    let longer = log + one;
    lemma_appended_piece(log, one, 0);
    text::lemma_one_line(line, 0);
    text::lemma_line_end_shifts(log, one, 0);
    assert(segment(longer, n) =~= line);
    assert(receipt_lines_from(longer, longer.len() as int) =~= Seq::empty());
    assert(text::line_end(longer, n) + 1 == longer.len());
    if text::is_blank(vstd::utf8::decode_utf8(line)) {
        assert(receipt_lines_from(longer, n) =~= Seq::empty());
        assert(receipt_lines_from(longer, 0) =~= receipt_lines_from(log, 0));
        assert(receipt_lines_from(whole, n) =~= Seq::empty());
        assert(receipt_lines_from(whole, 0) =~= receipt_lines_from(log, 0));
    }
}

proof fn lemma_line_ends_with_a_line_feed(log: Seq<u8>, from: int)
    requires
        0 <= from <= log.len(),
    ensures
        from <= text::line_end(log, from) <= log.len(),
        text::line_end(log, from) < log.len() ==> log[text::line_end(log, from)] == LINE_FEED,
    decreases log.len() - from,
{
    if from < log.len() && log[from] != LINE_FEED {
        lemma_line_ends_with_a_line_feed(log, from + 1);
    }
}

/// A log that is cut behind a line feed, or at its start, keeps the lines
/// before the cut as they are.
proof fn lemma_cut_lines(log: Seq<u8>, at: int, from: int)
    requires
        0 <= from <= at <= log.len(),
        at == from || log[at - 1] == LINE_FEED,
    ensures
        receipt_lines_from(log, from) == receipt_lines_from(log.take(at), from)
            + receipt_lines_from(log, at),
        readable_from(log, from) ==> readable_from(log.take(at), from),
    decreases at - from,
{
    let head = log.take(at);
    let tail = log.skip(at);
    if from == at {
        assert(receipt_lines_from(head, from) =~= Seq::empty());
        assert(receipt_lines_from(log, from) =~= receipt_lines_from(head, from)
            + receipt_lines_from(log, at));
    } else {
        assert(head + tail =~= log);
        text::lemma_line_end(head, from);
        text::lemma_line_end_of_prefix(head, tail, from);
        let end = text::line_end(head, from);
        assert(text::line_end(log, from) == end);
        assert(segment(head, from) =~= segment(log, from));
        lemma_cut_lines(log, at, end + 1);
        let line = vstd::utf8::decode_utf8(segment(log, from));
        if !text::is_blank(line) {
            let model = LineModel { text: line, start: from, terminated: true };
            assert((seq![model] + receipt_lines_from(head, end + 1)) + receipt_lines_from(log, at)
                =~= seq![model] + (receipt_lines_from(head, end + 1) + receipt_lines_from(
                log,
                at,
            )));
        }
    }
}

/// Where a line stands, and that only the last one is without a line feed.
proof fn lemma_line_stands(log: Seq<u8>, from: int, i: int)
    requires
        0 <= from,
        0 <= i < receipt_lines_from(log, from).len(),
    ensures
        ({
            let line = receipt_lines_from(log, from)[i];
            &&& from <= line.start < log.len()
            &&& line.start == from || log[line.start - 1] == LINE_FEED
            &&& !line.terminated ==> receipt_lines_from(log, line.start) == seq![line]
        }),
    decreases log.len() - from + 1,
{
    lemma_line_ends_with_a_line_feed(log, from);
    let end = text::line_end(log, from);
    let line = vstd::utf8::decode_utf8(segment(log, from));
    let rest = receipt_lines_from(log, end + 1);
    if text::is_blank(line) {
        lemma_line_stands(log, end + 1, i);
    } else if i > 0 {
        assert(receipt_lines_from(log, from)[i] == rest[i - 1]);
        lemma_line_stands(log, end + 1, i - 1);
    } else if end >= log.len() {
        assert(rest =~= Seq::empty());
        assert(receipt_lines_from(log, from) =~= seq![receipt_lines_from(log, from)[0]]);
    }
}

/// What each line decodes to, where that depends on its text alone.
pub open spec fn decoded_by(
    lines: Seq<LineModel>,
    decode: spec_fn(Seq<char>) -> Option<BodyModel>,
) -> Seq<Option<BodyModel>> {
    lines.map_values(|line: LineModel| decode(line.text))
}

proof fn lemma_first_undecoded(decoded: Seq<Option<BodyModel>>, from: int)
    requires
        0 <= from <= decoded.len(),
    ensures
        from <= first_undecoded(decoded, from) <= decoded.len(),
        first_undecoded(decoded, from) < decoded.len() ==> decoded[first_undecoded(decoded, from)]
            is None,
        forall|i: int| from <= i < first_undecoded(decoded, from) ==> decoded[i] is Some,
    decreases decoded.len() - from,
{
    if from < decoded.len() && decoded[from] is Some {
        lemma_first_undecoded(decoded, from + 1);
    }
}

/// A log whose torn last line was cut off reads as the same chain, and nothing
/// is cut off again.
pub proof fn law_a_cut_log_reads_as_the_same_chain(
    log: Seq<u8>,
    decode: spec_fn(Seq<char>) -> Option<BodyModel>,
    chain: Seq<PersistedModel>,
    at: int,
)
    requires
        readable_from(log, 0),
        chain_of(
            receipt_lines_from(log, 0),
            decoded_by(receipt_lines_from(log, 0), decode),
        ) == Ok::<ReadModel, ReceiptChainError>(ReadModel { receipts: chain, torn_at: Some(at) }),
    ensures
        0 <= at < log.len(),
        at == 0 || log[at - 1] == LINE_FEED,
        readable_from(log.take(at), 0),
        chain_of(
            receipt_lines_from(log.take(at), 0),
            decoded_by(receipt_lines_from(log.take(at), 0), decode),
        ) == Ok::<ReadModel, ReceiptChainError>(ReadModel { receipts: chain, torn_at: None }),
{
    let lines = receipt_lines_from(log, 0);
    let decoded = decoded_by(lines, decode);
    let stop = first_undecoded(decoded, 0);
    lemma_first_undecoded(decoded, 0);
    lemma_line_stands(log, 0, stop);
    lemma_cut_lines(log, at, 0);
    let kept = receipt_lines_from(log.take(at), 0);
    let again = decoded_by(kept, decode);
    assert(lines == kept + seq![lines[stop]]);
    if stop < kept.len() {
        lemma_line_stands(log.take(at), 0, stop);
        assert(lines[stop] == kept[stop]);
    }
    assert(stop == kept.len());
    lemma_first_undecoded(again, 0);
    assert forall|i: int| 0 <= i < again.len() implies again[i] is Some by {
        assert(again[i] == decoded[i]);
    }
    assert(first_undecoded(again, 0) == again.len());
    assert(receipts_of(kept, again, stop) =~= receipts_of(lines, decoded, stop));
}

} // verus!
