//! Authorization: what is asked of the token verifier and of the policy, and
//! what their answers mean for a turn, a tool and a control operation.
use crate::chat::ChatMessage;
use crate::classify::Capability;
use crate::cost::CostTuple;
use crate::encoding;
use crate::encoding::text_of_uuid;
use crate::errors::{cap_token_error, CapTokenError, RuntimeError};
use crate::ids::{SessionId, TokenId};
use crate::text;
use vstd::hash_map::StringHashMap;
use vstd::prelude::*;
use vstd::string::StringExecFns;

verus! {

/// What a verified token proves.
#[derive(Debug)]
pub struct VerifiedClaims {
    pub subject: String,
    pub token_id: TokenId,
    pub audience: String,
    pub tool_allowlist: Vec<String>,
    pub expires_unix: u64,
    pub budget_remaining: u64,
}

/// What one request overrides.
#[derive(Debug)]
pub struct PerRequestProvisioning {
    /// Budget that is added to the holder's balance before admission.
    pub budget: Option<CostTuple>,
    /// The audience that the token is verified against.
    pub audience: Option<String>,
    /// The holder that the turn spends against.
    pub subject: Option<String>,
}

impl Default for PerRequestProvisioning {
    fn default() -> (r: Self)
        ensures
            r.budget is None,
            r.audience is None,
            r.subject is None,
    {
        PerRequestProvisioning { budget: None, audience: None, subject: None }
    }
}

/// What a token has to grant.
#[derive(Debug)]
pub struct RequiredCaveats {
    pub now_unix: u64,
    pub audience: String,
    pub tool: String,
    pub cost: u64,
}

/// At which cost a control operation's token is verified.
#[derive(Clone, Copy, Debug, PartialEq, Eq, Structural)]
pub enum ControlVerifyCost {
    /// An approval decision, which was admitted at no cost.
    ApprovalDecision,
    /// Every other control operation.
    RuntimeDefault,
}

impl ControlVerifyCost {
    /// The cost at which the token is verified.
    pub fn units(&self, cost_units: u64) -> (r: u64)
        ensures
            r == (match *self {
                ControlVerifyCost::ApprovalDecision => 0,
                ControlVerifyCost::RuntimeDefault => cost_units,
            }),
            *self is ApprovalDecision ==> r == 0,
            !(*self is ApprovalDecision) ==> r == cost_units,
    {
        match self {
            ControlVerifyCost::ApprovalDecision => 0,
            ControlVerifyCost::RuntimeDefault => cost_units,
        }
    }
}

/// What the token of a request has to grant: the request's audience, or the
/// runtime's where the request names none.
pub fn required_caveats(
    provisioning: &PerRequestProvisioning,
    audience: &str,
    tool: &str,
    now_ms: u64,
    cost_units: u64,
) -> (r: RequiredCaveats)
    ensures
        r.now_unix == now_ms / 1000,
        r.audience@ == (match provisioning.audience {
            Some(named) => named@,
            None => audience@,
        }),
        r.tool@ == tool@,
        r.cost == cost_units,
{
    RequiredCaveats {
        now_unix: now_ms / 1000,
        audience: match &provisioning.audience {
            Some(named) => named.clone(),
            None => String::from_str(audience),
        },
        tool: String::from_str(tool),
        cost: cost_units,
    }
}

/// A token that does not verify: why, and the verifier's own text.
#[derive(Debug)]
pub struct TokenFault {
    pub error: CapTokenError,
    pub rendered: String,
}

/// What the verifier's answer means: a request without a token is refused
/// before the verifier is asked.
pub open spec fn token_verdict(
    token: Seq<char>,
    answer: Result<VerifiedClaims, TokenFault>,
    r: Result<VerifiedClaims, RuntimeError>,
) -> bool {
    if token.len() == 0 {
        r == Err::<VerifiedClaims, RuntimeError>(RuntimeError::CapTokenMissing)
    } else {
        match answer {
            Ok(claims) => r == Ok::<VerifiedClaims, RuntimeError>(claims),
            Err(fault) => r == Err::<VerifiedClaims, RuntimeError>(
                match fault.error {
                    CapTokenError::Expired => RuntimeError::CapTokenExpired,
                    _ => RuntimeError::CapDenied {
                        cause: Some(fault.error),
                        reason: fault.rendered,
                    },
                },
            ),
        }
    }
}

/// Applies the verifier's answer to a request's token.
pub fn stage_cap_token(token: &str, answer: Result<VerifiedClaims, TokenFault>) -> (r: Result<
    VerifiedClaims,
    RuntimeError,
>)
    ensures
        token_verdict(token@, answer, r),
        r is Ok <==> token@.len() > 0 && answer is Ok,
        r matches Ok(claims) ==> answer == Ok::<VerifiedClaims, TokenFault>(claims),
        token@.len() == 0 ==> r matches Err(RuntimeError::CapTokenMissing),
        token@.len() > 0 && answer is Err ==> {
            let fault = answer->Err_0;
            if fault.error == CapTokenError::Expired {
                r matches Err(RuntimeError::CapTokenExpired)
            } else {
                r matches Err(RuntimeError::CapDenied { cause, reason }) && cause == Some(
                    fault.error,
                ) && reason == fault.rendered
            }
        },
{
    if token.as_bytes().len() == 0 {
        proof {
            if token@.len() > 0 {
                vstd::utf8::encode_utf8_first_scalar(token@);
            }
        }
        return Err(RuntimeError::CapTokenMissing);
    }
    match answer {
        Ok(claims) => Ok(claims),
        Err(fault) => Err(cap_token_error(fault.error, fault.rendered)),
    }
}

/// The principal that a policy sees: the verified subject, never one that the
/// caller names.
pub fn derive_principal(entity_type: &str, claims: &VerifiedClaims) -> (r: String)
    ensures
        r@ == entity_type@ + "::\""@ + claims.subject@ + "\""@,
{
    let mut principal: String = String::from_str(entity_type);
    principal.append("::\"");
    principal.append(claims.subject.as_str());
    principal.append("\"");
    principal
}

/// The resource that a policy sees: the session of the request.
pub fn derive_resource(session: SessionId) -> (r: String)
    ensures
        r@ == "Session::\""@ + encoding::uuid_text(session.0) + "\""@,
{
    let mut resource: String = String::from_str("Session::\"");
    resource.append(text_of_uuid(session.0).as_str());
    resource.append("\"");
    resource
}

/// The value of an attribute that a policy sees.
#[derive(Debug)]
pub enum Attribute {
    Text(String),
    Texts(Vec<String>),
    Number(u64),
    /// Any other value, as JSON.
    Json(String),
}

/// An attribute over mathematical values.
#[verifier::ext_equal]
pub ghost enum AttributeModel {
    Text(Seq<char>),
    Texts(Seq<Seq<char>>),
    Number(u64),
    Json(Seq<char>),
}

impl View for Attribute {
    type V = AttributeModel;

    open spec fn view(&self) -> AttributeModel {
        match *self {
            Attribute::Text(value) => AttributeModel::Text(value@),
            Attribute::Texts(values) => AttributeModel::Texts(text::text_views(values@)),
            Attribute::Number(value) => AttributeModel::Number(value),
            Attribute::Json(value) => AttributeModel::Json(value@),
        }
    }
}

/// Attributes as models.
pub open spec fn attribute_views(attributes: Map<Seq<char>, Attribute>) -> Map<
    Seq<char>,
    AttributeModel,
> {
    attributes.map_values(|value: Attribute| value@)
}

/// The attributes that a policy sees: what the runtime was built with, with
/// the verified facts over it.
pub open spec fn claim_attributes(
    base: Map<Seq<char>, AttributeModel>,
    claims: VerifiedClaims,
) -> Map<Seq<char>, AttributeModel> {
    base.insert("subject"@, AttributeModel::Text(claims.subject@)).insert(
        "audience"@,
        AttributeModel::Text(claims.audience@),
    ).insert("tools"@, AttributeModel::Texts(text::text_views(claims.tool_allowlist@))).insert(
        "expires_unix"@,
        AttributeModel::Number(claims.expires_unix),
    ).insert("budget_remaining"@, AttributeModel::Number(claims.budget_remaining))
}

fn clone_texts(texts: &Vec<String>) -> (r: Vec<String>)
    ensures
        text::text_views(r@) == text::text_views(texts@),
{
    let mut copy: Vec<String> = Vec::new();
    let mut i: usize = 0;
    while i < texts.len()
        invariant
            i <= texts@.len(),
            copy@.len() == i,
            forall|k: int| 0 <= k < i ==> (#[trigger] copy@[k])@ == texts@[k]@,
        decreases texts@.len() - i,
    {
        copy.push(texts[i].clone());
        i = i + 1;
    }
    assert(text::text_views(copy@) =~= text::text_views(texts@));
    copy
}

fn set_attribute(attributes: &mut StringHashMap<Attribute>, key: &str, value: Attribute)
    ensures
        attribute_views(final(attributes)@) == attribute_views(old(attributes)@).insert(
            key@,
            value@,
        ),
{
    let ghost before = attributes@;
    attributes.insert(String::from_str(key), value);
    assert(attribute_views(attributes@) =~= attribute_views(before).insert(key@, value@));
}

/// Puts the verified facts of a token over the attributes that the runtime was
/// built with.
pub fn cedar_attributes_from_claims(
    attributes: &mut StringHashMap<Attribute>,
    claims: &VerifiedClaims,
)
    ensures
        attribute_views(final(attributes)@) == claim_attributes(
            attribute_views(old(attributes)@),
            *claims,
        ),
{
    set_attribute(attributes, "subject", Attribute::Text(claims.subject.clone()));
    set_attribute(attributes, "audience", Attribute::Text(claims.audience.clone()));
    set_attribute(attributes, "tools", Attribute::Texts(clone_texts(&claims.tool_allowlist)));
    set_attribute(attributes, "expires_unix", Attribute::Number(claims.expires_unix));
    set_attribute(attributes, "budget_remaining", Attribute::Number(claims.budget_remaining));
}

/// A proven fact cannot be shadowed: whatever the runtime was built with, the
/// policy sees the subject, audience, tools, expiry and budget of the token.
pub proof fn law_proven_facts_are_not_shadowed(
    base: Map<Seq<char>, AttributeModel>,
    claims: VerifiedClaims,
)
    ensures
        ({
            let seen = claim_attributes(base, claims);
            &&& seen["subject"@] == AttributeModel::Text(claims.subject@)
            &&& seen["audience"@] == AttributeModel::Text(claims.audience@)
            &&& seen["tools"@] == AttributeModel::Texts(text::text_views(claims.tool_allowlist@))
            &&& seen["expires_unix"@] == AttributeModel::Number(claims.expires_unix)
            &&& seen["budget_remaining"@] == AttributeModel::Number(claims.budget_remaining)
            &&& forall|key: Seq<char>|
                key != "subject"@ && key != "audience"@ && key != "tools"@ && key
                    != "expires_unix"@ && key != "budget_remaining"@ && base.contains_key(key)
                    ==> #[trigger] seen.contains_key(key) && seen[key] == base[key]
        }),
{
    reveal_strlit("subject");
    reveal_strlit("audience");
    reveal_strlit("tools");
    reveal_strlit("expires_unix");
    reveal_strlit("budget_remaining");
    assert("subject"@.len() == 7 && "audience"@.len() == 8 && "tools"@.len() == 5
        && "expires_unix"@.len() == 12 && "budget_remaining"@.len() == 16);
}

/// The first capability that the token does not grant, among those from `from`
/// on.
pub open spec fn first_ungranted(granted: Seq<bool>, from: int) -> int
    decreases granted.len() - from,
{
    if from >= granted.len() || !granted[from] {
        from
    } else {
        first_ungranted(granted, from + 1)
    }
}

/// Checks the capabilities that a tool declares: `granted` says for each
/// whether the token verifies for it. The first one that is missing is named.
pub fn authorize_tool_capabilities(
    tool_name: &str,
    required: &Vec<Capability>,
    granted: &Vec<bool>,
) -> (r: Result<(), RuntimeError>)
    requires
        granted@.len() == required@.len(),
    ensures
        ({
            let missing = first_ungranted(granted@, 0);
            if missing == required@.len() {
                r is Ok
            } else {
                r matches Err(RuntimeError::CapDenied { cause: None, reason }) && reason@
                    == "tool `"@ + tool_name@ + "` requires capability `"@
                    + required@[missing].label@ + "` which is not granted by the cap-token"@
            }
        }),
        r is Ok <==> (forall|i: int| 0 <= i < granted@.len() ==> #[trigger] granted@[i]),
        r is Err ==> exists|i: int|
            {
                &&& 0 <= i < granted@.len()
                &&& !#[trigger] granted@[i]
                &&& forall|k: int| 0 <= k < i ==> #[trigger] granted@[k]
                &&& r matches Err(RuntimeError::CapDenied { cause: None, reason }) && reason@
                    == "tool `"@ + tool_name@ + "` requires capability `"@ + required@[i].label@
                    + "` which is not granted by the cap-token"@
            },
{
    let mut i: usize = 0;
    while i < required.len()
        invariant
            i <= required@.len() == granted@.len(),
            first_ungranted(granted@, 0) == first_ungranted(granted@, i as int),
            forall|k: int| 0 <= k < i ==> #[trigger] granted@[k],
        decreases required@.len() - i,
    {
        if !granted[i] {
            let mut reason: String = String::from_str("tool `");
            reason.append(tool_name);
            reason.append("` requires capability `");
            reason.append(required[i].label.as_str());
            reason.append("` which is not granted by the cap-token");
            return Err(RuntimeError::CapDenied { cause: None, reason });
        }
        i = i + 1;
    }
    Ok(())
}

/// What the two gates of a tool said.
#[derive(Clone, Copy, Debug, PartialEq, Eq, Structural)]
pub struct ToolGates {
    /// The token and the policy allow the tool by its name.
    pub invocable: bool,
    /// The token grants every capability that the tool declares.
    pub capable: bool,
}

/// The tools among the first `n` that both gates allow.
pub open spec fn advertised(gates: Seq<ToolGates>, n: int) -> Seq<usize>
    decreases n,
{
    if n <= 0 {
        Seq::empty()
    } else if gates[n - 1].invocable && gates[n - 1].capable {
        advertised(gates, n - 1).push((n - 1) as usize)
    } else {
        advertised(gates, n - 1)
    }
}

/// The tools that are advertised to the provider, by their position in the
/// registry: exactly those that both gates would let through.
pub fn tool_defs_for(gates: &Vec<ToolGates>) -> (r: Vec<usize>)
    ensures
        r@ == advertised(gates@, gates@.len() as int),
{
    let mut shown: Vec<usize> = Vec::new();
    let mut i: usize = 0;
    while i < gates.len()
        invariant
            i <= gates@.len(),
            shown@ == advertised(gates@, i as int),
        decreases gates@.len() - i,
    {
        if gates[i].invocable && gates[i].capable {
            shown.push(i);
        }
        i = i + 1;
    }
    shown
}

proof fn lemma_advertised(gates: Seq<ToolGates>, n: int, tool: usize)
    requires
        0 <= n <= gates.len() <= usize::MAX,
    ensures
        advertised(gates, n).contains(tool) <==> tool < n && gates[tool as int].invocable
            && gates[tool as int].capable,
    decreases n,
{
    if n > 0 {
        lemma_advertised(gates, n - 1, tool);
        let before = advertised(gates, n - 1);
        let after = advertised(gates, n);
        if gates[n - 1].invocable && gates[n - 1].capable {
            assert(after[before.len() as int] == (n - 1) as usize);
            if before.contains(tool) {
                let k = choose|k: int| 0 <= k < before.len() && before[k] == tool;
                assert(after[k] == tool);
            }
            if after.contains(tool) {
                let k = choose|k: int| 0 <= k < after.len() && after[k] == tool;
                if k < before.len() {
                    assert(before[k] == tool);
                }
            }
        }
    }
}

/// A tool that the turn may not call is not disclosed, and one that it may
/// call is.
pub proof fn law_disclosed_tools_are_the_permitted_ones(gates: Seq<ToolGates>, tool: usize)
    requires
        gates.len() <= usize::MAX,
    ensures
        advertised(gates, gates.len() as int).contains(tool) <==> tool < gates.len()
            && gates[tool as int].invocable && gates[tool as int].capable,
{
    lemma_advertised(gates, gates.len() as int, tool);
}

/// Tools are disclosed in the order of the registry, each once.
pub proof fn law_disclosed_tools_keep_the_order_of_the_registry(gates: Seq<ToolGates>)
    requires
        gates.len() <= usize::MAX,
    ensures
        forall|j: int, k: int|
            0 <= j < k < advertised(gates, gates.len() as int).len() ==> #[trigger] advertised(
                gates,
                gates.len() as int,
            )[j] < #[trigger] advertised(gates, gates.len() as int)[k],
{
    lemma_advertised_order(gates, gates.len() as int);
}

proof fn lemma_advertised_order(gates: Seq<ToolGates>, n: int)
    requires
        0 <= n <= gates.len() <= usize::MAX,
    ensures
        forall|j: int, k: int|
            0 <= j < k < advertised(gates, n).len() ==> #[trigger] advertised(gates, n)[j]
                < #[trigger] advertised(gates, n)[k],
        forall|k: int| 0 <= k < advertised(gates, n).len() ==> #[trigger] advertised(gates, n)[k] < n,
    decreases n,
{
    if n > 0 {
        lemma_advertised_order(gates, n - 1);
        let before = advertised(gates, n - 1);
        let after = advertised(gates, n);
        assert forall|k: int| 0 <= k < after.len() implies #[trigger] after[k] < n by {
            if k < before.len() {
                assert(after[k] == before[k]);
            }
        }
        assert forall|j: int, k: int| 0 <= j < k < after.len() implies #[trigger] after[j]
            < #[trigger] after[k] by {
            assert(after[j] == before[j]);
            if k < before.len() {
                assert(after[k] == before[k]);
            }
        }
    }
}

/// What a policy sees is what the runtime was built with and the five verified
/// facts, and nothing else.
pub proof fn law_a_policy_sees_nothing_else(
    base: Map<Seq<char>, AttributeModel>,
    claims: VerifiedClaims,
    key: Seq<char>,
)
    ensures
        claim_attributes(base, claims).contains_key(key) <==> base.contains_key(key) || key
            == "subject"@ || key == "audience"@ || key == "tools"@ || key == "expires_unix"@ || key
            == "budget_remaining"@,
{
}

/// The holder that a turn spends against: the verified subject, unless the
/// request names another one.
pub fn budget_holder(provisioning: &PerRequestProvisioning, claims: &VerifiedClaims) -> (r: String)
    ensures
        r@ == (match provisioning.subject {
            Some(subject) => subject@,
            None => claims.subject@,
        }),
{
    match &provisioning.subject {
        Some(subject) => subject.clone(),
        None => claims.subject.clone(),
    }
}

/// What a top-up that was refused means.
pub fn provisioning_failed(holder: String, reason: String) -> (r: RuntimeError)
    ensures
        r == (RuntimeError::ProvisioningFailed { subject: holder, reason }),
{
    RuntimeError::ProvisioningFailed { subject: holder, reason }
}

/// What the pre-submit hooks decided.
#[derive(Debug)]
pub enum PreSubmitOutcome {
    Continue,
    Replaced(Vec<ChatMessage>),
    Vetoed { hook_id: String, reason: String },
}

/// The transcript that a turn starts from, or the veto.
pub fn stage_pre_submit(base: Vec<ChatMessage>, outcome: PreSubmitOutcome) -> (r: Result<
    Vec<ChatMessage>,
    RuntimeError,
>)
    ensures
        r == (match outcome {
            PreSubmitOutcome::Continue => Ok::<Vec<ChatMessage>, RuntimeError>(base),
            PreSubmitOutcome::Replaced(messages) => Ok(messages),
            PreSubmitOutcome::Vetoed { hook_id, reason } => Err(
                RuntimeError::VetoedByHook { hook_id, reason },
            ),
        }),
        r is Err <==> outcome is Vetoed,
        outcome is Continue ==> r->Ok_0 == base,
        outcome matches PreSubmitOutcome::Replaced(messages) ==> r->Ok_0 == messages,
{
    match outcome {
        PreSubmitOutcome::Continue => Ok(base),
        PreSubmitOutcome::Replaced(messages) => Ok(messages),
        PreSubmitOutcome::Vetoed { hook_id, reason } => Err(
            RuntimeError::VetoedByHook { hook_id, reason },
        ),
    }
}

/// What happens about a memory write once its own token check failed.
#[derive(Clone, Copy, Debug, PartialEq, Eq, Structural)]
pub enum MemoryWriteDenial {
    /// The token does not grant memory writes: nothing is reported.
    Silent,
    /// The error hooks fire.
    Reported,
}

/// Whether a refused memory write is reported: a token that was never meant to
/// write is not an error.
pub fn memory_write_denial(error: CapTokenError) -> (r: MemoryWriteDenial)
    ensures
        r == (if error == CapTokenError::ToolNotAllowed {
            MemoryWriteDenial::Silent
        } else {
            MemoryWriteDenial::Reported
        }),
        r is Silent <==> error is ToolNotAllowed,
{
    match error {
        CapTokenError::ToolNotAllowed => MemoryWriteDenial::Silent,
        _ => MemoryWriteDenial::Reported,
    }
}

} // verus!
