use vstd::prelude::*;
use crate::envelope::spec_envelope_content;
use crate::envelope::envelope_content;
use crate::json::{escape_seq, json_accepts, is_json_text};
use crate::mock::{generate_mock, spec_mock_outline};
use crate::outline::{
    OutlineView, ProofOutline, ProofStep, StepView, ser_outline, serialize_outline,
    sp_parse_outline, lemma_parse_serialize_outline, steps_view,
};
use crate::strutil::{chars_to_string, push_str_chars, spec_decimal, u16_chars};

verus! {

// ---------------------------------------------------------------------------
// Credential resolution
// ---------------------------------------------------------------------------
/// Chooses the credential one generation call will use: a non-empty supplied
/// key wins; otherwise the process-wide default (possibly empty) is used.
pub open spec fn spec_resolve_credential(supplied: Seq<char>, fallback: Seq<char>) -> Seq<char> {
    if supplied.len() > 0 {
        supplied
    } else {
        fallback
    }
}

/// Resolves the credential for one generation call. An empty result is a
/// valid state: it routes the caller to the offline mock path.
pub fn resolve_credential(supplied: &str, fallback: &str) -> (r: String)
    ensures
        r@ == spec_resolve_credential(supplied@, fallback@),
{
    if supplied.unicode_len() > 0 {
        String::from_str(supplied)
    } else {
        String::from_str(fallback)
    }
}

// ---------------------------------------------------------------------------
// Request construction
// ---------------------------------------------------------------------------
/// The instruction handed to the chat API, embedding topic and difficulty.
pub open spec fn spec_prompt(topic: Seq<char>, difficulty: Seq<char>) -> Seq<char> {
    "你是一个几何老师，需要为初中生生成一个关于"@ + topic + "的几何证明思路。难度级别："@
        + difficulty
        + "。\n        \n        请返回一个JSON对象，包含以下字段：\n        1. title: 证明标题\n        2. description: 证明描述（已知条件和要证明的结论）\n        3. steps: 证明步骤数组，每个步骤包含：\n           - because: '因为'部分（已知条件或上一步结论）\n           - therefore: '所以'部分（推导出的结论）\n        \n        要求：\n        1. 步骤数量：3-5个\n        2. 使用中文\n        3. 包含几何符号如∠、△、≅、⊥、∥等\n        4. 适合初中生理解\n        \n        示例格式：\n        {\n          \"title\": \"三角形全等证明\",\n          \"description\": \"已知：AB=DE, ∠A=∠D, AC=DF。证明：△ABC≅△DEF。\",\n          \"steps\": [\n            {\"because\": \"AB = DE\", \"therefore\": \"对应边相等\"},\n            {\"because\": \"∠A = ∠D\", \"therefore\": \"对应角相等\"}\n          ]\n        }"@
}

/// Builds the natural-language prompt for the chat API.
pub fn build_prompt(topic: &str, difficulty: &str) -> (r: String)
    ensures
        r@ == spec_prompt(topic@, difficulty@),
{
    let mut out = String::from_str("你是一个几何老师，需要为初中生生成一个关于");
    out.append(topic);
    out.append("的几何证明思路。难度级别：");
    out.append(difficulty);
    out.append(
        "。\n        \n        请返回一个JSON对象，包含以下字段：\n        1. title: 证明标题\n        2. description: 证明描述（已知条件和要证明的结论）\n        3. steps: 证明步骤数组，每个步骤包含：\n           - because: '因为'部分（已知条件或上一步结论）\n           - therefore: '所以'部分（推导出的结论）\n        \n        要求：\n        1. 步骤数量：3-5个\n        2. 使用中文\n        3. 包含几何符号如∠、△、≅、⊥、∥等\n        4. 适合初中生理解\n        \n        示例格式：\n        {\n          \"title\": \"三角形全等证明\",\n          \"description\": \"已知：AB=DE, ∠A=∠D, AC=DF。证明：△ABC≅△DEF。\",\n          \"steps\": [\n            {\"because\": \"AB = DE\", \"therefore\": \"对应边相等\"},\n            {\"because\": \"∠A = ∠D\", \"therefore\": \"对应角相等\"}\n          ]\n        }",
    );
    out
}

/// The chat-completion request envelope: a fixed model identifier, one
/// user-role message holding the prompt, and fixed temperature and output
/// budget.
pub open spec fn spec_request_body(prompt: Seq<char>) -> Seq<char> {
    "{\"model\":\"deepseek-chat\",\"messages\":[{\"role\":\"user\",\"content\":\""@ + escape_seq(
        prompt,
    ) + "\"}],\"temperature\":0.7,\"max_tokens\":1000}"@
}

/// Serialises the request envelope around the given prompt.
pub fn build_request_body(prompt: &str) -> (r: String)
    ensures
        r@ == spec_request_body(prompt@),
{
    let mut out: Vec<char> = Vec::new();
    push_str_chars(
        &mut out,
        "{\"model\":\"deepseek-chat\",\"messages\":[{\"role\":\"user\",\"content\":\"",
    );
    crate::outline::push_escaped(&mut out, prompt);
    push_str_chars(&mut out, "\"}],\"temperature\":0.7,\"max_tokens\":1000}");
    chars_to_string(&out)
}

/// The fixed endpoint of the external chat API.
pub fn api_endpoint() -> (r: &'static str)
    ensures
        r@ == "https://api.deepseek.com/v1/chat/completions"@,
{
    "https://api.deepseek.com/v1/chat/completions"
}

// ---------------------------------------------------------------------------
// Error taxonomy: tagged internally, rendered to one string only at the
// boundary that hands results to the GUI.
// ---------------------------------------------------------------------------
pub enum GenerationError {
    Transport(String),
    UpstreamStatus(u16),
    MalformedEnvelope,
}

pub open spec fn spec_error_message(e: &GenerationError) -> Seq<char> {
    match e {
        GenerationError::Transport(m) => m@,
        GenerationError::UpstreamStatus(code) => "API请求失败: "@ + spec_decimal(*code as nat),
        GenerationError::MalformedEnvelope => "API响应格式错误"@,
    }
}

impl GenerationError {
    /// The human-readable form handed across the GUI boundary.
    pub fn message(&self) -> (r: String)
        ensures
            r@ == spec_error_message(self),
    {
        match self {
            GenerationError::Transport(m) => m.clone(),
            GenerationError::UpstreamStatus(code) => {
                let digits = u16_chars(*code);
                let tail = chars_to_string(&digits);
                let mut out = String::from_str("API请求失败: ");
                out.append(tail.as_str());
                out
            },
            GenerationError::MalformedEnvelope => String::from_str("API响应格式错误"),
        }
    }
}

// ---------------------------------------------------------------------------
// Response handling
// ---------------------------------------------------------------------------
/// The outline wrapped around inner content that was not JSON: the content
/// itself becomes the description, under a title embedding the topic, with
/// exactly one placeholder step.
pub open spec fn spec_wrapped_outline(topic: Seq<char>, content: Seq<char>) -> OutlineView {
    OutlineView {
        title: "关于"@ + topic + "的证明"@,
        description: content,
        steps: seq![
            StepView { because: "请根据AI生成的思路"@, therefore: "填写具体的证明步骤"@ },
        ],
    }
}

fn wrapped_outline(topic: &str, content: &str) -> (r: ProofOutline)
    ensures
        r@ == spec_wrapped_outline(topic@, content@),
{
    let mut title = String::from_str("关于");
    title.append(topic);
    title.append("的证明");
    let mut steps: Vec<ProofStep> = Vec::new();
    steps.push(
        ProofStep {
            because: String::from_str("请根据AI生成的思路"),
            therefore: String::from_str("填写具体的证明步骤"),
        },
    );
    let r = ProofOutline { title, description: String::from_str(content), steps };
    assert(steps_view(r.steps@) =~~= spec_wrapped_outline(topic@, content@).steps);
    assert(r@ =~~= spec_wrapped_outline(topic@, content@));
    r
}

/// What one upstream exchange came to: either the transport failed, or a
/// response with a status code and a body text arrived.
pub enum UpstreamOutcome {
    Transport(String),
    Response { status: u16, body: String },
}

/// What the generation call yields for a given topic and upstream outcome:
/// transport failures and non-success statuses surface as errors; a
/// malformed envelope surfaces as an error; present-but-unstructured inner
/// content degrades into a wrapped document rather than failing.
pub open spec fn spec_generation_result(topic: Seq<char>, outcome: &UpstreamOutcome) -> Result<
    Seq<char>,
    Seq<char>,
> {
    match outcome {
        UpstreamOutcome::Transport(m) => Err(m@),
        UpstreamOutcome::Response { status, body } => {
            if !(200 <= *status < 300) {
                Err("API请求失败: "@ + spec_decimal(*status as nat))
            } else {
                match spec_envelope_content(body@) {
                    None => Err("API响应格式错误"@),
                    Some(content) => if json_accepts(content) {
                        Ok(content)
                    } else {
                        Ok(ser_outline(spec_wrapped_outline(topic, content)))
                    },
                }
            }
        },
    }
}

/// Handles a response that arrived from the upstream API: checks the status,
/// extracts the inner content, and passes valid JSON content through
/// verbatim while wrapping anything else.
pub fn handle_ai_response(topic: &str, status: u16, body: &str) -> (r: Result<
    String,
    GenerationError,
>)
    ensures
        !(200 <= status < 300) ==> r == Err::<String, GenerationError>(
            GenerationError::UpstreamStatus(status),
        ),
        (200 <= status < 300) ==> match spec_envelope_content(body@) {
            None => r == Err::<String, GenerationError>(GenerationError::MalformedEnvelope),
            Some(content) => r matches Ok(p) && p@ == (if json_accepts(content) {
                content
            } else {
                ser_outline(spec_wrapped_outline(topic@, content))
            }),
        },
{
    if !(200 <= status && status < 300) {
        return Err(GenerationError::UpstreamStatus(status));
    }
    match envelope_content(body) {
        None => Err(GenerationError::MalformedEnvelope),
        Some(content) => {
            if is_json_text(content.as_str()) {
                Ok(content)
            } else {
                let outline = wrapped_outline(topic, content.as_str());
                Ok(serialize_outline(&outline))
            }
        },
    }
}

pub open spec fn result_view(r: &Result<String, String>) -> Result<Seq<char>, Seq<char>> {
    match r {
        Ok(s) => Ok(s@),
        Err(e) => Err(e@),
    }
}

/// Finishes a generation call on the online path, given what the upstream
/// exchange came to; errors are rendered to their boundary strings here.
pub fn complete_generation(topic: &str, outcome: UpstreamOutcome) -> (r: Result<String, String>)
    ensures
        result_view(&r) == spec_generation_result(topic@, &outcome),
{
    match outcome {
        UpstreamOutcome::Transport(m) => Err(m),
        UpstreamOutcome::Response { status, body } => {
            match handle_ai_response(topic, status, body.as_str()) {
                Ok(p) => Ok(p),
                Err(e) => Err(e.message()),
            }
        },
    }
}

// ---------------------------------------------------------------------------
// Orchestration up to the one suspension point
// ---------------------------------------------------------------------------
/// What a generation call does before any network is touched: either the
/// finished offline payload, or the credential and request body for the one
/// upstream call.
pub enum GenerationPlan {
    Offline { payload: String },
    CallUpstream { credential: String, request_body: String },
}

/// Decides between the offline mock path and the online path. With an empty
/// resolved credential the payload is complete here and no network is ever
/// touched; otherwise the plan carries everything the single upstream
/// request needs.
pub fn plan_generation(topic: &str, difficulty: &str, supplied_key: &str, fallback_key: &str) -> (r:
    GenerationPlan)
    ensures
        ({
            let resolved = spec_resolve_credential(supplied_key@, fallback_key@);
            &&& resolved.len() == 0 ==> (r matches GenerationPlan::Offline { payload }
                && payload@ == ser_outline(spec_mock_outline(topic@)))
            &&& resolved.len() > 0 ==> (r matches GenerationPlan::CallUpstream {
                credential,
                request_body,
            } && credential@ == resolved && request_body@ == spec_request_body(
                spec_prompt(topic@, difficulty@),
            ))
        }),
{
    let resolved = resolve_credential(supplied_key, fallback_key);
    if resolved.as_str().unicode_len() == 0 {
        let mock = generate_mock(topic);
        GenerationPlan::Offline { payload: serialize_outline(&mock) }
    } else {
        let prompt = build_prompt(topic, difficulty);
        let request_body = build_request_body(prompt.as_str());
        GenerationPlan::CallUpstream { credential: resolved, request_body }
    }
}

/// The offline payload always reads back as the mock outline it was written
/// from: the round-trip law applied to the offline path.
pub proof fn lemma_offline_payload_parses(topic: Seq<char>)
    ensures
        sp_parse_outline(ser_outline(spec_mock_outline(topic))) == Some(spec_mock_outline(topic)),
{
    lemma_parse_serialize_outline(spec_mock_outline(topic));
}

/// The payload wrapped around unstructured inner content always reads back
/// as the wrapped outline: its title embeds the topic, its description is
/// the content itself, and it carries exactly one step.
pub proof fn lemma_wrapped_payload_parses(topic: Seq<char>, content: Seq<char>)
    ensures
        sp_parse_outline(ser_outline(spec_wrapped_outline(topic, content))) == Some(
            spec_wrapped_outline(topic, content),
        ),
        spec_wrapped_outline(topic, content).steps.len() == 1,
{
    lemma_parse_serialize_outline(spec_wrapped_outline(topic, content));
}

} // verus!
