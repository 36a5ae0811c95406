use geoproof::gen::{
    build_prompt, build_request_body, complete_generation, handle_ai_response, plan_generation,
    resolve_credential, GenerationError, GenerationPlan, UpstreamOutcome,
};
use geoproof::mock::generate_mock;
use geoproof::outline::parse_outline;

#[test]
fn credential_supplied_wins() {
    assert_eq!(resolve_credential("Y", ""), "Y");
    assert_eq!(resolve_credential("Y", "X"), "Y");
}

#[test]
fn credential_falls_back_to_environment_value() {
    assert_eq!(resolve_credential("", "X"), "X");
    assert_eq!(resolve_credential("", ""), "");
}

#[test]
fn empty_credential_plans_offline_mock() {
    let plan = plan_generation("三角形", "简单", "", "");
    match plan {
        GenerationPlan::Offline { payload } => {
            let o = parse_outline(&payload).expect("offline payload parses");
            let m = generate_mock("三角形");
            assert_eq!(o.title, m.title);
            assert_eq!(o.description, m.description);
            assert_eq!(o.steps.len(), m.steps.len());
        },
        GenerationPlan::CallUpstream { .. } => panic!("offline path expected"),
    }
}

#[test]
fn supplied_credential_plans_upstream_call() {
    let plan = plan_generation("圆", "难", "sk-test", "");
    match plan {
        GenerationPlan::Offline { .. } => panic!("online path expected"),
        GenerationPlan::CallUpstream { credential, request_body } => {
            assert_eq!(credential, "sk-test");
            assert!(geoproof::json::is_json_text(&request_body));
            assert!(request_body.starts_with("{\"model\":\"deepseek-chat\""));
            assert!(request_body.ends_with("\"temperature\":0.7,\"max_tokens\":1000}"));
        },
    }
}

#[test]
fn prompt_embeds_topic_and_difficulty() {
    let p = build_prompt("圆", "较难");
    assert!(p.starts_with("你是一个几何老师，需要为初中生生成一个关于圆的几何证明思路。难度级别：较难。"));
    assert!(p.contains("步骤数量：3-5个"));
    assert!(p.contains("示例格式"));
}

#[test]
fn request_body_escapes_the_prompt() {
    let body = build_request_body("say \"hi\"\n");
    assert_eq!(
        body,
        "{\"model\":\"deepseek-chat\",\"messages\":[{\"role\":\"user\",\"content\":\"say \\\"hi\\\"\\n\"}],\"temperature\":0.7,\"max_tokens\":1000}"
    );
    assert!(geoproof::json::is_json_text(&body));
}

#[test]
fn upstream_500_fails_with_the_code() {
    let outcome = UpstreamOutcome::Response { status: 500, body: String::from("oops") };
    let r = complete_generation("三角形", outcome);
    let e = r.expect_err("status error expected");
    assert!(e.contains("500"));
    assert_eq!(e, "API请求失败: 500");
}

#[test]
fn upstream_404_is_a_status_error() {
    let r = handle_ai_response("圆", 404, "{}");
    assert!(matches!(r, Err(GenerationError::UpstreamStatus(404))));
}

#[test]
fn transport_failure_surfaces_verbatim() {
    let outcome = UpstreamOutcome::Transport(String::from("connection refused"));
    let r = complete_generation("圆", outcome);
    assert_eq!(r.expect_err("transport error expected"), "connection refused");
}

#[test]
fn malformed_envelope_is_an_error() {
    for body in ["{}", "not json at all", "{\"choices\":[]}",
        "{\"choices\":[{\"message\":{}}]}",
        "{\"choices\":[{\"message\":{\"content\":42}}]}"] {
        let outcome = UpstreamOutcome::Response { status: 200, body: String::from(body) };
        let r = complete_generation("三角形", outcome);
        assert_eq!(r.expect_err("malformed envelope expected"), "API响应格式错误");
    }
}

#[test]
fn non_json_content_is_wrapped_not_failed() {
    let body = "{\"choices\":[{\"message\":{\"content\":\"not json\"}}]}";
    let outcome = UpstreamOutcome::Response { status: 200, body: String::from(body) };
    let payload = complete_generation("三角形", outcome).expect("wrapped success expected");
    let o = parse_outline(&payload).expect("wrapped payload parses");
    assert!(o.title.contains("三角形"));
    assert_eq!(o.title, "关于三角形的证明");
    assert_eq!(o.description, "not json");
    assert_eq!(o.steps.len(), 1);
    assert_eq!(o.steps[0].because, "请根据AI生成的思路");
    assert_eq!(o.steps[0].therefore, "填写具体的证明步骤");
}

#[test]
fn valid_json_content_passes_through_verbatim() {
    let content =
        "{\"title\":\"T\",\"description\":\"D\",\"steps\":[{\"because\":\"B\",\"therefore\":\"C\"}]}";
    let body = String::from(
        "{\"choices\":[{\"message\":{\"content\":\"{\\\"title\\\":\\\"T\\\",\\\"description\\\":\\\"D\\\",\\\"steps\\\":[{\\\"because\\\":\\\"B\\\",\\\"therefore\\\":\\\"C\\\"}]}\"}}]}",
    );
    let outcome = UpstreamOutcome::Response { status: 200, body };
    let payload = complete_generation("三角形", outcome).expect("pass-through expected");
    assert_eq!(payload, content);
    let o = parse_outline(&payload).expect("payload parses");
    assert_eq!(o.title, "T");
    assert_eq!(o.description, "D");
    assert_eq!(o.steps.len(), 1);
    assert_eq!(o.steps[0].because, "B");
    assert_eq!(o.steps[0].therefore, "C");
}

#[test]
fn content_with_surrogate_pair_escapes_passes_through() {
    let body = "{\"choices\":[{\"message\":{\"content\":\"\\\"\\\\ud83d\\\\ude00\\\"\"}}]}";
    let outcome = UpstreamOutcome::Response { status: 200, body: String::from(body) };
    let payload = complete_generation("圆", outcome).expect("pass-through expected");
    assert_eq!(payload, "\"\\ud83d\\ude00\"");
}

#[test]
fn non_outline_json_content_also_passes_through() {
    let body = "{\"choices\":[{\"message\":{\"content\":\"[1,2,3]\"}}]}";
    let outcome = UpstreamOutcome::Response { status: 200, body: String::from(body) };
    let payload = complete_generation("圆", outcome).expect("pass-through expected");
    assert_eq!(payload, "[1,2,3]");
}

#[test]
fn status_edges_of_the_success_range() {
    let ok = handle_ai_response("t", 299, "{\"choices\":[{\"message\":{\"content\":\"x\"}}]}");
    assert!(ok.is_ok());
    let low = handle_ai_response("t", 199, "{}");
    assert!(matches!(low, Err(GenerationError::UpstreamStatus(199))));
    let high = handle_ai_response("t", 300, "{}");
    assert!(matches!(high, Err(GenerationError::UpstreamStatus(300))));
}
