use geoproof::mock::generate_mock;
use geoproof::outline::{parse_outline, serialize_outline, ProofOutline, ProofStep};

#[test]
fn mock_triangle_fixture() {
    let o = generate_mock("三角形");
    assert_eq!(o.title, "三角形全等证明示例");
    assert_eq!(
        o.description,
        "已知：在△ABC和△DEF中，AB=DE，∠A=∠D，AC=DF。证明：△ABC≅△DEF。"
    );
    assert_eq!(o.steps.len(), 4);
    assert_eq!(o.steps[0].because, "AB = DE");
    assert_eq!(o.steps[0].therefore, "对应边相等");
    assert_eq!(o.steps[3].because, "两边及其夹角对应相等");
    assert_eq!(o.steps[3].therefore, "△ABC ≅ △DEF (SAS全等)");
}

#[test]
fn mock_quadrilateral_fixture() {
    let o = generate_mock("四边形");
    assert_eq!(o.title, "平行四边形性质证明");
    assert_eq!(o.steps.len(), 3);
    assert_eq!(o.steps[2].because, "一组对边平行且相等");
    assert_eq!(o.steps[2].therefore, "四边形ABCD是平行四边形");
}

#[test]
fn mock_circle_fixture() {
    let o = generate_mock("圆");
    assert_eq!(o.title, "圆周角定理");
    assert_eq!(o.steps.len(), 4);
    assert_eq!(o.steps[3].therefore, "∠ACB = 1/2∠AOB");
}

#[test]
fn mock_unknown_topic_embeds_it_and_has_three_steps() {
    let o = generate_mock("梯形");
    assert_eq!(o.title, "几何证明示例");
    assert!(o.description.contains("梯形"));
    assert_eq!(o.steps.len(), 3);
}

#[test]
fn mock_empty_topic_is_generic() {
    let o = generate_mock("");
    assert_eq!(o.title, "几何证明示例");
    assert_eq!(o.steps.len(), 3);
    assert_eq!(
        o.description,
        "这是一个关于的证明示例。请按照'因为→所以'的格式填写证明步骤。"
    );
}

#[test]
fn mock_unicode_topic_is_generic() {
    let o = generate_mock("émoji ☃");
    assert!(o.description.contains("émoji ☃"));
    assert_eq!(o.steps.len(), 3);
}

#[test]
fn serialize_mock_is_json_and_parses_back() {
    let o = generate_mock("三角形");
    let text = serialize_outline(&o);
    assert!(geoproof::json::is_json_text(&text));
    let p = parse_outline(&text).expect("round trip");
    assert_eq!(p.title, o.title);
    assert_eq!(p.description, o.description);
    assert_eq!(p.steps.len(), o.steps.len());
    for i in 0..p.steps.len() {
        assert_eq!(p.steps[i].because, o.steps[i].because);
        assert_eq!(p.steps[i].therefore, o.steps[i].therefore);
    }
}

#[test]
fn round_trip_with_escapes() {
    let o = ProofOutline {
        title: String::from("a \"quoted\" title"),
        description: String::from("line1\nline2\tand \\ backslash\u{1}"),
        steps: vec![
            ProofStep {
                because: String::from("因为 \"x\""),
                therefore: String::from("所以\r\n"),
            },
            ProofStep { because: String::from(""), therefore: String::from("done") },
        ],
    };
    let text = serialize_outline(&o);
    assert!(geoproof::json::is_json_text(&text));
    let p = parse_outline(&text).expect("round trip");
    assert_eq!(p.title, o.title);
    assert_eq!(p.description, o.description);
    assert_eq!(p.steps.len(), 2);
    assert_eq!(p.steps[0].because, o.steps[0].because);
    assert_eq!(p.steps[0].therefore, o.steps[0].therefore);
    assert_eq!(p.steps[1].because, "");
    assert_eq!(p.steps[1].therefore, "done");
}

#[test]
fn round_trip_empty_steps() {
    let o = ProofOutline {
        title: String::from("t"),
        description: String::from("d"),
        steps: vec![],
    };
    let text = serialize_outline(&o);
    assert_eq!(text, "{\"title\":\"t\",\"description\":\"d\",\"steps\":[]}");
    let p = parse_outline(&text).expect("round trip");
    assert_eq!(p.title, "t");
    assert_eq!(p.steps.len(), 0);
}

#[test]
fn parse_outline_rejects_other_shapes() {
    assert!(parse_outline("{}").is_none());
    assert!(parse_outline("").is_none());
    assert!(parse_outline("{\"title\":\"t\"}").is_none());
    assert!(parse_outline("{\"title\":\"t\",\"description\":\"d\",\"steps\":[]} ").is_none());
}
