use vstd::prelude::*;
use crate::outline::{OutlineView, ProofOutline, ProofStep, StepView, steps_view};
use crate::strutil::str_eq;

verus! {

// ---------------------------------------------------------------------------
// The offline path: a fixed outline for each recognised topic label, and a
// generic template for everything else. Total and free of I/O.
// ---------------------------------------------------------------------------
pub open spec fn mock_triangle() -> OutlineView {
    OutlineView {
        title: "三角形全等证明示例"@,
        description: "已知：在△ABC和△DEF中，AB=DE，∠A=∠D，AC=DF。证明：△ABC≅△DEF。"@,
        steps: seq![
            StepView { because: "AB = DE"@, therefore: "对应边相等"@ },
            StepView { because: "∠A = ∠D"@, therefore: "对应角相等"@ },
            StepView { because: "AC = DF"@, therefore: "对应边相等"@ },
            StepView { because: "两边及其夹角对应相等"@, therefore: "△ABC ≅ △DEF (SAS全等)"@ },
        ],
    }
}

pub open spec fn mock_quadrilateral() -> OutlineView {
    OutlineView {
        title: "平行四边形性质证明"@,
        description: "已知：四边形ABCD中，AB∥CD且AB=CD。证明：ABCD是平行四边形。"@,
        steps: seq![
            StepView { because: "AB ∥ CD"@, therefore: "一组对边平行"@ },
            StepView { because: "AB = CD"@, therefore: "这组对边相等"@ },
            StepView { because: "一组对边平行且相等"@, therefore: "四边形ABCD是平行四边形"@ },
        ],
    }
}

pub open spec fn mock_circle() -> OutlineView {
    OutlineView {
        title: "圆周角定理"@,
        description: "已知：在⊙O中，弧AB所对的圆周角是∠ACB，圆心角是∠AOB。证明：∠ACB = 1/2∠AOB。"@,
        steps: seq![
            StepView { because: "连接OC"@, therefore: "构造两个三角形"@ },
            StepView { because: "OA=OC=OB"@, therefore: "都是半径，相等"@ },
            StepView { because: "等腰三角形底角相等"@, therefore: "可以推导角度关系"@ },
            StepView { because: "三角形内角和180°"@, therefore: "∠ACB = 1/2∠AOB"@ },
        ],
    }
}

/// The generic outline for an unrecognised topic: its description embeds the
/// topic text itself, and it always carries three placeholder steps.
pub open spec fn mock_generic(topic: Seq<char>) -> OutlineView {
    OutlineView {
        title: "几何证明示例"@,
        description: "这是一个关于"@ + topic + "的证明示例。请按照'因为→所以'的格式填写证明步骤。"@,
        steps: seq![
            StepView { because: "填写已知条件"@, therefore: "填写推导结论"@ },
            StepView { because: "使用几何定理"@, therefore: "得到中间结论"@ },
            StepView { because: "综合以上结论"@, therefore: "证明完成"@ },
        ],
    }
}

/// What the offline path yields for any topic.
pub open spec fn spec_mock_outline(topic: Seq<char>) -> OutlineView {
    if topic == "三角形"@ {
        mock_triangle()
    } else if topic == "四边形"@ {
        mock_quadrilateral()
    } else if topic == "圆"@ {
        mock_circle()
    } else {
        mock_generic(topic)
    }
}

fn step(because: &str, therefore: &str) -> (r: ProofStep)
    ensures
        r@ == (StepView { because: because@, therefore: therefore@ }),
{
    ProofStep { because: String::from_str(because), therefore: String::from_str(therefore) }
}

/// The offline provider: deterministic, total, never does I/O.
pub fn generate_mock(topic: &str) -> (r: ProofOutline)
    ensures
        r@ == spec_mock_outline(topic@),
{
    if str_eq(topic, "三角形") {
        let mut steps: Vec<ProofStep> = Vec::new();
        steps.push(step("AB = DE", "对应边相等"));
        steps.push(step("∠A = ∠D", "对应角相等"));
        steps.push(step("AC = DF", "对应边相等"));
        steps.push(step("两边及其夹角对应相等", "△ABC ≅ △DEF (SAS全等)"));
        let r = ProofOutline {
            title: String::from_str("三角形全等证明示例"),
            description: String::from_str(
                "已知：在△ABC和△DEF中，AB=DE，∠A=∠D，AC=DF。证明：△ABC≅△DEF。",
            ),
            steps,
        };
        assert(steps_view(r.steps@) =~~= mock_triangle().steps);
        assert(r@ =~~= mock_triangle());
        r
    } else if str_eq(topic, "四边形") {
        let mut steps: Vec<ProofStep> = Vec::new();
        steps.push(step("AB ∥ CD", "一组对边平行"));
        steps.push(step("AB = CD", "这组对边相等"));
        steps.push(step("一组对边平行且相等", "四边形ABCD是平行四边形"));
        let r = ProofOutline {
            title: String::from_str("平行四边形性质证明"),
            description: String::from_str(
                "已知：四边形ABCD中，AB∥CD且AB=CD。证明：ABCD是平行四边形。",
            ),
            steps,
        };
        assert(steps_view(r.steps@) =~~= mock_quadrilateral().steps);
        assert(r@ =~~= mock_quadrilateral());
        r
    } else if str_eq(topic, "圆") {
        let mut steps: Vec<ProofStep> = Vec::new();
        steps.push(step("连接OC", "构造两个三角形"));
        steps.push(step("OA=OC=OB", "都是半径，相等"));
        steps.push(step("等腰三角形底角相等", "可以推导角度关系"));
        steps.push(step("三角形内角和180°", "∠ACB = 1/2∠AOB"));
        let r = ProofOutline {
            title: String::from_str("圆周角定理"),
            description: String::from_str(
                "已知：在⊙O中，弧AB所对的圆周角是∠ACB，圆心角是∠AOB。证明：∠ACB = 1/2∠AOB。",
            ),
            steps,
        };
        assert(steps_view(r.steps@) =~~= mock_circle().steps);
        assert(r@ =~~= mock_circle());
        r
    } else {
        let mut steps: Vec<ProofStep> = Vec::new();
        steps.push(step("填写已知条件", "填写推导结论"));
        steps.push(step("使用几何定理", "得到中间结论"));
        steps.push(step("综合以上结论", "证明完成"));
        let mut description = String::from_str("这是一个关于");
        description.append(topic);
        description.append("的证明示例。请按照'因为→所以'的格式填写证明步骤。");
        let r = ProofOutline { title: String::from_str("几何证明示例"), description, steps };
        assert(steps_view(r.steps@) =~~= mock_generic(topic@).steps);
        assert(r@ =~~= mock_generic(topic@));
        r
    }
}

} // verus!
