use vstd::prelude::*;
use crate::json::{
    escape_char, escape_seq, matches_at, sp_string_body, spec_hex_digit_char, spec_hex_val,
    parse_string_body, match_lit,
};
use crate::strutil::{chars_to_string, push_str_chars, str_chars};

verus! {

// ---------------------------------------------------------------------------
// The output entity: a titled description with an ordered chain of
// premise/conclusion steps.
// ---------------------------------------------------------------------------
pub struct ProofStep {
    pub because: String,
    pub therefore: String,
}

pub struct ProofOutline {
    pub title: String,
    pub description: String,
    pub steps: Vec<ProofStep>,
}

#[verifier::ext_equal]
pub struct StepView {
    pub because: Seq<char>,
    pub therefore: Seq<char>,
}

#[verifier::ext_equal]
pub struct OutlineView {
    pub title: Seq<char>,
    pub description: Seq<char>,
    pub steps: Seq<StepView>,
}

impl View for ProofStep {
    type V = StepView;

    open spec fn view(&self) -> StepView {
        StepView { because: self.because@, therefore: self.therefore@ }
    }
}

pub open spec fn steps_view(steps: Seq<ProofStep>) -> Seq<StepView> {
    steps.map_values(|p: ProofStep| p@)
}

impl View for ProofOutline {
    type V = OutlineView;

    open spec fn view(&self) -> OutlineView {
        OutlineView {
            title: self.title@,
            description: self.description@,
            steps: steps_view(self.steps@),
        }
    }
}

// ---------------------------------------------------------------------------
// The canonical document text. The pieces between the variable parts are
// fixed; a string value runs from just after its opening quote, so each
// fixed piece after the first starts with the comma that follows the
// closing quote the string parser consumed.
// ---------------------------------------------------------------------------
pub open spec fn plit_title() -> Seq<char> {
    seq!['{', '"', 't', 'i', 't', 'l', 'e', '"', ':', '"']
}

pub open spec fn plit_desc() -> Seq<char> {
    seq![',', '"', 'd', 'e', 's', 'c', 'r', 'i', 'p', 't', 'i', 'o', 'n', '"', ':', '"']
}

pub open spec fn plit_steps() -> Seq<char> {
    seq![',', '"', 's', 't', 'e', 'p', 's', '"', ':', '[']
}

pub open spec fn plit_because() -> Seq<char> {
    seq!['{', '"', 'b', 'e', 'c', 'a', 'u', 's', 'e', '"', ':', '"']
}

pub open spec fn plit_therefore() -> Seq<char> {
    seq![',', '"', 't', 'h', 'e', 'r', 'e', 'f', 'o', 'r', 'e', '"', ':', '"']
}

/// One step as document text.
pub open spec fn ser_step(st: StepView) -> Seq<char> {
    plit_because() + escape_seq(st.because) + seq!['"'] + plit_therefore() + escape_seq(
        st.therefore,
    ) + seq!['"', '}']
}

/// A non-empty step list as document text, comma-separated.
pub open spec fn ser_steps(steps: Seq<StepView>) -> Seq<char>
    decreases steps.len(),
{
    if steps.len() == 0 {
        Seq::<char>::empty()
    } else if steps.len() == 1 {
        ser_step(steps[0])
    } else {
        ser_step(steps[0]) + seq![','] + ser_steps(steps.drop_first())
    }
}

/// The whole outline as document text.
pub open spec fn ser_outline(o: OutlineView) -> Seq<char> {
    plit_title() + escape_seq(o.title) + seq!['"'] + plit_desc() + escape_seq(o.description)
        + seq!['"'] + plit_steps() + ser_steps(o.steps) + seq![']', '}']
}

// ---------------------------------------------------------------------------
// The strict reader of that text: it accepts exactly what the writer above
// produces, and is the inverse the round-trip law speaks about.
// ---------------------------------------------------------------------------
pub open spec fn sp_parse_step(s: Seq<char>, i: int) -> Option<(StepView, int)> {
    if matches_at(s, i, plit_because()) {
        match sp_string_body(s, i + plit_because().len()) {
            None => None,
            Some((because, j)) => {
                if matches_at(s, j, plit_therefore()) {
                    match sp_string_body(s, j + plit_therefore().len()) {
                        None => None,
                        Some((therefore, k)) => {
                            if 0 <= k && k < s.len() && s[k] == '}' {
                                Some((StepView { because, therefore }, k + 1))
                            } else {
                                None
                            }
                        },
                    }
                } else {
                    None
                }
            },
        }
    } else {
        None
    }
}

pub open spec fn sp_parse_steps(s: Seq<char>, i: int) -> Option<(Seq<StepView>, int)>
    decreases s.len() - i,
{
    match sp_parse_step(s, i) {
        None => None,
        Some((st, j)) => {
            if 0 <= j && j < s.len() && s[j] == ',' {
                if i < j + 1 {
                    match sp_parse_steps(s, j + 1) {
                        Some((rest, k)) => Some((seq![st] + rest, k)),
                        None => None,
                    }
                } else {
                    None
                }
            } else {
                Some((seq![st], j))
            }
        },
    }
}

pub open spec fn sp_parse_outline(s: Seq<char>) -> Option<OutlineView> {
    if matches_at(s, 0, plit_title()) {
        match sp_string_body(s, plit_title().len() as int) {
            None => None,
            Some((title, j)) => {
                if matches_at(s, j, plit_desc()) {
                    match sp_string_body(s, j + plit_desc().len()) {
                        None => None,
                        Some((description, k)) => {
                            if matches_at(s, k, plit_steps()) {
                                let m = k + plit_steps().len();
                                if m < s.len() && s[m] == ']' {
                                    if m + 2 == s.len() && s[m + 1] == '}' {
                                        Some(
                                            OutlineView {
                                                title,
                                                description,
                                                steps: Seq::<StepView>::empty(),
                                            },
                                        )
                                    } else {
                                        None
                                    }
                                } else {
                                    match sp_parse_steps(s, m) {
                                        None => None,
                                        Some((steps, j2)) => {
                                            if j2 + 2 == s.len() && matches_at(
                                                s,
                                                j2,
                                                seq![']', '}'],
                                            ) {
                                                Some(OutlineView { title, description, steps })
                                            } else {
                                                None
                                            }
                                        },
                                    }
                                }
                            } else {
                                None
                            }
                        },
                    }
                } else {
                    None
                }
            },
        }
    } else {
        None
    }
}

// ---------------------------------------------------------------------------
// Executable writer
// ---------------------------------------------------------------------------
fn hex_digit_exec(d: u32) -> (c: char)
    requires
        d < 16,
    ensures
        c == spec_hex_digit_char(d as nat),
{
    match d {
        0 => '0',
        1 => '1',
        2 => '2',
        3 => '3',
        4 => '4',
        5 => '5',
        6 => '6',
        7 => '7',
        8 => '8',
        9 => '9',
        10 => 'a',
        11 => 'b',
        12 => 'c',
        13 => 'd',
        14 => 'e',
        _ => 'f',
    }
}

/// Appends the escaped form of one character.
fn push_escaped_char(out: &mut Vec<char>, c: char)
    ensures
        final(out)@ == old(out)@ + escape_char(c),
{
    if c == '"' {
        out.push('\\');
        out.push('"');
    } else if c == '\\' {
        out.push('\\');
        out.push('\\');
    } else if c == '\n' {
        out.push('\\');
        out.push('n');
    } else if c == '\r' {
        out.push('\\');
        out.push('r');
    } else if c == '\t' {
        out.push('\\');
        out.push('t');
    } else if (c as u32) < 0x20 {
        let v = c as u32;
        out.push('\\');
        out.push('u');
        out.push('0');
        out.push('0');
        out.push(hex_digit_exec(v / 16));
        out.push(hex_digit_exec(v % 16));
    } else {
        out.push(c);
    }
    assert(final(out)@ =~= old(out)@ + escape_char(c));
}

proof fn lemma_escape_seq_snoc(s: Seq<char>, c: char)
    ensures
        escape_seq(s.push(c)) == escape_seq(s) + escape_char(c),
    decreases s.len(),
{
    let p = s.push(c);
    if s.len() == 0 {
        assert(p[0] == c);
        assert(p.drop_first() =~= Seq::<char>::empty());
        assert(escape_seq(p) == escape_char(c) + escape_seq(p.drop_first()));
        assert(escape_seq(p) =~= escape_seq(s) + escape_char(c));
    } else {
        lemma_escape_seq_snoc(s.drop_first(), c);
        assert(p[0] == s[0]);
        assert(p.drop_first() =~= s.drop_first().push(c));
        assert(escape_seq(p) == escape_char(s[0]) + escape_seq(p.drop_first()));
        assert(escape_seq(p) =~= escape_seq(s) + escape_char(c));
    }
}

/// Appends the escaped form of a string.
pub fn push_escaped(out: &mut Vec<char>, s: &str)
    ensures
        final(out)@ == old(out)@ + escape_seq(s@),
{
    let n = s.unicode_len();
    let mut i: usize = 0;
    while i < n
        invariant
            n == s@.len(),
            i <= n,
            out@ == old(out)@ + escape_seq(s@.subrange(0, i as int)),
        decreases n - i,
    {
        let c = s.get_char(i);
        push_escaped_char(out, c);
        proof {
            lemma_escape_seq_snoc(s@.subrange(0, i as int), c);
            assert(s@.subrange(0, i as int).push(c) =~= s@.subrange(0, i + 1));
        }
        i = i + 1;
    }
    assert(s@.subrange(0, n as int) =~= s@);
}

proof fn lemma_lit_title()
    ensures
        "{\"title\":\""@ == plit_title(),
{
    reveal_strlit("{\"title\":\"");
    assert("{\"title\":\""@ =~= plit_title());
}

proof fn lemma_lit_desc()
    ensures
        ",\"description\":\""@ == plit_desc(),
        "\",\"description\":\""@ == seq!['"'] + plit_desc(),
{
    reveal_strlit(",\"description\":\"");
    reveal_strlit("\",\"description\":\"");
    assert(",\"description\":\""@ =~= plit_desc());
    assert("\",\"description\":\""@ =~= seq!['"'] + plit_desc());
}

proof fn lemma_lit_steps()
    ensures
        ",\"steps\":["@ == plit_steps(),
        "\",\"steps\":["@ == seq!['"'] + plit_steps(),
{
    reveal_strlit(",\"steps\":[");
    reveal_strlit("\",\"steps\":[");
    assert(",\"steps\":["@ =~= plit_steps());
    assert("\",\"steps\":["@ =~= seq!['"'] + plit_steps());
}

proof fn lemma_lit_because()
    ensures
        "{\"because\":\""@ == plit_because(),
{
    reveal_strlit("{\"because\":\"");
    assert("{\"because\":\""@ =~= plit_because());
}

proof fn lemma_lit_therefore()
    ensures
        ",\"therefore\":\""@ == plit_therefore(),
        "\",\"therefore\":\""@ == seq!['"'] + plit_therefore(),
{
    reveal_strlit(",\"therefore\":\"");
    reveal_strlit("\",\"therefore\":\"");
    assert(",\"therefore\":\""@ =~= plit_therefore());
    assert("\",\"therefore\":\""@ =~= seq!['"'] + plit_therefore());
}

proof fn lemma_lit_closers()
    ensures
        "\"}"@ == seq!['"', '}'],
        "]}"@ == seq![']', '}'],
        ","@ == seq![','],
{
    reveal_strlit("\"}");
    reveal_strlit("]}");
    reveal_strlit(",");
    assert("\"}"@ =~= seq!['"', '}']);
    assert("]}"@ =~= seq![']', '}']);
    assert(","@ =~= seq![',']);
}

/// Appends one step as document text.
fn push_step(out: &mut Vec<char>, st: &ProofStep)
    ensures
        final(out)@ == old(out)@ + ser_step(st@),
{
    proof {
        lemma_lit_because();
        lemma_lit_therefore();
        lemma_lit_closers();
    }
    push_str_chars(out, "{\"because\":\"");
    push_escaped(out, st.because.as_str());
    push_str_chars(out, "\",\"therefore\":\"");
    push_escaped(out, st.therefore.as_str());
    push_str_chars(out, "\"}");
    assert(final(out)@ =~= old(out)@ + ser_step(st@));
}

/// Serializes an outline as its canonical JSON text.
pub fn serialize_outline(o: &ProofOutline) -> (r: String)
    ensures
        r@ == ser_outline(o@),
{
    proof {
        lemma_lit_title();
        lemma_lit_desc();
        lemma_lit_steps();
        lemma_lit_closers();
    }
    let mut out: Vec<char> = Vec::new();
    push_str_chars(&mut out, "{\"title\":\"");
    push_escaped(&mut out, o.title.as_str());
    push_str_chars(&mut out, "\",\"description\":\"");
    push_escaped(&mut out, o.description.as_str());
    push_str_chars(&mut out, "\",\"steps\":[");
    let ghost prefix = out@;
    let n = o.steps.len();
    let mut i: usize = 0;
    while i < n
        invariant
            n == o.steps.len(),
            i <= n,
            out@ == prefix + ser_steps(steps_view(o.steps@).take(i as int)),
        decreases n - i,
    {
        if i > 0 {
            push_str_chars(&mut out, ",");
            proof {
                lemma_lit_closers();
            }
        }
        push_step(&mut out, &o.steps[i]);
        proof {
            lemma_ser_steps_snoc(steps_view(o.steps@), i as int);
            assert(o.steps[i as int]@ == steps_view(o.steps@)[i as int]);
        }
        i = i + 1;
    }
    proof {
        assert(steps_view(o.steps@).take(n as int) =~= steps_view(o.steps@));
    }
    push_str_chars(&mut out, "]}");
    assert(out@ =~= ser_outline(o@));
    chars_to_string(&out)
}

proof fn lemma_ser_steps_snoc(steps: Seq<StepView>, i: int)
    requires
        0 <= i < steps.len(),
    ensures
        i == 0 ==> ser_steps(steps.take(1)) == ser_step(steps[0]),
        i > 0 ==> ser_steps(steps.take(i + 1)) == ser_steps(steps.take(i)) + seq![','] + ser_step(
            steps[i],
        ),
    decreases i,
{
    if i == 0 {
        assert(steps.take(1).len() == 1);
        assert(steps.take(1)[0] == steps[0]);
    } else {
        lemma_ser_steps_snoc(steps.drop_first(), i - 1);
        assert(steps.take(i + 1).drop_first() =~= steps.drop_first().take(i));
        assert(steps.take(i).drop_first() =~= steps.drop_first().take(i - 1));
        assert(steps.take(i + 1)[0] == steps[0]);
        assert(steps.take(i)[0] == steps[0]);
        assert(steps.drop_first()[i - 1] == steps[i]);
        if i == 1 {
            assert(ser_steps(steps.take(2)) == ser_step(steps[0]) + seq![','] + ser_steps(
                steps.drop_first().take(1),
            ));
            assert(ser_steps(steps.take(1)) == ser_step(steps[0]));
        } else {
            assert(ser_steps(steps.take(i + 1)) == ser_step(steps[0]) + seq![','] + ser_steps(
                steps.drop_first().take(i),
            ));
            assert(ser_steps(steps.take(i)) == ser_step(steps[0]) + seq![','] + ser_steps(
                steps.drop_first().take(i - 1),
            ));
            assert(ser_steps(steps.take(i + 1)) =~= ser_steps(steps.take(i)) + seq![',']
                + ser_step(steps[i]));
        }
    }
}

// ---------------------------------------------------------------------------
// Executable reader
// ---------------------------------------------------------------------------
fn parse_step_chars(s: &Vec<char>, i: usize) -> (r: Option<(ProofStep, usize)>)
    ensures
        match r {
            Some((st, j)) => sp_parse_step(s@, i as int) == Some((st@, j as int)),
            None => sp_parse_step(s@, i as int) is None,
        },
{
    proof {
        lemma_lit_because();
        lemma_lit_therefore();
    }
    let n = s.len();
    if !match_lit(s, i, "{\"because\":\"") {
        return None;
    }
    assert(i + 12 <= n);
    match parse_string_body(s, i + 12) {
        None => None,
        Some((because, j)) => {
            if !match_lit(s, j, ",\"therefore\":\"") {
                return None;
            }
            if j > s.len() || s.len() - j < 14 {
                return None;
            }
            match parse_string_body(s, j + 14) {
                None => None,
                Some((therefore, k)) => {
                    if k < s.len() && s[k] == '}' {
                        let st = ProofStep {
                            because: chars_to_string(&because),
                            therefore: chars_to_string(&therefore),
                        };
                        Some((st, k + 1))
                    } else {
                        None
                    }
                },
            }
        },
    }
}

fn parse_steps_chars(s: &Vec<char>, i: usize) -> (r: Option<(Vec<ProofStep>, usize)>)
    ensures
        match r {
            Some((v, j)) => sp_parse_steps(s@, i as int) == Some((steps_view(v@), j as int)),
            None => sp_parse_steps(s@, i as int) is None,
        },
    decreases s@.len() - i,
{
    match parse_step_chars(s, i) {
        None => None,
        Some((st, j)) => {
            if j < s.len() && s[j] == ',' {
                if j + 1 > i {
                    match parse_steps_chars(s, j + 1) {
                        Some((rest, k)) => {
                            let ghost r0 = rest@;
                            let mut rest = rest;
                            rest.insert(0, st);
                            assert(steps_view(rest@) =~= seq![st@] + steps_view(r0));
                            Some((rest, k))
                        },
                        None => None,
                    }
                } else {
                    None
                }
            } else {
                let mut v: Vec<ProofStep> = Vec::new();
                let ghost stv = st@;
                v.push(st);
                assert(steps_view(v@) =~= seq![stv]);
                Some((v, j))
            }
        },
    }
}

/// Reads back an outline from its canonical JSON text; accepts exactly what
/// `serialize_outline` writes.
pub fn parse_outline(s: &str) -> (r: Option<ProofOutline>)
    ensures
        match r {
            Some(o) => sp_parse_outline(s@) == Some(o@),
            None => sp_parse_outline(s@) is None,
        },
{
    proof {
        lemma_lit_title();
        lemma_lit_desc();
        lemma_lit_steps();
        lemma_lit_closers();
    }
    let v = str_chars(s);
    if !match_lit(&v, 0, "{\"title\":\"") {
        return None;
    }
    match parse_string_body(&v, 10) {
        None => None,
        Some((title, j)) => {
            if !match_lit(&v, j, ",\"description\":\"") {
                return None;
            }
            if j > v.len() || v.len() - j < 16 {
                return None;
            }
            match parse_string_body(&v, j + 16) {
                None => None,
                Some((description, k)) => {
                    if !match_lit(&v, k, ",\"steps\":[") {
                        return None;
                    }
                    if k > v.len() || v.len() - k < 10 {
                        return None;
                    }
                    let m = k + 10;
                    if m < v.len() && v[m] == ']' {
                        if v.len() - m == 2 && v[m + 1] == '}' {
                            assert(m + 2 == v@.len());
                            let o = ProofOutline {
                                title: chars_to_string(&title),
                                description: chars_to_string(&description),
                                steps: Vec::new(),
                            };
                            assert(steps_view(Seq::<ProofStep>::empty())
                                =~= Seq::<StepView>::empty());
                            Some(o)
                        } else {
                            None
                        }
                    } else {
                        match parse_steps_chars(&v, m) {
                            None => None,
                            Some((steps, j2)) => {
                                if j2 <= usize::MAX - 2 && j2 + 2 == v.len() && match_lit(
                                    &v,
                                    j2,
                                    "]}",
                                ) {
                                    let o = ProofOutline {
                                        title: chars_to_string(&title),
                                        description: chars_to_string(&description),
                                        steps,
                                    };
                                    Some(o)
                                } else {
                                    None
                                }
                            },
                        }
                    }
                },
            }
        },
    }
}

// ---------------------------------------------------------------------------
// Round trip: the reader recovers exactly what the writer wrote.
// ---------------------------------------------------------------------------
proof fn lemma_hex_digit_val(d: nat)
    requires
        d < 16,
    ensures
        spec_hex_val(spec_hex_digit_char(d)) == Some(d),
{
}

/// Within `s`, a slice of a slice known char-for-char is itself known.
proof fn lemma_slice_of_slice(s: Seq<char>, i: int, off: int, part: Seq<char>, whole: Seq<char>)
    requires
        0 <= i,
        i + whole.len() <= s.len(),
        s.subrange(i, i + whole.len()) == whole,
        0 <= off,
        off + part.len() <= whole.len(),
        whole.subrange(off, off + part.len()) == part,
    ensures
        s.subrange(i + off, i + off + part.len()) == part,
{
    assert(s.subrange(i + off, i + off + part.len()) =~= part) by {
        assert forall|k: int| 0 <= k < part.len() implies s[i + off + k] == part[k] by {
            assert(whole[off + k] == s.subrange(i, i + whole.len())[off + k]);
            assert(part[k] == whole.subrange(off, off + part.len())[k]);
        }
    }
}

/// Reading a string body over the escaped form of `t`, with the closing
/// quote right after it, yields exactly `t`.
proof fn lemma_parse_escaped_body(s: Seq<char>, i: int, t: Seq<char>)
    requires
        0 <= i,
        i + escape_seq(t).len() + 1 <= s.len(),
        s.subrange(i, i + escape_seq(t).len()) == escape_seq(t),
        s[i + escape_seq(t).len()] == '"',
    ensures
        sp_string_body(s, i) == Some((t, i + escape_seq(t).len() + 1)),
    decreases t.len(),
{
    let ghost e_all = escape_seq(t);
    if t.len() == 0 {
        assert(s[i] == '"');
        assert(t =~= Seq::<char>::empty());
    } else {
        let c = t[0];
        let e = escape_char(c);
        let t2 = t.drop_first();
        let e2 = escape_seq(t2);
        assert(e_all == e + e2);
        assert forall|k: int| 0 <= k < e.len() implies s[i + k] == e[k] by {
            assert(e_all[k] == s.subrange(i, i + e_all.len())[k]);
        }
        let i2 = i + e.len();
        assert(s.subrange(i2, i2 + e2.len()) =~= e2) by {
            assert forall|k: int| 0 <= k < e2.len() implies s.subrange(i2, i2 + e2.len())[k]
                == e2[k] by {
                assert(s[i2 + k] == s.subrange(i, i + e_all.len())[e.len() + k]);
                assert(e_all[e.len() + k] == e2[k]);
            }
        }
        lemma_parse_escaped_body(s, i2, t2);
        assert(seq![c] + t2 =~= t);
        if c == '"' {
            assert(s[i] == '\\' && s[i + 1] == '"');
        } else if c == '\\' {
            assert(s[i] == '\\' && s[i + 1] == '\\');
        } else if c == '\n' {
            assert(s[i] == '\\' && s[i + 1] == 'n');
        } else if c == '\r' {
            assert(s[i] == '\\' && s[i + 1] == 'r');
        } else if c == '\t' {
            assert(s[i] == '\\' && s[i + 1] == 't');
        } else if (c as u32) < 0x20 {
            let v = c as u32;
            let hi = (v / 16) as nat;
            let lo = (v % 16) as nat;
            assert(s[i] == '\\' && s[i + 1] == 'u' && s[i + 2] == '0' && s[i + 3] == '0');
            assert(s[i + 4] == spec_hex_digit_char(hi));
            assert(s[i + 5] == spec_hex_digit_char(lo));
            lemma_hex_digit_val(hi);
            lemma_hex_digit_val(lo);
            let cp = 0 * 4096 + 0 * 256 + hi * 16 + lo;
            assert(cp == v as nat);
            assert(cp < 0xD800);
            vstd::utf8::char_u32_cast(c, v);
            assert(cp as char == c);
        } else {
            assert(s[i] == c);
        }
    }
}

/// Reading a step over the written form of `st` yields exactly `st`.
proof fn lemma_parse_ser_step(s: Seq<char>, i: int, st: StepView)
    requires
        0 <= i,
        i + ser_step(st).len() <= s.len(),
        s.subrange(i, i + ser_step(st).len()) == ser_step(st),
    ensures
        sp_parse_step(s, i) == Some((st, i + ser_step(st).len())),
{
    let w = ser_step(st);
    let e1 = escape_seq(st.because);
    let e2 = escape_seq(st.therefore);
    let l1 = plit_because().len() as int;
    let l2 = plit_therefore().len() as int;
    assert(w =~= plit_because() + (e1 + (seq!['"'] + (plit_therefore() + (e2 + seq!['"', '}'])))));
    assert(w.subrange(0, l1) =~= plit_because());
    lemma_slice_of_slice(s, i, 0, plit_because(), w);
    assert(matches_at(s, i, plit_because()));
    assert(w.subrange(l1, l1 + e1.len()) =~= e1);
    lemma_slice_of_slice(s, i, l1, e1, w);
    assert(w[l1 + e1.len()] == '"');
    assert(s[i + l1 + e1.len()] == s.subrange(i, i + w.len())[l1 + e1.len()]);
    lemma_parse_escaped_body(s, i + l1, st.because);
    let j = i + l1 + e1.len() + 1;
    assert(w.subrange(l1 + e1.len() + 1, l1 + e1.len() + 1 + l2) =~= plit_therefore());
    lemma_slice_of_slice(s, i, l1 + e1.len() + 1, plit_therefore(), w);
    assert(matches_at(s, j, plit_therefore()));
    assert(w.subrange(l1 + e1.len() + 1 + l2, l1 + e1.len() + 1 + l2 + e2.len()) =~= e2);
    lemma_slice_of_slice(s, i, l1 + e1.len() + 1 + l2, e2, w);
    assert(w[l1 + e1.len() + 1 + l2 + e2.len()] == '"');
    assert(s[j + l2 + e2.len()] == s.subrange(i, i + w.len())[l1 + e1.len() + 1 + l2 + e2.len()]);
    lemma_parse_escaped_body(s, j + l2, st.therefore);
    let k = j + l2 + e2.len() + 1;
    assert(w[l1 + e1.len() + 1 + l2 + e2.len() + 1] == '}');
    assert(s[k] == s.subrange(i, i + w.len())[l1 + e1.len() + 1 + l2 + e2.len() + 1]);
    assert(s[k] == '}');
    assert(StepView { because: st.because, therefore: st.therefore } =~= st);
    assert(k + 1 == i + w.len());
}

/// Reading a step list over the written form of `steps`, with the closing
/// bracket right after it, yields exactly `steps`.
proof fn lemma_parse_ser_steps(s: Seq<char>, i: int, steps: Seq<StepView>)
    requires
        steps.len() >= 1,
        0 <= i,
        i + ser_steps(steps).len() + 1 <= s.len(),
        s.subrange(i, i + ser_steps(steps).len()) == ser_steps(steps),
        s[i + ser_steps(steps).len()] == ']',
    ensures
        sp_parse_steps(s, i) == Some((steps, i + ser_steps(steps).len())),
    decreases steps.len(),
{
    let w = ser_steps(steps);
    if steps.len() == 1 {
        assert(w == ser_step(steps[0]));
        lemma_parse_ser_step(s, i, steps[0]);
        let j = i + w.len();
        assert(s[j] == ']');
        assert(seq![steps[0]] =~= steps);
    } else {
        let st = steps[0];
        let rest = steps.drop_first();
        let w1 = ser_step(st);
        let w2 = ser_steps(rest);
        assert(w == w1 + seq![','] + w2);
        assert(w =~= w1 + (seq![','] + w2));
        assert(w.subrange(0, w1.len() as int) =~= w1);
        lemma_slice_of_slice(s, i, 0, w1, w);
        lemma_parse_ser_step(s, i, st);
        let j = i + w1.len();
        assert(w[w1.len() as int] == ',');
        assert(s[j] == s.subrange(i, i + w.len())[w1.len() as int]);
        assert(s[j] == ',');
        assert(w.subrange(w1.len() as int + 1, w1.len() as int + 1 + w2.len()) =~= w2);
        lemma_slice_of_slice(s, i, w1.len() as int + 1, w2, w);
        assert(s[j + 1 + w2.len()] == ']');
        lemma_parse_ser_steps(s, j + 1, rest);
        assert(seq![st] + rest =~= steps);
        assert(j + 1 + w2.len() == i + w.len());
    }
}

/// Splits knowledge of a concatenation within `s` into its two parts.
proof fn lemma_cat_split(s: Seq<char>, i: int, a: Seq<char>, b: Seq<char>)
    requires
        0 <= i,
        i + a.len() + b.len() <= s.len(),
        s.subrange(i, i + a.len() + b.len()) == a + b,
    ensures
        s.subrange(i, i + a.len()) == a,
        s.subrange(i + a.len(), i + a.len() + b.len()) == b,
{
    assert(s.subrange(i, i + a.len()) =~= a) by {
        assert forall|k: int| 0 <= k < a.len() implies s[i + k] == a[k] by {
            assert(s.subrange(i, i + a.len() + b.len())[k] == s[i + k]);
            assert(s.subrange(i, i + a.len() + b.len())[k] == (a + b)[k]);
            assert((a + b)[k] == a[k]);
        }
    }
    assert(s.subrange(i + a.len(), i + a.len() + b.len()) =~= b) by {
        assert forall|k: int| 0 <= k < b.len() implies s[i + a.len() + k] == b[k] by {
            assert(s.subrange(i, i + a.len() + b.len())[a.len() + k] == s[i + a.len() + k]);
            assert(s.subrange(i, i + a.len() + b.len())[a.len() + k] == (a + b)[a.len() + k]);
            assert((a + b)[a.len() + k] == b[k]);
        }
    }
}

pub open spec fn title_end(o: OutlineView) -> int {
    plit_title().len() as int + escape_seq(o.title).len() + 1
}

pub open spec fn desc_end(o: OutlineView) -> int {
    title_end(o) + plit_desc().len() as int + escape_seq(o.description).len() + 1
}

pub open spec fn steps_start(o: OutlineView) -> int {
    desc_end(o) + plit_steps().len() as int
}

/// Where each part of the written outline stands, and what the string
/// reader yields over the two escaped fields.
#[verifier::spinoff_prover]
proof fn lemma_outline_layout(o: OutlineView)
    ensures
        matches_at(ser_outline(o), 0, plit_title()),
        sp_string_body(ser_outline(o), plit_title().len() as int) == Some((o.title, title_end(o))),
        matches_at(ser_outline(o), title_end(o), plit_desc()),
        sp_string_body(ser_outline(o), title_end(o) + plit_desc().len()) == Some(
            (o.description, desc_end(o)),
        ),
        matches_at(ser_outline(o), desc_end(o), plit_steps()),
        steps_start(o) + ser_steps(o.steps).len() + 2 == ser_outline(o).len(),
        ser_outline(o).subrange(steps_start(o), steps_start(o) + ser_steps(o.steps).len())
            == ser_steps(o.steps),
        ser_outline(o)[steps_start(o) + ser_steps(o.steps).len()] == ']',
        ser_outline(o)[steps_start(o) + ser_steps(o.steps).len() + 1] == '}',
        matches_at(ser_outline(o), steps_start(o) + ser_steps(o.steps).len(), seq![']', '}']),
{
    let s = ser_outline(o);
    let e1 = escape_seq(o.title);
    let e2 = escape_seq(o.description);
    let ss = ser_steps(o.steps);
    let q = seq!['"'];
    let tail = seq![']', '}'];
    let x1 = plit_title() + e1;
    let x2 = x1 + q;
    let x3 = x2 + plit_desc();
    let x4 = x3 + e2;
    let x5 = x4 + q;
    let x6 = x5 + plit_steps();
    let x7 = x6 + ss;
    assert(s == x7 + tail);
    assert(s.subrange(0, s.len() as int) =~= s);
    lemma_cat_split(s, 0, x7, tail);
    lemma_cat_split(s, 0, x6, ss);
    lemma_cat_split(s, 0, x5, plit_steps());
    lemma_cat_split(s, 0, x4, q);
    lemma_cat_split(s, 0, x3, e2);
    lemma_cat_split(s, 0, x2, plit_desc());
    lemma_cat_split(s, 0, x1, q);
    lemma_cat_split(s, 0, plit_title(), e1);
    assert(s[x1.len() as int] == '"') by {
        assert(s.subrange(x1.len() as int, x2.len() as int)[0] == '"');
    }
    lemma_parse_escaped_body(s, plit_title().len() as int, o.title);
    assert(title_end(o) == x2.len());
    assert(s[x4.len() as int] == '"') by {
        assert(s.subrange(x4.len() as int, x5.len() as int)[0] == '"');
    }
    assert(title_end(o) + plit_desc().len() == x3.len());
    lemma_parse_escaped_body(s, x3.len() as int, o.description);
    assert(desc_end(o) == x5.len());
    assert(steps_start(o) == x6.len());
    assert(s[x7.len() as int] == ']') by {
        assert(s.subrange(x7.len() as int, s.len() as int)[0] == ']');
    }
    assert(s[x7.len() as int + 1] == '}') by {
        assert(s.subrange(x7.len() as int, s.len() as int)[1] == '}');
    }
    assert(s.subrange(x7.len() as int, s.len() as int) =~= tail);
}

/// The round-trip law: reading back the written form of any outline yields
/// that outline, field for field.
#[verifier::rlimit(100)]
#[verifier::spinoff_prover]
pub proof fn lemma_parse_serialize_outline(o: OutlineView)
    ensures
        sp_parse_outline(ser_outline(o)) == Some(o),
{
    let s = ser_outline(o);
    let ss = ser_steps(o.steps);
    lemma_outline_layout(o);
    let m = steps_start(o);
    if o.steps.len() == 0 {
        assert(ss.len() == 0);
        assert(s[m] == ']');
        assert(m + 2 == s.len());
        assert(s[m + 1] == '}');
        assert(OutlineView { title: o.title, description: o.description, steps: Seq::<
            StepView,
        >::empty() } =~= o);
    } else {
        assert(ser_step(o.steps[0])[0] == '{') by {
            assert(plit_because()[0] == '{');
        }
        assert(ss[0] == '{');
        assert(s[m] == '{') by {
            assert(s.subrange(m, m + ss.len())[0] == ss[0]);
        }
        assert(m < s.len());
        lemma_parse_ser_steps(s, m, o.steps);
        assert(OutlineView { title: o.title, description: o.description, steps: o.steps } =~= o);
    }
}

} // verus!
