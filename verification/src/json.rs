use vstd::prelude::*;
use crate::strutil::char_from_code;

verus! {

// ---------------------------------------------------------------------------
// Character classes and escaping
// ---------------------------------------------------------------------------
pub open spec fn is_ws(c: char) -> bool {
    c == ' ' || c == '\t' || c == '\n' || c == '\r'
}

pub open spec fn is_digit(c: char) -> bool {
    48 <= c as u32 && c as u32 <= 57
}

pub open spec fn spec_hex_digit_char(d: nat) -> char {
    if d == 0 {
        '0'
    } else if d == 1 {
        '1'
    } else if d == 2 {
        '2'
    } else if d == 3 {
        '3'
    } else if d == 4 {
        '4'
    } else if d == 5 {
        '5'
    } else if d == 6 {
        '6'
    } else if d == 7 {
        '7'
    } else if d == 8 {
        '8'
    } else if d == 9 {
        '9'
    } else if d == 10 {
        'a'
    } else if d == 11 {
        'b'
    } else if d == 12 {
        'c'
    } else if d == 13 {
        'd'
    } else if d == 14 {
        'e'
    } else {
        'f'
    }
}

/// Value of one hexadecimal digit character, upper or lower case.
pub open spec fn spec_hex_val(c: char) -> Option<nat> {
    let v = c as u32;
    if 48 <= v && v <= 57 {
        Some((v - 48) as nat)
    } else if 97 <= v && v <= 102 {
        Some((v - 87) as nat)
    } else if 65 <= v && v <= 70 {
        Some((v - 55) as nat)
    } else {
        None
    }
}

/// How one character is written inside a JSON string: quote, backslash and
/// the common control characters get a short escape, other control
/// characters a `\u00XX` escape, and everything else stands as itself.
pub open spec fn escape_char(c: char) -> Seq<char> {
    if c == '"' {
        seq!['\\', '"']
    } else if c == '\\' {
        seq!['\\', '\\']
    } else if c == '\n' {
        seq!['\\', 'n']
    } else if c == '\r' {
        seq!['\\', 'r']
    } else if c == '\t' {
        seq!['\\', 't']
    } else if (c as u32) < 0x20 {
        seq!['\\', 'u', '0', '0', spec_hex_digit_char((c as u32 / 16) as nat), spec_hex_digit_char(
            (c as u32 % 16) as nat,
        )]
    } else {
        seq![c]
    }
}

/// The body of a JSON string holding the characters of `s`.
pub open spec fn escape_seq(s: Seq<char>) -> Seq<char>
    decreases s.len(),
{
    if s.len() == 0 {
        Seq::<char>::empty()
    } else {
        escape_char(s[0]) + escape_seq(s.drop_first())
    }
}

/// Character denoted by a short escape such as `\n`, if the escape exists.
pub open spec fn spec_unescape_char(c: char) -> Option<char> {
    if c == '"' {
        Some('"')
    } else if c == '\\' {
        Some('\\')
    } else if c == '/' {
        Some('/')
    } else if c == 'n' {
        Some('\n')
    } else if c == 'r' {
        Some('\r')
    } else if c == 't' {
        Some('\t')
    } else if c == 'b' {
        Some('\u{8}')
    } else if c == 'f' {
        Some('\u{c}')
    } else {
        None
    }
}

// ---------------------------------------------------------------------------
// The grammar, written as deterministic recursive descent over positions.
// Every function takes the text and a position and yields the position just
// past what it recognised, or `None`. Positions in results always move
// forward; the guards that compare a returned position with the starting one
// restate that fact where the termination argument needs it.
// ---------------------------------------------------------------------------
/// First position at or after `i` holding no whitespace.
pub open spec fn sp_ws(s: Seq<char>, i: int) -> int
    decreases s.len() - i,
{
    if 0 <= i && i < s.len() && is_ws(s[i]) {
        sp_ws(s, i + 1)
    } else {
        i
    }
}

/// End of the run of decimal digits starting at `i`.
pub open spec fn sp_digits(s: Seq<char>, i: int) -> int
    decreases s.len() - i,
{
    if 0 <= i && i < s.len() && is_digit(s[i]) {
        sp_digits(s, i + 1)
    } else {
        i
    }
}

/// The four hexadecimal digits of a `\uXXXX` escape starting at the `u`,
/// as a code unit.
pub open spec fn sp_hex4(s: Seq<char>, i: int) -> Option<nat> {
    if 0 <= i && i + 4 <= s.len() {
        match (spec_hex_val(s[i]), spec_hex_val(s[i + 1]), spec_hex_val(s[i + 2]), spec_hex_val(
            s[i + 3],
        )) {
            (Some(a), Some(b), Some(c), Some(d)) => Some(a * 4096 + b * 256 + c * 16 + d),
            _ => None,
        }
    } else {
        None
    }
}

/// String body: everything after an opening quote up to and including the
/// closing quote, decoded. Yields the decoded characters and the position
/// just past the closing quote. A lead surrogate escape followed by a trail
/// surrogate escape denotes one supplementary character; a lone or
/// mispaired surrogate escape is refused.
pub open spec fn sp_string_body(s: Seq<char>, i: int) -> Option<(Seq<char>, int)>
    decreases s.len() - i,
{
    if i < 0 || i >= s.len() {
        None
    } else if s[i] == '"' {
        Some((Seq::<char>::empty(), i + 1))
    } else if s[i] == '\\' {
        if i + 2 > s.len() {
            None
        } else if s[i + 1] == 'u' {
            if i + 6 > s.len() {
                None
            } else {
                match sp_hex4(s, i + 2) {
                    Some(cp) => {
                        if cp < 0xD800 || cp > 0xDFFF {
                            match sp_string_body(s, i + 6) {
                                Some((t, j)) => Some((seq![cp as char] + t, j)),
                                None => None,
                            }
                        } else if cp <= 0xDBFF {
                            if i + 12 <= s.len() && s[i + 6] == '\\' && s[i + 7] == 'u' {
                                match sp_hex4(s, i + 8) {
                                    Some(cp2) => {
                                        if 0xDC00 <= cp2 <= 0xDFFF {
                                            let u = 0x10000 + (cp - 0xD800) * 0x400 + (cp2
                                                - 0xDC00);
                                            match sp_string_body(s, i + 12) {
                                                Some((t, j)) => Some((seq![u as char] + t, j)),
                                                None => None,
                                            }
                                        } else {
                                            None
                                        }
                                    },
                                    None => None,
                                }
                            } else {
                                None
                            }
                        } else {
                            None
                        }
                    },
                    None => None,
                }
            }
        } else {
            match spec_unescape_char(s[i + 1]) {
                Some(c) => match sp_string_body(s, i + 2) {
                    Some((t, j)) => Some((seq![c] + t, j)),
                    None => None,
                },
                None => None,
            }
        }
    } else if (s[i] as u32) < 0x20 {
        None
    } else {
        match sp_string_body(s, i + 1) {
            Some((t, j)) => Some((seq![s[i]] + t, j)),
            None => None,
        }
    }
}

/// Fractional part, if one starts at `i`.
pub open spec fn sp_frac(s: Seq<char>, i: int) -> Option<int> {
    if 0 <= i && i < s.len() && s[i] == '.' {
        if i + 1 < s.len() && is_digit(s[i + 1]) {
            Some(sp_digits(s, i + 1))
        } else {
            None
        }
    } else {
        Some(i)
    }
}

/// Exponent part, if one starts at `i`.
pub open spec fn sp_exp(s: Seq<char>, i: int) -> Option<int> {
    if 0 <= i && i < s.len() && (s[i] == 'e' || s[i] == 'E') {
        let p = if i + 1 < s.len() && (s[i + 1] == '+' || s[i + 1] == '-') {
            i + 2
        } else {
            i + 1
        };
        if p < s.len() && is_digit(s[p]) {
            Some(sp_digits(s, p))
        } else {
            None
        }
    } else {
        Some(i)
    }
}

/// A JSON number: optional minus, integer part without a leading zero,
/// optional fraction and exponent.
pub open spec fn sp_number(s: Seq<char>, i: int) -> Option<int> {
    if i < 0 || i >= s.len() {
        None
    } else {
        let p = if s[i] == '-' {
            i + 1
        } else {
            i
        };
        if p < s.len() && is_digit(s[p]) {
            let q = if s[p] == '0' {
                p + 1
            } else {
                sp_digits(s, p)
            };
            match sp_frac(s, q) {
                Some(q2) => sp_exp(s, q2),
                None => None,
            }
        } else {
            None
        }
    }
}

pub open spec fn matches_at(s: Seq<char>, i: int, lit: Seq<char>) -> bool {
    0 <= i && i + lit.len() <= s.len() && s.subrange(i, i + lit.len()) == lit
}

/// One JSON value starting at `i` (no leading whitespace).
pub open spec fn sp_value(s: Seq<char>, i: int) -> Option<int>
    decreases s.len() - i, 0int,
{
    if i < 0 || i >= s.len() {
        None
    } else {
        let c = s[i];
        if c == 'n' {
            if matches_at(s, i, seq!['n', 'u', 'l', 'l']) {
                Some(i + 4)
            } else {
                None
            }
        } else if c == 't' {
            if matches_at(s, i, seq!['t', 'r', 'u', 'e']) {
                Some(i + 4)
            } else {
                None
            }
        } else if c == 'f' {
            if matches_at(s, i, seq!['f', 'a', 'l', 's', 'e']) {
                Some(i + 5)
            } else {
                None
            }
        } else if c == '"' {
            match sp_string_body(s, i + 1) {
                Some((t, j)) => Some(j),
                None => None,
            }
        } else if c == '-' || is_digit(c) {
            sp_number(s, i)
        } else if c == '[' {
            let k = sp_ws(s, i + 1);
            if k < s.len() && k > i {
                if s[k] == ']' {
                    Some(k + 1)
                } else {
                    sp_elements(s, k)
                }
            } else {
                None
            }
        } else if c == '{' {
            let k = sp_ws(s, i + 1);
            if k < s.len() && k > i {
                if s[k] == '}' {
                    Some(k + 1)
                } else {
                    sp_members(s, k)
                }
            } else {
                None
            }
        } else {
            None
        }
    }
}

/// Array elements from the first element at `i` through the closing bracket.
pub open spec fn sp_elements(s: Seq<char>, i: int) -> Option<int>
    decreases s.len() - i, 1int,
{
    if i < 0 || i >= s.len() {
        None
    } else {
        match sp_value(s, i) {
            None => None,
            Some(j) => {
                let k = sp_ws(s, j);
                if k < s.len() && k > i {
                    if s[k] == ']' {
                        Some(k + 1)
                    } else if s[k] == ',' {
                        let m = sp_ws(s, k + 1);
                        if i < m <= s.len() {
                            sp_elements(s, m)
                        } else {
                            None
                        }
                    } else {
                        None
                    }
                } else {
                    None
                }
            },
        }
    }
}

/// Object members from the first key at `i` through the closing brace.
pub open spec fn sp_members(s: Seq<char>, i: int) -> Option<int>
    decreases s.len() - i, 1int,
{
    if i < 0 || i >= s.len() || s[i] != '"' {
        None
    } else {
        match sp_string_body(s, i + 1) {
            None => None,
            Some((key, j)) => {
                let k = sp_ws(s, j);
                if 0 <= k && k < s.len() && s[k] == ':' {
                    let m = sp_ws(s, k + 1);
                    if i < m <= s.len() {
                        match sp_value(s, m) {
                            None => None,
                            Some(j2) => {
                                let k2 = sp_ws(s, j2);
                                if k2 < s.len() && k2 > i {
                                    if s[k2] == '}' {
                                        Some(k2 + 1)
                                    } else if s[k2] == ',' {
                                        let m2 = sp_ws(s, k2 + 1);
                                        if i < m2 <= s.len() {
                                            sp_members(s, m2)
                                        } else {
                                            None
                                        }
                                    } else {
                                        None
                                    }
                                } else {
                                    None
                                }
                            },
                        }
                    } else {
                        None
                    }
                } else {
                    None
                }
            },
        }
    }
}

/// Whether `s` is one JSON document: one value, surrounded only by
/// whitespace.
pub open spec fn json_accepts(s: Seq<char>) -> bool {
    let i = sp_ws(s, 0);
    match sp_value(s, i) {
        Some(j) => sp_ws(s, j) == s.len(),
        None => false,
    }
}

// ---------------------------------------------------------------------------
// Executable mirrors
// ---------------------------------------------------------------------------
pub open spec fn oi(r: Option<usize>) -> Option<int> {
    match r {
        Some(j) => Some(j as int),
        None => None,
    }
}

pub fn skip_ws(s: &Vec<char>, i: usize) -> (r: usize)
    ensures
        r as int == sp_ws(s@, i as int),
        i <= r,
        r <= s@.len() || r == i,
    decreases s@.len() - i,
{
    if i < s.len() && (s[i] == ' ' || s[i] == '\t' || s[i] == '\n' || s[i] == '\r') {
        skip_ws(s, i + 1)
    } else {
        i
    }
}

pub fn scan_digits(s: &Vec<char>, i: usize) -> (r: usize)
    ensures
        r as int == sp_digits(s@, i as int),
    decreases s@.len() - i,
{
    if i < s.len() && is_digit_exec(s[i]) {
        scan_digits(s, i + 1)
    } else {
        i
    }
}

fn is_digit_exec(c: char) -> (r: bool)
    ensures
        r == is_digit(c),
{
    let v = c as u32;
    48 <= v && v <= 57
}

fn hex_val(c: char) -> (r: Option<u32>)
    ensures
        match r {
            Some(v) => spec_hex_val(c) == Some(v as nat) && v < 16,
            None => spec_hex_val(c) is None,
        },
{
    let v = c as u32;
    if 48 <= v && v <= 57 {
        Some(v - 48)
    } else if 97 <= v && v <= 102 {
        Some(v - 87)
    } else if 65 <= v && v <= 70 {
        Some(v - 55)
    } else {
        None
    }
}

/// Reads the four hexadecimal digits of an escape; mirrors `sp_hex4`.
fn hex4(s: &Vec<char>, i: usize) -> (r: Option<u32>)
    ensures
        match r {
            Some(v) => sp_hex4(s@, i as int) == Some(v as nat) && v < 0x10000,
            None => sp_hex4(s@, i as int) is None,
        },
{
    if i <= s.len() && s.len() - i >= 4 {
        let a = hex_val(s[i]);
        let b = hex_val(s[i + 1]);
        let c = hex_val(s[i + 2]);
        let d = hex_val(s[i + 3]);
        match (a, b, c, d) {
            (Some(a), Some(b), Some(c), Some(d)) => Some(a * 4096 + b * 256 + c * 16 + d),
            _ => None,
        }
    } else {
        None
    }
}

fn unescape_char(c: char) -> (r: Option<char>)
    ensures
        r == spec_unescape_char(c),
{
    if c == '"' {
        Some('"')
    } else if c == '\\' {
        Some('\\')
    } else if c == '/' {
        Some('/')
    } else if c == 'n' {
        Some('\n')
    } else if c == 'r' {
        Some('\r')
    } else if c == 't' {
        Some('\t')
    } else if c == 'b' {
        Some('\u{8}')
    } else if c == 'f' {
        Some('\u{c}')
    } else {
        None
    }
}

/// Decodes a string body; mirrors `sp_string_body`.
pub fn parse_string_body(s: &Vec<char>, i: usize) -> (r: Option<(Vec<char>, usize)>)
    ensures
        match r {
            Some((t, j)) => sp_string_body(s@, i as int) == Some((t@, j as int)),
            None => sp_string_body(s@, i as int) is None,
        },
    decreases s@.len() - i,
{
    if i >= s.len() {
        None
    } else if s[i] == '"' {
        Some((Vec::new(), i + 1))
    } else if s[i] == '\\' {
        if s.len() - i < 2 {
            None
        } else if s[i + 1] == 'u' {
            if s.len() - i < 6 {
                None
            } else {
                match hex4(s, i + 2) {
                    None => None,
                    Some(cp) => {
                        if cp < 0xD800 || cp > 0xDFFF {
                            match char_from_code(cp) {
                                Some(ch) => {
                                    match parse_string_body(s, i + 6) {
                                        Some((tail, j)) => {
                                            let ghost t0 = tail@;
                                            let mut v: Vec<char> = Vec::new();
                                            v.push(ch);
                                            let mut tail = tail;
                                            v.append(&mut tail);
                                            assert(v@ =~= seq![ch] + t0);
                                            Some((v, j))
                                        },
                                        None => None,
                                    }
                                },
                                None => None,
                            }
                        } else if cp <= 0xDBFF {
                            if s.len() - i >= 12 && s[i + 6] == '\\' && s[i + 7] == 'u' {
                                match hex4(s, i + 8) {
                                    None => None,
                                    Some(cp2) => {
                                        if 0xDC00 <= cp2 && cp2 <= 0xDFFF {
                                            let u: u32 = 0x10000 + (cp - 0xD800) * 0x400 + (cp2
                                                - 0xDC00);
                                            match char_from_code(u) {
                                                Some(ch) => {
                                                    match parse_string_body(s, i + 12) {
                                                        Some((tail, j)) => {
                                                            let ghost t0 = tail@;
                                                            let mut v: Vec<char> = Vec::new();
                                                            v.push(ch);
                                                            let mut tail = tail;
                                                            v.append(&mut tail);
                                                            assert(v@ =~= seq![ch] + t0);
                                                            Some((v, j))
                                                        },
                                                        None => None,
                                                    }
                                                },
                                                None => None,
                                            }
                                        } else {
                                            None
                                        }
                                    },
                                }
                            } else {
                                None
                            }
                        } else {
                            None
                        }
                    },
                }
            }
        } else {
            match unescape_char(s[i + 1]) {
                Some(c) => {
                    match parse_string_body(s, i + 2) {
                        Some((tail, j)) => {
                            let ghost t0 = tail@;
                            let mut v: Vec<char> = Vec::new();
                            v.push(c);
                            let mut tail = tail;
                            v.append(&mut tail);
                            assert(v@ =~= seq![c] + t0);
                            Some((v, j))
                        },
                        None => None,
                    }
                },
                None => None,
            }
        }
    } else if (s[i] as u32) < 0x20 {
        None
    } else {
        match parse_string_body(s, i + 1) {
            Some((tail, j)) => {
                let ghost t0 = tail@;
                let c = s[i];
                let mut v: Vec<char> = Vec::new();
                v.push(c);
                let mut tail = tail;
                v.append(&mut tail);
                assert(v@ =~= seq![c] + t0);
                Some((v, j))
            },
            None => None,
        }
    }
}

fn scan_frac(s: &Vec<char>, i: usize) -> (r: Option<usize>)
    ensures
        oi(r) == sp_frac(s@, i as int),
{
    if i < s.len() && s[i] == '.' {
        if i + 1 < s.len() && is_digit_exec(s[i + 1]) {
            Some(scan_digits(s, i + 1))
        } else {
            None
        }
    } else {
        Some(i)
    }
}

fn scan_exp(s: &Vec<char>, i: usize) -> (r: Option<usize>)
    ensures
        oi(r) == sp_exp(s@, i as int),
{
    if i < s.len() && (s[i] == 'e' || s[i] == 'E') {
        let p = if i + 1 < s.len() && (s[i + 1] == '+' || s[i + 1] == '-') {
            i + 2
        } else {
            i + 1
        };
        if p < s.len() && is_digit_exec(s[p]) {
            Some(scan_digits(s, p))
        } else {
            None
        }
    } else {
        Some(i)
    }
}

/// Recognises a number; mirrors `sp_number`.
pub fn scan_number(s: &Vec<char>, i: usize) -> (r: Option<usize>)
    ensures
        oi(r) == sp_number(s@, i as int),
{
    if i >= s.len() {
        None
    } else {
        let p = if s[i] == '-' {
            i + 1
        } else {
            i
        };
        if p < s.len() && is_digit_exec(s[p]) {
            let q = if s[p] == '0' {
                p + 1
            } else {
                scan_digits(s, p)
            };
            match scan_frac(s, q) {
                Some(q2) => scan_exp(s, q2),
                None => None,
            }
        } else {
            None
        }
    }
}

/// Recognises the fixed word `lit` at `i`.
pub fn match_lit(s: &Vec<char>, i: usize, lit: &str) -> (r: bool)
    ensures
        r == matches_at(s@, i as int, lit@),
{
    let n = lit.unicode_len();
    if i > s.len() || s.len() - i < n {
        return false;
    }
    let mut k: usize = 0;
    while k < n
        invariant
            n == lit@.len(),
            i + n <= s@.len(),
            i + n <= usize::MAX,
            k <= n,
            forall|j: int| 0 <= j < k ==> s@[i + j] == lit@[j],
        decreases n - k,
    {
        if s[i + k] != lit.get_char(k) {
            assert(s@.subrange(i as int, i + lit@.len())[k as int] != lit@[k as int]);
            return false;
        }
        k = k + 1;
    }
    assert(s@.subrange(i as int, i + lit@.len()) =~= lit@);
    true
}

/// Recognises a value; mirrors `sp_value`.
pub fn scan_value(s: &Vec<char>, i: usize) -> (r: Option<usize>)
    ensures
        oi(r) == sp_value(s@, i as int),
    decreases s@.len() - i, 0int,
{
    if i >= s.len() {
        None
    } else {
        let c = s[i];
        if c == 'n' {
            proof {
                reveal_strlit("null");
                assert("null"@ =~= seq!['n', 'u', 'l', 'l']);
            }
            if match_lit(s, i, "null") {
                Some(i + 4)
            } else {
                None
            }
        } else if c == 't' {
            proof {
                reveal_strlit("true");
                assert("true"@ =~= seq!['t', 'r', 'u', 'e']);
            }
            if match_lit(s, i, "true") {
                Some(i + 4)
            } else {
                None
            }
        } else if c == 'f' {
            proof {
                reveal_strlit("false");
                assert("false"@ =~= seq!['f', 'a', 'l', 's', 'e']);
            }
            if match_lit(s, i, "false") {
                Some(i + 5)
            } else {
                None
            }
        } else if c == '"' {
            match parse_string_body(s, i + 1) {
                Some((_t, j)) => Some(j),
                None => None,
            }
        } else if c == '-' || is_digit_exec(c) {
            scan_number(s, i)
        } else if c == '[' {
            let k = skip_ws(s, i + 1);
            if k < s.len() && k > i {
                if s[k] == ']' {
                    Some(k + 1)
                } else {
                    scan_elements(s, k)
                }
            } else {
                None
            }
        } else if c == '{' {
            let k = skip_ws(s, i + 1);
            if k < s.len() && k > i {
                if s[k] == '}' {
                    Some(k + 1)
                } else {
                    scan_members(s, k)
                }
            } else {
                None
            }
        } else {
            assert(!is_digit(s@[i as int]));
            None
        }
    }
}

/// Recognises array elements; mirrors `sp_elements`.
pub fn scan_elements(s: &Vec<char>, i: usize) -> (r: Option<usize>)
    ensures
        oi(r) == sp_elements(s@, i as int),
    decreases s@.len() - i, 1int,
{
    if i >= s.len() {
        None
    } else {
        match scan_value(s, i) {
            None => None,
            Some(j) => {
                let k = if j <= s.len() {
                    skip_ws(s, j)
                } else {
                    j
                };
                if k < s.len() && k > i {
                    if s[k] == ']' {
                        Some(k + 1)
                    } else if s[k] == ',' {
                        let m = skip_ws(s, k + 1);
                        if m > i && m <= s.len() {
                            scan_elements(s, m)
                        } else {
                            None
                        }
                    } else {
                        None
                    }
                } else {
                    None
                }
            },
        }
    }
}

/// Recognises object members; mirrors `sp_members`.
pub fn scan_members(s: &Vec<char>, i: usize) -> (r: Option<usize>)
    ensures
        oi(r) == sp_members(s@, i as int),
    decreases s@.len() - i, 1int,
{
    if i >= s.len() || s[i] != '"' {
        None
    } else {
        match parse_string_body(s, i + 1) {
            None => None,
            Some((_key, j)) => {
                let k = if j <= s.len() {
                    skip_ws(s, j)
                } else {
                    j
                };
                if k < s.len() && s[k] == ':' {
                    let m = skip_ws(s, k + 1);
                    if m > i && m <= s.len() {
                        match scan_value(s, m) {
                            None => None,
                            Some(j2) => {
                                let k2 = if j2 <= s.len() {
                                    skip_ws(s, j2)
                                } else {
                                    j2
                                };
                                if k2 < s.len() && k2 > i {
                                    if s[k2] == '}' {
                                        Some(k2 + 1)
                                    } else if s[k2] == ',' {
                                        let m2 = skip_ws(s, k2 + 1);
                                        if m2 > i && m2 <= s.len() {
                                            scan_members(s, m2)
                                        } else {
                                            None
                                        }
                                    } else {
                                        None
                                    }
                                } else {
                                    None
                                }
                            },
                        }
                    } else {
                        None
                    }
                } else {
                    None
                }
            },
        }
    }
}

/// Whether the characters form one JSON document; mirrors `json_accepts`.
pub fn is_json_chars(s: &Vec<char>) -> (r: bool)
    ensures
        r == json_accepts(s@),
{
    let i = skip_ws(s, 0);
    match scan_value(s, i) {
        Some(j) => {
            let k = if j <= s.len() {
                skip_ws(s, j)
            } else {
                j
            };
            k == s.len()
        },
        None => false,
    }
}

/// Whether `s` is one JSON document.
pub fn is_json_text(s: &str) -> (r: bool)
    ensures
        r == json_accepts(s@),
{
    let v = crate::strutil::str_chars(s);
    is_json_chars(&v)
}

} // verus!
