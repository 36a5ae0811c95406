use vstd::prelude::*;
use crate::json::{
    json_accepts, sp_string_body, sp_value, sp_ws, is_json_chars, oi, parse_string_body,
    scan_value, skip_ws,
};
use crate::strutil::{chars_eq_str, chars_to_string, str_chars};

verus! {

// ---------------------------------------------------------------------------
// The envelope the chat API answers with: the one field this system reads
// is `choices[0].message.content`, which must be a string.
// ---------------------------------------------------------------------------
/// Walks the members of an object, starting at the first key at `i`, to the
/// closing brace, and yields the position of the value of the last member
/// named `key`, whitespace skipped; `found` carries the best match so far.
/// The last occurrence wins, as under the usual object-as-map reading of
/// JSON, where a later member overwrites an earlier one.
pub open spec fn sp_find_member(s: Seq<char>, i: int, key: Seq<char>, found: Option<int>) -> Option<
    int,
>
    decreases s.len() - i,
{
    if i < 0 || i >= s.len() || s[i] != '"' {
        None
    } else {
        match sp_string_body(s, i + 1) {
            None => None,
            Some((k, j)) => {
                let p = sp_ws(s, j);
                if 0 <= p && p < s.len() && s[p] == ':' {
                    let v = sp_ws(s, p + 1);
                    let found2 = if k == key {
                        Some(v)
                    } else {
                        found
                    };
                    match sp_value(s, v) {
                        None => None,
                        Some(j2) => {
                            let q = sp_ws(s, j2);
                            if 0 <= q && q < s.len() && s[q] == ',' {
                                let n = sp_ws(s, q + 1);
                                if i < n <= s.len() {
                                    sp_find_member(s, n, key, found2)
                                } else {
                                    None
                                }
                            } else if 0 <= q && q < s.len() && s[q] == '}' {
                                found2
                            } else {
                                None
                            }
                        },
                    }
                } else {
                    None
                }
            },
        }
    }
}

/// The inner content the envelope carries, if the body is one JSON document
/// shaped as expected: an object whose `choices` member is an array whose
/// first element is an object carrying a `message` object with a string
/// `content` member.
pub open spec fn spec_envelope_content(s: Seq<char>) -> Option<Seq<char>> {
    if !json_accepts(s) {
        None
    } else {
        let i = sp_ws(s, 0);
        if 0 <= i && i < s.len() && s[i] == '{' {
            let j = sp_ws(s, i + 1);
            match sp_find_member(s, j, "choices"@, None) {
                None => None,
                Some(v) => if 0 <= v && v < s.len() && s[v] == '[' {
                    let e = sp_ws(s, v + 1);
                    if 0 <= e && e < s.len() && s[e] == '{' {
                        let m = sp_ws(s, e + 1);
                        match sp_find_member(s, m, "message"@, None) {
                            None => None,
                            Some(mv) => if 0 <= mv && mv < s.len() && s[mv] == '{' {
                                let c = sp_ws(s, mv + 1);
                                match sp_find_member(s, c, "content"@, None) {
                                    None => None,
                                    Some(cv) => if 0 <= cv && cv < s.len() && s[cv] == '"' {
                                        match sp_string_body(s, cv + 1) {
                                            Some((content, _end)) => Some(content),
                                            None => None,
                                        }
                                    } else {
                                        None
                                    },
                                }
                            } else {
                                None
                            },
                        }
                    } else {
                        None
                    }
                } else {
                    None
                },
            }
        } else {
            None
        }
    }
}

/// Finds the last member's value position; mirrors `sp_find_member`.
fn find_member(s: &Vec<char>, i: usize, key: &str, found: Option<usize>) -> (r: Option<usize>)
    ensures
        oi(r) == sp_find_member(s@, i as int, key@, oi(found)),
    decreases s@.len() - i,
{
    if i >= s.len() || s[i] != '"' {
        None
    } else {
        match parse_string_body(s, i + 1) {
            None => None,
            Some((k, j)) => {
                let p = skip_ws(s, j);
                if p < s.len() && s[p] == ':' {
                    let v = skip_ws(s, p + 1);
                    let found2 = if chars_eq_str(&k, key) {
                        Some(v)
                    } else {
                        found
                    };
                    match scan_value(s, v) {
                        None => None,
                        Some(j2) => {
                            let q = skip_ws(s, j2);
                            if q < s.len() && s[q] == ',' {
                                let n = skip_ws(s, q + 1);
                                if i < n && n <= s.len() {
                                    find_member(s, n, key, found2)
                                } else {
                                    None
                                }
                            } else if q < s.len() && s[q] == '}' {
                                found2
                            } else {
                                None
                            }
                        },
                    }
                } else {
                    None
                }
            },
        }
    }
}

/// Reads `choices[0].message.content` out of a response body; mirrors
/// `spec_envelope_content`.
pub fn envelope_content(body: &str) -> (r: Option<String>)
    ensures
        match r {
            Some(c) => spec_envelope_content(body@) == Some(c@),
            None => spec_envelope_content(body@) is None,
        },
{
    let s = str_chars(body);
    if !is_json_chars(&s) {
        return None;
    }
    let i = skip_ws(&s, 0);
    if !(i < s.len() && s[i] == '{') {
        return None;
    }
    let j = skip_ws(&s, i + 1);
    match find_member(&s, j, "choices", None) {
        None => None,
        Some(v) => {
            if !(v < s.len() && s[v] == '[') {
                return None;
            }
            let e = skip_ws(&s, v + 1);
            if !(e < s.len() && s[e] == '{') {
                return None;
            }
            let m = skip_ws(&s, e + 1);
            match find_member(&s, m, "message", None) {
                None => None,
                Some(mv) => {
                    if !(mv < s.len() && s[mv] == '{') {
                        return None;
                    }
                    let c = skip_ws(&s, mv + 1);
                    match find_member(&s, c, "content", None) {
                        None => None,
                        Some(cv) => {
                            if !(cv < s.len() && s[cv] == '"') {
                                return None;
                            }
                            match parse_string_body(&s, cv + 1) {
                                Some((content, _end)) => Some(chars_to_string(&content)),
                                None => None,
                            }
                        },
                    }
                },
            }
        },
    }
}

} // verus!
