//! Field extractors for the "JSON-ish" output of compositor tools.
//!
//! No general JSON library: each extractor locates a `"key":` pattern and
//! reads the one literal shape it expects. A missing or malformed field
//! yields `None`, never an error, so callers compose extraction with default
//! substitution.

use vstd::prelude::*;
use crate::text::{
    char_pos, contains_pat, find_pattern, first_match, match_at, num_run_end, parse_i32_range,
    parse_u32_range, scan_num_run, scan_to_char, skip_whitespace, skip_ws, spec_parse_i32,
    spec_parse_u32, str_chars, trim_range, trim_ws,
};

verus! {

use vstd::string::StringExecFns;

/// The pattern the extractors search for: the key in quotes, followed by a
/// colon.
pub open spec fn key_pattern(key: Seq<char>) -> Seq<char> {
    seq!['"'] + key + seq!['"', ':']
}

/// Builds `key_pattern(key@)` as a character vector.
fn build_key_pattern(key: &str) -> (r: Vec<char>)
    ensures
        r@ == key_pattern(key@),
{
    let kcs = str_chars(key);
    let mut v: Vec<char> = Vec::new();
    v.push('"');
    let mut i: usize = 0;
    while i < kcs.len()
        invariant
            0 <= i <= kcs.len(),
            kcs@ == key@,
            v@ =~= seq!['"'] + key@.take(i as int),
        decreases kcs.len() - i,
    {
        v.push(kcs[i]);
        proof {
            assert(v@ =~= seq!['"'] + key@.take(i + 1));
        }
        i = i + 1;
    }
    v.push('"');
    v.push(':');
    proof {
        assert(key@.take(key@.len() as int) =~= key@);
        assert(v@ =~= key_pattern(key@));
    }
    v
}

/// Whether `pat` occurs in `text` starting exactly at `at`.
fn starts_with_at(text: &[char], at: usize, pat: &[char]) -> (r: bool)
    requires
        at <= text.len(),
    ensures
        r == match_at(text@, pat@, at as int),
{
    if pat.len() > text.len() - at {
        return false;
    }
    let mut k: usize = 0;
    while k < pat.len()
        invariant
            at + pat.len() <= text.len(),
            0 <= k <= pat.len(),
            text@.subrange(at as int, at + k) =~= pat@.subrange(0, k as int),
        decreases pat.len() - k,
    {
        let ghost pre_text = text@.subrange(at as int, at + k);
        let ghost pre_pat = pat@.subrange(0, k as int);
        if text[at + k] != pat[k] {
            proof {
                if match_at(text@, pat@, at as int) {
                    assert(text@.subrange(at as int, at + pat.len())[k as int] == text@[at + k]);
                    assert(pat@[k as int] == pat@[k as int]);
                }
            }
            return false;
        }
        proof {
            assert(text@.subrange(at as int, at + k + 1) =~= pre_text.push(text@[at + k]));
            assert(pat@.subrange(0, k as int + 1) =~= pre_pat.push(pat@[k as int]));
        }
        k = k + 1;
    }
    proof {
        assert(pat@.subrange(0, pat@.len() as int) =~= pat@);
    }
    true
}

/// Extracts a string value: after `"key":` and whitespace there must be a
/// quoted string; its raw content (escapes kept as written) is the value.
pub open spec fn spec_extract_string(json: Seq<char>, key: Seq<char>) -> Option<Seq<char>> {
    let pat = key_pattern(key);
    if !contains_pat(json, pat) {
        None
    } else {
        let p = skip_ws(json, first_match(json, pat) + pat.len());
        if p < json.len() && json[p] == '"' {
            match crate::text::close_quote(json, p + 1) {
                Some(e) => Some(json.subrange(p + 1, e)),
                None => None,
            }
        } else {
            None
        }
    }
}

/// Extracts a string value from JSON.
pub fn extract_json_string(json: &str, key: &str) -> (r: Option<String>)
    ensures
        match r {
            Some(s) => spec_extract_string(json@, key@) == Some(s@),
            None => spec_extract_string(json@, key@) is None,
        },
{
    let cs = str_chars(json);
    let pat = build_key_pattern(key);
    match find_pattern(&cs, &pat) {
        None => None,
        Some(m) => {
            let p = skip_whitespace(&cs, m + pat.len());
            if p < cs.len() && cs[p] == '"' {
                match scan_close_quote(&cs, p + 1) {
                    Some(e) => Some(String::from_str(json.substring_char(p + 1, e))),
                    None => None,
                }
            } else {
                None
            }
        },
    }
}

/// Scans for the closing quote, mirroring `close_quote`.
fn scan_close_quote(text: &[char], from: usize) -> (r: Option<usize>)
    requires
        from <= text.len(),
    ensures
        match r {
            Some(e) => from <= e < text.len() && crate::text::close_quote(text@, from as int)
                == Some(e as int),
            None => crate::text::close_quote(text@, from as int) is None,
        },
{
    let mut i: usize = from;
    loop
        invariant
            from <= i <= text.len(),
            crate::text::close_quote(text@, from as int) == crate::text::close_quote(
                text@,
                i as int,
            ),
        decreases text.len() - i,
    {
        if i >= text.len() {
            return None;
        }
        let c = text[i];
        if c == '\\' {
            if text.len() - i >= 2 {
                i = i + 2;
            } else {
                return None;
            }
        } else if c == '"' {
            return Some(i);
        } else {
            i = i + 1;
        }
    }
}

/// Extracts a hex string value (like "0x...") from JSON.
pub fn extract_json_hex_value(json: &str, key: &str) -> (r: Option<String>)
    ensures
        match r {
            Some(s) => spec_extract_string(json@, key@) == Some(s@),
            None => spec_extract_string(json@, key@) is None,
        },
{
    extract_json_string(json, key)
}

/// Extracts a numeric value: after `"key":` and whitespace, the run of
/// digits and minus signs must parse as a `u32`.
pub open spec fn spec_extract_number(json: Seq<char>, key: Seq<char>) -> Option<u32> {
    let pat = key_pattern(key);
    if !contains_pat(json, pat) {
        None
    } else {
        let p = skip_ws(json, first_match(json, pat) + pat.len());
        spec_parse_u32(json.subrange(p, num_run_end(json, p)))
    }
}

/// Extracts a numeric value from JSON.
pub fn extract_json_number(json: &str, key: &str) -> (r: Option<u32>)
    ensures
        r == spec_extract_number(json@, key@),
{
    let cs = str_chars(json);
    let pat = build_key_pattern(key);
    match find_pattern(&cs, &pat) {
        None => None,
        Some(m) => {
            let p = skip_whitespace(&cs, m + pat.len());
            let e = scan_num_run(&cs, p);
            parse_u32_range(&cs, p, e)
        },
    }
}

/// Extracts a boolean-like number: the same run, parsed as an `i32`.
pub open spec fn spec_extract_bool_num(json: Seq<char>, key: Seq<char>) -> Option<i32> {
    let pat = key_pattern(key);
    if !contains_pat(json, pat) {
        None
    } else {
        let p = skip_ws(json, first_match(json, pat) + pat.len());
        spec_parse_i32(json.subrange(p, num_run_end(json, p)))
    }
}

/// Extracts a boolean-like number from JSON (0 or non-zero).
pub fn extract_json_bool(json: &str, key: &str) -> (r: Option<i32>)
    ensures
        r == spec_extract_bool_num(json@, key@),
{
    let cs = str_chars(json);
    let pat = build_key_pattern(key);
    match find_pattern(&cs, &pat) {
        None => None,
        Some(m) => {
            let p = skip_whitespace(&cs, m + pat.len());
            let e = scan_num_run(&cs, p);
            parse_i32_range(&cs, p, e)
        },
    }
}

/// Extracts a `true`/`false` literal after `"key":` and whitespace.
pub open spec fn spec_extract_bool_field(json: Seq<char>, key: Seq<char>) -> Option<bool> {
    let pat = key_pattern(key);
    if !contains_pat(json, pat) {
        None
    } else {
        let p = skip_ws(json, first_match(json, pat) + pat.len());
        if match_at(json, "true"@, p) {
            Some(true)
        } else if match_at(json, "false"@, p) {
            Some(false)
        } else {
            None
        }
    }
}

/// Extracts a boolean field from JSON.
pub fn extract_json_bool_field(json: &str, key: &str) -> (r: Option<bool>)
    ensures
        r == spec_extract_bool_field(json@, key@),
{
    let cs = str_chars(json);
    let pat = build_key_pattern(key);
    match find_pattern(&cs, &pat) {
        None => None,
        Some(m) => {
            let p = skip_whitespace(&cs, m + pat.len());
            let tv = str_chars("true");
            let fv = str_chars("false");
            if starts_with_at(&cs, p, &tv) {
                Some(true)
            } else if starts_with_at(&cs, p, &fv) {
                Some(false)
            } else {
                None
            }
        },
    }
}

/// The raw text of the two elements of a bracketed pair `[a, b]` after
/// `"key":`, trimmed.
pub open spec fn spec_extract_pair_raw(json: Seq<char>, key: Seq<char>) -> Option<
    (Seq<char>, Seq<char>),
> {
    let pat = key_pattern(key);
    if !contains_pat(json, pat) {
        None
    } else {
        let p = skip_ws(json, first_match(json, pat) + pat.len());
        if p < json.len() && json[p] == '[' {
            let e = char_pos(json, p, ']');
            if e < json.len() {
                let c1 = char_pos(json, p + 1, ',');
                if c1 < e {
                    let c2 = char_pos(json, c1 + 1, ',');
                    let end1 = if c2 < e {
                        c2
                    } else {
                        e
                    };
                    Some(
                        (
                            trim_ws(json.subrange(p + 1, c1)),
                            trim_ws(json.subrange(c1 + 1, end1)),
                        ),
                    )
                } else {
                    None
                }
            } else {
                None
            }
        } else {
            None
        }
    }
}

/// A signed position pair `[x, y]` after `"key":`.
pub open spec fn spec_extract_position(json: Seq<char>, key: Seq<char>) -> Option<(i32, i32)> {
    match spec_extract_pair_raw(json, key) {
        None => None,
        Some((a, b)) => match (spec_parse_i32(a), spec_parse_i32(b)) {
            (Some(x), Some(y)) => Some((x, y)),
            _ => None,
        },
    }
}

/// An unsigned size pair `[w, h]` after `"key":`.
pub open spec fn spec_extract_size(json: Seq<char>, key: Seq<char>) -> Option<(u32, u32)> {
    match spec_extract_pair_raw(json, key) {
        None => None,
        Some((a, b)) => match (spec_parse_u32(a), spec_parse_u32(b)) {
            (Some(w), Some(h)) => Some((w, h)),
            _ => None,
        },
    }
}

/// Extracts a position array `[x, y]` from JSON.
pub fn extract_json_position(json: &str, key: &str) -> (r: Option<(i32, i32)>)
    ensures
        r == spec_extract_position(json@, key@),
{
    let cs = str_chars(json);
    let pat = build_key_pattern(key);
    match find_pattern(&cs, &pat) {
        None => None,
        Some(m) => {
            let p = skip_whitespace(&cs, m + pat.len());
            if p < cs.len() && cs[p] == '[' {
                let e = scan_to_char(&cs, p, ']');
                if e < cs.len() {
                    let c1 = scan_to_char(&cs, p + 1, ',');
                    if c1 < e {
                        let c2 = scan_to_char(&cs, c1 + 1, ',');
                        let end1 = if c2 < e {
                            c2
                        } else {
                            e
                        };
                        let (a0, a1) = trim_range(&cs, p + 1, c1);
                        let (b0, b1) = trim_range(&cs, c1 + 1, end1);
                        match (parse_i32_range(&cs, a0, a1), parse_i32_range(&cs, b0, b1)) {
                            (Some(x), Some(y)) => Some((x, y)),
                            _ => None,
                        }
                    } else {
                        None
                    }
                } else {
                    None
                }
            } else {
                None
            }
        },
    }
}

/// Extracts a size array `[w, h]` from JSON.
pub fn extract_json_size(json: &str, key: &str) -> (r: Option<(u32, u32)>)
    ensures
        r == spec_extract_size(json@, key@),
{
    let cs = str_chars(json);
    let pat = build_key_pattern(key);
    match find_pattern(&cs, &pat) {
        None => None,
        Some(m) => {
            let p = skip_whitespace(&cs, m + pat.len());
            if p < cs.len() && cs[p] == '[' {
                let e = scan_to_char(&cs, p, ']');
                if e < cs.len() {
                    let c1 = scan_to_char(&cs, p + 1, ',');
                    if c1 < e {
                        let c2 = scan_to_char(&cs, c1 + 1, ',');
                        let end1 = if c2 < e {
                            c2
                        } else {
                            e
                        };
                        let (a0, a1) = trim_range(&cs, p + 1, c1);
                        let (b0, b1) = trim_range(&cs, c1 + 1, end1);
                        match (parse_u32_range(&cs, a0, a1), parse_u32_range(&cs, b0, b1)) {
                            (Some(w), Some(h)) => Some((w, h)),
                            _ => None,
                        }
                    } else {
                        None
                    }
                } else {
                    None
                }
            } else {
                None
            }
        },
    }
}

/// Every extractor returns "not found" on text that lacks the requested
/// key's pattern; none can fail any other way.
pub proof fn lemma_extractors_total_on_missing_key(json: Seq<char>, key: Seq<char>)
    ensures
        !contains_pat(json, key_pattern(key)) ==> {
            &&& spec_extract_string(json, key) is None
            &&& spec_extract_number(json, key) is None
            &&& spec_extract_bool_num(json, key) is None
            &&& spec_extract_bool_field(json, key) is None
            &&& spec_extract_position(json, key) is None
            &&& spec_extract_size(json, key) is None
        },
{
}

} // verus!
