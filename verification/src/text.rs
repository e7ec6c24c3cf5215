//! Character-level scanning primitives shared by the backend output parsers.
//!
//! Every compositor tool speaks a slightly different "JSON-ish" dialect, so
//! the parsers work directly on the characters of the tool's output. The
//! helpers here find key patterns, skip whitespace, and read number literals,
//! each against a mathematical definition over `Seq<char>`.

use vstd::prelude::*;

verus! {

use vstd::string::StringExecFns;

/// The pattern `pat` occurs in `text` starting at index `i`.
pub open spec fn match_at(text: Seq<char>, pat: Seq<char>, i: int) -> bool {
    &&& 0 <= i
    &&& i + pat.len() <= text.len()
    &&& text.subrange(i, i + pat.len()) == pat
}

/// The pattern occurs somewhere in the text.
pub open spec fn contains_pat(text: Seq<char>, pat: Seq<char>) -> bool {
    exists|i: int| match_at(text, pat, i)
}

/// Index of the first occurrence of `pat` in `text`; meaningful only when
/// `contains_pat(text, pat)` holds.
pub open spec fn first_match(text: Seq<char>, pat: Seq<char>) -> int {
    choose|i: int| match_at(text, pat, i) && forall|j: int| 0 <= j < i ==> !match_at(text, pat, j)
}

/// The first occurrence is unique, so any index that matches with nothing
/// before it is `first_match`.
pub proof fn lemma_first_match(text: Seq<char>, pat: Seq<char>, i: int)
    requires
        match_at(text, pat, i),
        forall|j: int| 0 <= j < i ==> !match_at(text, pat, j),
    ensures
        first_match(text, pat) == i,
        contains_pat(text, pat),
{
    assert(match_at(text, pat, i) && forall|j: int| 0 <= j < i ==> !match_at(text, pat, j));
    let c = choose|c: int|
        match_at(text, pat, c) && forall|j: int| 0 <= j < c ==> !match_at(text, pat, j);
    if c < i {
        assert(!match_at(text, pat, c));
    }
    if i < c {
        assert(!match_at(text, pat, i));
    }
}

/// Whitespace as the tool-output parsers understand it.
pub open spec fn is_ws(c: char) -> bool {
    c == ' ' || c == '\t' || c == '\n' || c == '\r'
}

/// First index at or after `i` holding a non-whitespace character (or the end
/// of the text).
pub open spec fn skip_ws(text: Seq<char>, i: int) -> int
    recommends
        0 <= i <= text.len(),
    decreases text.len() - i,
{
    if i < text.len() && is_ws(text[i]) {
        skip_ws(text, i + 1)
    } else {
        i
    }
}

pub proof fn lemma_skip_ws_bounds(text: Seq<char>, i: int)
    requires
        0 <= i <= text.len(),
    ensures
        i <= skip_ws(text, i) <= text.len(),
        skip_ws(text, i) < text.len() ==> !is_ws(text[skip_ws(text, i)]),
    decreases text.len() - i,
{
    if i < text.len() && is_ws(text[i]) {
        lemma_skip_ws_bounds(text, i + 1);
    }
}

pub open spec fn is_digit(c: char) -> bool {
    '0' <= c && c <= '9'
}

pub open spec fn digit_val(c: char) -> int {
    c as int - '0' as int
}

/// All characters of `s` are decimal digits.
pub open spec fn all_digits(s: Seq<char>) -> bool {
    forall|i: int| 0 <= i < s.len() ==> is_digit(#[trigger] s[i])
}

/// Value of a sequence of decimal digits, most significant first.
pub open spec fn dec_value(s: Seq<char>) -> int
    decreases s.len(),
{
    if s.len() == 0 {
        0
    } else {
        dec_value(s.drop_last()) * 10 + digit_val(s.last())
    }
}

pub open spec fn is_hex_digit(c: char) -> bool {
    is_digit(c) || ('a' <= c && c <= 'f') || ('A' <= c && c <= 'F')
}

pub open spec fn hex_digit_val(c: char) -> int {
    if is_digit(c) {
        digit_val(c)
    } else if 'a' <= c && c <= 'f' {
        c as int - 'a' as int + 10
    } else {
        c as int - 'A' as int + 10
    }
}

pub open spec fn all_hex_digits(s: Seq<char>) -> bool {
    forall|i: int| 0 <= i < s.len() ==> is_hex_digit(#[trigger] s[i])
}

/// Value of a sequence of hexadecimal digits, most significant first.
pub open spec fn hex_value(s: Seq<char>) -> int
    decreases s.len(),
{
    if s.len() == 0 {
        0
    } else {
        hex_value(s.drop_last()) * 16 + hex_digit_val(s.last())
    }
}

/// Finds the first occurrence of `pat` in `text`, scanning left to right.
pub fn find_pattern(text: &[char], pat: &[char]) -> (r: Option<usize>)
    ensures
        match r {
            Some(i) => {
                &&& match_at(text@, pat@, i as int)
                &&& forall|j: int| 0 <= j < i ==> !match_at(text@, pat@, j)
                &&& i == first_match(text@, pat@)
            },
            None => !contains_pat(text@, pat@),
        },
{
    if pat.len() > text.len() {
        assert(forall|j: int| !match_at(text@, pat@, j));
        return None;
    }
    if pat.len() == 0 {
        proof {
            assert(text@.subrange(0, 0) =~= pat@);
            lemma_first_match(text@, pat@, 0);
        }
        return Some(0);
    }
    let end: usize = text.len() - pat.len();
    let mut i: usize = 0;
    while i <= end
        invariant
            1 <= pat.len() <= text.len(),
            end == text.len() - pat.len(),
            0 <= i <= end + 1,
            forall|j: int| 0 <= j < i ==> !match_at(text@, pat@, j),
        decreases end + 1 - i,
    {
        let mut k: usize = 0;
        let mut all_eq: bool = true;
        while k < pat.len() && all_eq
            invariant
                0 <= k <= pat.len(),
                i + pat.len() <= text.len(),
                all_eq ==> text@.subrange(i as int, i + k) =~= pat@.subrange(0, k as int),
                !all_eq ==> !match_at(text@, pat@, i as int),
            decreases pat.len() - k + (if all_eq { 1int } else { 0int }),
        {
            let ghost pre_text = text@.subrange(i as int, i + k);
            let ghost pre_pat = pat@.subrange(0, k as int);
            if text[i + k] != pat[k] {
                all_eq = false;
                proof {
                    if match_at(text@, pat@, i as int) {
                        assert(text@.subrange(i as int, i + pat.len())[k as int] == text@[i + k]);
                    }
                }
            } else {
                proof {
                    assert(text@.subrange(i as int, i + k + 1) =~= pre_text.push(text@[i + k]));
                    assert(pat@.subrange(0, k as int + 1) =~= pre_pat.push(pat@[k as int]));
                }
                k = k + 1;
            }
        }
        if all_eq {
            proof {
                assert(pat@.subrange(0, pat@.len() as int) =~= pat@);
                assert(match_at(text@, pat@, i as int));
                lemma_first_match(text@, pat@, i as int);
            }
            return Some(i);
        }
        i = i + 1;
    }
    assert(forall|j: int| !match_at(text@, pat@, j));
    None
}

pub proof fn lemma_dec_take_step(s: Seq<char>, i: int)
    requires
        0 <= i < s.len(),
    ensures
        dec_value(s.take(i + 1)) == dec_value(s.take(i)) * 10 + digit_val(s[i]),
{
    assert(s.take(i + 1).drop_last() =~= s.take(i));
    assert(s.take(i + 1).last() == s[i]);
}

pub proof fn lemma_dec_nonneg(s: Seq<char>)
    requires
        all_digits(s),
    ensures
        dec_value(s) >= 0,
    decreases s.len(),
{
    if s.len() > 0 {
        assert(all_digits(s.drop_last())) by {
            assert(forall|i: int|
                0 <= i < s.drop_last().len() ==> #[trigger] s.drop_last()[i] == s[i]);
        }
        lemma_dec_nonneg(s.drop_last());
        assert(is_digit(s.last()));
    }
}

pub proof fn lemma_dec_grows(s: Seq<char>, i: int)
    requires
        all_digits(s),
        0 <= i <= s.len(),
    ensures
        dec_value(s) >= dec_value(s.take(i)),
    decreases s.len() - i,
{
    if i < s.len() {
        lemma_dec_take_step(s, i);
        assert(all_digits(s.take(i))) by {
            assert(forall|j: int| 0 <= j < i ==> #[trigger] s.take(i)[j] == s[j]);
        }
        lemma_dec_nonneg(s.take(i));
        assert(dec_value(s.take(i + 1)) >= dec_value(s.take(i)));
        lemma_dec_grows(s, i + 1);
    } else {
        assert(s.take(i) =~= s);
    }
}

pub proof fn lemma_hex_take_step(s: Seq<char>, i: int)
    requires
        0 <= i < s.len(),
    ensures
        hex_value(s.take(i + 1)) == hex_value(s.take(i)) * 16 + hex_digit_val(s[i]),
{
    assert(s.take(i + 1).drop_last() =~= s.take(i));
    assert(s.take(i + 1).last() == s[i]);
}

pub proof fn lemma_hex_nonneg(s: Seq<char>)
    requires
        all_hex_digits(s),
    ensures
        hex_value(s) >= 0,
    decreases s.len(),
{
    if s.len() > 0 {
        assert(all_hex_digits(s.drop_last())) by {
            assert(forall|i: int|
                0 <= i < s.drop_last().len() ==> #[trigger] s.drop_last()[i] == s[i]);
        }
        lemma_hex_nonneg(s.drop_last());
        assert(is_hex_digit(s.last()));
    }
}

pub proof fn lemma_hex_grows(s: Seq<char>, i: int)
    requires
        all_hex_digits(s),
        0 <= i <= s.len(),
    ensures
        hex_value(s) >= hex_value(s.take(i)),
    decreases s.len() - i,
{
    if i < s.len() {
        lemma_hex_take_step(s, i);
        assert(all_hex_digits(s.take(i))) by {
            assert(forall|j: int| 0 <= j < i ==> #[trigger] s.take(i)[j] == s[j]);
        }
        lemma_hex_nonneg(s.take(i));
        lemma_hex_grows(s, i + 1);
    } else {
        assert(s.take(i) =~= s);
    }
}

/// First index at or after `i` whose character belongs to neither a decimal
/// digit nor a minus sign: the end of the number-like run that the JSON field
/// extractors read.
pub open spec fn num_run_end(text: Seq<char>, i: int) -> int
    recommends
        0 <= i <= text.len(),
    decreases text.len() - i,
{
    if i < text.len() && (is_digit(text[i]) || text[i] == '-') {
        num_run_end(text, i + 1)
    } else {
        i
    }
}

pub proof fn lemma_num_run_bounds(text: Seq<char>, i: int)
    requires
        0 <= i <= text.len(),
    ensures
        i <= num_run_end(text, i) <= text.len(),
    decreases text.len() - i,
{
    if i < text.len() && (is_digit(text[i]) || text[i] == '-') {
        lemma_num_run_bounds(text, i + 1);
    }
}

/// Scans the number-like run starting at `from`, mirroring `num_run_end`.
pub fn scan_num_run(text: &[char], from: usize) -> (r: usize)
    requires
        from <= text.len(),
    ensures
        r == num_run_end(text@, from as int),
        from <= r <= text.len(),
{
    let mut i: usize = from;
    while i < text.len() && (('0' <= text[i] && text[i] <= '9') || text[i] == '-')
        invariant
            from <= i <= text.len(),
            num_run_end(text@, from as int) == num_run_end(text@, i as int),
        decreases text.len() - i,
    {
        i = i + 1;
    }
    proof {
        lemma_num_run_bounds(text@, i as int);
    }
    i
}

/// What `u32` parsing accepts: a non-empty run of decimal digits whose value
/// fits.
pub open spec fn spec_parse_u32(s: Seq<char>) -> Option<u32> {
    if s.len() > 0 && all_digits(s) && dec_value(s) <= u32::MAX {
        Some(dec_value(s) as u32)
    } else {
        None
    }
}

/// Parses `text[from..to]` as a `u32`, mirroring `spec_parse_u32`.
pub fn parse_u32_range(text: &[char], from: usize, to: usize) -> (r: Option<u32>)
    requires
        from <= to <= text.len(),
    ensures
        r == spec_parse_u32(text@.subrange(from as int, to as int)),
{
    let ghost s = text@.subrange(from as int, to as int);
    if from == to {
        return None;
    }
    let mut acc: u64 = 0;
    let mut i: usize = from;
    while i < to
        invariant
            from <= i <= to <= text.len(),
            s == text@.subrange(from as int, to as int),
            all_digits(s.take(i - from)),
            acc == dec_value(s.take(i - from)),
            acc <= u32::MAX,
        decreases to - i,
    {
        let c = text[i];
        if !('0' <= c && c <= '9') {
            assert(s[i - from] == c);
            assert(!all_digits(s));
            return None;
        }
        let d: u64 = (c as u32 as u64) - ('0' as u32 as u64);
        proof {
            lemma_dec_take_step(s, i - from);
            assert(s[i - from] == c);
        }
        let next: u64 = acc * 10 + d;
        if next > u32::MAX as u64 {
            proof {
                assert(all_digits(s.take(i - from + 1)));
                if all_digits(s) {
                    lemma_dec_grows(s, i - from + 1);
                }
            }
            return None;
        }
        acc = next;
        i = i + 1;
    }
    proof {
        assert(s.take(to - from) =~= s);
    }
    Some(acc as u32)
}

/// What `u32` hexadecimal parsing accepts: a non-empty run of hex digits
/// whose value fits.
pub open spec fn spec_parse_u32_hex(s: Seq<char>) -> Option<u32> {
    if s.len() > 0 && all_hex_digits(s) && hex_value(s) <= u32::MAX {
        Some(hex_value(s) as u32)
    } else {
        None
    }
}

/// Parses `text[from..to]` as hexadecimal, mirroring `spec_parse_u32_hex`.
pub fn parse_u32_hex_range(text: &[char], from: usize, to: usize) -> (r: Option<u32>)
    requires
        from <= to <= text.len(),
    ensures
        r == spec_parse_u32_hex(text@.subrange(from as int, to as int)),
{
    let ghost s = text@.subrange(from as int, to as int);
    if from == to {
        return None;
    }
    let mut acc: u64 = 0;
    let mut i: usize = from;
    while i < to
        invariant
            from <= i <= to <= text.len(),
            s == text@.subrange(from as int, to as int),
            all_hex_digits(s.take(i - from)),
            acc == hex_value(s.take(i - from)),
            acc <= u32::MAX,
        decreases to - i,
    {
        let c = text[i];
        let d: u64 = if '0' <= c && c <= '9' {
            (c as u32 as u64) - ('0' as u32 as u64)
        } else if 'a' <= c && c <= 'f' {
            (c as u32 as u64) - ('a' as u32 as u64) + 10
        } else if 'A' <= c && c <= 'F' {
            (c as u32 as u64) - ('A' as u32 as u64) + 10
        } else {
            assert(s[i - from] == c);
            assert(!all_hex_digits(s));
            return None;
        };
        proof {
            lemma_hex_take_step(s, i - from);
            assert(s[i - from] == c);
        }
        let next: u64 = acc * 16 + d;
        if next > u32::MAX as u64 {
            proof {
                assert(all_hex_digits(s.take(i - from + 1)));
                if all_hex_digits(s) {
                    lemma_hex_grows(s, i - from + 1);
                }
            }
            return None;
        }
        acc = next;
        i = i + 1;
    }
    proof {
        assert(s.take(to - from) =~= s);
    }
    Some(acc as u32)
}

/// What `i32` parsing accepts: an optional sign, then a non-empty digit run
/// whose value fits.
pub open spec fn spec_parse_i32(s: Seq<char>) -> Option<i32> {
    if s.len() == 0 {
        None
    } else if s[0] == '-' {
        let digits = s.subrange(1, s.len() as int);
        if digits.len() > 0 && all_digits(digits) && dec_value(digits) <= 0x8000_0000 {
            Some((-dec_value(digits)) as i32)
        } else {
            None
        }
    } else if s[0] == '+' {
        let digits = s.subrange(1, s.len() as int);
        if digits.len() > 0 && all_digits(digits) && dec_value(digits) <= i32::MAX {
            Some(dec_value(digits) as i32)
        } else {
            None
        }
    } else {
        if all_digits(s) && dec_value(s) <= i32::MAX {
            Some(dec_value(s) as i32)
        } else {
            None
        }
    }
}

/// Parses `text[from..to]` as an `i32`, mirroring `spec_parse_i32`.
pub fn parse_i32_range(text: &[char], from: usize, to: usize) -> (r: Option<i32>)
    requires
        from <= to <= text.len(),
    ensures
        r == spec_parse_i32(text@.subrange(from as int, to as int)),
{
    let ghost s = text@.subrange(from as int, to as int);
    if from == to {
        return None;
    }
    let c0 = text[from];
    assert(s[0] == c0);
    if c0 == '-' {
        proof {
            assert(s.subrange(1, s.len() as int) =~= text@.subrange(from + 1, to as int));
        }
        match parse_u32_range_wide(text, from + 1, to, 0x8000_0000) {
            Some(v) => Some((-(v as i64)) as i32),
            None => None,
        }
    } else if c0 == '+' {
        proof {
            assert(s.subrange(1, s.len() as int) =~= text@.subrange(from + 1, to as int));
        }
        match parse_u32_range_wide(text, from + 1, to, i32::MAX as u64) {
            Some(v) => Some(v as i32),
            None => None,
        }
    } else {
        match parse_u32_range_wide(text, from, to, i32::MAX as u64) {
            Some(v) => Some(v as i32),
            None => None,
        }
    }
}

/// Parses a digit run whose value must stay within `limit`.
fn parse_u32_range_wide(text: &[char], from: usize, to: usize, limit: u64) -> (r: Option<u64>)
    requires
        from <= to <= text.len(),
        limit <= u32::MAX as u64 + 1,
    ensures
        ({
            let s = text@.subrange(from as int, to as int);
            match r {
                Some(v) => s.len() > 0 && all_digits(s) && dec_value(s) == v && v <= limit,
                None => !(s.len() > 0 && all_digits(s) && dec_value(s) <= limit),
            }
        }),
{
    let ghost s = text@.subrange(from as int, to as int);
    if from == to {
        return None;
    }
    let mut acc: u64 = 0;
    let mut i: usize = from;
    while i < to
        invariant
            from <= i <= to <= text.len(),
            s == text@.subrange(from as int, to as int),
            limit <= u32::MAX as u64 + 1,
            all_digits(s.take(i - from)),
            acc == dec_value(s.take(i - from)),
            acc <= limit,
        decreases to - i,
    {
        let c = text[i];
        if !('0' <= c && c <= '9') {
            assert(s[i - from] == c);
            assert(!all_digits(s));
            return None;
        }
        let d: u64 = (c as u32 as u64) - ('0' as u32 as u64);
        proof {
            lemma_dec_take_step(s, i - from);
            assert(s[i - from] == c);
        }
        let next: u64 = acc * 10 + d;
        if next > limit {
            proof {
                assert(all_digits(s.take(i - from + 1)));
                if all_digits(s) {
                    lemma_dec_grows(s, i - from + 1);
                }
            }
            return None;
        }
        acc = next;
        i = i + 1;
    }
    proof {
        assert(s.take(to - from) =~= s);
    }
    Some(acc)
}

/// Collects the characters of a string into a vector, so the parsers can
/// index them directly.
pub fn str_chars(s: &str) -> (v: Vec<char>)
    ensures
        v@ == s@,
{
    broadcast use vstd::string::group_string_axioms;

    let mut v: Vec<char> = Vec::new();
    for c in it: s.chars()
        invariant
            v@ =~= it.seq().take(it.index() as int),
            it.seq() == s@,
    {
        v.push(c);
    }
    proof {
        assert(v@ =~= s@);
    }
    v
}

/// Advances past whitespace, mirroring `skip_ws`.
pub fn skip_whitespace(text: &[char], from: usize) -> (r: usize)
    requires
        from <= text.len(),
    ensures
        r == skip_ws(text@, from as int),
        from <= r <= text.len(),
        r < text.len() ==> !is_ws(text@[r as int]),
{
    let mut i: usize = from;
    while i < text.len() && (text[i] == ' ' || text[i] == '\t' || text[i] == '\n' || text[i] == '\r')
        invariant
            from <= i <= text.len(),
            skip_ws(text@, from as int) == skip_ws(text@, i as int),
        decreases text.len() - i,
    {
        i = i + 1;
    }
    proof {
        lemma_skip_ws_bounds(text@, i as int);
    }
    i
}

pub open spec fn is_upper(c: char) -> bool {
    'A' <= c && c <= 'Z'
}

/// ASCII-case-insensitive character equality.
pub open spec fn char_eq_ci(a: char, b: char) -> bool {
    ||| a == b
    ||| (is_upper(a) && a as int + 32 == b as int)
    ||| (is_upper(b) && b as int + 32 == a as int)
}

/// ASCII-case-insensitive sequence equality.
pub open spec fn eq_ci(s: Seq<char>, t: Seq<char>) -> bool {
    s.len() == t.len() && forall|i: int| 0 <= i < s.len() ==> char_eq_ci(s[i], #[trigger] t[i])
}

/// The pattern occurs at index `i`, compared case-insensitively.
pub open spec fn match_at_ci(text: Seq<char>, pat: Seq<char>, i: int) -> bool {
    &&& 0 <= i
    &&& i + pat.len() <= text.len()
    &&& eq_ci(text.subrange(i, i + pat.len()), pat)
}

/// The pattern occurs somewhere in the text, compared case-insensitively.
pub open spec fn contains_ci(text: Seq<char>, pat: Seq<char>) -> bool {
    exists|i: int| match_at_ci(text, pat, i)
}

/// Case-insensitive character comparison.
fn char_ci(a: char, b: char) -> (r: bool)
    ensures
        r == char_eq_ci(a, b),
{
    let au = a as u32;
    let bu = b as u32;
    au == bu || (65 <= au && au <= 90 && au + 32 == bu) || (65 <= bu && bu <= 90 && bu + 32 == au)
}

/// Compares `text[from..to]` with `pat`, ignoring ASCII case.
pub fn eq_ci_range(text: &[char], from: usize, to: usize, pat: &[char]) -> (r: bool)
    requires
        from <= to <= text.len(),
    ensures
        r == eq_ci(text@.subrange(from as int, to as int), pat@),
{
    let ghost s = text@.subrange(from as int, to as int);
    if to - from != pat.len() {
        return false;
    }
    let mut k: usize = 0;
    while k < pat.len()
        invariant
            from <= to <= text.len(),
            to - from == pat.len(),
            0 <= k <= pat.len(),
            s == text@.subrange(from as int, to as int),
            forall|i: int| 0 <= i < k ==> char_eq_ci(s[i], #[trigger] pat@[i]),
        decreases pat.len() - k,
    {
        if !char_ci(text[from + k], pat[k]) {
            assert(s[k as int] == text@[from + k]);
            return false;
        }
        assert(s[k as int] == text@[from + k]);
        k = k + 1;
    }
    true
}

/// Whether `pat` occurs anywhere in `text`, ignoring ASCII case.
pub fn contains_ci_scan(text: &[char], pat: &[char]) -> (r: bool)
    ensures
        r == contains_ci(text@, pat@),
{
    if pat.len() > text.len() {
        assert(forall|j: int| !match_at_ci(text@, pat@, j));
        return false;
    }
    let end: usize = text.len() - pat.len();
    let mut i: usize = 0;
    while i <= end
        invariant
            pat.len() <= text.len(),
            end == text.len() - pat.len(),
            0 <= i <= end + 1,
            forall|j: int| 0 <= j < i ==> !match_at_ci(text@, pat@, j),
        decreases end + 1 - i,
    {
        if eq_ci_range(text, i, i + pat.len(), pat) {
            assert(match_at_ci(text@, pat@, i as int));
            return true;
        }
        assert(!match_at_ci(text@, pat@, i as int));
        i = i + 1;
    }
    assert(forall|j: int| !match_at_ci(text@, pat@, j));
    false
}

/// Index one past the last non-whitespace character of `s` (0 when `s` is all
/// whitespace).
pub open spec fn rstrip_ws_end(s: Seq<char>) -> int
    decreases s.len(),
{
    if s.len() > 0 && is_ws(s.last()) {
        rstrip_ws_end(s.drop_last())
    } else {
        s.len() as int
    }
}

/// `s` with leading and trailing whitespace removed.
pub open spec fn trim_ws(s: Seq<char>) -> Seq<char> {
    let b = rstrip_ws_end(s);
    let a = skip_ws(s, 0);
    if a <= b {
        s.subrange(a, b)
    } else {
        Seq::empty()
    }
}

pub proof fn lemma_skip_ws_exact(s: Seq<char>, i: int, k: int)
    requires
        0 <= i <= k <= s.len(),
        forall|j: int| i <= j < k ==> is_ws(#[trigger] s[j]),
        k < s.len() ==> !is_ws(s[k]),
    ensures
        skip_ws(s, i) == k,
    decreases k - i,
{
    if i < k {
        lemma_skip_ws_exact(s, i + 1, k);
    }
}

pub proof fn lemma_rstrip_exact(s: Seq<char>, b: int)
    requires
        0 <= b <= s.len(),
        forall|j: int| b <= j < s.len() ==> is_ws(#[trigger] s[j]),
        b > 0 ==> !is_ws(s[b - 1]),
    ensures
        rstrip_ws_end(s) == b,
    decreases s.len(),
{
    if s.len() > 0 && is_ws(s.last()) {
        assert(b < s.len());
        assert(forall|j: int|
            b <= j < s.drop_last().len() ==> #[trigger] s.drop_last()[j] == s[j]);
        lemma_rstrip_exact(s.drop_last(), b);
    }
}

/// Bounds of `text[from..to]` once leading and trailing whitespace is
/// dropped, as absolute indices.
pub fn trim_range(text: &[char], from: usize, to: usize) -> (r: (usize, usize))
    requires
        from <= to <= text.len(),
    ensures
        from <= r.0 <= r.1 <= to,
        trim_ws(text@.subrange(from as int, to as int)) == text@.subrange(
            r.0 as int,
            r.1 as int,
        ),
{
    let ghost s = text@.subrange(from as int, to as int);
    let mut a: usize = from;
    while a < to && (text[a] == ' ' || text[a] == '\t' || text[a] == '\n' || text[a] == '\r')
        invariant
            from <= a <= to <= text.len(),
            forall|j: int| from <= j < a ==> is_ws(#[trigger] text@[j]),
        decreases to - a,
    {
        a = a + 1;
    }
    let mut b: usize = to;
    while b > a && (text[b - 1] == ' ' || text[b - 1] == '\t' || text[b - 1] == '\n' || text[b - 1]
        == '\r')
        invariant
            from <= a <= b <= to <= text.len(),
            forall|j: int| b <= j < to ==> is_ws(#[trigger] text@[j]),
        decreases b,
    {
        b = b - 1;
    }
    proof {
        assert(forall|j: int| 0 <= j < s.len() ==> #[trigger] s[j] == text@[from + j]);
        if a == to {
            // the whole range is whitespace
            lemma_skip_ws_exact(s, 0, s.len() as int);
            lemma_rstrip_exact(s, 0);
            assert(trim_ws(s) =~= text@.subrange(a as int, b as int));
        } else {
            lemma_skip_ws_exact(s, 0, a - from);
            lemma_rstrip_exact(s, b - from);
            assert(trim_ws(s) =~= text@.subrange(a as int, b as int));
        }
    }
    (a, b)
}

/// First index at or after `i` holding a colon (or the end of the text).
pub open spec fn colon_end(text: Seq<char>, i: int) -> int
    recommends
        0 <= i <= text.len(),
    decreases text.len() - i,
{
    if i < text.len() && text[i] != ':' {
        colon_end(text, i + 1)
    } else {
        i
    }
}

pub proof fn lemma_colon_end_bounds(text: Seq<char>, i: int)
    requires
        0 <= i <= text.len(),
    ensures
        i <= colon_end(text, i) <= text.len(),
        colon_end(text, i) < text.len() ==> text[colon_end(text, i)] == ':',
    decreases text.len() - i,
{
    if i < text.len() && text[i] != ':' {
        lemma_colon_end_bounds(text, i + 1);
    }
}

/// Scans to the next colon, mirroring `colon_end`.
pub fn scan_to_colon(text: &[char], from: usize) -> (r: usize)
    requires
        from <= text.len(),
    ensures
        r == colon_end(text@, from as int),
        from <= r <= text.len(),
        r < text.len() ==> text@[r as int] == ':',
{
    let mut i: usize = from;
    while i < text.len() && text[i] != ':'
        invariant
            from <= i <= text.len(),
            colon_end(text@, from as int) == colon_end(text@, i as int),
        decreases text.len() - i,
    {
        i = i + 1;
    }
    proof {
        lemma_colon_end_bounds(text@, i as int);
    }
    i
}

/// Index of the closing quote of a string literal whose content starts at
/// `i`: the first unescaped `"` at or after `i` (a backslash escapes the
/// character after it), or `None` when the string never closes.
pub open spec fn close_quote(s: Seq<char>, i: int) -> Option<int>
    recommends
        0 <= i <= s.len(),
    decreases s.len() - i,
{
    if i >= s.len() {
        None
    } else if s[i] == '\\' {
        if i + 2 <= s.len() {
            close_quote(s, i + 2)
        } else {
            None
        }
    } else if s[i] == '"' {
        Some(i)
    } else {
        close_quote(s, i + 1)
    }
}

/// The pattern occurs at or after `from`.
pub open spec fn contains_from(text: Seq<char>, pat: Seq<char>, from: int) -> bool {
    exists|i: int| from <= i && match_at(text, pat, i)
}

/// Index of the first occurrence of `pat` at or after `from`; meaningful
/// only when `contains_from` holds.
pub open spec fn first_match_from(text: Seq<char>, pat: Seq<char>, from: int) -> int {
    choose|i: int|
        from <= i && match_at(text, pat, i) && forall|j: int|
            from <= j < i ==> !match_at(text, pat, j)
}

pub proof fn lemma_first_match_from(text: Seq<char>, pat: Seq<char>, from: int, i: int)
    requires
        from <= i,
        match_at(text, pat, i),
        forall|j: int| from <= j < i ==> !match_at(text, pat, j),
    ensures
        first_match_from(text, pat, from) == i,
        contains_from(text, pat, from),
{
    assert(from <= i && match_at(text, pat, i) && forall|j: int|
        from <= j < i ==> !match_at(text, pat, j));
    let c = choose|c: int|
        from <= c && match_at(text, pat, c) && forall|j: int|
            from <= j < c ==> !match_at(text, pat, j);
    if c < i {
        assert(!match_at(text, pat, c));
    }
    if i < c {
        assert(!match_at(text, pat, i));
    }
}

/// Finds the first occurrence of `pat` at or after `from`.
pub fn find_pattern_from(text: &[char], pat: &[char], from: usize) -> (r: Option<usize>)
    requires
        from <= text.len(),
    ensures
        match r {
            Some(i) => {
                &&& from <= i
                &&& match_at(text@, pat@, i as int)
                &&& forall|j: int| from <= j < i ==> !match_at(text@, pat@, j)
                &&& i == first_match_from(text@, pat@, from as int)
            },
            None => !contains_from(text@, pat@, from as int),
        },
{
    if pat.len() > text.len() || from > text.len() - pat.len() {
        assert(forall|j: int| from <= j ==> !match_at(text@, pat@, j));
        return None;
    }
    if pat.len() == 0 {
        proof {
            assert(text@.subrange(from as int, from as int) =~= pat@);
            lemma_first_match_from(text@, pat@, from as int, from as int);
        }
        return Some(from);
    }
    let end: usize = text.len() - pat.len();
    let mut i: usize = from;
    while i <= end
        invariant
            1 <= pat.len() <= text.len(),
            end == text.len() - pat.len(),
            from <= i <= end + 1,
            forall|j: int| from <= j < i ==> !match_at(text@, pat@, j),
        decreases end + 1 - i,
    {
        let mut k: usize = 0;
        let mut all_eq: bool = true;
        while k < pat.len() && all_eq
            invariant
                0 <= k <= pat.len(),
                i + pat.len() <= text.len(),
                all_eq ==> text@.subrange(i as int, i + k) =~= pat@.subrange(0, k as int),
                !all_eq ==> !match_at(text@, pat@, i as int),
            decreases pat.len() - k + (if all_eq { 1int } else { 0int }),
        {
            let ghost pre_text = text@.subrange(i as int, i + k);
            let ghost pre_pat = pat@.subrange(0, k as int);
            if text[i + k] != pat[k] {
                all_eq = false;
                proof {
                    if match_at(text@, pat@, i as int) {
                        assert(text@.subrange(i as int, i + pat.len())[k as int] == text@[i + k]);
                    }
                }
            } else {
                proof {
                    assert(text@.subrange(i as int, i + k + 1) =~= pre_text.push(text@[i + k]));
                    assert(pat@.subrange(0, k as int + 1) =~= pre_pat.push(pat@[k as int]));
                }
                k = k + 1;
            }
        }
        if all_eq {
            proof {
                assert(pat@.subrange(0, pat@.len() as int) =~= pat@);
                assert(match_at(text@, pat@, i as int));
                lemma_first_match_from(text@, pat@, from as int, i as int);
            }
            return Some(i);
        }
        i = i + 1;
    }
    assert(forall|j: int| from <= j ==> !match_at(text@, pat@, j));
    None
}

/// First index at or after `i` holding the character `ch` (or the end of the
/// text).
pub open spec fn char_pos(text: Seq<char>, i: int, ch: char) -> int
    recommends
        0 <= i <= text.len(),
    decreases text.len() - i,
{
    if i < text.len() && text[i] != ch {
        char_pos(text, i + 1, ch)
    } else {
        i
    }
}

pub proof fn lemma_char_pos_bounds(text: Seq<char>, i: int, ch: char)
    requires
        0 <= i <= text.len(),
    ensures
        i <= char_pos(text, i, ch) <= text.len(),
        char_pos(text, i, ch) < text.len() ==> text[char_pos(text, i, ch)] == ch,
    decreases text.len() - i,
{
    if i < text.len() && text[i] != ch {
        lemma_char_pos_bounds(text, i + 1, ch);
    }
}

/// Scans to the next occurrence of `ch`, mirroring `char_pos`.
pub fn scan_to_char(text: &[char], from: usize, ch: char) -> (r: usize)
    requires
        from <= text.len(),
    ensures
        r == char_pos(text@, from as int, ch),
        from <= r <= text.len(),
        r < text.len() ==> text@[r as int] == ch,
{
    let mut i: usize = from;
    while i < text.len() && text[i] != ch
        invariant
            from <= i <= text.len(),
            char_pos(text@, from as int, ch) == char_pos(text@, i as int, ch),
        decreases text.len() - i,
    {
        i = i + 1;
    }
    proof {
        lemma_char_pos_bounds(text@, i as int, ch);
    }
    i
}

/// First index at or after `i` holding a non-digit (the end of a pure digit
/// run).
pub open spec fn digit_run_end(text: Seq<char>, i: int) -> int
    recommends
        0 <= i <= text.len(),
    decreases text.len() - i,
{
    if i < text.len() && is_digit(text[i]) {
        digit_run_end(text, i + 1)
    } else {
        i
    }
}

pub proof fn lemma_digit_run_bounds(text: Seq<char>, i: int)
    requires
        0 <= i <= text.len(),
    ensures
        i <= digit_run_end(text, i) <= text.len(),
    decreases text.len() - i,
{
    if i < text.len() && is_digit(text[i]) {
        lemma_digit_run_bounds(text, i + 1);
    }
}

/// Scans the digit run starting at `from`, mirroring `digit_run_end`.
pub fn scan_digit_run(text: &[char], from: usize) -> (r: usize)
    requires
        from <= text.len(),
    ensures
        r == digit_run_end(text@, from as int),
        from <= r <= text.len(),
{
    let mut i: usize = from;
    while i < text.len() && '0' <= text[i] && text[i] <= '9'
        invariant
            from <= i <= text.len(),
            digit_run_end(text@, from as int) == digit_run_end(text@, i as int),
        decreases text.len() - i,
    {
        i = i + 1;
    }
    proof {
        lemma_digit_run_bounds(text@, i as int);
    }
    i
}

/// First index at or after `i` holding whitespace (the end of a
/// whitespace-delimited token).
pub open spec fn token_end(text: Seq<char>, i: int) -> int
    recommends
        0 <= i <= text.len(),
    decreases text.len() - i,
{
    if i < text.len() && !is_ws(text[i]) {
        token_end(text, i + 1)
    } else {
        i
    }
}

pub proof fn lemma_token_end_bounds(text: Seq<char>, i: int)
    requires
        0 <= i <= text.len(),
    ensures
        i <= token_end(text, i) <= text.len(),
    decreases text.len() - i,
{
    if i < text.len() && !is_ws(text[i]) {
        lemma_token_end_bounds(text, i + 1);
    }
}

/// Scans to the end of the current token, mirroring `token_end`.
pub fn scan_token_end(text: &[char], from: usize) -> (r: usize)
    requires
        from <= text.len(),
    ensures
        r == token_end(text@, from as int),
        from <= r <= text.len(),
{
    let mut i: usize = from;
    while i < text.len() && !(text[i] == ' ' || text[i] == '\t' || text[i] == '\n' || text[i]
        == '\r')
        invariant
            from <= i <= text.len(),
            token_end(text@, from as int) == token_end(text@, i as int),
        decreases text.len() - i,
    {
        i = i + 1;
    }
    proof {
        lemma_token_end_bounds(text@, i as int);
    }
    i
}

/// The character for a single decimal digit.
pub open spec fn digit_char(d: int) -> char {
    if d == 0 {
        '0'
    } else if d == 1 {
        '1'
    } else if d == 2 {
        '2'
    } else if d == 3 {
        '3'
    } else if d == 4 {
        '4'
    } else if d == 5 {
        '5'
    } else if d == 6 {
        '6'
    } else if d == 7 {
        '7'
    } else if d == 8 {
        '8'
    } else {
        '9'
    }
}

/// Decimal rendering of a non-negative number, most significant digit first.
pub open spec fn dec_rep(n: int) -> Seq<char>
    recommends
        n >= 0,
    decreases n,
{
    if n < 10 {
        seq![digit_char(n)]
    } else {
        dec_rep(n / 10).push(digit_char(n % 10))
    }
}

/// Decimal rendering of a signed number: a minus sign, then the digits.
pub open spec fn dec_rep_signed(n: int) -> Seq<char> {
    if n < 0 {
        seq!['-'] + dec_rep(-n)
    } else {
        dec_rep(n)
    }
}

/// The one-character string for a decimal digit.
fn digit_str(d: u32) -> (r: &'static str)
    requires
        d < 10,
    ensures
        r@ =~= seq![digit_char(d as int)],
{
    proof {
        reveal_strlit("0");
        reveal_strlit("1");
        reveal_strlit("2");
        reveal_strlit("3");
        reveal_strlit("4");
        reveal_strlit("5");
        reveal_strlit("6");
        reveal_strlit("7");
        reveal_strlit("8");
        reveal_strlit("9");
    }
    if d == 0 {
        "0"
    } else if d == 1 {
        "1"
    } else if d == 2 {
        "2"
    } else if d == 3 {
        "3"
    } else if d == 4 {
        "4"
    } else if d == 5 {
        "5"
    } else if d == 6 {
        "6"
    } else if d == 7 {
        "7"
    } else if d == 8 {
        "8"
    } else {
        "9"
    }
}

/// Appends the decimal digits of `n` to `s`.
pub fn push_u32_dec(s: &mut String, n: u32)
    ensures
        final(s)@ == old(s)@ + dec_rep(n as int),
    decreases n,
{
    if n >= 10 {
        push_u32_dec(s, n / 10);
    }
    let ghost mid = s@;
    s.append(digit_str(n % 10));
    proof {
        if n < 10 {
            assert(old(s)@ + dec_rep(n as int) =~= mid + seq![digit_char(n as int)]);
        } else {
            assert(dec_rep(n as int) == dec_rep(n as int / 10).push(digit_char(n as int % 10)));
            assert(old(s)@ + dec_rep(n as int) =~= mid + seq![digit_char(n as int % 10)]);
        }
    }
}

/// Appends the decimal rendering of a signed number to `s`.
pub fn push_i32_dec(s: &mut String, n: i32)
    ensures
        final(s)@ == old(s)@ + dec_rep_signed(n as int),
{
    if n < 0 {
        let ghost start = s@;
        s.append("-");
        proof {
            reveal_strlit("-");
        }
        let ghost mid = s@;
        let mag: u32 = (-(n as i64)) as u32;
        push_u32_dec(s, mag);
        proof {
            assert(mid =~= start + seq!['-']);
            assert(start + dec_rep_signed(n as int) =~= (start + seq!['-']) + dec_rep(
                -(n as int),
            ));
        }
    } else {
        push_u32_dec(s, n as u32);
    }
}

} // verus!
