//! Per-backend window listing: the parsers for each compositor tool's output
//! and the dispatcher that turns tool outcomes into window lists.
//!
//! The embedding application runs the external tools (see `listing_plan`)
//! and hands their outcomes in; everything from the raw text to the window
//! records is verified here.

use vstd::prelude::*;
use crate::desktop::{DesktopSession, WindowListBackend, spec_window_list_backend};
use crate::extract::{
    extract_json_bool, extract_json_bool_field, extract_json_hex_value, extract_json_number,
    extract_json_position, extract_json_size, extract_json_string, spec_extract_bool_field,
    spec_extract_bool_num, spec_extract_number, spec_extract_position, spec_extract_size,
    spec_extract_string,
};
use crate::text::{
    parse_u32_hex_range, spec_parse_u32_hex, str_chars, trim_range, trim_ws,
};
use crate::window::{views_of, WindowCaptureError, WindowFields, WindowInfo};

verus! {

use vstd::slice::slice_subrange;
use vstd::string::StringExecFns;

/// Result type for window listing operations.
pub type WindowListResult = Result<Vec<WindowInfo>, WindowCaptureError>;

// ============================================================================
// Balanced-object extraction
// ============================================================================

/// The scanner's state after some prefix of the text: brace depth, string
/// and escape state, the start of the object being read, and the
/// `[start, end)` ranges of the top-level objects seen so far.
pub ghost struct ScanAcc {
    pub depth: int,
    pub in_string: bool,
    pub escape: bool,
    pub start: int,
    pub objects: Seq<(int, int)>,
}

pub open spec fn scan_init() -> ScanAcc {
    ScanAcc { depth: 0, in_string: false, escape: false, start: 0, objects: Seq::empty() }
}

/// One character of the brace/string/escape scan.
pub open spec fn scan_step(acc: ScanAcc, c: char, i: int) -> ScanAcc {
    if acc.escape {
        ScanAcc { escape: false, ..acc }
    } else if c == '\\' && acc.in_string {
        ScanAcc { escape: true, ..acc }
    } else if c == '"' {
        ScanAcc { in_string: !acc.in_string, ..acc }
    } else if c == '{' && !acc.in_string {
        ScanAcc {
            depth: acc.depth + 1,
            start: if acc.depth == 0 {
                i
            } else {
                acc.start
            },
            ..acc
        }
    } else if c == '}' && !acc.in_string {
        ScanAcc {
            depth: acc.depth - 1,
            objects: if acc.depth == 1 {
                acc.objects.push((acc.start, i + 1))
            } else {
                acc.objects
            },
            ..acc
        }
    } else {
        acc
    }
}

/// The scanner's state after the first `i` characters.
pub open spec fn spec_scan(s: Seq<char>, i: int) -> ScanAcc
    recommends
        0 <= i <= s.len(),
    decreases i,
{
    if i <= 0 {
        scan_init()
    } else {
        scan_step(spec_scan(s, i - 1), s[i - 1], i - 1)
    }
}

/// The `[start, end)` ranges of the top-level brace-balanced objects of `s`.
pub open spec fn spec_objects(s: Seq<char>) -> Seq<(int, int)> {
    spec_scan(s, s.len() as int).objects
}

/// The scanner's bookkeeping stays well-formed: object ranges lie inside the
/// scanned prefix, and an open object's start does too.
pub proof fn lemma_scan_wf(s: Seq<char>, i: int)
    requires
        0 <= i <= s.len(),
    ensures
        spec_scan(s, i).depth >= 1 ==> 0 <= spec_scan(s, i).start < i,
        forall|k: int|
            0 <= k < spec_scan(s, i).objects.len() ==> {
                &&& 0 <= #[trigger] spec_scan(s, i).objects[k].0
                &&& spec_scan(s, i).objects[k].0 < spec_scan(s, i).objects[k].1
                &&& spec_scan(s, i).objects[k].1 <= i
            },
    decreases i,
{
    if i > 0 {
        lemma_scan_wf(s, i - 1);
    }
}

/// Splits a JSON-like text into its top-level `{...}` objects, scanning
/// character by character while tracking brace depth and string/escape
/// state; yields the range of each object.
pub fn split_objects(text: &[char]) -> (r: Vec<(usize, usize)>)
    ensures
        r@.len() == spec_objects(text@).len(),
        forall|k: int|
            0 <= k < r@.len() ==> {
                &&& #[trigger] r@[k].0 == spec_objects(text@)[k].0
                &&& r@[k].1 == spec_objects(text@)[k].1
                &&& 0 <= r@[k].0 < r@[k].1 <= text@.len()
            },
{
    let mut depth: i128 = 0;
    let mut in_string: bool = false;
    let mut escape: bool = false;
    let mut start: usize = 0;
    let mut objects: Vec<(usize, usize)> = Vec::new();
    let mut i: usize = 0;
    while i < text.len()
        invariant
            0 <= i <= text.len(),
            depth == spec_scan(text@, i as int).depth,
            in_string == spec_scan(text@, i as int).in_string,
            escape == spec_scan(text@, i as int).escape,
            spec_scan(text@, i as int).depth >= 1 ==> start == spec_scan(text@, i as int).start,
            -(i as int) <= depth <= i as int,
            objects@.len() == spec_scan(text@, i as int).objects.len(),
            forall|k: int|
                0 <= k < objects@.len() ==> {
                    &&& #[trigger] objects@[k].0 == spec_scan(text@, i as int).objects[k].0
                    &&& objects@[k].1 == spec_scan(text@, i as int).objects[k].1
                    &&& 0 <= objects@[k].0 < objects@[k].1 <= text@.len()
                },
        decreases text.len() - i,
    {
        let c = text[i];
        proof {
            lemma_scan_wf(text@, i as int);
            assert(spec_scan(text@, i + 1) == scan_step(
                spec_scan(text@, i as int),
                text@[i as int],
                i as int,
            ));
        }
        if escape {
            escape = false;
        } else if c == '\\' && in_string {
            escape = true;
        } else if c == '"' {
            in_string = !in_string;
        } else if c == '{' && !in_string {
            if depth == 0 {
                start = i;
            }
            depth = depth + 1;
        } else if c == '}' && !in_string {
            depth = depth - 1;
            if depth == 0 {
                objects.push((start, i + 1));
            }
        }
        i = i + 1;
    }
    objects
}

// ============================================================================
// Hyprland
// ============================================================================

/// The address string with every leading `0x` removed.
pub open spec fn spec_strip_0x(s: Seq<char>) -> Seq<char>
    decreases s.len(),
{
    if s.len() >= 2 && s[0] == '0' && s[1] == 'x' {
        spec_strip_0x(s.subrange(2, s.len() as int))
    } else {
        s
    }
}

/// The window id a Hyprland address denotes: its hex value, or 0 when it is
/// not a 32-bit hex number.
pub open spec fn spec_hyprland_id(addr: Seq<char>) -> u32 {
    match spec_parse_u32_hex(spec_strip_0x(addr)) {
        Some(v) => v,
        None => 0,
    }
}

/// Parses a Hyprland window address, mirroring `spec_hyprland_id`.
fn hyprland_id(addr: &str) -> (r: u32)
    ensures
        r == spec_hyprland_id(addr@),
{
    let cs = str_chars(addr);
    proof {
        assert(cs@.subrange(0, cs@.len() as int) =~= cs@);
    }
    let mut i: usize = 0;
    while cs.len() - i >= 2 && cs[i] == '0' && cs[i + 1] == 'x'
        invariant
            0 <= i <= cs.len(),
            cs@ == addr@,
            spec_strip_0x(addr@) == spec_strip_0x(cs@.subrange(i as int, cs@.len() as int)),
        decreases cs.len() - i,
    {
        proof {
            let sub = cs@.subrange(i as int, cs@.len() as int);
            assert(sub.subrange(2, sub.len() as int) =~= cs@.subrange(
                i + 2,
                cs@.len() as int,
            ));
        }
        i = i + 2;
    }
    proof {
        assert(spec_strip_0x(cs@.subrange(i as int, cs@.len() as int)) == cs@.subrange(
            i as int,
            cs@.len() as int,
        ));
    }
    match parse_u32_hex_range(&cs, i, cs.len()) {
        Some(v) => v,
        None => 0,
    }
}

/// The window record one Hyprland client object denotes: present whenever
/// the object carries an address, with every other field defaulting when
/// missing or malformed.
pub open spec fn spec_hyprland_client(obj: Seq<char>) -> Option<WindowFields> {
    match spec_extract_string(obj, "address"@) {
        None => None,
        Some(addr) => Some(
            WindowFields {
                id: spec_hyprland_id(addr),
                pid: match spec_extract_number(obj, "pid"@) {
                    Some(p) => p,
                    None => 0,
                },
                app_name: match spec_extract_string(obj, "class"@) {
                    Some(c) => c,
                    None => Seq::empty(),
                },
                title: match spec_extract_string(obj, "title"@) {
                    Some(t) => t,
                    None => Seq::empty(),
                },
                x: match spec_extract_position(obj, "at"@) {
                    Some(p) => p.0,
                    None => 0,
                },
                y: match spec_extract_position(obj, "at"@) {
                    Some(p) => p.1,
                    None => 0,
                },
                z: 0,
                width: match spec_extract_size(obj, "size"@) {
                    Some(s) => s.0,
                    None => 0,
                },
                height: match spec_extract_size(obj, "size"@) {
                    Some(s) => s.1,
                    None => 0,
                },
                is_minimized: match spec_extract_bool_field(obj, "hidden"@) {
                    Some(b) => b,
                    None => false,
                },
                is_maximized: match spec_extract_bool_field(obj, "fullscreen"@) {
                    Some(b) => b,
                    None => false,
                },
                is_focused: match spec_extract_bool_num(obj, "focusHistoryID"@) {
                    Some(v) => v == 0,
                    None => false,
                },
            },
        ),
    }
}

/// Parses a single Hyprland client object.
pub fn parse_hyprland_client_object(obj_str: &str) -> (r: Option<WindowInfo>)
    ensures
        match r {
            Some(w) => spec_hyprland_client(obj_str@) == Some(w@),
            None => spec_hyprland_client(obj_str@) is None,
        },
{
    let address = match extract_json_hex_value(obj_str, "address") {
        Some(a) => a,
        None => {
            return None;
        },
    };
    let id = hyprland_id(address.as_str());
    let pid = extract_json_number(obj_str, "pid").unwrap_or(0);
    let title = match extract_json_string(obj_str, "title") {
        Some(t) => t,
        None => String::new(),
    };
    let class = match extract_json_string(obj_str, "class") {
        Some(c) => c,
        None => String::new(),
    };
    let (x, y) = match extract_json_position(obj_str, "at") {
        Some(p) => p,
        None => (0, 0),
    };
    let (width, height) = match extract_json_size(obj_str, "size") {
        Some(s) => s,
        None => (0, 0),
    };
    let is_focused = match extract_json_bool(obj_str, "focusHistoryID") {
        Some(v) => v == 0,
        None => false,
    };
    let is_minimized = extract_json_bool_field(obj_str, "hidden").unwrap_or(false);
    let is_maximized = extract_json_bool_field(obj_str, "fullscreen").unwrap_or(false);
    Some(
        WindowInfo {
            id,
            pid,
            app_name: class,
            title,
            x,
            y,
            z: 0,
            width,
            height,
            is_minimized,
            is_maximized,
            is_focused,
        },
    )
}

/// The trimmed text is a bracketed array.
pub open spec fn spec_is_array(t: Seq<char>) -> bool {
    t.len() > 0 && t[0] == '[' && t.last() == ']'
}

/// The windows denoted by the top-level objects of `content`, in order,
/// skipping objects without an address.
pub open spec fn spec_collect_clients(content: Seq<char>, objs: Seq<(int, int)>) -> Seq<
    WindowFields,
>
    decreases objs.len(),
{
    if objs.len() == 0 {
        Seq::empty()
    } else {
        spec_collect_clients(content, objs.drop_last()) + (match spec_hyprland_client(
            content.subrange(objs.last().0, objs.last().1),
        ) {
            Some(w) => seq![w],
            None => Seq::empty(),
        })
    }
}

pub proof fn lemma_collect_clients_take_step(content: Seq<char>, objs: Seq<(int, int)>, k: int)
    requires
        0 <= k < objs.len(),
    ensures
        spec_collect_clients(content, objs.take(k + 1)) == spec_collect_clients(
            content,
            objs.take(k),
        ) + (match spec_hyprland_client(content.subrange(objs[k].0, objs[k].1)) {
            Some(w) => seq![w],
            None => Seq::empty(),
        }),
{
    assert(objs.take(k + 1).drop_last() =~= objs.take(k));
    assert(objs.take(k + 1).last() == objs[k]);
}

/// What parsing a Hyprland client list yields: the window records of the
/// top-level objects when the trimmed text is an array, and a parse error
/// otherwise.
pub open spec fn spec_parse_hyprland(json: Seq<char>) -> Result<Seq<WindowFields>, ()> {
    let t = trim_ws(json);
    if !spec_is_array(t) {
        Err(())
    } else {
        let content = t.subrange(1, t.len() - 1);
        Ok(spec_collect_clients(content, spec_objects(content)))
    }
}

/// Parses Hyprland's JSON client list into window records.
pub fn parse_hyprland_json(json_str: &str) -> (r: WindowListResult)
    ensures
        match r {
            Ok(ws) => spec_parse_hyprland(json_str@) == Ok::<_, ()>(views_of(ws@)),
            Err(WindowCaptureError::EnumerationFailed(m)) => spec_parse_hyprland(json_str@)
                is Err && m@ == "Invalid JSON from hyprctl"@,
            Err(_) => false,
        },
{
    let cs = str_chars(json_str);
    let (a, b) = trim_range(&cs, 0, cs.len());
    proof {
        assert(cs@.subrange(0, cs@.len() as int) =~= cs@);
    }
    if b == a || !(cs[a] == '[' && cs[b - 1] == ']') {
        proof {
            let t = trim_ws(json_str@);
            if b > a {
                assert(t[0] == cs@[a as int]);
                assert(t.last() == cs@[b - 1]);
            }
        }
        return Err(
            WindowCaptureError::EnumerationFailed(String::from_str("Invalid JSON from hyprctl")),
        );
    }
    let ghost t = trim_ws(json_str@);
    proof {
        assert(t[0] == cs@[a as int]);
        assert(t.last() == cs@[b - 1]);
        assert(spec_is_array(t));
        assert(t.subrange(1, t.len() - 1) =~= json_str@.subrange(a + 1, b - 1));
    }
    let windows = collect_hyprland_clients(json_str, a, b);
    Ok(windows)
}

/// Splits the array body `json_str[a+1..b-1]` into objects and parses each.
#[verifier::rlimit(100)]
#[verifier::spinoff_prover]
fn collect_hyprland_clients(json_str: &str, a: usize, b: usize) -> (r: Vec<WindowInfo>)
    requires
        a + 1 <= b - 1,
        b >= 2,
        b <= json_str@.len(),
    ensures
        views_of(r@) == spec_collect_clients(
            json_str@.subrange(a + 1, b - 1),
            spec_objects(json_str@.subrange(a + 1, b - 1)),
        ),
{
    let ghost cont = json_str@.subrange(a + 1, b - 1);
    let cs = str_chars(json_str);
    let content = slice_subrange(&cs, a + 1, b - 1);
    proof {
        assert(content@ =~= cont);
    }
    let ranges = split_objects(content);
    let total_len = cs.len();
    proof {
        assert(json_str@.len() == total_len);
    }
    let mut windows: Vec<WindowInfo> = Vec::new();
    let mut k: usize = 0;
    while k < ranges.len()
        invariant
            0 <= k <= ranges@.len(),
            0 <= a,
            a + 1 <= b - 1 <= json_str@.len(),
            json_str@.len() <= usize::MAX,
            cont == json_str@.subrange(a + 1, b - 1),
            ranges@.len() == spec_objects(cont).len(),
            forall|q: int|
                0 <= q < ranges@.len() ==> {
                    &&& #[trigger] ranges@[q].0 == spec_objects(cont)[q].0
                    &&& ranges@[q].1 == spec_objects(cont)[q].1
                    &&& 0 <= ranges@[q].0 < ranges@[q].1 <= cont.len()
                },
            views_of(windows@) == spec_collect_clients(cont, spec_objects(cont).take(k as int)),
        decreases ranges@.len() - k,
    {
        let (st, en) = (ranges[k].0, ranges[k].1);
        proof {
            assert(ranges@[k as int].0 == spec_objects(cont)[k as int].0);
            assert(0 <= st < en <= cont.len());
        }
        let obj = json_str.substring_char(a + 1 + st, a + 1 + en);
        proof {
            assert(obj@ =~= cont.subrange(
                spec_objects(cont)[k as int].0,
                spec_objects(cont)[k as int].1,
            ));
            lemma_collect_clients_take_step(cont, spec_objects(cont), k as int);
        }
        let ghost pre_ws = windows@;
        let ghost pre = views_of(windows@);
        match parse_hyprland_client_object(obj) {
            Some(info) => {
                let ghost iv = info@;
                windows.push(info);
                proof {
                    crate::window::lemma_views_push(pre_ws, windows@.last());
                    assert(pre.push(iv) =~= pre + seq![iv]);
                    assert(views_of(windows@) == spec_collect_clients(
                        cont,
                        spec_objects(cont).take(k + 1),
                    ));
                }
            },
            None => {
                proof {
                    assert(pre =~= pre + Seq::<WindowFields>::empty());
                    assert(views_of(windows@) == spec_collect_clients(
                        cont,
                        spec_objects(cont).take(k + 1),
                    ));
                }
            },
        }
        k = k + 1;
    }
    proof {
        assert(spec_objects(cont).take(spec_objects(cont).len() as int) =~= spec_objects(cont));
    }
    windows
}


// ============================================================================
// Sway
// ============================================================================

/// Backward scan for the `{` that opens the object enclosing a position:
/// brace depth only, string state ignored (the tree walker accepts this
/// heuristic).
pub open spec fn spec_back_open(s: Seq<char>, i: int, depth: int) -> Option<int>
    recommends
        i < s.len(),
    decreases i + 1,
{
    if i < 0 {
        None
    } else if s[i] == '}' {
        spec_back_open(s, i - 1, depth + 1)
    } else if s[i] == '{' {
        if depth == 0 {
            Some(i)
        } else {
            spec_back_open(s, i - 1, depth - 1)
        }
    } else {
        spec_back_open(s, i - 1, depth)
    }
}

/// The start of the innermost object containing position `pos`.
pub open spec fn spec_find_object_start(s: Seq<char>, pos: int) -> Option<int> {
    spec_back_open(s, pos - 1, 0)
}

pub proof fn lemma_back_open_bounds(s: Seq<char>, i: int, depth: int)
    requires
        i < s.len(),
    ensures
        spec_back_open(s, i, depth) matches Some(j) ==> 0 <= j <= i,
    decreases i + 1,
{
    if i >= 0 {
        if s[i] == '}' {
            lemma_back_open_bounds(s, i - 1, depth + 1);
        } else if s[i] == '{' {
            if depth != 0 {
                lemma_back_open_bounds(s, i - 1, depth - 1);
            }
        } else {
            lemma_back_open_bounds(s, i - 1, depth);
        }
    }
}

/// Finds the start of a JSON object containing the given position.
pub fn find_object_start(json: &str, pos: usize) -> (r: Option<usize>)
    requires
        pos <= json@.len(),
    ensures
        match r {
            Some(i) => spec_find_object_start(json@, pos as int) == Some(i as int) && i < pos,
            None => spec_find_object_start(json@, pos as int) is None,
        },
{
    let cs = str_chars(json);
    find_object_start_chars(&cs, pos)
}

/// Backward scan over characters, mirroring `spec_back_open`.
fn find_object_start_chars(text: &[char], pos: usize) -> (r: Option<usize>)
    requires
        pos <= text.len(),
    ensures
        match r {
            Some(i) => spec_find_object_start(text@, pos as int) == Some(i as int) && i < pos,
            None => spec_find_object_start(text@, pos as int) is None,
        },
{
    let mut depth: i128 = 0;
    let mut i: usize = pos;
    while i > 0
        invariant
            0 <= i <= pos <= text.len(),
            0 <= depth <= pos - i,
            spec_back_open(text@, pos - 1, 0) == spec_back_open(text@, i - 1, depth as int),
        decreases i,
    {
        let c = text[i - 1];
        if c == '}' {
            depth = depth + 1;
            i = i - 1;
        } else if c == '{' {
            if depth == 0 {
                proof {
                    lemma_back_open_bounds(text@, pos - 1, 0);
                }
                return Some(i - 1);
            }
            depth = depth - 1;
            i = i - 1;
        } else {
            i = i - 1;
        }
    }
    None
}

/// Forward scan for the `}` that closes the object opened at or after `i`,
/// tracking brace depth and string/escape state.
pub open spec fn spec_fwd_close(
    s: Seq<char>,
    i: int,
    depth: int,
    in_string: bool,
    escape: bool,
) -> Option<int>
    recommends
        0 <= i <= s.len(),
    decreases s.len() - i,
{
    if i >= s.len() {
        None
    } else if escape {
        spec_fwd_close(s, i + 1, depth, in_string, false)
    } else if s[i] == '\\' && in_string {
        spec_fwd_close(s, i + 1, depth, in_string, true)
    } else if s[i] == '"' {
        spec_fwd_close(s, i + 1, depth, !in_string, false)
    } else if s[i] == '{' && !in_string {
        spec_fwd_close(s, i + 1, depth + 1, in_string, false)
    } else if s[i] == '}' && !in_string {
        if depth == 1 {
            Some(i)
        } else {
            spec_fwd_close(s, i + 1, depth - 1, in_string, false)
        }
    } else {
        spec_fwd_close(s, i + 1, depth, in_string, false)
    }
}

/// The end (inclusive) of the object starting at `start`.
pub open spec fn spec_find_object_end(s: Seq<char>, start: int) -> Option<int> {
    spec_fwd_close(s, start, 0, false, false)
}

pub proof fn lemma_fwd_close_bounds(s: Seq<char>, i: int, depth: int, in_string: bool, escape: bool)
    requires
        0 <= i <= s.len(),
    ensures
        spec_fwd_close(s, i, depth, in_string, escape) matches Some(j) ==> i <= j < s.len(),
    decreases s.len() - i,
{
    if i < s.len() {
        if escape {
            lemma_fwd_close_bounds(s, i + 1, depth, in_string, false);
        } else if s[i] == '\\' && in_string {
            lemma_fwd_close_bounds(s, i + 1, depth, in_string, true);
        } else if s[i] == '"' {
            lemma_fwd_close_bounds(s, i + 1, depth, !in_string, false);
        } else if s[i] == '{' && !in_string {
            lemma_fwd_close_bounds(s, i + 1, depth + 1, in_string, false);
        } else if s[i] == '}' && !in_string {
            if depth != 1 {
                lemma_fwd_close_bounds(s, i + 1, depth - 1, in_string, false);
            }
        } else {
            lemma_fwd_close_bounds(s, i + 1, depth, in_string, false);
        }
    }
}

/// Finds the end of a JSON object starting at the given position.
pub fn find_object_end(json: &str, start: usize) -> (r: Option<usize>)
    requires
        start <= json@.len(),
    ensures
        match r {
            Some(i) => spec_find_object_end(json@, start as int) == Some(i as int) && start <= i
                < json@.len(),
            None => spec_find_object_end(json@, start as int) is None,
        },
{
    let cs = str_chars(json);
    find_object_end_chars(&cs, start)
}

/// Forward scan over characters, mirroring `spec_fwd_close`.
fn find_object_end_chars(text: &[char], start: usize) -> (r: Option<usize>)
    requires
        start <= text.len(),
    ensures
        match r {
            Some(i) => spec_find_object_end(text@, start as int) == Some(i as int) && start <= i
                < text.len(),
            None => spec_find_object_end(text@, start as int) is None,
        },
{
    let mut depth: i128 = 0;
    let mut in_string: bool = false;
    let mut escape: bool = false;
    let mut i: usize = start;
    while i < text.len()
        invariant
            start <= i <= text.len(),
            -(i as int) <= depth <= i as int,
            spec_find_object_end(text@, start as int) == spec_fwd_close(
                text@,
                i as int,
                depth as int,
                in_string,
                escape,
            ),
        decreases text.len() - i,
    {
        let c = text[i];
        if escape {
            escape = false;
            i = i + 1;
        } else if c == '\\' && in_string {
            escape = true;
            i = i + 1;
        } else if c == '"' {
            in_string = !in_string;
            i = i + 1;
        } else if c == '{' && !in_string {
            depth = depth + 1;
            i = i + 1;
        } else if c == '}' && !in_string {
            if depth == 1 {
                return Some(i);
            }
            depth = depth - 1;
            i = i + 1;
        } else {
            i = i + 1;
        }
    }
    None
}

/// The geometry in a node's nested `"rect"` object: located by the first
/// braces after the key, with each field defaulting to 0. `None` when there
/// is no usable rect object.
pub open spec fn spec_sway_rect(obj: Seq<char>) -> Option<(i32, i32, u32, u32)> {
    if !crate::text::contains_pat(obj, "\"rect\":"@) {
        None
    } else {
        let rs = crate::text::first_match(obj, "\"rect\":"@);
        let bo = crate::text::char_pos(obj, rs, '{');
        let bc = crate::text::char_pos(obj, rs, '}');
        if bo >= obj.len() || bc >= obj.len() || bc < bo {
            None
        } else {
            let rect = obj.subrange(bo, bc + 1);
            Some(
                (
                    (match spec_extract_number(rect, "x"@) {
                        Some(v) => v,
                        None => 0,
                    }) as i32,
                    (match spec_extract_number(rect, "y"@) {
                        Some(v) => v,
                        None => 0,
                    }) as i32,
                    match spec_extract_number(rect, "width"@) {
                        Some(v) => v,
                        None => 0,
                    },
                    match spec_extract_number(rect, "height"@) {
                        Some(v) => v,
                        None => 0,
                    },
                ),
            )
        }
    }
}

/// Parses the rect object from a Sway node.
pub fn parse_sway_rect(obj_str: &str) -> (r: Option<(i32, i32, u32, u32)>)
    ensures
        r == spec_sway_rect(obj_str@),
{
    let cs = str_chars(obj_str);
    let pat = str_chars("\"rect\":");
    match crate::text::find_pattern(&cs, &pat) {
        None => None,
        Some(rs) => {
            let bo = crate::text::scan_to_char(&cs, rs, '{');
            let bc = crate::text::scan_to_char(&cs, rs, '}');
            if bo >= cs.len() || bc >= cs.len() || bc < bo {
                None
            } else {
                let rect = obj_str.substring_char(bo, bc + 1);
                proof {
                    assert(rect@ =~= obj_str@.subrange(bo as int, bc + 1));
                }
                let x = extract_json_number(rect, "x").unwrap_or(0);
                let y = extract_json_number(rect, "y").unwrap_or(0);
                let width = extract_json_number(rect, "width").unwrap_or(0);
                let height = extract_json_number(rect, "height").unwrap_or(0);
                Some((#[verifier::truncate] (x as i32), #[verifier::truncate] (y as i32), width, height))
            }
        },
    }
}

/// The window record one Sway tree node denotes: present whenever the node
/// carries a numeric id, other fields defaulting when missing.
pub open spec fn spec_sway_node(obj: Seq<char>) -> Option<WindowFields> {
    match spec_extract_number(obj, "id"@) {
        None => None,
        Some(id) => Some(
            WindowFields {
                id,
                pid: match spec_extract_number(obj, "pid"@) {
                    Some(p) => p,
                    None => 0,
                },
                app_name: match spec_extract_string(obj, "app_id"@) {
                    Some(a) => a,
                    None => match spec_extract_string(obj, "class"@) {
                        Some(c) => c,
                        None => Seq::empty(),
                    },
                },
                title: match spec_extract_string(obj, "name"@) {
                    Some(t) => t,
                    None => Seq::empty(),
                },
                x: match spec_sway_rect(obj) {
                    Some(rc) => rc.0,
                    None => 0,
                },
                y: match spec_sway_rect(obj) {
                    Some(rc) => rc.1,
                    None => 0,
                },
                z: 0,
                width: match spec_sway_rect(obj) {
                    Some(rc) => rc.2,
                    None => 0,
                },
                height: match spec_sway_rect(obj) {
                    Some(rc) => rc.3,
                    None => 0,
                },
                is_minimized: false,
                is_maximized: match spec_extract_bool_field(obj, "fullscreen_mode"@) {
                    Some(b) => b,
                    None => false,
                },
                is_focused: match spec_extract_bool_field(obj, "focused"@) {
                    Some(b) => b,
                    None => false,
                },
            },
        ),
    }
}

/// Parses a Sway node object into a window record.
pub fn parse_sway_node(obj_str: &str) -> (r: Option<WindowInfo>)
    ensures
        match r {
            Some(w) => spec_sway_node(obj_str@) == Some(w@),
            None => spec_sway_node(obj_str@) is None,
        },
{
    let id = match extract_json_number(obj_str, "id") {
        Some(v) => v,
        None => {
            return None;
        },
    };
    let pid = extract_json_number(obj_str, "pid").unwrap_or(0);
    let title = match extract_json_string(obj_str, "name") {
        Some(t) => t,
        None => String::new(),
    };
    let app_name = match extract_json_string(obj_str, "app_id") {
        Some(a) => a,
        None => match extract_json_string(obj_str, "class") {
            Some(c) => c,
            None => String::new(),
        },
    };
    let (x, y, width, height) = match parse_sway_rect(obj_str) {
        Some(rc) => rc,
        None => (0, 0, 0, 0),
    };
    let is_focused = extract_json_bool_field(obj_str, "focused").unwrap_or(false);
    let is_maximized = extract_json_bool_field(obj_str, "fullscreen_mode").unwrap_or(false);
    Some(
        WindowInfo {
            id,
            pid,
            app_name,
            title,
            x,
            y,
            z: 0,
            width,
            height,
            is_minimized: false,
            is_maximized,
            is_focused,
        },
    )
}

/// Some record in `acc` already carries this id.
pub open spec fn spec_has_id(acc: Seq<WindowFields>, id: u32) -> bool {
    exists|k: int| 0 <= k < acc.len() && acc[k].id == id
}

/// The tree walk: for each occurrence of a `"pid"` key, the innermost
/// enclosing object is taken, and kept when it looks like a window (it
/// carries an application id or window properties), parses, and its id is
/// new. `pos` is where the scan stands and `acc` what it has gathered.
#[verifier::rlimit(100)]
pub open spec fn spec_sway_scan(s: Seq<char>, pos: int, acc: Seq<WindowFields>) -> Seq<
    WindowFields,
>
    recommends
        0 <= pos <= s.len(),
    decreases s.len() - pos,
        when 0 <= pos <= s.len()
        via spec_sway_scan_dec
{
    if !crate::text::contains_from(s, "\"pid\":"@, pos) {
        acc
    } else {
        let abs = crate::text::first_match_from(s, "\"pid\":"@, pos);
        match spec_find_object_start(s, abs) {
            None => spec_sway_scan(s, abs + 6, acc),
            Some(os) => match spec_find_object_end(s, os) {
                None => spec_sway_scan(s, abs + 6, acc),
                Some(oe) => {
                    let obj = s.subrange(os, oe + 1);
                    let acc2 = if crate::text::contains_pat(obj, "\"app_id\""@)
                        || crate::text::contains_pat(obj, "\"window_properties\""@) {
                        match spec_sway_node(obj) {
                            Some(w) => if spec_has_id(acc, w.id) {
                                acc
                            } else {
                                acc.push(w)
                            },
                            None => acc,
                        }
                    } else {
                        acc
                    };
                    if oe + 1 > pos {
                        spec_sway_scan(s, oe + 1, acc2)
                    } else {
                        spec_sway_scan(s, abs + 6, acc2)
                    }
                },
            },
        }
    }
}

/// The first match at or after `pos` exists and is minimal whenever any
/// match at or after `pos` exists.
pub proof fn lemma_first_from_exists(s: Seq<char>, pat: Seq<char>, from: int, w: int)
    requires
        from <= w,
        crate::text::match_at(s, pat, w),
    ensures
        crate::text::contains_from(s, pat, from),
        from <= crate::text::first_match_from(s, pat, from),
        crate::text::match_at(s, pat, crate::text::first_match_from(s, pat, from)),
        crate::text::first_match_from(s, pat, from) <= w,
    decreases w - from,
{
    if exists|j: int| from <= j < w && crate::text::match_at(s, pat, j) {
        let j = choose|j: int| from <= j < w && crate::text::match_at(s, pat, j);
        lemma_first_from_exists(s, pat, from, j);
    } else {
        crate::text::lemma_first_match_from(s, pat, from, w);
    }
}

#[via_fn]
proof fn spec_sway_scan_dec(s: Seq<char>, pos: int, acc: Seq<WindowFields>) {
    if crate::text::contains_from(s, "\"pid\":"@, pos) {
        let w = choose|i: int| pos <= i && crate::text::match_at(s, "\"pid\":"@, i);
        lemma_first_from_exists(s, "\"pid\":"@, pos, w);
        let abs = crate::text::first_match_from(s, "\"pid\":"@, pos);
        reveal_strlit("\"pid\":");
        assert(abs + 6 <= s.len());
        match spec_find_object_start(s, abs) {
            None => {},
            Some(os) => {
                lemma_back_open_bounds(s, abs - 1, 0);
                match spec_find_object_end(s, os) {
                    None => {},
                    Some(oe) => {
                        lemma_fwd_close_bounds(s, os, 0, false, false);
                    },
                }
            },
        }
    }
}

/// Recursively extracts windows from Sway's tree structure, appending to
/// `windows`.
#[verifier::rlimit(100)]
pub fn extract_sway_windows(json_str: &str, windows: &mut Vec<WindowInfo>)
    ensures
        views_of(final(windows)@) == spec_sway_scan(json_str@, 0, views_of(old(windows)@)),
{
    let cs = str_chars(json_str);
    let pat = str_chars("\"pid\":");
    proof {
        reveal_strlit("\"pid\":");
    }
    let mut pos: usize = 0;
    loop
        invariant
            0 <= pos <= cs@.len(),
            cs@ == json_str@,
            pat@ == "\"pid\":"@,
            pat@.len() == 6,
            spec_sway_scan(json_str@, 0, views_of(old(windows)@)) == spec_sway_scan(
                json_str@,
                pos as int,
                views_of(windows@),
            ),
        decreases cs@.len() - pos,
    {
        let m = crate::text::find_pattern_from(&cs, &pat, pos);
        match m {
            None => {
                return ;
            },
            Some(abs) => {
                proof {
                    lemma_first_from_exists(json_str@, pat@, pos as int, abs as int);
                }
                let os_opt = find_object_start_chars(&cs, abs);
                match os_opt {
                    None => {
                        pos = abs + 6;
                    },
                    Some(os) => {
                        let oe_opt = find_object_end_chars(&cs, os);
                        match oe_opt {
                            None => {
                                pos = abs + 6;
                            },
                            Some(oe) => {
                                let obj = json_str.substring_char(os, oe + 1);
                                proof {
                                    assert(obj@ =~= json_str@.subrange(os as int, oe + 1));
                                }
                                let app_id_pat = str_chars("\"app_id\"");
                                let wp_pat = str_chars("\"window_properties\"");
                                let ocs = str_chars(obj);
                                let looks = match crate::text::find_pattern(&ocs, &app_id_pat) {
                                    Some(_) => true,
                                    None => match crate::text::find_pattern(&ocs, &wp_pat) {
                                        Some(_) => true,
                                        None => false,
                                    },
                                };
                                if looks {
                                    match parse_sway_node(obj) {
                                        Some(info) => {
                                            if !has_window_id(windows, info.id) {
                                                let ghost pre_ws = windows@;
                                                windows.push(info);
                                                proof {
                                                    crate::window::lemma_views_push(
                                                        pre_ws,
                                                        windows@.last(),
                                                    );
                                                }
                                            }
                                        },
                                        None => {},
                                    }
                                }
                                if oe + 1 > pos {
                                    pos = oe + 1;
                                } else {
                                    pos = abs + 6;
                                }
                            },
                        }
                    },
                }
            },
        }
    }
}

/// Whether some already-collected window carries this id.
fn has_window_id(windows: &Vec<WindowInfo>, id: u32) -> (r: bool)
    ensures
        r == spec_has_id(views_of(windows@), id),
{
    let mut i: usize = 0;
    while i < windows.len()
        invariant
            0 <= i <= windows@.len(),
            forall|k: int| 0 <= k < i ==> views_of(windows@)[k].id != id,
        decreases windows@.len() - i,
    {
        if windows[i].id == id {
            assert(views_of(windows@)[i as int].id == id);
            return true;
        }
        proof {
            assert(views_of(windows@)[i as int].id == windows@[i as int].id);
        }
        i = i + 1;
    }
    false
}

/// Parses Sway's tree JSON to extract window information.
pub fn parse_sway_tree(json_str: &str) -> (r: WindowListResult)
    ensures
        r matches Ok(ws) && views_of(ws@) == spec_sway_scan(json_str@, 0, Seq::empty()),
{
    let mut windows: Vec<WindowInfo> = Vec::new();
    proof {
        assert(views_of(windows@) =~= Seq::<WindowFields>::empty());
    }
    extract_sway_windows(json_str, &mut windows);
    Ok(windows)
}


// ============================================================================
// GNOME (GVariant-ish introspection output)
// ============================================================================

/// A quasi-GVariant string value following the first occurrence of `prefix`
/// at or after `from`: optionally wrapped in a type angle bracket, and
/// single-quoted.
pub open spec fn spec_gvariant_string(s: Seq<char>, from: int, prefix: Seq<char>) -> Option<
    Seq<char>,
> {
    if !crate::text::contains_from(s, prefix, from) {
        None
    } else {
        let p = crate::text::skip_ws(
            s,
            crate::text::first_match_from(s, prefix, from) + prefix.len(),
        );
        if p < s.len() && (s[p] == '<' || s[p] == '\'') {
            let q1 = crate::text::char_pos(s, p, '\'');
            if q1 < s.len() {
                let q2 = crate::text::char_pos(s, q1 + 1, '\'');
                if q2 < s.len() {
                    Some(s.subrange(q1 + 1, q2))
                } else {
                    None
                }
            } else {
                None
            }
        } else {
            None
        }
    }
}

/// Extracts a string from GVariant format.
pub fn extract_gvariant_string(text: &str, prefix: &str) -> (r: Option<String>)
    ensures
        match r {
            Some(v) => spec_gvariant_string(text@, 0, prefix@) == Some(v@),
            None => spec_gvariant_string(text@, 0, prefix@) is None,
        },
{
    let cs = str_chars(text);
    let pcs = str_chars(prefix);
    gvariant_string_at(text, &cs, 0, &pcs)
}

/// The absolute-position worker behind `extract_gvariant_string`.
fn gvariant_string_at(text: &str, cs: &Vec<char>, from: usize, prefix: &Vec<char>) -> (r: Option<
    String,
>)
    requires
        cs@ == text@,
        from <= cs@.len(),
    ensures
        match r {
            Some(v) => spec_gvariant_string(text@, from as int, prefix@) == Some(v@),
            None => spec_gvariant_string(text@, from as int, prefix@) is None,
        },
{
    let total = cs.len();
    match crate::text::find_pattern_from(cs.as_slice(), prefix.as_slice(), from) {
        None => None,
        Some(m) => {
            proof {
                assert(m + prefix@.len() <= total);
            }
            let p = crate::text::skip_whitespace(cs.as_slice(), m + prefix.len());
            if p < cs.len() && (cs[p] == '<' || cs[p] == '\'') {
                let q1 = crate::text::scan_to_char(cs.as_slice(), p, '\'');
                if q1 < cs.len() {
                    let q2 = crate::text::scan_to_char(cs.as_slice(), q1 + 1, '\'');
                    if q2 < cs.len() {
                        Some(String::from_str(text.substring_char(q1 + 1, q2)))
                    } else {
                        None
                    }
                } else {
                    None
                }
            } else {
                None
            }
        },
    }
}

/// The first whitespace-delimited token at or after `i` that is all digits,
/// read as a `u32`; `None` past the last token, and `None` when the first
/// such token overflows.
pub open spec fn spec_first_digit_token(s: Seq<char>, i: int) -> Option<u32>
    recommends
        0 <= i <= s.len(),
    decreases s.len() - i,
        when 0 <= i <= s.len()
        via spec_first_digit_token_dec
{
    let p = crate::text::skip_ws(s, i);
    if p >= s.len() {
        None
    } else {
        let e = crate::text::token_end(s, p);
        if crate::text::all_digits(s.subrange(p, e)) {
            crate::text::spec_parse_u32(s.subrange(p, e))
        } else {
            spec_first_digit_token(s, e)
        }
    }
}

#[via_fn]
proof fn spec_first_digit_token_dec(s: Seq<char>, i: int) {
    crate::text::lemma_skip_ws_bounds(s, i);
    let p = crate::text::skip_ws(s, i);
    if p < s.len() {
        assert(!crate::text::is_ws(s[p]));
        crate::text::lemma_token_end_bounds(s, p + 1);
        assert(crate::text::token_end(s, p) == crate::text::token_end(s, p + 1));
        assert(crate::text::token_end(s, p) > p);
    }
}

/// Scans whitespace-delimited tokens, mirroring `spec_first_digit_token`.
fn first_digit_token(cs: &[char], from: usize) -> (r: Option<u32>)
    requires
        from <= cs@.len(),
    ensures
        r == spec_first_digit_token(cs@, from as int),
{
    let mut i: usize = from;
    loop
        invariant
            from <= i <= cs@.len(),
            spec_first_digit_token(cs@, from as int) == spec_first_digit_token(cs@, i as int),
        decreases cs@.len() - i,
    {
        let p = crate::text::skip_whitespace(cs, i);
        if p >= cs.len() {
            return None;
        }
        let e = crate::text::scan_token_end(cs, p);
        proof {
            assert(!crate::text::is_ws(cs@[p as int]));
            crate::text::lemma_token_end_bounds(cs@, p + 1);
            assert(crate::text::token_end(cs@, p as int) == crate::text::token_end(cs@, p + 1));
            assert(e > p);
        }
        if all_digits_range(cs, p, e) {
            return crate::text::parse_u32_range(cs, p, e);
        }
        i = e;
    }
}

/// Whether every character of `cs[from..to]` is a decimal digit.
fn all_digits_range(cs: &[char], from: usize, to: usize) -> (r: bool)
    requires
        from <= to <= cs@.len(),
    ensures
        r == crate::text::all_digits(cs@.subrange(from as int, to as int)),
{
    let ghost sub = cs@.subrange(from as int, to as int);
    let mut k: usize = from;
    while k < to
        invariant
            from <= k <= to <= cs@.len(),
            sub == cs@.subrange(from as int, to as int),
            forall|j: int| 0 <= j < k - from ==> crate::text::is_digit(#[trigger] sub[j]),
        decreases to - k,
    {
        if !('0' <= cs[k] && cs[k] <= '9') {
            assert(sub[k - from] == cs@[k as int]);
            return false;
        }
        assert(sub[k - from] == cs@[k as int]);
        k = k + 1;
    }
    true
}

/// The process id in a GVariant dump: after `'pid':`, an optional type
/// bracket, then the first all-digit token.
pub open spec fn spec_gvariant_number(s: Seq<char>, from: int) -> Option<u32> {
    if !crate::text::contains_from(s, "'pid':"@, from) {
        None
    } else {
        let p = crate::text::skip_ws(
            s,
            crate::text::first_match_from(s, "'pid':"@, from) + 6,
        );
        if p < s.len() && s[p] == '<' {
            spec_first_digit_token(s, p + 1)
        } else {
            spec_first_digit_token(s, p)
        }
    }
}

/// Extracts a number from GVariant format.
pub fn extract_gvariant_number(text: &str) -> (r: Option<u32>)
    ensures
        r == spec_gvariant_number(text@, 0),
{
    let cs = str_chars(text);
    gvariant_number_at(&cs, 0)
}

/// The absolute-position worker behind `extract_gvariant_number`.
fn gvariant_number_at(cs: &Vec<char>, from: usize) -> (r: Option<u32>)
    requires
        from <= cs@.len(),
    ensures
        r == spec_gvariant_number(cs@, from as int),
{
    let pat = str_chars("'pid':");
    proof {
        reveal_strlit("'pid':");
    }
    let total = cs.len();
    match crate::text::find_pattern_from(cs.as_slice(), pat.as_slice(), from) {
        None => None,
        Some(m) => {
            proof {
                assert(m + pat@.len() <= total);
            }
            let p = crate::text::skip_whitespace(cs.as_slice(), m + 6);
            if p < cs.len() && cs[p] == '<' {
                first_digit_token(cs.as_slice(), p + 1)
            } else {
                first_digit_token(cs.as_slice(), p)
            }
        },
    }
}

/// A dimension value: the digit run after the first colon at or after `m`.
pub open spec fn spec_gvariant_dimension(s: Seq<char>, m: int) -> Option<u32> {
    let c = crate::text::char_pos(s, m, ':');
    if c >= s.len() {
        None
    } else {
        let p = crate::text::skip_ws(s, c + 1);
        let e = crate::text::digit_run_end(s, p);
        if e > p {
            crate::text::spec_parse_u32(s.subrange(p, e))
        } else {
            None
        }
    }
}

/// Extracts a dimension value from GVariant format.
pub fn extract_gvariant_dimension(text: &str) -> (r: Option<u32>)
    ensures
        r == spec_gvariant_dimension(text@, 0),
{
    let cs = str_chars(text);
    gvariant_dimension_at(&cs, 0)
}

/// The absolute-position worker behind `extract_gvariant_dimension`.
fn gvariant_dimension_at(cs: &Vec<char>, m: usize) -> (r: Option<u32>)
    requires
        m <= cs@.len(),
    ensures
        r == spec_gvariant_dimension(cs@, m as int),
{
    let c = crate::text::scan_to_char(cs.as_slice(), m, ':');
    if c >= cs.len() {
        None
    } else {
        let p = crate::text::skip_whitespace(cs.as_slice(), c + 1);
        let e = crate::text::scan_digit_run(cs.as_slice(), p);
        if e > p {
            crate::text::parse_u32_range(cs.as_slice(), p, e)
        } else {
            None
        }
    }
}

/// The window dimensions mentioned at or after `from`: present only when
/// both a width and a height are found and positive.
pub open spec fn spec_gnome_dimensions(s: Seq<char>, from: int) -> Option<(u32, u32)> {
    let w = if crate::text::contains_from(s, "'width':"@, from) {
        match spec_gvariant_dimension(s, crate::text::first_match_from(s, "'width':"@, from)) {
            Some(v) => v,
            None => 0,
        }
    } else {
        0
    };
    let h = if crate::text::contains_from(s, "'height':"@, from) {
        match spec_gvariant_dimension(s, crate::text::first_match_from(s, "'height':"@, from)) {
            Some(v) => v,
            None => 0,
        }
    } else {
        0
    };
    if w > 0 && h > 0 {
        Some((w, h))
    } else {
        None
    }
}

/// Extracts window dimensions from GNOME output.
pub fn extract_gnome_dimensions(text: &str) -> (r: Option<(u32, u32)>)
    ensures
        r == spec_gnome_dimensions(text@, 0),
{
    let cs = str_chars(text);
    gnome_dimensions_at(&cs, 0)
}

/// The absolute-position worker behind `extract_gnome_dimensions`.
fn gnome_dimensions_at(cs: &Vec<char>, from: usize) -> (r: Option<(u32, u32)>)
    requires
        from <= cs@.len(),
    ensures
        r == spec_gnome_dimensions(cs@, from as int),
{
    let wpat = str_chars("'width':");
    let hpat = str_chars("'height':");
    let w: u32 = match crate::text::find_pattern_from(cs.as_slice(), wpat.as_slice(), from) {
        Some(m) => match gvariant_dimension_at(cs, m) {
            Some(v) => v,
            None => 0,
        },
        None => 0,
    };
    let h: u32 = match crate::text::find_pattern_from(cs.as_slice(), hpat.as_slice(), from) {
        Some(m) => match gvariant_dimension_at(cs, m) {
            Some(v) => v,
            None => 0,
        },
        None => 0,
    };
    if w > 0 && h > 0 {
        Some((w, h))
    } else {
        None
    }
}

/// The window records a GNOME introspection dump denotes, scanning from
/// `pos` with synthetic ids counting up from `id`: one record per
/// `'wm-class':` occurrence. (The D-Bus payload exposes no stable short id
/// in the parsed subset, so ids are sequential; the scan stops if the
/// counter would overflow.)
#[verifier::opaque]
pub open spec fn spec_gnome_scan(s: Seq<char>, pos: int, id: u32) -> Seq<WindowFields>
    recommends
        0 <= pos <= s.len(),
    decreases s.len() - pos,
        when 0 <= pos <= s.len()
        via spec_gnome_scan_dec
{
    if !crate::text::contains_from(s, "'wm-class':"@, pos) {
        Seq::empty()
    } else {
        let abs = crate::text::first_match_from(s, "'wm-class':"@, pos);
        let w = spec_gnome_window(s, pos, abs, id);
        if id == u32::MAX {
            seq![w]
        } else {
            seq![w] + spec_gnome_scan(s, abs + 10, (id + 1) as u32)
        }
    }
}

/// One window record of a GNOME dump: the class read at its own
/// occurrence, the other fields read from the current scan position on.
#[verifier::opaque]
pub open spec fn spec_gnome_window(s: Seq<char>, pos: int, abs: int, id: u32) -> WindowFields {
    WindowFields {
        id,
        pid: match spec_gvariant_number(s, pos) {
            Some(p) => p,
            None => 0,
        },
        app_name: match spec_gvariant_string(s, abs, "'wm-class':"@) {
            Some(c) => c,
            None => Seq::empty(),
        },
        title: match spec_gvariant_string(s, pos, "'title':"@) {
            Some(t) => t,
            None => Seq::empty(),
        },
        x: 0,
        y: 0,
        z: 0,
        width: match spec_gnome_dimensions(s, pos) {
            Some(d) => d.0,
            None => 0,
        },
        height: match spec_gnome_dimensions(s, pos) {
            Some(d) => d.1,
            None => 0,
        },
        is_minimized: false,
        is_maximized: false,
        is_focused: false,
    }
}

/// Reads one GNOME window record, mirroring `spec_gnome_window`.
fn gnome_window_at(
    output: &str,
    cs: &Vec<char>,
    pos: usize,
    abs: usize,
    id: u32,
    wm_class_prefix: &Vec<char>,
    title_prefix: &Vec<char>,
) -> (r: WindowInfo)
    requires
        cs@ == output@,
        pos <= cs@.len(),
        abs <= cs@.len(),
        wm_class_prefix@ == "'wm-class':"@,
        title_prefix@ == "'title':"@,
    ensures
        r@ == spec_gnome_window(output@, pos as int, abs as int, id),
{
    proof {
        reveal(spec_gnome_window);
    }
    let wm_class = match gvariant_string_at(output, cs, abs, wm_class_prefix) {
        Some(c) => c,
        None => String::new(),
    };
    let title = match gvariant_string_at(output, cs, pos, title_prefix) {
        Some(t) => t,
        None => String::new(),
    };
    let pid = gvariant_number_at(cs, pos).unwrap_or(0);
    let (width, height) = match gnome_dimensions_at(cs, pos) {
        Some(d) => d,
        None => (0, 0),
    };
    WindowInfo {
        id,
        pid,
        app_name: wm_class,
        title,
        x: 0,
        y: 0,
        z: 0,
        width,
        height,
        is_minimized: false,
        is_maximized: false,
        is_focused: false,
    }
}

#[via_fn]
proof fn spec_gnome_scan_dec(s: Seq<char>, pos: int, id: u32) {
    if crate::text::contains_from(s, "'wm-class':"@, pos) {
        let w = choose|i: int| pos <= i && crate::text::match_at(s, "'wm-class':"@, i);
        lemma_first_from_exists(s, "'wm-class':"@, pos, w);
        reveal_strlit("'wm-class':");
    }
}

/// One unfolding of the GNOME scan when a class marker remains and the id
/// counter has room.
#[verifier::rlimit(100)]
#[verifier::spinoff_prover]
proof fn lemma_gnome_scan_step(s: Seq<char>, pos: int, id: u32)
    requires
        0 <= pos <= s.len(),
        crate::text::contains_from(s, "'wm-class':"@, pos),
        id < u32::MAX,
    ensures
        spec_gnome_scan(s, pos, id) == seq![
            spec_gnome_window(s, pos, crate::text::first_match_from(s, "'wm-class':"@, pos), id),
        ] + spec_gnome_scan(
            s,
            crate::text::first_match_from(s, "'wm-class':"@, pos) + 10,
            (id + 1) as u32,
        ),
        crate::text::first_match_from(s, "'wm-class':"@, pos) + 11 <= s.len(),
        pos <= crate::text::first_match_from(s, "'wm-class':"@, pos),
{
    reveal(spec_gnome_scan);
    let w = choose|i: int| pos <= i && crate::text::match_at(s, "'wm-class':"@, i);
    lemma_first_from_exists(s, "'wm-class':"@, pos, w);
    reveal_strlit("'wm-class':");
}

/// The GNOME scan yields nothing once no class marker remains.
proof fn lemma_gnome_scan_end(s: Seq<char>, pos: int, id: u32)
    requires
        0 <= pos <= s.len(),
        !crate::text::contains_from(s, "'wm-class':"@, pos),
    ensures
        spec_gnome_scan(s, pos, id) == Seq::<WindowFields>::empty(),
{
    reveal(spec_gnome_scan);
}

/// The GNOME scan stops after one record when the id counter is exhausted.
proof fn lemma_gnome_scan_last(s: Seq<char>, pos: int)
    requires
        0 <= pos <= s.len(),
        crate::text::contains_from(s, "'wm-class':"@, pos),
    ensures
        spec_gnome_scan(s, pos, u32::MAX) == seq![
            spec_gnome_window(
                s,
                pos,
                crate::text::first_match_from(s, "'wm-class':"@, pos),
                u32::MAX,
            ),
        ],
{
    reveal(spec_gnome_scan);
    let w = choose|i: int| pos <= i && crate::text::match_at(s, "'wm-class':"@, i);
    lemma_first_from_exists(s, "'wm-class':"@, pos, w);
}

/// Parses GNOME Shell introspection output; an empty result means the
/// caller should fall through to the generic backend.
#[verifier::rlimit(100)]
pub fn parse_gnome_introspect_output(output: &str) -> (r: WindowListResult)
    ensures
        r matches Ok(ws) && views_of(ws@) == spec_gnome_scan(output@, 0, 1),
{
    let cs = str_chars(output);
    let pat = str_chars("'wm-class':");
    proof {
        reveal_strlit("'wm-class':");
    }
    let wm_class_prefix = str_chars("'wm-class':");
    let title_prefix = str_chars("'title':");
    let mut windows: Vec<WindowInfo> = Vec::new();
    let mut pos: usize = 0;
    let mut window_id: u32 = 1;
    let cs_len = cs.len();
    proof {
        assert(cs@.len() == cs_len);
        assert(views_of(windows@) =~= Seq::<WindowFields>::empty());
    }
    loop
        invariant
            0 <= pos <= cs@.len(),
            cs@.len() <= usize::MAX,
            cs@ == output@,
            pat@ == "'wm-class':"@,
            pat@.len() == 11,
            wm_class_prefix@ == "'wm-class':"@,
            title_prefix@ == "'title':"@,
            spec_gnome_scan(output@, 0, 1) == views_of(windows@) + spec_gnome_scan(
                output@,
                pos as int,
                window_id,
            ),
        decreases cs@.len() - pos,
    {
        let m = crate::text::find_pattern_from(cs.as_slice(), pat.as_slice(), pos);
        match m {
            None => {
                proof {
                    lemma_gnome_scan_end(output@, pos as int, window_id);
                    assert(views_of(windows@) + Seq::<WindowFields>::empty() =~= views_of(
                        windows@,
                    ));
                }
                return Ok(windows);
            },
            Some(abs) => {
                let info = gnome_window_at(
                    output,
                    &cs,
                    pos,
                    abs,
                    window_id,
                    &wm_class_prefix,
                    &title_prefix,
                );
                let ghost pre_ws = windows@;
                let ghost pre_id = window_id;
                let ghost pre_pos = pos as int;
                let ghost iv = info@;
                windows.push(info);
                proof {
                    crate::window::lemma_views_push(pre_ws, windows@.last());
                    assert(views_of(pre_ws).push(iv) =~= views_of(pre_ws) + seq![iv]);
                }
                if window_id == u32::MAX {
                    proof {
                        lemma_gnome_scan_last(output@, pre_pos);
                        assert(views_of(pre_ws) + (seq![iv] + Seq::<WindowFields>::empty())
                            =~= views_of(windows@) + Seq::<WindowFields>::empty());
                        assert(seq![iv] + Seq::<WindowFields>::empty() =~= seq![iv]);
                        assert(views_of(windows@) + Seq::<WindowFields>::empty() =~= views_of(
                            windows@,
                        ));
                        assert(spec_gnome_scan(output@, 0, 1) == views_of(windows@));
                    }
                    return Ok(windows);
                }
                window_id = window_id + 1;
                pos = abs + 10;
                proof {
                    lemma_gnome_scan_step(output@, pre_pos, pre_id);
                    assert(views_of(pre_ws) + (seq![iv] + spec_gnome_scan(
                        output@,
                        pos as int,
                        window_id,
                    )) =~= views_of(windows@) + spec_gnome_scan(output@, pos as int, window_id));
                }
            },
        }
    }
}

// ============================================================================
// KDE (kdotool and the KWin D-Bus placeholder)
// ============================================================================

/// The ids in a kdotool listing: one per line whose trimmed text parses as
/// a `u32`.
pub open spec fn spec_kdotool_ids(s: Seq<char>, i: int) -> Seq<u32>
    recommends
        0 <= i <= s.len(),
    decreases s.len() - i,
        when 0 <= i <= s.len()
        via spec_kdotool_ids_dec
{
    if i >= s.len() {
        Seq::empty()
    } else {
        let nl = crate::text::char_pos(s, i, '\n');
        let line = crate::text::trim_ws(s.subrange(i, nl));
        let rest = if nl < s.len() {
            spec_kdotool_ids(s, nl + 1)
        } else {
            Seq::empty()
        };
        match crate::text::spec_parse_u32(line) {
            Some(id) => seq![id] + rest,
            None => rest,
        }
    }
}

#[via_fn]
proof fn spec_kdotool_ids_dec(s: Seq<char>, i: int) {
    if i < s.len() {
        crate::text::lemma_char_pos_bounds(s, i, '\n');
    }
}

/// Parses kdotool output into the listed window ids.
pub fn parse_kdotool_ids(output: &str) -> (r: Vec<u32>)
    ensures
        r@ == spec_kdotool_ids(output@, 0),
{
    let cs = str_chars(output);
    let mut ids: Vec<u32> = Vec::new();
    let mut pos: usize = 0;
    loop
        invariant
            0 <= pos <= cs@.len(),
            cs@ == output@,
            spec_kdotool_ids(output@, 0) == ids@ + spec_kdotool_ids(output@, pos as int),
        decreases cs@.len() - pos + 1,
    {
        if pos >= cs.len() {
            proof {
                assert(ids@ + Seq::<u32>::empty() =~= ids@);
            }
            return ids;
        }
        let nl = crate::text::scan_to_char(cs.as_slice(), pos, '\n');
        let (a, b) = crate::text::trim_range(cs.as_slice(), pos, nl);
        let ghost pre = ids@;
        match crate::text::parse_u32_range(cs.as_slice(), a, b) {
            Some(id) => {
                ids.push(id);
                proof {
                    assert(pre.push(id) =~= pre + seq![id]);
                }
            },
            None => {},
        }
        let ghost old_pos = pos as int;
        if nl >= cs.len() {
            proof {
                if spec_parse_u32_line(output@, old_pos) is Some {
                    assert(ids@ =~= pre + seq![spec_parse_u32_line(output@, old_pos)->0]);
                }
                assert(ids@ + Seq::<u32>::empty() =~= ids@);
            }
            return ids;
        }
        pos = nl + 1;
        proof {
            assert(ids@ + spec_kdotool_ids(output@, pos as int) =~= pre + spec_kdotool_ids(
                output@,
                old_pos,
            ));
        }
    }
}

/// The trimmed text of the line starting at `i`, parsed as a `u32`.
spec fn spec_parse_u32_line(s: Seq<char>, i: int) -> Option<u32> {
    crate::text::spec_parse_u32(
        crate::text::trim_ws(s.subrange(i, crate::text::char_pos(s, i, '\n'))),
    )
}

/// The title a resolved KDE window carries.
pub open spec fn spec_kde_title(t: &Option<String>) -> Seq<char> {
    match t {
        Some(v) => v@,
        None => Seq::empty(),
    }
}

/// The resolved title, or empty when the per-id query failed.
fn title_of(t: &Option<String>) -> (r: String)
    ensures
        r@ == spec_kde_title(t),
{
    match t {
        Some(v) => v.clone(),
        None => String::new(),
    }
}

/// The records a KDE listing denotes: one per id, carrying the resolved
/// title and nothing else.
pub open spec fn spec_kde_views(ids: Seq<u32>, titles: Seq<Option<String>>) -> Seq<WindowFields> {
    Seq::new(
        ids.len(),
        |k: int|
            WindowFields {
                id: ids[k],
                pid: 0,
                app_name: Seq::empty(),
                title: spec_kde_title(&titles[k]),
                x: 0,
                y: 0,
                z: 0,
                width: 0,
                height: 0,
                is_minimized: false,
                is_maximized: false,
                is_focused: false,
            },
    )
}

/// Builds window records from kdotool ids and their per-id resolved titles
/// (every other field is unavailable over this interface and defaults).
pub fn kde_windows_from_parts(ids: &Vec<u32>, titles: &Vec<Option<String>>) -> (r: Vec<
    WindowInfo,
>)
    requires
        ids@.len() == titles@.len(),
    ensures
        views_of(r@) == spec_kde_views(ids@, titles@),
        r@.len() == ids@.len(),
{
    let mut r: Vec<WindowInfo> = Vec::new();
    let mut i: usize = 0;
    while i < ids.len()
        invariant
            ids@.len() == titles@.len(),
            0 <= i <= ids@.len(),
            r@.len() == i,
            forall|k: int|
                0 <= k < i ==> #[trigger] views_of(r@)[k] == spec_kde_views(ids@, titles@)[k],
        decreases ids@.len() - i,
    {
        let title = title_of(&titles[i]);
        let info = WindowInfo {
            id: ids[i],
            pid: 0,
            app_name: String::new(),
            title,
            x: 0,
            y: 0,
            z: 0,
            width: 0,
            height: 0,
            is_minimized: false,
            is_maximized: false,
            is_focused: false,
        };
        let ghost pre = r@;
        let ghost iv = info@;
        r.push(info);
        proof {
            crate::window::lemma_views_push(pre, r@.last());
            assert(views_of(r@) == views_of(pre).push(iv));
            assert(views_of(r@)[i as int] == iv);
            assert(iv =~= spec_kde_views(ids@, titles@)[i as int]);
            assert(forall|k: int|
                0 <= k < pre.len() ==> #[trigger] views_of(r@)[k] == views_of(pre)[k]);
        }
        i = i + 1;
    }
    proof {
        assert(views_of(r@) =~= spec_kde_views(ids@, titles@));
    }
    r
}

/// Parses KDE's D-Bus window-query output. The interface's textual format
/// is not handled yet: every result falls through to the generic backend,
/// so this yields no windows whatever the input.
pub fn parse_kde_dbus_output(_output: &str) -> (r: Option<Vec<WindowInfo>>)
    ensures
        r is None,
{
    None
}


// ============================================================================
// Tool outcomes and the listing dispatcher
// ============================================================================

/// The outcome of one external tool invocation, as the embedding
/// application observed it: whether the process could be spawned, whether it
/// exited successfully, its decoded standard output, and the launch error
/// text when spawning failed.
#[derive(Debug)]
pub struct ToolOutcome {
    pub launched: bool,
    pub success: bool,
    pub stdout: String,
    pub detail: String,
}

/// Everything the listing dispatcher may consult: the backend's primary
/// tool outcome, KDE's D-Bus fallback query, the per-id title lookups
/// (aligned with `parse_kdotool_ids` of the primary output), and the
/// outcome of the generic in-process enumeration when the application
/// could provide one.
#[derive(Debug)]
pub struct ListingIo {
    pub primary: ToolOutcome,
    pub kde_fallback: ToolOutcome,
    pub kde_titles: Vec<Option<String>>,
    pub generic: Option<Result<Vec<WindowInfo>, String>>,
}

/// The tool was spawned and exited successfully.
pub open spec fn spec_ran_ok(t: &ToolOutcome) -> bool {
    t.launched && t.success
}

/// What falling through to the generic enumeration yields: its windows, its
/// error, or an error naming the missing enumeration.
pub open spec fn spec_generic_post(
    g: &Option<Result<Vec<WindowInfo>, String>>,
    r: &WindowListResult,
) -> bool {
    match g {
        Some(Ok(ws)) => r matches Ok(rs) && rs@ == ws@,
        Some(Err(e)) => r matches Err(WindowCaptureError::EnumerationFailed(m)) && m@
            == "generic enumeration failed: "@ + e@,
        None => r matches Err(WindowCaptureError::EnumerationFailed(m)) && m@
            == "generic enumeration unavailable"@,
    }
}

/// What the listing dispatcher owes per backend: Hyprland and Sway surface
/// their tool's failure, GNOME and KDE fall through to the generic
/// enumeration on failure or an empty parse, and the X11 and generic
/// backends use the generic enumeration directly.
pub open spec fn spec_listing_post(
    backend: WindowListBackend,
    io: &ListingIo,
    r: &WindowListResult,
) -> bool {
    match backend {
        WindowListBackend::Hyprland => {
            if !io.primary.launched {
                r matches Err(WindowCaptureError::EnumerationFailed(m)) && m@
                    == "Failed to run hyprctl: "@ + io.primary.detail@
            } else if !io.primary.success {
                r matches Err(WindowCaptureError::EnumerationFailed(m)) && m@
                    == "hyprctl returned non-zero exit code"@
            } else {
                match r {
                    Ok(ws) => spec_parse_hyprland(io.primary.stdout@) == Ok::<_, ()>(
                        views_of(ws@),
                    ),
                    Err(WindowCaptureError::EnumerationFailed(m)) => spec_parse_hyprland(
                        io.primary.stdout@,
                    ) is Err && m@ == "Invalid JSON from hyprctl"@,
                    Err(_) => false,
                }
            }
        },
        WindowListBackend::Sway => {
            if !io.primary.launched {
                r matches Err(WindowCaptureError::EnumerationFailed(m)) && m@
                    == "Failed to run swaymsg: "@ + io.primary.detail@
            } else if !io.primary.success {
                r matches Err(WindowCaptureError::EnumerationFailed(m)) && m@
                    == "swaymsg returned non-zero exit code"@
            } else {
                r matches Ok(ws) && views_of(ws@) == spec_sway_scan(
                    io.primary.stdout@,
                    0,
                    Seq::empty(),
                )
            }
        },
        WindowListBackend::GnomeWayland => {
            if spec_ran_ok(&io.primary) && spec_gnome_scan(io.primary.stdout@, 0, 1).len() > 0 {
                r matches Ok(ws) && views_of(ws@) == spec_gnome_scan(io.primary.stdout@, 0, 1)
            } else {
                spec_generic_post(&io.generic, r)
            }
        },
        WindowListBackend::KdeWayland => {
            if spec_ran_ok(&io.primary) && spec_kdotool_ids(io.primary.stdout@, 0).len() > 0 {
                r matches Ok(ws) && views_of(ws@) == spec_kde_views(
                    spec_kdotool_ids(io.primary.stdout@, 0),
                    io.kde_titles@,
                )
            } else {
                spec_generic_post(&io.generic, r)
            }
        },
        WindowListBackend::X11 => spec_generic_post(&io.generic, r),
        WindowListBackend::Xcap => spec_generic_post(&io.generic, r),
    }
}

/// The one alignment the dispatcher needs: when the KDE listing tool
/// succeeded, the title lookups line up with its ids.
pub open spec fn spec_listing_requires(backend: WindowListBackend, io: &ListingIo) -> bool {
    backend is KdeWayland && spec_ran_ok(&io.primary) ==> io.kde_titles@.len()
        == spec_kdotool_ids(io.primary.stdout@, 0).len()
}

/// Copies a window list element by element.
fn clone_windows(ws: &Vec<WindowInfo>) -> (r: Vec<WindowInfo>)
    ensures
        r@ == ws@,
{
    let mut r: Vec<WindowInfo> = Vec::new();
    let mut i: usize = 0;
    while i < ws.len()
        invariant
            0 <= i <= ws@.len(),
            r@ =~= ws@.take(i as int),
        decreases ws@.len() - i,
    {
        r.push(ws[i].clone());
        proof {
            assert(r@ =~= ws@.take(i + 1));
        }
        i = i + 1;
    }
    proof {
        assert(ws@.take(ws@.len() as int) =~= ws@);
    }
    r
}

/// Falls through to the generic in-process enumeration.
fn generic_fallback(io: &ListingIo) -> (r: WindowListResult)
    ensures
        spec_generic_post(&io.generic, &r),
{
    match &io.generic {
        Some(Ok(ws)) => Ok(clone_windows(ws)),
        Some(Err(e)) => {
            let mut m = String::from_str("generic enumeration failed: ");
            m.append(e.as_str());
            Err(WindowCaptureError::EnumerationFailed(m))
        },
        None => Err(
            WindowCaptureError::EnumerationFailed(
                String::from_str("generic enumeration unavailable"),
            ),
        ),
    }
}

/// Lists windows using a specific backend, deciding over the tool outcomes
/// the application gathered.
pub fn list_windows_with_backend(backend: WindowListBackend, io: &ListingIo) -> (r:
    WindowListResult)
    requires
        spec_listing_requires(backend, io),
    ensures
        spec_listing_post(backend, io, &r),
{
    match backend {
        WindowListBackend::Hyprland => {
            if !io.primary.launched {
                let mut m = String::from_str("Failed to run hyprctl: ");
                m.append(io.primary.detail.as_str());
                Err(WindowCaptureError::EnumerationFailed(m))
            } else if !io.primary.success {
                Err(
                    WindowCaptureError::EnumerationFailed(
                        String::from_str("hyprctl returned non-zero exit code"),
                    ),
                )
            } else {
                parse_hyprland_json(io.primary.stdout.as_str())
            }
        },
        WindowListBackend::Sway => {
            if !io.primary.launched {
                let mut m = String::from_str("Failed to run swaymsg: ");
                m.append(io.primary.detail.as_str());
                Err(WindowCaptureError::EnumerationFailed(m))
            } else if !io.primary.success {
                Err(
                    WindowCaptureError::EnumerationFailed(
                        String::from_str("swaymsg returned non-zero exit code"),
                    ),
                )
            } else {
                parse_sway_tree(io.primary.stdout.as_str())
            }
        },
        WindowListBackend::GnomeWayland => {
            if io.primary.launched && io.primary.success {
                match parse_gnome_introspect_output(io.primary.stdout.as_str()) {
                    Ok(ws) => {
                        if ws.len() > 0 {
                            proof {
                                assert(views_of(ws@).len() == ws@.len());
                            }
                            return Ok(ws);
                        }
                        proof {
                            assert(views_of(ws@).len() == ws@.len());
                        }
                        generic_fallback(io)
                    },
                    Err(_) => generic_fallback(io),
                }
            } else {
                generic_fallback(io)
            }
        },
        WindowListBackend::KdeWayland => {
            if io.primary.launched && io.primary.success {
                let ids = parse_kdotool_ids(io.primary.stdout.as_str());
                if ids.len() > 0 {
                    return Ok(kde_windows_from_parts(&ids, &io.kde_titles));
                }
                if io.kde_fallback.launched && io.kde_fallback.success {
                    let _ = parse_kde_dbus_output(io.kde_fallback.stdout.as_str());
                }
                generic_fallback(io)
            } else {
                if io.kde_fallback.launched && io.kde_fallback.success {
                    let _ = parse_kde_dbus_output(io.kde_fallback.stdout.as_str());
                }
                generic_fallback(io)
            }
        },
        WindowListBackend::X11 => generic_fallback(io),
        WindowListBackend::Xcap => generic_fallback(io),
    }
}

/// Lists windows using the appropriate backend for the session.
pub fn list_windows_for_session(session: &DesktopSession, io: &ListingIo) -> (r: WindowListResult)
    requires
        spec_listing_requires(spec_window_list_backend(session), io),
    ensures
        spec_listing_post(spec_window_list_backend(session), io, &r),
{
    let backend = session.window_list_backend();
    list_windows_with_backend(backend, io)
}


// ============================================================================
// Tool commands and fallback plans
// ============================================================================

/// An external tool invocation, as data: the program and its arguments.
#[derive(Debug)]
pub struct ToolCommand {
    pub program: String,
    pub args: Vec<String>,
}

/// The argument strings' views, in order.
pub open spec fn args_views(v: Seq<String>) -> Seq<Seq<char>> {
    v.map_values(|s: String| s@)
}

/// The command runs `prog` with exactly `args`.
pub open spec fn spec_cmd(c: &ToolCommand, prog: Seq<char>, args: Seq<Seq<char>>) -> bool {
    c.program@ == prog && args_views(c.args@) == args
}

fn cmd1(prog: &str, a0: &str) -> (c: ToolCommand)
    ensures
        spec_cmd(&c, prog@, seq![a0@]),
{
    let mut args: Vec<String> = Vec::new();
    args.push(String::from_str(a0));
    proof {
        assert(args_views(args@) =~= seq![a0@]);
    }
    ToolCommand { program: String::from_str(prog), args }
}

fn cmd2(prog: &str, a0: &str, a1: &str) -> (c: ToolCommand)
    ensures
        spec_cmd(&c, prog@, seq![a0@, a1@]),
{
    let mut args: Vec<String> = Vec::new();
    args.push(String::from_str(a0));
    args.push(String::from_str(a1));
    proof {
        assert(args_views(args@) =~= seq![a0@, a1@]);
    }
    ToolCommand { program: String::from_str(prog), args }
}

fn cmd2s(prog: &str, a0: &str, a1: String) -> (c: ToolCommand)
    ensures
        spec_cmd(&c, prog@, seq![a0@, a1@]),
{
    let mut args: Vec<String> = Vec::new();
    args.push(String::from_str(a0));
    args.push(a1);
    proof {
        assert(args_views(args@) =~= seq![args@[0]@, args@[1]@]);
    }
    ToolCommand { program: String::from_str(prog), args }
}

fn cmd3(prog: &str, a0: &str, a1: &str, a2: &str) -> (c: ToolCommand)
    ensures
        spec_cmd(&c, prog@, seq![a0@, a1@, a2@]),
{
    let mut args: Vec<String> = Vec::new();
    args.push(String::from_str(a0));
    args.push(String::from_str(a1));
    args.push(String::from_str(a2));
    proof {
        assert(args_views(args@) =~= seq![a0@, a1@, a2@]);
    }
    ToolCommand { program: String::from_str(prog), args }
}

fn cmd3ss(prog: &str, a0: &str, a1: String, a2: String) -> (c: ToolCommand)
    ensures
        spec_cmd(&c, prog@, seq![a0@, a1@, a2@]),
{
    let mut args: Vec<String> = Vec::new();
    args.push(String::from_str(a0));
    args.push(a1);
    args.push(a2);
    proof {
        assert(args_views(args@) =~= seq![args@[0]@, args@[1]@, args@[2]@]);
    }
    ToolCommand { program: String::from_str(prog), args }
}

fn cmd4s(prog: &str, a0: &str, a1: &str, a2: &str, a3: String) -> (c: ToolCommand)
    ensures
        spec_cmd(&c, prog@, seq![a0@, a1@, a2@, a3@]),
{
    let mut args: Vec<String> = Vec::new();
    args.push(String::from_str(a0));
    args.push(String::from_str(a1));
    args.push(String::from_str(a2));
    args.push(a3);
    proof {
        assert(args_views(args@) =~= seq![args@[0]@, args@[1]@, args@[2]@, args@[3]@]);
    }
    ToolCommand { program: String::from_str(prog), args }
}

fn cmd5s(prog: &str, a0: &str, a1: &str, a2: &str, a3: &str, a4: String) -> (c: ToolCommand)
    ensures
        spec_cmd(&c, prog@, seq![a0@, a1@, a2@, a3@, a4@]),
{
    let mut args: Vec<String> = Vec::new();
    args.push(String::from_str(a0));
    args.push(String::from_str(a1));
    args.push(String::from_str(a2));
    args.push(String::from_str(a3));
    args.push(a4);
    proof {
        assert(args_views(args@) =~= seq![
            args@[0]@,
            args@[1]@,
            args@[2]@,
            args@[3]@,
            args@[4]@,
        ]);
    }
    ToolCommand { program: String::from_str(prog), args }
}

fn cmd8(
    prog: &str,
    a0: &str,
    a1: &str,
    a2: &str,
    a3: &str,
    a4: &str,
    a5: &str,
    a6: &str,
    a7: &str,
) -> (c: ToolCommand)
    ensures
        spec_cmd(&c, prog@, seq![a0@, a1@, a2@, a3@, a4@, a5@, a6@, a7@]),
{
    let mut args: Vec<String> = Vec::new();
    args.push(String::from_str(a0));
    args.push(String::from_str(a1));
    args.push(String::from_str(a2));
    args.push(String::from_str(a3));
    args.push(String::from_str(a4));
    args.push(String::from_str(a5));
    args.push(String::from_str(a6));
    args.push(String::from_str(a7));
    proof {
        assert(args_views(args@) =~= seq![a0@, a1@, a2@, a3@, a4@, a5@, a6@, a7@]);
    }
    ToolCommand { program: String::from_str(prog), args }
}

fn cmd11s(
    prog: &str,
    a0: &str,
    a1: &str,
    a2: &str,
    a3: &str,
    a4: &str,
    a5: &str,
    a6: &str,
    a7: &str,
    a8: &str,
    a9: &str,
    a10: String,
) -> (c: ToolCommand)
    ensures
        spec_cmd(&c, prog@, seq![a0@, a1@, a2@, a3@, a4@, a5@, a6@, a7@, a8@, a9@, a10@]),
{
    let mut args: Vec<String> = Vec::new();
    args.push(String::from_str(a0));
    args.push(String::from_str(a1));
    args.push(String::from_str(a2));
    args.push(String::from_str(a3));
    args.push(String::from_str(a4));
    args.push(String::from_str(a5));
    args.push(String::from_str(a6));
    args.push(String::from_str(a7));
    args.push(String::from_str(a8));
    args.push(String::from_str(a9));
    args.push(a10);
    proof {
        assert(args_views(args@) =~= seq![
            args@[0]@,
            args@[1]@,
            args@[2]@,
            args@[3]@,
            args@[4]@,
            args@[5]@,
            args@[6]@,
            args@[7]@,
            args@[8]@,
            args@[9]@,
            args@[10]@,
        ]);
    }
    ToolCommand { program: String::from_str(prog), args }
}

/// The tools the listing dispatcher may need, in the order they are tried.
pub fn listing_plan(backend: WindowListBackend) -> (r: Vec<ToolCommand>)
    ensures
        match backend {
            WindowListBackend::Hyprland => r@.len() == 1 && spec_cmd(
                &r@[0],
                "hyprctl"@,
                seq!["clients"@, "-j"@],
            ),
            WindowListBackend::Sway => r@.len() == 1 && spec_cmd(
                &r@[0],
                "swaymsg"@,
                seq!["-t"@, "get_tree"@],
            ),
            WindowListBackend::GnomeWayland => r@.len() == 1 && spec_cmd(
                &r@[0],
                "gdbus"@,
                seq![
                    "call"@,
                    "--session"@,
                    "--dest"@,
                    "org.gnome.Shell.Introspect"@,
                    "--object-path"@,
                    "/org/gnome/Shell/Introspect"@,
                    "--method"@,
                    "org.gnome.Shell.Introspect.GetWindows"@,
                ],
            ),
            WindowListBackend::KdeWayland => r@.len() == 2 && spec_cmd(
                &r@[0],
                "kdotool"@,
                seq!["search"@, "--name"@, ""@],
            ) && spec_cmd(
                &r@[1],
                "gdbus"@,
                seq![
                    "call"@,
                    "--session"@,
                    "--dest"@,
                    "org.kde.KWin"@,
                    "--object-path"@,
                    "/KWin"@,
                    "--method"@,
                    "org.kde.KWin.queryWindowInfo"@,
                ],
            ),
            WindowListBackend::X11 => r@.len() == 0,
            WindowListBackend::Xcap => r@.len() == 0,
        },
{
    let mut r: Vec<ToolCommand> = Vec::new();
    match backend {
        WindowListBackend::Hyprland => {
            r.push(cmd2("hyprctl", "clients", "-j"));
        },
        WindowListBackend::Sway => {
            r.push(cmd2("swaymsg", "-t", "get_tree"));
        },
        WindowListBackend::GnomeWayland => {
            r.push(
                cmd8(
                    "gdbus",
                    "call",
                    "--session",
                    "--dest",
                    "org.gnome.Shell.Introspect",
                    "--object-path",
                    "/org/gnome/Shell/Introspect",
                    "--method",
                    "org.gnome.Shell.Introspect.GetWindows",
                ),
            );
        },
        WindowListBackend::KdeWayland => {
            r.push(cmd3("kdotool", "search", "--name", ""));
            r.push(
                cmd8(
                    "gdbus",
                    "call",
                    "--session",
                    "--dest",
                    "org.kde.KWin",
                    "--object-path",
                    "/KWin",
                    "--method",
                    "org.kde.KWin.queryWindowInfo",
                ),
            );
        },
        WindowListBackend::X11 => {},
        WindowListBackend::Xcap => {},
    }
    r
}

/// One step of a capture fallback chain.
#[derive(Debug)]
pub enum CaptureStep {
    /// Run the tool; it writes a PNG at the temporary path named in its
    /// arguments, which is then loaded.
    RunToFile(ToolCommand),
    /// Run the tool for a full-screen grab to the temporary path, load it,
    /// and crop to the rectangle.
    RunFullScreenThenCrop(ToolCommand, crate::geometry::Rect),
    /// Use the generic in-process capture path.
    Generic,
}

/// The temporary file a capture tool writes to: a fixed prefix qualified by
/// the process id, so concurrent processes cannot collide.
pub open spec fn spec_temp_path(pid: u32) -> Seq<char> {
    "/tmp/screenshot_gnome_"@ + crate::text::dec_rep(pid as int) + ".png"@
}

/// Builds the temporary capture path for this process id.
pub fn temp_path(pid: u32) -> (r: String)
    ensures
        r@ == spec_temp_path(pid),
{
    let mut s = String::from_str("/tmp/screenshot_gnome_");
    crate::text::push_u32_dec(&mut s, pid);
    let ghost mid = s@;
    s.append(".png");
    proof {
        assert(s@ =~= spec_temp_path(pid));
    }
    s
}

/// The `"x,y WxH"` geometry string handed to a region-capturing tool.
pub open spec fn spec_grim_geometry(w: WindowFields) -> Seq<char> {
    crate::text::dec_rep_signed(w.x as int) + ","@ + crate::text::dec_rep_signed(w.y as int)
        + " "@ + crate::text::dec_rep(w.width as int) + "x"@ + crate::text::dec_rep(
        w.height as int,
    )
}

/// Builds the geometry string for a window.
pub fn grim_geometry(info: &WindowInfo) -> (r: String)
    ensures
        r@ == spec_grim_geometry(info@),
{
    let mut s = String::new();
    crate::text::push_i32_dec(&mut s, info.x);
    s.append(",");
    crate::text::push_i32_dec(&mut s, info.y);
    s.append(" ");
    crate::text::push_u32_dec(&mut s, info.width);
    s.append("x");
    crate::text::push_u32_dec(&mut s, info.height);
    proof {
        assert(Seq::<char>::empty() + crate::text::dec_rep_signed(info.x as int)
            =~= crate::text::dec_rep_signed(info.x as int));
        assert(s@ =~= spec_grim_geometry(info@));
    }
    s
}

/// The step that region-captures the window with the Wayland utility.
pub open spec fn step_grim_region(st: CaptureStep, w: WindowFields, pid: u32) -> bool {
    st matches CaptureStep::RunToFile(c) && spec_cmd(
        &c,
        "grim"@,
        seq!["-g"@, spec_grim_geometry(w), spec_temp_path(pid)],
    )
}

/// The step that asks the GNOME shell over D-Bus to capture the focused
/// window.
pub open spec fn step_gdbus_window(st: CaptureStep, pid: u32) -> bool {
    st matches CaptureStep::RunToFile(c) && spec_cmd(
        &c,
        "gdbus"@,
        seq![
            "call"@,
            "--session"@,
            "--dest"@,
            "org.gnome.Shell.Screenshot"@,
            "--object-path"@,
            "/org/gnome/Shell/Screenshot"@,
            "--method"@,
            "org.gnome.Shell.Screenshot.ScreenshotWindow"@,
            "true"@,
            "true"@,
            spec_temp_path(pid),
        ],
    )
}

/// The step that captures the whole screen with the GNOME utility and crops
/// to the window's rectangle.
pub open spec fn step_gnome_fullcrop(st: CaptureStep, w: WindowFields, pid: u32) -> bool {
    st matches CaptureStep::RunFullScreenThenCrop(c, rect) && spec_cmd(
        &c,
        "gnome-screenshot"@,
        seq!["-f"@, spec_temp_path(pid)],
    ) && rect == (crate::geometry::Rect { x: w.x, y: w.y, width: w.width, height: w.height })
}

/// The step that asks the KDE utility for the active window, headless.
pub open spec fn step_spectacle_active(st: CaptureStep, pid: u32) -> bool {
    st matches CaptureStep::RunToFile(c) && spec_cmd(
        &c,
        "spectacle"@,
        seq!["-a"@, "-b"@, "-n"@, "-o"@, spec_temp_path(pid)],
    )
}

/// What the window-capture plan owes per backend: the documented attempt
/// order, always ending at the generic path.
pub open spec fn spec_window_plan(
    backend: WindowListBackend,
    w: WindowFields,
    pid: u32,
    steps: Seq<CaptureStep>,
) -> bool {
    match backend {
        WindowListBackend::Hyprland => steps.len() == 2 && step_grim_region(steps[0], w, pid)
            && steps[1] is Generic,
        WindowListBackend::Sway => steps.len() == 2 && step_grim_region(steps[0], w, pid)
            && steps[1] is Generic,
        WindowListBackend::GnomeWayland => steps.len() == 4 && step_gdbus_window(steps[0], pid)
            && step_grim_region(steps[1], w, pid) && step_gnome_fullcrop(steps[2], w, pid)
            && steps[3] is Generic,
        WindowListBackend::KdeWayland => steps.len() == 3 && step_spectacle_active(steps[0], pid)
            && step_grim_region(steps[1], w, pid) && steps[2] is Generic,
        WindowListBackend::X11 => steps.len() == 1 && steps[0] is Generic,
        WindowListBackend::Xcap => steps.len() == 1 && steps[0] is Generic,
    }
}

/// Plans the capture of a window: the ordered fallback chain for the
/// backend, ending at the generic path, or `WindowMinimized` without any
/// step when the window cannot be captured at all.
pub fn capture_window_plan(backend: WindowListBackend, info: &WindowInfo, pid: u32) -> (r: Result<
    Vec<CaptureStep>,
    WindowCaptureError,
>)
    ensures
        info.is_minimized ==> r == Err::<Vec<CaptureStep>, _>(WindowCaptureError::WindowMinimized),
        !info.is_minimized ==> (r matches Ok(steps) && spec_window_plan(
            backend,
            info@,
            pid,
            steps@,
        ) && steps@.last() is Generic && steps@.len() >= 1),
{
    if info.is_minimized {
        return Err(WindowCaptureError::WindowMinimized);
    }
    let mut steps: Vec<CaptureStep> = Vec::new();
    match backend {
        WindowListBackend::Hyprland => {
            steps.push(
                CaptureStep::RunToFile(cmd3ss("grim", "-g", grim_geometry(info), temp_path(pid))),
            );
            steps.push(CaptureStep::Generic);
        },
        WindowListBackend::Sway => {
            steps.push(
                CaptureStep::RunToFile(cmd3ss("grim", "-g", grim_geometry(info), temp_path(pid))),
            );
            steps.push(CaptureStep::Generic);
        },
        WindowListBackend::GnomeWayland => {
            steps.push(
                CaptureStep::RunToFile(
                    cmd11s(
                        "gdbus",
                        "call",
                        "--session",
                        "--dest",
                        "org.gnome.Shell.Screenshot",
                        "--object-path",
                        "/org/gnome/Shell/Screenshot",
                        "--method",
                        "org.gnome.Shell.Screenshot.ScreenshotWindow",
                        "true",
                        "true",
                        temp_path(pid),
                    ),
                ),
            );
            steps.push(
                CaptureStep::RunToFile(cmd3ss("grim", "-g", grim_geometry(info), temp_path(pid))),
            );
            steps.push(
                CaptureStep::RunFullScreenThenCrop(
                    cmd2s("gnome-screenshot", "-f", temp_path(pid)),
                    crate::geometry::Rect {
                        x: info.x,
                        y: info.y,
                        width: info.width,
                        height: info.height,
                    },
                ),
            );
            steps.push(CaptureStep::Generic);
        },
        WindowListBackend::KdeWayland => {
            steps.push(
                CaptureStep::RunToFile(cmd5s("spectacle", "-a", "-b", "-n", "-o", temp_path(pid))),
            );
            steps.push(
                CaptureStep::RunToFile(cmd3ss("grim", "-g", grim_geometry(info), temp_path(pid))),
            );
            steps.push(CaptureStep::Generic);
        },
        WindowListBackend::X11 => {
            steps.push(CaptureStep::Generic);
        },
        WindowListBackend::Xcap => {
            steps.push(CaptureStep::Generic);
        },
    }
    Ok(steps)
}

/// The step that full-screen captures with the Wayland utility.
pub open spec fn step_grim_full(st: CaptureStep, pid: u32) -> bool {
    st matches CaptureStep::RunToFile(c) && spec_cmd(&c, "grim"@, seq![spec_temp_path(pid)])
}

/// The step that full-screen captures with the GNOME utility.
pub open spec fn step_gnome_full(st: CaptureStep, pid: u32) -> bool {
    st matches CaptureStep::RunToFile(c) && spec_cmd(
        &c,
        "gnome-screenshot"@,
        seq!["-f"@, spec_temp_path(pid)],
    )
}

/// The step that full-screen captures with the KDE utility, headless.
pub open spec fn step_spectacle_full(st: CaptureStep, pid: u32) -> bool {
    st matches CaptureStep::RunToFile(c) && spec_cmd(
        &c,
        "spectacle"@,
        seq!["-b"@, "-n"@, "-o"@, spec_temp_path(pid)],
    )
}

/// What the screen-capture plan owes per session: X11 grabs in process;
/// each Wayland desktop tries its own utility first, then the Wayland
/// utility; an unknown Wayland desktop tries all three; an unknown display
/// server tries the Wayland chain and then the in-process path.
pub open spec fn spec_screen_plan(
    session: &DesktopSession,
    pid: u32,
    steps: Seq<CaptureStep>,
) -> bool {
    if session.display_server is X11 {
        steps.len() == 1 && steps[0] is Generic
    } else if session.display_server is Wayland {
        if session.desktop_environment is Hyprland || session.desktop_environment is Sway {
            steps.len() == 1 && step_grim_full(steps[0], pid)
        } else if session.desktop_environment is Gnome {
            steps.len() == 2 && step_gnome_full(steps[0], pid) && step_grim_full(steps[1], pid)
        } else if session.desktop_environment is Kde {
            steps.len() == 2 && step_spectacle_full(steps[0], pid) && step_grim_full(
                steps[1],
                pid,
            )
        } else {
            steps.len() == 3 && step_gnome_full(steps[0], pid) && step_spectacle_full(
                steps[1],
                pid,
            ) && step_grim_full(steps[2], pid)
        }
    } else {
        steps.len() == 4 && step_gnome_full(steps[0], pid) && step_spectacle_full(steps[1], pid)
            && step_grim_full(steps[2], pid) && steps[3] is Generic
    }
}

/// Plans a whole-screen capture for the session.
pub fn screen_capture_plan(session: &DesktopSession, pid: u32) -> (r: Vec<CaptureStep>)
    ensures
        spec_screen_plan(session, pid, r@),
        r@.len() >= 1,
{
    let mut steps: Vec<CaptureStep> = Vec::new();
    match session.display_server {
        crate::desktop::DisplayServer::X11 => {
            steps.push(CaptureStep::Generic);
        },
        crate::desktop::DisplayServer::Wayland => {
            match &session.desktop_environment {
                crate::desktop::DesktopEnvironment::Hyprland
                | crate::desktop::DesktopEnvironment::Sway => {
                    steps.push(CaptureStep::RunToFile(cmd1s("grim", temp_path(pid))));
                },
                crate::desktop::DesktopEnvironment::Gnome => {
                    steps.push(
                        CaptureStep::RunToFile(cmd2s("gnome-screenshot", "-f", temp_path(pid))),
                    );
                    steps.push(CaptureStep::RunToFile(cmd1s("grim", temp_path(pid))));
                },
                crate::desktop::DesktopEnvironment::Kde => {
                    steps.push(
                        CaptureStep::RunToFile(
                            cmd4s("spectacle", "-b", "-n", "-o", temp_path(pid)),
                        ),
                    );
                    steps.push(CaptureStep::RunToFile(cmd1s("grim", temp_path(pid))));
                },
                _ => {
                    steps.push(
                        CaptureStep::RunToFile(cmd2s("gnome-screenshot", "-f", temp_path(pid))),
                    );
                    steps.push(
                        CaptureStep::RunToFile(
                            cmd4s("spectacle", "-b", "-n", "-o", temp_path(pid)),
                        ),
                    );
                    steps.push(CaptureStep::RunToFile(cmd1s("grim", temp_path(pid))));
                },
            }
        },
        crate::desktop::DisplayServer::Unknown => {
            steps.push(CaptureStep::RunToFile(cmd2s("gnome-screenshot", "-f", temp_path(pid))));
            steps.push(
                CaptureStep::RunToFile(cmd4s("spectacle", "-b", "-n", "-o", temp_path(pid))),
            );
            steps.push(CaptureStep::RunToFile(cmd1s("grim", temp_path(pid))));
            steps.push(CaptureStep::Generic);
        },
    }
    steps
}

fn cmd1s(prog: &str, a0: String) -> (c: ToolCommand)
    ensures
        spec_cmd(&c, prog@, seq![a0@]),
{
    let mut args: Vec<String> = Vec::new();
    args.push(a0);
    proof {
        assert(args_views(args@) =~= seq![args@[0]@]);
    }
    ToolCommand { program: String::from_str(prog), args }
}


// ============================================================================
// The balanced-object extractor's round trip
// ============================================================================

/// The string/escape state alone, for describing a flat object's interior.
#[derive(PartialEq, Eq, Structural)]
pub ghost struct QuoteState {
    pub in_string: bool,
    pub escape: bool,
}

/// One character of the string/escape scan.
pub open spec fn quote_step(st: QuoteState, c: char) -> QuoteState {
    if st.escape {
        QuoteState { in_string: st.in_string, escape: false }
    } else if c == '\\' && st.in_string {
        QuoteState { in_string: st.in_string, escape: true }
    } else if c == '"' {
        QuoteState { in_string: !st.in_string, escape: false }
    } else {
        st
    }
}

/// The string/escape state after the first `i` characters of `s`.
pub open spec fn quote_scan(s: Seq<char>, i: int) -> QuoteState
    recommends
        0 <= i <= s.len(),
    decreases i,
{
    if i <= 0 {
        QuoteState { in_string: false, escape: false }
    } else {
        quote_step(quote_scan(s, i - 1), s[i - 1])
    }
}

/// A character that cannot affect the scanner outside a string: anything
/// but braces, quotes and backslashes. Separators between array elements
/// (commas, whitespace) are all of this kind.
pub open spec fn is_sep_char(c: char) -> bool {
    c != '{' && c != '}' && c != '"' && c != '\\'
}

pub open spec fn all_sep(s: Seq<char>) -> bool {
    forall|i: int| 0 <= i < s.len() ==> is_sep_char(#[trigger] s[i])
}

/// A flat object: braces at the ends, and an interior whose braces all lie
/// inside well-formed strings (so the interior nests nothing).
pub open spec fn is_flat_obj(o: Seq<char>) -> bool {
    let interior = o.subrange(1, o.len() - 1);
    &&& o.len() >= 2
    &&& o[0] == '{'
    &&& o.last() == '}'
    &&& (forall|i: int|
        0 <= i < interior.len() && (interior[i] == '{' || interior[i] == '}')
            ==> (#[trigger] quote_scan(interior, i)).in_string)
    &&& quote_scan(interior, interior.len() as int) == (QuoteState {
        in_string: false,
        escape: false,
    })
}

/// The text from `i` on is separator characters around the given object
/// ranges, in order: a well-formed array body of flat objects.
pub open spec fn decomposes(s: Seq<char>, i: int, ranges: Seq<(int, int)>) -> bool
    decreases ranges.len(),
{
    if ranges.len() == 0 {
        0 <= i <= s.len() && all_sep(s.subrange(i, s.len() as int))
    } else {
        let (a, b) = ranges[0];
        &&& 0 <= i <= a
        &&& a < b <= s.len()
        &&& all_sep(s.subrange(i, a))
        &&& is_flat_obj(s.subrange(a, b))
        &&& decomposes(s, b, ranges.drop_first())
    }
}

/// The scanner's depth, string and escape state, seen as one value.
pub open spec fn scan_core(acc: ScanAcc) -> (int, bool, bool) {
    (acc.depth, acc.in_string, acc.escape)
}

/// Scanning a run of separator characters from a resting state changes
/// nothing.
proof fn lemma_scan_sep_run(s: Seq<char>, i: int, j: int)
    requires
        0 <= i <= j <= s.len(),
        scan_core(spec_scan(s, i)) == (0int, false, false),
        forall|k: int| i <= k < j ==> is_sep_char(#[trigger] s[k]),
    ensures
        spec_scan(s, j) == spec_scan(s, i),
    decreases j - i,
{
    if i < j {
        lemma_scan_sep_run(s, i, j - 1);
        assert(spec_scan(s, j) == scan_step(spec_scan(s, j - 1), s[j - 1], j - 1));
        assert(is_sep_char(s[j - 1]));
    }
}

/// Scanning a flat object from a resting state pushes exactly its range and
/// returns to rest.
proof fn lemma_scan_obj_run(s: Seq<char>, a: int, b: int)
    requires
        0 <= a < b <= s.len(),
        scan_core(spec_scan(s, a)) == (0int, false, false),
        is_flat_obj(s.subrange(a, b)),
    ensures
        scan_core(spec_scan(s, b)) == (0int, false, false),
        spec_scan(s, b).objects == spec_scan(s, a).objects.push((a, b)),
    decreases b - a,
{
    let o = s.subrange(a, b);
    let interior = o.subrange(1, o.len() - 1);
    assert(s[a] == '{');
    assert(s[b - 1] == '}');
    assert(spec_scan(s, a + 1) == scan_step(spec_scan(s, a), s[a], a));
    assert(spec_scan(s, a + 1).depth == 1);
    assert(spec_scan(s, a + 1).start == a);
    assert(!spec_scan(s, a + 1).in_string && !spec_scan(s, a + 1).escape);
    assert(spec_scan(s, a + 1).objects == spec_scan(s, a).objects);
    lemma_scan_obj_interior(s, a, b, b - 1);
    assert(spec_scan(s, b) == scan_step(spec_scan(s, b - 1), s[b - 1], b - 1));
    assert(quote_scan(interior, interior.len() as int) == (QuoteState {
        in_string: false,
        escape: false,
    }));
    assert(!spec_scan(s, b - 1).in_string && !spec_scan(s, b - 1).escape);
    assert(spec_scan(s, b).objects == spec_scan(s, b - 1).objects.push((a, b)));
}

/// Walking a flat object's interior keeps depth 1, the recorded start, and
/// the object list, while the string state follows the interior's own scan.
proof fn lemma_scan_obj_interior(s: Seq<char>, a: int, b: int, k: int)
    requires
        0 <= a < b <= s.len(),
        a + 1 <= k <= b - 1,
        is_flat_obj(s.subrange(a, b)),
        spec_scan(s, a + 1).depth == 1,
        spec_scan(s, a + 1).start == a,
        !spec_scan(s, a + 1).in_string,
        !spec_scan(s, a + 1).escape,
    ensures
        spec_scan(s, k).depth == 1,
        spec_scan(s, k).start == a,
        spec_scan(s, k).objects == spec_scan(s, a + 1).objects,
        spec_scan(s, k).in_string == quote_scan(
            s.subrange(a, b).subrange(1, b - a - 1),
            k - (a + 1),
        ).in_string,
        spec_scan(s, k).escape == quote_scan(
            s.subrange(a, b).subrange(1, b - a - 1),
            k - (a + 1),
        ).escape,
    decreases k - a,
{
    let o = s.subrange(a, b);
    let interior = o.subrange(1, b - a - 1);
    if k == a + 1 {
        assert(quote_scan(interior, 0) == (QuoteState { in_string: false, escape: false }));
    } else {
        lemma_scan_obj_interior(s, a, b, k - 1);
        let prev = spec_scan(s, k - 1);
        let c = s[k - 1];
        assert(interior[k - 1 - (a + 1)] == c);
        assert(spec_scan(s, k) == scan_step(prev, c, k - 1));
        assert(quote_scan(interior, k - (a + 1)) == quote_step(
            quote_scan(interior, k - 1 - (a + 1)),
            c,
        ));
        if (c == '{' || c == '}') && !prev.in_string {
            assert(quote_scan(interior, k - 1 - (a + 1)).in_string);
            assert(false);
        }
    }
}

/// Scanning a decomposed array body appends exactly its object ranges.
proof fn lemma_scan_decomposes(s: Seq<char>, i: int, ranges: Seq<(int, int)>)
    requires
        0 <= i <= s.len(),
        scan_core(spec_scan(s, i)) == (0int, false, false),
        decomposes(s, i, ranges),
    ensures
        spec_scan(s, s.len() as int).objects == spec_scan(s, i).objects + ranges,
    decreases ranges.len(),
{
    if ranges.len() == 0 {
        assert(forall|k: int|
            i <= k < s.len() ==> is_sep_char(#[trigger] s[k])) by {
            assert(forall|k: int|
                i <= k < s.len() ==> s.subrange(i, s.len() as int)[k - i] == #[trigger] s[k]);
        }
        lemma_scan_sep_run(s, i, s.len() as int);
        assert(spec_scan(s, i).objects + ranges =~= spec_scan(s, i).objects);
    } else {
        let (a, b) = ranges[0];
        assert(forall|k: int| i <= k < a ==> is_sep_char(#[trigger] s[k])) by {
            assert(forall|k: int| i <= k < a ==> s.subrange(i, a)[k - i] == #[trigger] s[k]);
        }
        lemma_scan_sep_run(s, i, a);
        lemma_scan_obj_run(s, a, b);
        lemma_scan_decomposes(s, b, ranges.drop_first());
        assert(spec_scan(s, s.len() as int).objects == spec_scan(s, i).objects.push((a, b))
            + ranges.drop_first());
        assert(spec_scan(s, i).objects.push((a, b)) + ranges.drop_first() =~= spec_scan(
            s,
            i,
        ).objects + ranges);
    }
}

/// The balanced-object extractor's round trip: on a well-formed array body
/// of flat objects, the extractor yields exactly one range per object —
/// the same count, and each extracted substring is the object itself
/// (brace-balanced by construction).
pub proof fn lemma_object_extraction_round_trip(s: Seq<char>, ranges: Seq<(int, int)>)
    requires
        decomposes(s, 0, ranges),
    ensures
        spec_objects(s) == ranges,
        spec_objects(s).len() == ranges.len(),
        forall|k: int|
            0 <= k < ranges.len() ==> is_flat_obj(
                s.subrange(#[trigger] spec_objects(s)[k].0, spec_objects(s)[k].1),
            ),
    decreases ranges.len(),
{
    lemma_scan_decomposes(s, 0, ranges);
    assert(spec_scan(s, 0).objects + ranges =~= ranges);
    lemma_decomposes_flat(s, 0, ranges);
}

/// Every range of a decomposition carves out a flat object.
proof fn lemma_decomposes_flat(s: Seq<char>, i: int, ranges: Seq<(int, int)>)
    requires
        decomposes(s, i, ranges),
    ensures
        forall|k: int|
            0 <= k < ranges.len() ==> is_flat_obj(
                s.subrange(#[trigger] ranges[k].0, ranges[k].1),
            ),
    decreases ranges.len(),
{
    if ranges.len() > 0 {
        lemma_decomposes_flat(s, ranges[0].1, ranges.drop_first());
        assert(forall|k: int|
            1 <= k < ranges.len() ==> ranges.drop_first()[k - 1] == #[trigger] ranges[k]);
    }
}

} // verus!
