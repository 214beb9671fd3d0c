//! Parsers for what `adb` and the device shell print.
use crate::adb::types::{Device, DeviceView};
use crate::text::{
    contains_str, eq_chars, eq_str, find, occurs_at, find_char, first_occurrence, from_chars, has_infix, has_prefix,
    index_of, is_digit, last_index_of, lines, lines_of, lowercase_of, matches_at, parse_u32,
    parse_u32_spec, rfind_char, slice_to_vec, split_char, split_on, split_whitespace,
    starts_with_str, to_chars, to_lowercase, trim, trim_chars, views, words_of,
};
use vstd::prelude::*;

verus! {

// ------------------------------------------------------------------
// `adb devices -l`
// ------------------------------------------------------------------

/// `str::trim_start_matches` with a string pattern: every leading copy of
/// `p` removed.
pub open spec fn strip_prefix_all(s: Seq<char>, p: Seq<char>) -> Seq<char>
    decreases s.len(),
{
    if p.len() > 0 && has_prefix(s, p) {
        strip_prefix_all(s.skip(p.len() as int), p)
    } else {
        s
    }
}

pub fn trim_start_matches(s: &[char], p: &[char]) -> (r: Vec<char>)
    ensures
        r@ == strip_prefix_all(s@, p@),
{
    let mut start: usize = 0;
    assert(s@.skip(0) =~= s@);
    if p.len() > 0 {
        while matches_at(s, p, start)
            invariant
                start <= s.len(),
                p.len() > 0,
                strip_prefix_all(s@, p@) == strip_prefix_all(s@.skip(start as int), p@),
            decreases s.len() - start,
        {
            proof {
                let rest = s@.skip(start as int);
                assert(rest.subrange(0, p@.len() as int) =~= s@.subrange(
                    start as int,
                    start + p@.len(),
                ));
                assert(rest.skip(p@.len() as int) =~= s@.skip(start + p@.len()));
            }
            start = start + p.len();
        }
        proof {
            let rest = s@.skip(start as int);
            if has_prefix(rest, p@) {
                assert(rest.subrange(0, p@.len() as int) =~= s@.subrange(
                    start as int,
                    start + p@.len(),
                ));
            }
        }
    }
    let r = slice_to_vec(s, start, s.len());
    assert(r@ =~= s@.skip(start as int));
    proof {
        if start == 0 {
            assert(s@.skip(0) =~= s@);
        }
    }
    r
}

/// The words of a device line, when its second word is `device`: its name
/// and the text after `transport_id:` in the first word that starts so.
pub open spec fn transport_in(parts: Seq<Seq<char>>) -> Option<Seq<char>>
    decreases parts.len(),
{
    if parts.len() == 0 {
        None
    } else if has_prefix(parts[0], "transport_id:"@) {
        Some(strip_prefix_all(parts[0], "transport_id:"@))
    } else {
        transport_in(parts.drop_first())
    }
}

/// The device a line of `adb devices -l` describes, if any.
pub open spec fn device_of_line(line: Seq<char>) -> Option<DeviceView> {
    let parts = words_of(line);
    if parts.len() >= 2 && parts[1] == "device"@ {
        Some(DeviceView { name: parts[0], transport_id: transport_in(parts) })
    } else {
        None
    }
}

/// The devices described by `lines`, in order.
pub open spec fn devices_of_lines(lines: Seq<Seq<char>>) -> Seq<DeviceView>
    decreases lines.len(),
{
    if lines.len() == 0 {
        seq![]
    } else {
        let rest = devices_of_lines(lines.drop_last());
        match device_of_line(lines.last()) {
            Some(d) => rest.push(d),
            None => rest,
        }
    }
}

/// What `adb devices -l` printed, read as devices: every line after the
/// first that names a device in state `device`.
pub open spec fn devices_of_output(output: Seq<char>) -> Seq<DeviceView> {
    let ls = lines_of(output);
    if ls.len() == 0 {
        seq![]
    } else {
        devices_of_lines(ls.drop_first())
    }
}

pub open spec fn device_views(v: Seq<Device>) -> Seq<DeviceView> {
    v.map_values(|d: Device| d@)
}

fn transport_of_words(parts: &Vec<Vec<char>>) -> (r: Option<String>)
    ensures
        crate::adb::types::opt_string_view(r) == transport_in(views(parts@)),
{
    let prefix = to_chars("transport_id:");
    let mut i: usize = 0;
    assert(views(parts@).skip(0) =~= views(parts@));
    while i < parts.len()
        invariant
            i <= parts.len(),
            prefix@ == "transport_id:"@,
            transport_in(views(parts@)) == transport_in(views(parts@).skip(i as int)),
        decreases parts.len() - i,
    {
        let ghost rest = views(parts@).skip(i as int);
        assert(rest[0] == parts@[i as int]@);
        if matches_at(&parts[i], &prefix, 0) {
            let t = trim_start_matches(&parts[i], &prefix);
            return Some(from_chars(&t));
        }
        assert(rest.drop_first() =~= views(parts@).skip(i + 1));
        i += 1;
    }
    None
}

fn device_of(line: &[char]) -> (r: Option<Device>)
    ensures
        match r {
            Some(d) => device_of_line(line@) == Some(d@),
            None => device_of_line(line@) is None,
        },
{
    let parts = split_whitespace(line);
    if parts.len() >= 2 && eq_str(&parts[1], "device") {
        let name = from_chars(&parts[0]);
        let transport_id = transport_of_words(&parts);
        Some(Device { name, transport_id })
    } else {
        None
    }
}

/// Reads the output of `adb devices -l`: after the header line, every line
/// whose second word is `device` gives a device named by its first word, with
/// the transport id that follows `transport_id:` when the line has one.
pub fn parse_devices(output: &str) -> (r: Vec<Device>)
    ensures
        device_views(r@) == devices_of_output(output@),
{
    let chars = to_chars(output);
    let ls = lines(&chars);
    let mut out: Vec<Device> = Vec::new();
    if ls.len() == 0 {
        assert(device_views(out@) =~= Seq::<DeviceView>::empty());
        return out;
    }
    let ghost all = views(ls@).drop_first();
    let mut i: usize = 1;
    while i < ls.len()
        invariant
            1 <= i <= ls.len(),
            all == views(ls@).drop_first(),
            device_views(out@) == devices_of_lines(all.take(i - 1)),
        decreases ls.len() - i,
    {
        let d = device_of(&ls[i]);
        proof {
            assert(all.take(i as int).drop_last() =~= all.take(i - 1));
            assert(all.take(i as int).last() == ls@[i as int]@);
        }
        match d {
            Some(dev) => {
                proof {
                    assert(device_views(out@.push(dev)) =~= device_views(out@).push(dev@));
                }
                out.push(dev);
            },
            None => {},
        }
        i += 1;
    }
    assert(all.take(ls.len() - 1) =~= all);
    out
}

// ------------------------------------------------------------------
// `wm size`
// ------------------------------------------------------------------

/// The screen size a line of `wm size` gives: after `Physical size: `, the
/// trimmed text is two numbers joined by one `x`.
pub open spec fn size_of_line(line: Seq<char>) -> Option<(u32, u32)> {
    if has_prefix(line, "Physical size: "@) {
        let parts = split_on(trim(line.skip("Physical size: "@.len() as int)), 'x');
        if parts.len() == 2 {
            match (parse_u32_spec(parts[0]), parse_u32_spec(parts[1])) {
                (Some(x), Some(y)) => Some((x, y)),
                _ => None,
            }
        } else {
            None
        }
    } else {
        None
    }
}

/// The size given by the first line of `lines` that gives one.
pub open spec fn first_size(lines: Seq<Seq<char>>) -> Option<(u32, u32)>
    decreases lines.len(),
{
    if lines.len() == 0 {
        None
    } else {
        match size_of_line(lines[0]) {
            Some(p) => Some(p),
            None => first_size(lines.drop_first()),
        }
    }
}

fn size_of(line: &[char]) -> (r: Option<(u32, u32)>)
    ensures
        r == size_of_line(line@),
{
    let prefix = to_chars("Physical size: ");
    if !matches_at(line, &prefix, 0) {
        return None;
    }
    let rest = slice_to_vec(line, prefix.len(), line.len());
    assert(rest@ =~= line@.skip(prefix@.len() as int));
    let t = trim_chars(&rest);
    let parts = split_char(&t, 'x');
    if parts.len() != 2 {
        return None;
    }
    assert(views(parts@)[0] == parts@[0]@ && views(parts@)[1] == parts@[1]@);
    match (parse_u32(&parts[0]), parse_u32(&parts[1])) {
        (Some(x), Some(y)) => Some((x, y)),
        _ => None,
    }
}

/// Reads the output of `wm size`: the first line `Physical size: WxH` gives
/// the screen size; without one, an error.
pub fn parse_screen_size(stdout: &str) -> (r: Result<(u32, u32), String>)
    ensures
        match first_size(lines_of(stdout@)) {
            Some(p) => r == Ok::<(u32, u32), String>(p),
            None => r matches Err(e) && e@ == "Could not parse screen size"@,
        },
{
    let chars = to_chars(stdout);
    let ls = lines(&chars);
    let mut i: usize = 0;
    assert(views(ls@).skip(0) =~= views(ls@));
    while i < ls.len()
        invariant
            i <= ls.len(),
            first_size(views(ls@)) == first_size(views(ls@).skip(i as int)),
            views(ls@) == lines_of(stdout@),
        decreases ls.len() - i,
    {
        let ghost rest = views(ls@).skip(i as int);
        assert(rest[0] == ls@[i as int]@);
        match size_of(&ls[i]) {
            Some(p) => {
                assert(first_size(rest) == Some(p));
                return Ok(p);
            },
            None => {},
        }
        assert(rest.drop_first() =~= views(ls@).skip(i + 1));
        i += 1;
    }
    Err(from_chars(&to_chars("Could not parse screen size")))
}

// ------------------------------------------------------------------
// `getevent`
// ------------------------------------------------------------------

/// Whether a line of `getevent` output reports a touch: a multi-touch,
/// touch-button, finger-tool or absolute-position event, or a raw event of
/// type `0003` with code `0035` or `0036`.
pub open spec fn touch_event_line(l: Seq<char>) -> bool {
    has_infix(l, "ABS_MT"@) || has_infix(l, "BTN_TOUCH"@) || has_infix(l, "BTN_TOOL_FINGER"@)
        || has_infix(l, "ABS_X"@) || has_infix(l, "ABS_Y"@) || (has_infix(l, "0003"@) && (
    has_infix(l, "0035"@) || has_infix(l, "0036"@)))
}

pub fn is_touch_event_line(line: &str) -> (r: bool)
    ensures
        r == touch_event_line(line@),
{
    let l = to_chars(line);
    contains_str(&l, "ABS_MT") || contains_str(&l, "BTN_TOUCH") || contains_str(
        &l,
        "BTN_TOOL_FINGER",
    ) || contains_str(&l, "ABS_X") || contains_str(&l, "ABS_Y") || (contains_str(&l, "0003") && (
    contains_str(&l, "0035") || contains_str(&l, "0036")))
}

/// `points` when `cond` holds, else 0.
pub open spec fn pts(cond: bool, points: int) -> int {
    if cond {
        points
    } else {
        0
    }
}

/// How likely a lower-case input-device name is to be the touchscreen:
/// known touchscreen vendors and words score up, buttons, keys, jacks,
/// audio and GPIO score down.
pub open spec fn touch_score_lower(n: Seq<char>) -> int {
    score_part_a(n) + score_part_b(n) + score_part_c(n) + score_part_d(n)
}

pub open spec fn score_part_a(n: Seq<char>) -> int {
    pts(has_infix(n, "synaptics"@), 100) + pts(has_infix(n, "atmel"@), 90) + pts(has_infix(n, "goodix"@), 90) + pts(has_infix(n, "focaltech"@), 90)
}

fn score_part_a_exec(n: &[char]) -> (r: i32)
    ensures
        r == score_part_a(n@),
{
    let t0: i32 = if contains_str(n, "synaptics") {
        100
    } else {
        0
    };
    let t1: i32 = if contains_str(n, "atmel") {
        90
    } else {
        0
    };
    let t2: i32 = if contains_str(n, "goodix") {
        90
    } else {
        0
    };
    let t3: i32 = if contains_str(n, "focaltech") {
        90
    } else {
        0
    };
    t0 + t1 + t2 + t3
}

pub open spec fn score_part_b(n: Seq<char>) -> int {
    pts(has_infix(n, "ilitek"@), 90) + pts(has_infix(n, "cypress"@), 80) + pts(has_infix(n, "elan"@), 80) + pts(has_infix(n, "touch"@), 50)
}

fn score_part_b_exec(n: &[char]) -> (r: i32)
    ensures
        r == score_part_b(n@),
{
    let t0: i32 = if contains_str(n, "ilitek") {
        90
    } else {
        0
    };
    let t1: i32 = if contains_str(n, "cypress") {
        80
    } else {
        0
    };
    let t2: i32 = if contains_str(n, "elan") {
        80
    } else {
        0
    };
    let t3: i32 = if contains_str(n, "touch") {
        50
    } else {
        0
    };
    t0 + t1 + t2 + t3
}

pub open spec fn score_part_c(n: Seq<char>) -> int {
    pts(has_infix(n, "screen"@), 40) + pts(has_infix(n, "panel"@), 30) + pts(has_infix(n, "ts"@), 20) + pts(has_infix(n, "button"@), -50)
}

fn score_part_c_exec(n: &[char]) -> (r: i32)
    ensures
        r == score_part_c(n@),
{
    let t0: i32 = if contains_str(n, "screen") {
        40
    } else {
        0
    };
    let t1: i32 = if contains_str(n, "panel") {
        30
    } else {
        0
    };
    let t2: i32 = if contains_str(n, "ts") {
        20
    } else {
        0
    };
    let t3: i32 = if contains_str(n, "button") {
        -50
    } else {
        0
    };
    t0 + t1 + t2 + t3
}

pub open spec fn score_part_d(n: Seq<char>) -> int {
    pts(has_infix(n, "key"@), -30) + pts(has_infix(n, "jack"@), -50) + pts(has_infix(n, "audio"@), -50) + pts(has_infix(n, "gpio"@), -30)
}

fn score_part_d_exec(n: &[char]) -> (r: i32)
    ensures
        r == score_part_d(n@),
{
    let t0: i32 = if contains_str(n, "key") {
        -30
    } else {
        0
    };
    let t1: i32 = if contains_str(n, "jack") {
        -50
    } else {
        0
    };
    let t2: i32 = if contains_str(n, "audio") {
        -50
    } else {
        0
    };
    let t3: i32 = if contains_str(n, "gpio") {
        -30
    } else {
        0
    };
    t0 + t1 + t2 + t3
}

/// Scores an input-device name that is already in lower case.
pub fn score_touch_device_lower(n: &[char]) -> (r: i32)
    ensures
        r == touch_score_lower(n@),
{
    let a = score_part_a_exec(n);
    let b = score_part_b_exec(n);
    let c = score_part_c_exec(n);
    let d = score_part_d_exec(n);
    a + b + c + d
}

/// The score of an input-device name: that of its lower-case form.
pub open spec fn touch_score(name: Seq<char>) -> int {
    touch_score_lower(lowercase_of(name))
}

/// Scores an input-device name to pick the touchscreen (higher is better).
pub fn score_touch_device(device_name: &str) -> (r: i32)
    ensures
        r == touch_score(device_name@),
{
    let lower = to_lowercase(device_name);
    let l = to_chars(lower.as_str());
    score_touch_device_lower(&l)
}

/// The state of a scan of `getevent -p` output.
pub struct TouchScan {
    pub current: Option<Seq<char>>,
    pub name: Seq<char>,
    pub touch: bool,
    pub best: Option<Seq<char>>,
    pub best_score: int,
}

pub open spec fn scan_start() -> TouchScan {
    TouchScan { current: None, name: seq![], touch: false, best: None, best_score: 0 }
}

/// Closes the device being read: it becomes the best one when it reports
/// touch events and scores above the best so far.
pub open spec fn settle(st: TouchScan) -> TouchScan {
    if st.current is Some && st.touch && touch_score(st.name) > st.best_score {
        TouchScan { best: st.current, best_score: touch_score(st.name), ..st }
    } else {
        st
    }
}

pub open spec fn device_marker() -> Seq<char> {
    "/dev/input/event"@
}

/// One (untrimmed) line of `getevent -p` read into the scan state: `add
/// device ...` lines open a device, `name: "..."` lines name it, and lines
/// with `ABS (0003)`, `0035` or `0036` mark it as reporting touches.
pub open spec fn scan_step(st: TouchScan, raw: Seq<char>) -> TouchScan {
    let line = trim(raw);
    if has_prefix(line, "add device"@) && has_infix(line, device_marker()) {
        let s = settle(st);
        TouchScan {
            current: Some(line.skip(first_occurrence(line, device_marker()))),
            name: seq![],
            touch: false,
            ..s
        }
    } else if has_prefix(line, "name:"@) {
        let a = index_of(line, '"');
        let b = last_index_of(line, '"');
        if a < line.len() && a < b {
            TouchScan { name: line.subrange(a + 1, b), ..st }
        } else {
            st
        }
    } else if has_infix(line, "ABS (0003)"@) || has_infix(line, "0035"@) || has_infix(
        line,
        "0036"@,
    ) {
        TouchScan { touch: true, ..st }
    } else {
        st
    }
}

pub open spec fn scan_lines(ls: Seq<Seq<char>>) -> TouchScan
    decreases ls.len(),
{
    if ls.len() == 0 {
        scan_start()
    } else {
        scan_step(scan_lines(ls.drop_last()), ls.last())
    }
}

/// The touchscreen device that `getevent -p` output points to: among the
/// devices that report touch coordinates, the first with the highest
/// positive score.
pub open spec fn touch_device_of(output: Seq<char>) -> Option<Seq<char>> {
    settle(scan_lines(lines_of(output))).best
}

/// The scan of the lines `ls` begun in state `st`.
pub open spec fn scan_from(st: TouchScan, ls: Seq<Seq<char>>) -> TouchScan
    decreases ls.len(),
{
    if ls.len() == 0 {
        st
    } else {
        scan_step(scan_from(st, ls.drop_last()), ls.last())
    }
}

/// What the lines `ls` of `getevent -p` output point to: the touchscreen
/// device found (`best`) and its score (`best_score`, 0 when none is).
pub open spec fn found_in(ls: Seq<Seq<char>>) -> TouchScan {
    settle(scan_lines(ls))
}

/// A line that opens a device block: `add device ...` naming an input
/// device path.
pub open spec fn is_add_line(raw: Seq<char>) -> bool {
    has_prefix(trim(raw), "add device"@) && has_infix(trim(raw), device_marker())
}

/// The device path an `add device` line names.
pub open spec fn add_line_path(raw: Seq<char>) -> Seq<char> {
    trim(raw).skip(first_occurrence(trim(raw), device_marker()))
}

/// A line of a device block that reports touch coordinates.
pub open spec fn is_touch_line(raw: Seq<char>) -> bool {
    let line = trim(raw);
    &&& !is_add_line(raw)
    &&& !has_prefix(line, "name:"@)
    &&& (has_infix(line, "ABS (0003)"@) || has_infix(line, "0035"@) || has_infix(line, "0036"@))
}

/// A `name: "..."` line of a device block and the quoted name on it.
pub open spec fn is_name_line_of(raw: Seq<char>, name: Seq<char>) -> bool {
    let line = trim(raw);
    let a = index_of(line, '"');
    let b = last_index_of(line, '"');
    &&& has_prefix(line, "name:"@)
    &&& a < line.len()
    &&& a < b
    &&& line.subrange(a + 1, b) == name
}

/// `blk` is one device block: it opens with an `add device` line, holds no
/// other, reports touch coordinates on some line, and every `name:` line in
/// it gives the name `name` (there is at least one).
pub open spec fn touch_block(blk: Seq<Seq<char>>, name: Seq<char>) -> bool {
    &&& blk.len() > 0
    &&& is_add_line(blk[0])
    &&& forall|m: int| 1 <= m < blk.len() ==> !is_add_line(#[trigger] blk[m])
    &&& exists|j: int| 1 <= j < blk.len() && is_touch_line(#[trigger] blk[j])
    &&& exists|n: int| 1 <= n < blk.len() && is_name_line_of(#[trigger] blk[n], name)
    &&& forall|m: int|
        1 <= m < blk.len() && has_prefix(trim(#[trigger] blk[m]), "name:"@) ==> is_name_line_of(
            blk[m],
            name,
        )
}

proof fn lemma_scan_lines_from(ls: Seq<Seq<char>>)
    ensures
        scan_lines(ls) == scan_from(scan_start(), ls),
    decreases ls.len(),
{
    if ls.len() > 0 {
        lemma_scan_lines_from(ls.drop_last());
    }
}

proof fn lemma_scan_from_concat(st: TouchScan, a: Seq<Seq<char>>, b: Seq<Seq<char>>)
    ensures
        scan_from(st, a + b) == scan_from(scan_from(st, a), b),
    decreases b.len(),
{
    if b.len() == 0 {
        assert(a + b =~= a);
    } else {
        assert((a + b).drop_last() =~= a + b.drop_last());
        assert((a + b).last() == b.last());
        lemma_scan_from_concat(st, a, b.drop_last());
    }
}

/// `a` is the scan `b` begun with `b0` (of score `s0`) already found.
pub open spec fn scans_agree(a: TouchScan, b: TouchScan, b0: Option<Seq<char>>, s0: int) -> bool {
    &&& a.current == b.current
    &&& a.name == b.name
    &&& a.touch == b.touch
    &&& s0 >= 0
    &&& b.best_score >= 0
    &&& a.best_score == (if b.best_score > s0 {
        b.best_score
    } else {
        s0
    })
    &&& a.best == (if b.best_score > s0 {
        b.best
    } else {
        b0
    })
}

proof fn lemma_agree_settle(a: TouchScan, b: TouchScan, b0: Option<Seq<char>>, s0: int)
    requires
        scans_agree(a, b, b0, s0),
    ensures
        scans_agree(settle(a), settle(b), b0, s0),
{
}

proof fn lemma_agree_from(a: TouchScan, b: TouchScan, b0: Option<Seq<char>>, s0: int, ls: Seq<Seq<char>>)
    requires
        scans_agree(a, b, b0, s0),
    ensures
        scans_agree(scan_from(a, ls), scan_from(b, ls), b0, s0),
    decreases ls.len(),
{
    if ls.len() > 0 {
        lemma_agree_from(a, b, b0, s0, ls.drop_last());
        let pa = scan_from(a, ls.drop_last());
        let pb = scan_from(b, ls.drop_last());
        lemma_agree_settle(pa, pb, b0, s0);
    }
}

/// The score found never goes below where a scan began, and a device is
/// found exactly when the score is positive.
proof fn lemma_scan_from_score(st: TouchScan, ls: Seq<Seq<char>>)
    requires
        st.best_score >= 0,
        st.best is Some <==> st.best_score > 0,
    ensures
        scan_from(st, ls).best_score >= st.best_score,
        scan_from(st, ls).best is Some <==> scan_from(st, ls).best_score > 0,
        settle(scan_from(st, ls)).best_score >= scan_from(st, ls).best_score,
        settle(scan_from(st, ls)).best is Some <==> settle(scan_from(st, ls)).best_score > 0,
    decreases ls.len(),
{
    if ls.len() > 0 {
        lemma_scan_from_score(st, ls.drop_last());
    }
}

/// A device is found in some lines exactly when its score is positive, and
/// the score is never negative.
pub proof fn law_found_iff_positive(ls: Seq<Seq<char>>)
    ensures
        found_in(ls).best_score >= 0,
        found_in(ls).best is Some <==> found_in(ls).best_score > 0,
{
    lemma_scan_lines_from(ls);
    lemma_scan_from_score(scan_start(), ls);
}

/// Reading `getevent -p` output in two parts split at a device block: the
/// device found in the whole is the better of the devices found in each
/// part, the first part winning a tie; its score is the larger of theirs.
/// So a touchscreen found in the first part is never lost to the devices
/// that follow it.
pub proof fn law_found_is_better_of_parts(ls1: Seq<Seq<char>>, ls2: Seq<Seq<char>>)
    requires
        ls2.len() > 0,
        is_add_line(ls2[0]),
    ensures
        found_in(ls1 + ls2).best_score == if found_in(ls2).best_score > found_in(ls1).best_score {
            found_in(ls2).best_score
        } else {
            found_in(ls1).best_score
        },
        found_in(ls1 + ls2).best == if found_in(ls2).best_score > found_in(ls1).best_score {
            found_in(ls2).best
        } else {
            found_in(ls1).best
        },
{
    let head = seq![ls2[0]];
    let rest = ls2.skip(1);
    assert(ls2 =~= head + rest);
    assert(ls1 + ls2 =~= (ls1 + head) + rest);
    lemma_scan_lines_from(ls1);
    lemma_scan_lines_from(ls2);
    lemma_scan_lines_from(ls1 + ls2);
    lemma_scan_from_concat(scan_start(), ls1 + head, rest);
    lemma_scan_from_concat(scan_start(), ls1, head);
    lemma_scan_from_concat(scan_start(), head, rest);
    assert(head.drop_last() =~= Seq::<Seq<char>>::empty());
    let s1 = scan_lines(ls1);
    lemma_scan_from_score(scan_start(), ls1);
    let a = scan_from(s1, head);
    let b = scan_from(scan_start(), head);
    assert(scan_from(s1, head.drop_last()) == s1);
    assert(scan_from(scan_start(), head.drop_last()) == scan_start());
    assert(head.last() == ls2[0]);
    assert(a == scan_step(s1, ls2[0]));
    assert(b == scan_step(scan_start(), ls2[0]));
    assert(scans_agree(a, b, settle(s1).best, settle(s1).best_score));
    lemma_agree_from(a, b, settle(s1).best, settle(s1).best_score, rest);
    lemma_agree_settle(
        scan_from(a, rest),
        scan_from(b, rest),
        settle(s1).best,
        settle(s1).best_score,
    );
}

proof fn lemma_block_prefix(blk: Seq<Seq<char>>, nm: Seq<char>, k: int)
    requires
        touch_block(blk, nm),
        1 <= k <= blk.len(),
    ensures
        ({
            let st = scan_lines(blk.take(k));
            &&& st.current == Some(add_line_path(blk[0]))
            &&& st.best is None
            &&& st.best_score == 0
            &&& forall|j: int| 1 <= j < k && is_touch_line(#[trigger] blk[j]) ==> st.touch
            &&& forall|n: int| 1 <= n < k && is_name_line_of(#[trigger] blk[n], nm) ==> st.name == nm
        }),
    decreases k,
{
    assert(blk.take(k).drop_last() =~= blk.take(k - 1));
    assert(blk.take(k).last() == blk[k - 1]);
    if k == 1 {
        assert(blk.take(0) =~= Seq::<Seq<char>>::empty());
    } else {
        lemma_block_prefix(blk, nm, k - 1);
        let raw = blk[k - 1];
        assert(!is_add_line(raw));
        if has_prefix(trim(raw), "name:"@) {
            assert(is_name_line_of(raw, nm));
        }
    }
}

/// One device block that reports touch coordinates under the name `nm` is
/// found as the touchscreen when its name scores above zero, with that
/// score; otherwise nothing is found in it.
pub proof fn law_touch_block_found_alone(blk: Seq<Seq<char>>, nm: Seq<char>)
    requires
        touch_block(blk, nm),
    ensures
        touch_score(nm) > 0 ==> found_in(blk).best == Some(add_line_path(blk[0]))
            && found_in(blk).best_score == touch_score(nm),
        touch_score(nm) <= 0 ==> found_in(blk).best is None && found_in(blk).best_score == 0,
{
    lemma_block_prefix(blk, nm, blk.len() as int);
    assert(blk.take(blk.len() as int) =~= blk);
    let j = choose|j: int| 1 <= j < blk.len() && is_touch_line(#[trigger] blk[j]);
    let n = choose|n: int| 1 <= n < blk.len() && is_name_line_of(#[trigger] blk[n], nm);
    assert(scan_lines(blk).touch);
    assert(scan_lines(blk).name == nm);
}

/// Whatever devices come before or after it, a device block that reports
/// touch coordinates and whose name scores above zero makes the scan find a
/// touchscreen, scoring at least as high as that block: the
/// `select_touch_device` answer for such output is a device, never the
/// error.
pub proof fn law_touch_block_is_found(
    output: Seq<char>,
    ls1: Seq<Seq<char>>,
    blk: Seq<Seq<char>>,
    ls3: Seq<Seq<char>>,
    nm: Seq<char>,
)
    requires
        lines_of(output) == ls1 + blk + ls3,
        touch_block(blk, nm),
        touch_score(nm) > 0,
        ls3.len() == 0 || is_add_line(ls3[0]),
    ensures
        found_in(lines_of(output)).best_score >= touch_score(nm),
        touch_device_of(output) is Some,
{
    law_touch_block_found_alone(blk, nm);
    law_found_is_better_of_parts(ls1, blk);
    if ls3.len() == 0 {
        assert(ls1 + blk + ls3 =~= ls1 + blk);
    } else {
        law_found_is_better_of_parts(ls1 + blk, ls3);
    }
    law_found_iff_positive(lines_of(output));
}

pub open spec fn opt_vec_view(o: Option<Vec<char>>) -> Option<Seq<char>> {
    match o {
        Some(v) => Some(v@),
        None => None,
    }
}

/// Picks the touchscreen's `/dev/input/eventN` path from `getevent -p`
/// output.
pub fn select_touch_device(output: &str) -> (r: Result<String, String>)
    ensures
        match touch_device_of(output@) {
            Some(d) => r matches Ok(s) && s@ == d,
            None => r matches Err(e) && e@ == "No touch-capable input devices found"@,
        },
{
    let chars = to_chars(output);
    let ls = lines(&chars);
    let marker = to_chars("/dev/input/event");
    let mut current: Option<Vec<char>> = None;
    let mut name: Vec<char> = Vec::new();
    let mut touch = false;
    let mut best: Option<Vec<char>> = None;
    let mut best_score: i32 = 0;
    let mut i: usize = 0;
    assert(views(ls@).take(0) =~= Seq::<Seq<char>>::empty());
    while i < ls.len()
        invariant
            i <= ls.len(),
            views(ls@) == lines_of(output@),
            marker@ == device_marker(),
            scan_lines(views(ls@).take(i as int)) == (TouchScan {
                current: opt_vec_view(current),
                name: name@,
                touch,
                best: opt_vec_view(best),
                best_score: best_score as int,
            }),
            -1000 <= best_score <= 1000,
        decreases ls.len() - i,
    {
        proof {
            assert(views(ls@).take(i + 1).drop_last() =~= views(ls@).take(i as int));
            assert(views(ls@).take(i + 1).last() == ls@[i as int]@);
        }
        let line = trim_chars(&ls[i]);
        if starts_with_str(&line, "add device") && contains_str(&line, "/dev/input/event") {
            match &current {
                Some(dev) => {
                    if touch {
                        let score = score_touch_device(from_chars(&name).as_str());
                        if score > best_score {
                            best = Some(slice_to_vec(dev, 0, dev.len()));
                            best_score = score;
                            assert(dev@.subrange(0, dev@.len() as int) =~= dev@);
                        }
                    }
                },
                None => {},
            }
            match find(&line, &marker) {
                Some(start) => {
                    let path = slice_to_vec(&line, start, line.len());
                    assert(path@ =~= line@.skip(start as int));
                    current = Some(path);
                    name = Vec::new();
                    touch = false;
                },
                None => {},
            }
        } else if starts_with_str(&line, "name:") {
            match (find_char(&line, '"'), rfind_char(&line, '"')) {
                (Some(a), Some(b)) => {
                    if a < b {
                        name = slice_to_vec(&line, a + 1, b);
                    }
                },
                _ => {},
            }
        } else if contains_str(&line, "ABS (0003)") || contains_str(&line, "0035")
            || contains_str(&line, "0036") {
            touch = true;
        }
        i += 1;
    }
    assert(views(ls@).take(ls.len() as int) =~= views(ls@));
    match &current {
        Some(dev) => {
            if touch {
                let score = score_touch_device(from_chars(&name).as_str());
                if score > best_score {
                    return Ok(from_chars(dev));
                }
            }
        },
        None => {},
    }
    match best {
        Some(b) => Ok(from_chars(&b)),
        None => Err(from_chars(&to_chars("No touch-capable input devices found"))),
    }
}

/// The state of the plain scan of `getevent -p` output: the device being
/// read, whether it reported touch coordinates, and the last such device.
pub struct PlainScan {
    pub current: Option<Seq<char>>,
    pub touch: bool,
    pub best: Option<Seq<char>>,
}

/// One line of `getevent -p` output read without trimming: an `add device`
/// line closes the device being read (keeping it when it reported touches)
/// and opens the one it names; a line with `0035` or `0036` marks a touch
/// device.
pub open spec fn plain_step(st: PlainScan, line: Seq<char>) -> PlainScan {
    if has_prefix(line, "add device"@) {
        let best = if st.touch {
            st.current
        } else {
            st.best
        };
        if has_infix(line, device_marker()) {
            PlainScan {
                current: Some(line.skip(first_occurrence(line, device_marker()))),
                touch: false,
                best,
            }
        } else {
            PlainScan { best, ..st }
        }
    } else if has_infix(line, "0035"@) || has_infix(line, "0036"@) {
        PlainScan { touch: true, ..st }
    } else {
        st
    }
}

pub open spec fn plain_scan(ls: Seq<Seq<char>>) -> PlainScan
    decreases ls.len(),
{
    if ls.len() == 0 {
        PlainScan { current: None, touch: false, best: None }
    } else {
        plain_step(plain_scan(ls.drop_last()), ls.last())
    }
}

/// The device the plain scan settles on: the last device that reported
/// touch coordinates.
pub open spec fn plain_touch_device_of(output: Seq<char>) -> Option<Seq<char>> {
    let st = plain_scan(lines_of(output));
    if st.touch {
        st.current
    } else {
        st.best
    }
}

/// Picks the last input device of `getevent -p` output that reports touch
/// coordinates, without scoring names; `None` when no device does.
pub fn find_touch_device_plain(output: &str) -> (r: Option<String>)
    ensures
        match plain_touch_device_of(output@) {
            Some(d) => r matches Some(s) && s@ == d,
            None => r is None,
        },
{
    let chars = to_chars(output);
    let ls = lines(&chars);
    let marker = to_chars("/dev/input/event");
    let mut current: Option<Vec<char>> = None;
    let mut touch = false;
    let mut best: Option<Vec<char>> = None;
    let mut i: usize = 0;
    assert(views(ls@).take(0) =~= Seq::<Seq<char>>::empty());
    while i < ls.len()
        invariant
            i <= ls.len(),
            views(ls@) == lines_of(output@),
            marker@ == device_marker(),
            plain_scan(views(ls@).take(i as int)) == (PlainScan {
                current: opt_vec_view(current),
                touch,
                best: opt_vec_view(best),
            }),
        decreases ls.len() - i,
    {
        proof {
            assert(views(ls@).take(i + 1).drop_last() =~= views(ls@).take(i as int));
            assert(views(ls@).take(i + 1).last() == ls@[i as int]@);
        }
        let line = &ls[i];
        if starts_with_str(line, "add device") {
            if touch {
                best = match &current {
                    Some(dev) => {
                        let c = slice_to_vec(dev, 0, dev.len());
                        assert(dev@.subrange(0, dev@.len() as int) =~= dev@);
                        Some(c)
                    },
                    None => None,
                };
            }
            match find(line, &marker) {
                Some(start) => {
                    proof {
                        reveal(has_infix);
                        assert(occurs_at(line@, marker@, start as int));
                    }
                    let path = slice_to_vec(line, start, line.len());
                    assert(path@ =~= line@.skip(start as int));
                    current = Some(path);
                    touch = false;
                },
                None => {},
            }
        } else if contains_str(line, "0035") || contains_str(line, "0036") {
            touch = true;
        }
        i += 1;
    }
    assert(views(ls@).take(ls.len() as int) =~= views(ls@));
    let chosen = if touch {
        current
    } else {
        best
    };
    match chosen {
        Some(d) => Some(from_chars(&d)),
        None => None,
    }
}

// ------------------------------------------------------------------
// `ip route`, connection checks
// ------------------------------------------------------------------

/// Text that looks like an IPv4 address: four `.`-separated pieces of ASCII
/// digits and dots only.
pub open spec fn ipv4_like(s: Seq<char>) -> bool {
    split_on(s, '.').len() == 4 && forall|k: int| 0 <= k < s.len() ==> (is_digit(s[k]) || s[k]
        == '.')
}

pub fn looks_like_ipv4(s: &[char]) -> (r: bool)
    ensures
        r == ipv4_like(s@),
{
    let pieces = split_char(s, '.');
    assert(views(pieces@).len() == pieces@.len());
    if pieces.len() != 4 {
        return false;
    }
    let mut i: usize = 0;
    while i < s.len()
        invariant
            i <= s.len(),
            forall|k: int| 0 <= k < i ==> (is_digit(s@[k]) || s@[k] == '.'),
        decreases s.len() - i,
    {
        let c = s[i];
        if !(('0' <= c && c <= '9') || c == '.') {
            return false;
        }
        i += 1;
    }
    true
}

/// The address a line of `ip route` gives: its ninth word, when that looks
/// like an IPv4 address.
pub open spec fn ip_of_line(line: Seq<char>) -> Option<Seq<char>> {
    let f = words_of(line);
    if f.len() >= 9 && ipv4_like(f[8]) {
        Some(f[8])
    } else {
        None
    }
}

pub open spec fn first_ip(lines: Seq<Seq<char>>) -> Option<Seq<char>>
    decreases lines.len(),
{
    if lines.len() == 0 {
        None
    } else {
        match ip_of_line(lines[0]) {
            Some(ip) => Some(ip),
            None => first_ip(lines.drop_first()),
        }
    }
}

/// Reads the device's address from `ip route` output (the ninth field, as
/// `awk '{print $9}'` prints it) on the first line where it looks like an
/// IPv4 address.
pub fn parse_ip_route(output: &str) -> (r: Result<String, String>)
    ensures
        match first_ip(lines_of(output@)) {
            Some(ip) => r matches Ok(s) && s@ == ip,
            None => r matches Err(e) && e@ == "No valid IP address found in routing table"@,
        },
{
    let chars = to_chars(output);
    let ls = lines(&chars);
    let mut i: usize = 0;
    assert(views(ls@).skip(0) =~= views(ls@));
    while i < ls.len()
        invariant
            i <= ls.len(),
            views(ls@) == lines_of(output@),
            first_ip(views(ls@)) == first_ip(views(ls@).skip(i as int)),
        decreases ls.len() - i,
    {
        let ghost rest = views(ls@).skip(i as int);
        assert(rest[0] == ls@[i as int]@);
        let fields = split_whitespace(&ls[i]);
        if fields.len() >= 9 {
            assert(views(fields@)[8] == fields@[8]@);
            if looks_like_ipv4(&fields[8]) {
                assert(first_ip(rest) == Some(fields@[8]@));
                return Ok(from_chars(&fields[8]));
            }
        }
        assert(rest.drop_first() =~= views(ls@).skip(i + 1));
        i += 1;
    }
    Err(from_chars(&to_chars("No valid IP address found in routing table")))
}

/// Whether the device answered the connection check `echo test` correctly.
pub fn auth_echo_ok(output: &str) -> (r: bool)
    ensures
        r == (trim(output@) == "test"@),
{
    let c = to_chars(output);
    let t = trim_chars(&c);
    eq_str(&t, "test")
}

/// Whether a framebuffer read failed because the ADB stream fell out of
/// step: its error message mentions `CLSE` or a lost write endpoint.
pub fn framebuffer_error_is_desync(message: &str) -> (r: bool)
    ensures
        r == (has_infix(message@, "CLSE"@) || has_infix(message@, "no write endpoint"@)),
{
    let c = to_chars(message);
    contains_str(&c, "CLSE") || contains_str(&c, "no write endpoint")
}

} // verus!
