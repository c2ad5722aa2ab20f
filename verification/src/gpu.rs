//! Parsers for the text output of the three platform GPU probes: the
//! Windows device-query tool (a `Name=` field per line), the PCI
//! listing tool (a quoted vendor/device pair on the controller line),
//! and the hardware profiler's JSON (a name-key scan). The probes
//! themselves run outside the library; these functions take the raw
//! probe output as bytes and extract the device name, or nothing when
//! the expected marker is absent.

use vstd::prelude::*;
use vstd::slice::slice_subrange;
use vstd::slice::slice_to_vec;
use vstd::string::StringSliceAdditionalSpecFns;
use vstd::utf8::is_ascii_chars;

verus! {

/// First index at or after `from` holding `b`, or the length when `b`
/// does not occur there.
pub open spec fn find_from(s: Seq<u8>, b: u8, from: int) -> int
    recommends
        0 <= from,
    decreases s.len() - from when 0 <= from
{
    if from >= s.len() {
        s.len() as int
    } else if s[from] == b {
        from
    } else {
        find_from(s, b, from + 1)
    }
}

pub proof fn lemma_find_from(s: Seq<u8>, b: u8, from: int)
    requires
        0 <= from <= s.len(),
    ensures
        from <= find_from(s, b, from) <= s.len(),
    decreases s.len() - from,
{
    if from < s.len() && s[from] != b {
        lemma_find_from(s, b, from + 1);
    }
}

/// The pattern occurs at position `i`.
pub open spec fn match_at(s: Seq<u8>, p: Seq<u8>, i: int) -> bool {
    0 <= i && i + p.len() <= s.len() && s.subrange(i, i + p.len()) == p
}

/// First position at or after `from` where the pattern occurs, or -1.
pub open spec fn find_sub_from(s: Seq<u8>, p: Seq<u8>, from: int) -> int
    recommends
        0 <= from,
    decreases s.len() - from when 0 <= from via find_sub_from_dec
{
    if from + p.len() > s.len() {
        -1
    } else if match_at(s, p, from) {
        from
    } else {
        find_sub_from(s, p, from + 1)
    }
}

#[via_fn]
proof fn find_sub_from_dec(s: Seq<u8>, p: Seq<u8>, from: int) {
    if 0 <= from && from + p.len() <= s.len() && !match_at(s, p, from) && from == s.len() {
        assert(s.subrange(from, from + p.len()) =~= p);
    }
}

/// The pattern occurs somewhere in `s`.
pub open spec fn contains_sub(s: Seq<u8>, p: Seq<u8>) -> bool {
    find_sub_from(s, p, 0) >= 0
}

pub open spec fn starts_with(s: Seq<u8>, p: Seq<u8>) -> bool {
    p.len() <= s.len() && s.take(p.len() as int) == p
}

/// ASCII whitespace, the set trimmed from a parsed device name.
pub open spec fn is_space(b: u8) -> bool {
    b == 32 || b == 9 || b == 10 || b == 11 || b == 12 || b == 13
}

pub open spec fn trim_start(s: Seq<u8>) -> Seq<u8>
    decreases s.len(),
{
    if s.len() > 0 && is_space(s[0]) {
        trim_start(s.skip(1))
    } else {
        s
    }
}

pub open spec fn trim_end(s: Seq<u8>) -> Seq<u8>
    decreases s.len(),
{
    if s.len() > 0 && is_space(s.last()) {
        trim_end(s.drop_last())
    } else {
        s
    }
}

/// The sequence without leading and trailing ASCII whitespace.
pub open spec fn trim(s: Seq<u8>) -> Seq<u8> {
    trim_end(trim_start(s))
}

/// The bytes of an ASCII character sequence.
pub open spec fn ascii_bytes(s: Seq<char>) -> Seq<u8> {
    s.map_values(|c: char| c as u8)
}

/// The field marker of the Windows device-query output.
pub open spec fn name_marker() -> Seq<u8> {
    ascii_bytes("Name="@)
}

/// The controller-class markers of the PCI listing output.
pub open spec fn vga_marker() -> Seq<u8> {
    ascii_bytes("VGA compatible controller"@)
}

pub open spec fn display_marker() -> Seq<u8> {
    ascii_bytes("3D controller"@)
}

/// The name-key marker of the hardware profiler's JSON output.
pub open spec fn json_name_marker() -> Seq<u8> {
    ascii_bytes("\"_name\" : \""@)
}

/// The line consists only of repetitions of the field marker.
pub open spec fn only_name_markers(l: Seq<u8>) -> bool
    decreases l.len() via only_name_markers_dec
{
    if l.len() == 0 {
        true
    } else if starts_with(l, name_marker()) {
        only_name_markers(l.skip(5))
    } else {
        false
    }
}

#[via_fn]
proof fn only_name_markers_dec(l: Seq<u8>) {
    reveal_strlit("Name=");
}

/// The line with every leading repetition of the field marker removed.
pub open spec fn strip_name_markers(l: Seq<u8>) -> Seq<u8>
    decreases l.len() via strip_name_markers_dec
{
    if starts_with(l, name_marker()) {
        strip_name_markers(l.skip(5))
    } else {
        l
    }
}

#[via_fn]
proof fn strip_name_markers_dec(l: Seq<u8>) {
    reveal_strlit("Name=");
}

/// The device name a Windows output line yields: a line carrying the
/// field marker and real content yields its content, markers stripped
/// in front and whitespace trimmed.
pub open spec fn win_line_value(line: Seq<u8>) -> Option<Seq<u8>> {
    if starts_with(line, name_marker()) && !only_name_markers(line) {
        Some(trim(strip_name_markers(line)))
    } else {
        None
    }
}

/// Scans the output line by line (line breaks at newline bytes, a
/// carriage return before the break dropped) for the first line that
/// yields a device name.
pub open spec fn spec_parse_win_from(s: Seq<u8>, from: int) -> Option<Seq<u8>>
    decreases s.len() - from when 0 <= from <= s.len() via spec_parse_win_from_dec
{
    if from >= s.len() {
        None
    } else {
        let e = find_from(s, 10, from);
        let le = if e > from && s[e - 1] == 13 {
            e - 1
        } else {
            e
        };
        let line = s.subrange(from, le);
        if win_line_value(line) is Some {
            win_line_value(line)
        } else if e >= s.len() {
            None
        } else {
            spec_parse_win_from(s, e + 1)
        }
    }
}

#[via_fn]
proof fn spec_parse_win_from_dec(s: Seq<u8>, from: int) {
    if 0 <= from < s.len() {
        lemma_find_from(s, 10, from);
    }
}

/// What the Windows probe parser returns on the whole output.
pub open spec fn spec_parse_gpu_windows(s: Seq<u8>) -> Option<Seq<u8>> {
    spec_parse_win_from(s, 0)
}

/// The device name a PCI listing line yields: a controller line with at
/// least five quote marks yields its fourth and sixth quote-separated
/// fields, joined by a space.
pub open spec fn linux_line_value(line: Seq<u8>) -> Option<Seq<u8>> {
    if contains_sub(line, vga_marker()) || contains_sub(line, display_marker()) {
        let q1 = find_from(line, 34, 0);
        let q2 = find_from(line, 34, q1 + 1);
        let q3 = find_from(line, 34, q2 + 1);
        let q4 = find_from(line, 34, q3 + 1);
        let q5 = find_from(line, 34, q4 + 1);
        if q5 < line.len() {
            let q6 = find_from(line, 34, q5 + 1);
            let vendor = line.subrange(q3 + 1, q4);
            let device = line.subrange(q5 + 1, q6);
            Some(vendor + seq![32u8] + device)
        } else {
            None
        }
    } else {
        None
    }
}

/// Scans the PCI listing line by line for the first controller line
/// that yields a device name.
pub open spec fn spec_parse_linux_from(s: Seq<u8>, from: int) -> Option<Seq<u8>>
    decreases s.len() - from when 0 <= from <= s.len() via spec_parse_linux_from_dec
{
    if from >= s.len() {
        None
    } else {
        let e = find_from(s, 10, from);
        let le = if e > from && s[e - 1] == 13 {
            e - 1
        } else {
            e
        };
        let line = s.subrange(from, le);
        if linux_line_value(line) is Some {
            linux_line_value(line)
        } else if e >= s.len() {
            None
        } else {
            spec_parse_linux_from(s, e + 1)
        }
    }
}

#[via_fn]
proof fn spec_parse_linux_from_dec(s: Seq<u8>, from: int) {
    if 0 <= from < s.len() {
        lemma_find_from(s, 10, from);
    }
}

/// What the PCI listing parser returns on the whole output.
pub open spec fn spec_parse_gpu_linux(s: Seq<u8>) -> Option<Seq<u8>> {
    spec_parse_linux_from(s, 0)
}

/// What the profiler-JSON parser returns: the text between the name-key
/// marker's closing quote and the next quote, when both are present.
pub open spec fn spec_parse_gpu_macos(s: Seq<u8>) -> Option<Seq<u8>> {
    let i = find_sub_from(s, json_name_marker(), 0);
    if i >= 0 {
        let start = i + json_name_marker().len();
        let e = find_from(s, 34, start);
        if e < s.len() {
            Some(s.subrange(start, e))
        } else {
            None
        }
    } else {
        None
    }
}

fn ascii_slice(s: &'static str) -> (r: &'static [u8])
    requires
        is_ascii_chars(s@),
    ensures
        r@ == ascii_bytes(s@),
{
    let r = s.as_bytes();
    proof {
        broadcast use vstd::string::is_ascii_spec_bytes;
        assert(vstd::string::is_ascii(s));
        assert(s.spec_bytes() =~= ascii_bytes(s@));
        assert(r@ =~= ascii_bytes(s@));
    }
    r
}

fn find_byte_from(out: &[u8], b: u8, from: usize) -> (r: usize)
    requires
        from <= out@.len(),
    ensures
        r == find_from(out@, b, from as int),
        from <= r <= out@.len(),
{
    let n = out.len();
    let mut i = from;
    while i < n
        invariant
            from <= i <= n,
            n == out@.len(),
            find_from(out@, b, from as int) == find_from(out@, b, i as int),
        decreases n - i,
    {
        if out[i] == b {
            return i;
        }
        i = i + 1;
    }
    i
}

fn pattern_at(out: &[u8], pat: &[u8], i: usize) -> (b: bool)
    ensures
        b == match_at(out@, pat@, i as int),
{
    let n = out.len();
    let m = pat.len();
    if i > n || m > n - i {
        return false;
    }
    let mut j: usize = 0;
    let mut ok: bool = true;
    while ok && j < m
        invariant
            0 <= j <= m,
            i + m <= n,
            n == out@.len(),
            m == pat@.len(),
            ok ==> forall|k: int| 0 <= k < j ==> out@[i + k] == pat@[k],
            !ok ==> !match_at(out@, pat@, i as int),
        decreases m - j, (if ok { 1int } else { 0int }),
    {
        if out[i + j] == pat[j] {
            j = j + 1;
        } else {
            proof {
                if match_at(out@, pat@, i as int) {
                    assert(out@.subrange(i as int, i + m)[j as int] == pat@[j as int]);
                }
            }
            ok = false;
        }
    }
    if ok {
        proof {
            assert(out@.subrange(i as int, i + m) =~= pat@);
        }
        true
    } else {
        false
    }
}

fn find_sub(out: &[u8], pat: &[u8], from: usize) -> (r: Option<usize>)
    requires
        from <= out@.len(),
    ensures
        r is Some ==> find_sub_from(out@, pat@, from as int) == r->0 && from <= r->0 && r->0
            + pat@.len() <= out@.len(),
        r is None ==> find_sub_from(out@, pat@, from as int) == -1,
{
    let n = out.len();
    let m = pat.len();
    if m > n || from > n - m {
        return None;
    }
    let mut i = from;
    while i <= n - m
        invariant
            from <= i <= n - m + 1,
            m <= n,
            n == out@.len(),
            m == pat@.len(),
            find_sub_from(out@, pat@, from as int) == find_sub_from(out@, pat@, i as int),
        decreases n - i,
    {
        if pattern_at(out, pat, i) {
            return Some(i);
        }
        proof {
            if pat@.len() == 0 {
                assert(out@.subrange(i as int, i as int) =~= pat@);
            }
            assert(find_sub_from(out@, pat@, i as int) == find_sub_from(
                out@,
                pat@,
                i as int + 1,
            ));
        }
        i = i + 1;
    }
    proof {
        assert(i + pat@.len() > out@.len());
        assert(find_sub_from(out@, pat@, i as int) == -1);
    }
    None
}

fn space_at(line: &[u8], i: usize) -> (b: bool)
    requires
        i < line@.len(),
    ensures
        b == is_space(line@[i as int]),
{
    let c = line[i];
    c == 32 || c == 9 || c == 10 || c == 11 || c == 12 || c == 13
}

fn win_line_match(line: &[u8], nm: &[u8]) -> (r: Option<Vec<u8>>)
    requires
        nm@ == name_marker(),
    ensures
        (r is Some) == (win_line_value(line@) is Some),
        r is Some ==> r->0@ == win_line_value(line@)->0,
{
    proof {
        reveal_strlit("Name=");
        assert(name_marker().len() == 5);
    }
    let ln = line.len();
    if !pattern_at(line, nm, 0) {
        proof {
            if name_marker().len() <= line@.len() {
                assert(line@.take(5int) =~= line@.subrange(0, 5));
            }
            assert(!starts_with(line@, name_marker()));
        }
        return None;
    }
    proof {
        assert(line@.take(5int) =~= line@.subrange(0, 5));
        assert(starts_with(line@, name_marker()));
        assert(line@.skip(0) =~= line@);
    }
    let mut st: usize = 0;
    let mut stopped: bool = false;
    while !stopped && ln - st >= 5
        invariant
            0 <= st <= ln,
            ln == line@.len(),
            nm@ == name_marker(),
            name_marker().len() == 5,
            strip_name_markers(line@) == strip_name_markers(line@.skip(st as int)),
            only_name_markers(line@) == only_name_markers(line@.skip(st as int)),
            stopped ==> !starts_with(line@.skip(st as int), name_marker()),
        decreases ln - st, (if stopped { 0int } else { 1int }),
    {
        if pattern_at(line, nm, st) {
            proof {
                let rest = line@.skip(st as int);
                assert(rest.take(5int) =~= line@.subrange(st as int, st + 5));
                assert(starts_with(rest, name_marker()));
                assert(rest.skip(5) =~= line@.skip(st + 5));
            }
            st = st + 5;
        } else {
            proof {
                let rest = line@.skip(st as int);
                if starts_with(rest, name_marker()) {
                    assert(rest.take(5int) =~= line@.subrange(st as int, st + 5));
                }
            }
            stopped = true;
        }
    }
    proof {
        let rest = line@.skip(st as int);
        if !stopped {
            assert(rest.len() < 5);
            assert(!starts_with(rest, name_marker()));
        }
        assert(strip_name_markers(rest) == rest);
        if st == ln {
            assert(rest =~= Seq::<u8>::empty());
            assert(only_name_markers(line@));
        } else {
            assert(!only_name_markers(line@));
        }
    }
    if st == ln {
        return None;
    }
    // Trim whitespace from the remaining content.
    let mut ts: usize = st;
    while ts < ln && space_at(line, ts)
        invariant
            st <= ts <= ln,
            ln == line@.len(),
            trim_start(line@.subrange(st as int, ln as int)) == trim_start(
                line@.subrange(ts as int, ln as int),
            ),
        decreases ln - ts,
    {
        proof {
            let cur = line@.subrange(ts as int, ln as int);
            assert(cur[0] == line@[ts as int]);
            assert(cur.skip(1) =~= line@.subrange(ts as int + 1, ln as int));
        }
        ts = ts + 1;
    }
    let mut te: usize = ln;
    while te > ts && space_at(line, te - 1)
        invariant
            ts <= te <= ln,
            ln == line@.len(),
            trim_end(line@.subrange(ts as int, ln as int)) == trim_end(
                line@.subrange(ts as int, te as int),
            ),
        decreases te,
    {
        proof {
            let cur = line@.subrange(ts as int, te as int);
            assert(cur.last() == line@[te - 1]);
            assert(cur.drop_last() =~= line@.subrange(ts as int, te as int - 1));
        }
        te = te - 1;
    }
    proof {
        let sr = line@.subrange(st as int, ln as int);
        assert(sr =~= line@.skip(st as int));
        assert(trim_start(sr) == line@.subrange(ts as int, ln as int));
        assert(trim_end(line@.subrange(ts as int, ln as int)) == line@.subrange(
            ts as int,
            te as int,
        ));
        assert(trim(strip_name_markers(line@)) == line@.subrange(ts as int, te as int));
    }
    let v = slice_to_vec(slice_subrange(line, ts, te));
    Some(v)
}

/// Parses the Windows device-query output: the value of the first
/// non-empty `Name=` line, whitespace-trimmed.
pub fn parse_gpu_windows(out: &[u8]) -> (r: Option<Vec<u8>>)
    ensures
        (r is Some) == (spec_parse_gpu_windows(out@) is Some),
        r is Some ==> r->0@ == spec_parse_gpu_windows(out@)->0,
{
    proof {
        reveal_strlit("Name=");
        assert(is_ascii_chars("Name="@));
    }
    let nm = ascii_slice("Name=");
    let n = out.len();
    let mut pos: usize = 0;
    while pos < n
        invariant
            0 <= pos <= n,
            n == out@.len(),
            nm@ == name_marker(),
            spec_parse_win_from(out@, 0) == spec_parse_win_from(out@, pos as int),
        decreases n - pos,
    {
        let e = find_byte_from(out, 10, pos);
        let le: usize = if e > pos && out[e - 1] == 13 {
            e - 1
        } else {
            e
        };
        let line = slice_subrange(out, pos, le);
        let m = win_line_match(line, nm);
        if m.is_some() {
            return m;
        }
        proof {
            assert(win_line_value(line@) is None);
        }
        pos = if e >= n {
            n
        } else {
            e + 1
        };
    }
    None
}

fn linux_line_match(line: &[u8], vga: &[u8], td: &[u8]) -> (r: Option<Vec<u8>>)
    requires
        vga@ == vga_marker(),
        td@ == display_marker(),
    ensures
        (r is Some) == (linux_line_value(line@) is Some),
        r is Some ==> r->0@ == linux_line_value(line@)->0,
{
    let c1 = find_sub(line, vga, 0);
    let c2 = find_sub(line, td, 0);
    if c1.is_none() && c2.is_none() {
        return None;
    }
    let ln = line.len();
    let q1 = find_byte_from(line, 34, 0);
    let q2 = if q1 >= ln {
        ln
    } else {
        find_byte_from(line, 34, q1 + 1)
    };
    let q3 = if q2 >= ln {
        ln
    } else {
        find_byte_from(line, 34, q2 + 1)
    };
    let q4 = if q3 >= ln {
        ln
    } else {
        find_byte_from(line, 34, q3 + 1)
    };
    let q5 = if q4 >= ln {
        ln
    } else {
        find_byte_from(line, 34, q4 + 1)
    };
    proof {
        assert(q2 == find_from(line@, 34, q1 + 1));
        assert(q3 == find_from(line@, 34, q2 + 1));
        assert(q4 == find_from(line@, 34, q3 + 1));
        assert(q5 == find_from(line@, 34, q4 + 1));
    }
    if q5 >= ln {
        return None;
    }
    let q6 = find_byte_from(line, 34, q5 + 1);
    let vendor = slice_subrange(line, q3 + 1, q4);
    let device = slice_subrange(line, q5 + 1, q6);
    let mut v = slice_to_vec(vendor);
    v.push(32);
    let mut rest = slice_to_vec(device);
    v.append(&mut rest);
    proof {
        assert(v@ =~= linux_line_value(line@)->0);
    }
    Some(v)
}

/// Parses the PCI listing output: the vendor and device fields of the
/// first graphics-controller line, joined by a space.
pub fn parse_gpu_linux(out: &[u8]) -> (r: Option<Vec<u8>>)
    ensures
        (r is Some) == (spec_parse_gpu_linux(out@) is Some),
        r is Some ==> r->0@ == spec_parse_gpu_linux(out@)->0,
{
    proof {
        reveal_strlit("VGA compatible controller");
        reveal_strlit("3D controller");
        assert(is_ascii_chars("VGA compatible controller"@));
        assert(is_ascii_chars("3D controller"@));
    }
    let vga = ascii_slice("VGA compatible controller");
    let td = ascii_slice("3D controller");
    let n = out.len();
    let mut pos: usize = 0;
    while pos < n
        invariant
            0 <= pos <= n,
            n == out@.len(),
            vga@ == vga_marker(),
            td@ == display_marker(),
            spec_parse_linux_from(out@, 0) == spec_parse_linux_from(out@, pos as int),
        decreases n - pos,
    {
        let e = find_byte_from(out, 10, pos);
        let le: usize = if e > pos && out[e - 1] == 13 {
            e - 1
        } else {
            e
        };
        let line = slice_subrange(out, pos, le);
        let m = linux_line_match(line, vga, td);
        if m.is_some() {
            return m;
        }
        proof {
            assert(linux_line_value(line@) is None);
        }
        pos = if e >= n {
            n
        } else {
            e + 1
        };
    }
    None
}

/// Parses the hardware profiler's JSON output: the text under the first
/// name key.
pub fn parse_gpu_macos(out: &[u8]) -> (r: Option<Vec<u8>>)
    ensures
        (r is Some) == (spec_parse_gpu_macos(out@) is Some),
        r is Some ==> r->0@ == spec_parse_gpu_macos(out@)->0,
{
    proof {
        reveal_strlit("\"_name\" : \"");
        assert(is_ascii_chars("\"_name\" : \""@));
        assert(json_name_marker().len() == 11);
    }
    let mk = ascii_slice("\"_name\" : \"");
    let n = out.len();
    match find_sub(out, mk, 0) {
        Some(i) => {
            proof {
                assert(mk@ == json_name_marker());
                assert(mk@.len() == 11);
                assert(i + 11 <= out@.len());
            }
            let start = i + 11;
            let e = find_byte_from(out, 34, start);
            if e < n {
                Some(slice_to_vec(slice_subrange(out, start, e)))
            } else {
                None
            }
        },
        None => None,
    }
}

} // verus!
