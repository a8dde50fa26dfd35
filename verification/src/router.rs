//! The command router: normalization of raw command text, the mode-switch
//! (`:<mode>`) and eager (`-<mode> <param>`) command forms, the routing
//! decision made for every incoming command, the proxy reply discipline,
//! and the small control-surface texts.

use vstd::prelude::*;
use vstd::string::StrSliceExecFns;
use vstd::string::StringExecFns;
use crate::json::JsonValue;
use crate::numtext::{spec_dec, u64_to_dec};

verus! {

/// The whitespace characters of command text.
pub open spec fn spec_is_ws(c: char) -> bool {
    c == ' ' || c == '\t' || c == '\n' || c == '\r' || c == '\u{b}' || c == '\u{c}'
}

fn is_ws(c: char) -> (b: bool)
    ensures
        b == spec_is_ws(c),
{
    c == ' ' || c == '\t' || c == '\n' || c == '\r' || c == '\u{b}' || c == '\u{c}'
}

/// Command text with all trailing whitespace removed; leading and internal
/// whitespace is kept.
pub open spec fn spec_trim_end(s: Seq<char>) -> Seq<char>
    decreases s.len(),
{
    if s.len() > 0 && spec_is_ws(s.last()) {
        spec_trim_end(s.drop_last())
    } else {
        s
    }
}

/// Strip trailing whitespace, a trailing line terminator included.
pub fn normalize_command(cmd: &str) -> (r: String)
    ensures
        r@ == spec_trim_end(cmd@),
{
    let len: usize = cmd.unicode_len();
    let mut end: usize = len;
    assert(cmd@.take(len as int) =~= cmd@);
    while end > 0 && is_ws(cmd.get_char(end - 1))
        invariant
            0 <= end <= len,
            len == cmd@.len(),
            spec_trim_end(cmd@) == spec_trim_end(cmd@.take(end as int)),
        decreases end,
    {
        proof {
            assert(cmd@.take(end as int).last() == cmd@[end - 1]);
            assert(cmd@.take(end as int).drop_last() =~= cmd@.take(end - 1));
        }
        end = end - 1;
    }
    proof {
        if end > 0 {
            assert(cmd@.take(end as int).last() == cmd@[end - 1]);
        }
        assert(spec_trim_end(cmd@.take(end as int)) == cmd@.take(end as int));
    }
    cmd.substring_char(0, end).to_owned()
}

/// A nonempty run of non-whitespace characters: the shape of a mode name.
pub open spec fn spec_word(s: Seq<char>) -> bool {
    s.len() > 0 && forall|i: int| 0 <= i < s.len() ==> !spec_is_ws(#[trigger] s[i])
}

/// A normalized command of the mode-switch form `:<mode>`.
pub open spec fn spec_is_switch(c: Seq<char>) -> bool {
    c.len() >= 2 && c[0] == ':' && spec_word(c.skip(1))
}

/// A normalized command of the eager form `-<mode>...`.
pub open spec fn spec_is_eager(c: Seq<char>) -> bool {
    c.len() >= 2 && c[0] == '-' && !spec_is_ws(c[1])
}

/// The first position at or after `from` holding whitespace, or the end.
pub open spec fn spec_scan_to_ws(s: Seq<char>, from: int) -> int
    decreases s.len() - from,
{
    if from >= s.len() {
        s.len() as int
    } else if spec_is_ws(s[from]) {
        from
    } else {
        spec_scan_to_ws(s, from + 1)
    }
}

/// The first position at or after `from` holding non-whitespace, or the end.
pub open spec fn spec_scan_ws(s: Seq<char>, from: int) -> int
    decreases s.len() - from,
{
    if from >= s.len() {
        s.len() as int
    } else if !spec_is_ws(s[from]) {
        from
    } else {
        spec_scan_ws(s, from + 1)
    }
}

/// The mode of an eager command: the run of non-whitespace after `-`.
pub open spec fn spec_eager_mode(c: Seq<char>) -> Seq<char> {
    c.subrange(1, spec_scan_to_ws(c, 1))
}

/// The parameter of an eager command: everything after the whitespace run
/// that follows the mode.
pub open spec fn spec_eager_param(c: Seq<char>) -> Seq<char> {
    c.subrange(spec_scan_ws(c, spec_scan_to_ws(c, 1)), c.len() as int)
}

/// What the router decides for one command.
#[derive(Debug, Clone)]
pub enum Routing {
    /// Make `mode` the active mode; dispatch nothing.
    Switch { mode: String },
    /// Send `param` to the targets of `mode`; the active mode is untouched.
    Dispatch { mode: String, param: String },
}

/// The mathematical image of a routing decision.
pub enum RoutingModel {
    Switch { mode: Seq<char> },
    Dispatch { mode: Seq<char>, param: Seq<char> },
}

impl View for Routing {
    type V = RoutingModel;

    open spec fn view(&self) -> RoutingModel {
        match *self {
            Routing::Switch { ref mode } => RoutingModel::Switch { mode: mode@ },
            Routing::Dispatch { ref mode, ref param } => RoutingModel::Dispatch {
                mode: mode@,
                param: param@,
            },
        }
    }
}

/// The routing decision for raw command text `cmd` while `active` is the
/// active mode: after trimming, `:<mode>` switches the mode and dispatches
/// nothing; `-<mode> <param>` dispatches `param` to `<mode>` without
/// touching the active mode; anything else dispatches the trimmed text to
/// the active mode.
pub open spec fn spec_route_command(cmd: Seq<char>, active: Seq<char>) -> RoutingModel {
    let c = spec_trim_end(cmd);
    if spec_is_switch(c) {
        RoutingModel::Switch { mode: c.skip(1) }
    } else if spec_is_eager(c) {
        RoutingModel::Dispatch { mode: spec_eager_mode(c), param: spec_eager_param(c) }
    } else {
        RoutingModel::Dispatch { mode: active, param: c }
    }
}

fn scan_to_ws(c: &String, from: usize) -> (j: usize)
    requires
        from <= c@.len(),
    ensures
        j == spec_scan_to_ws(c@, from as int),
        from <= j <= c@.len(),
    decreases c@.len() - from,
{
    let len: usize = c.as_str().unicode_len();
    if from >= len {
        len
    } else if is_ws(c.as_str().get_char(from)) {
        from
    } else {
        scan_to_ws(c, from + 1)
    }
}

fn scan_ws(c: &String, from: usize) -> (j: usize)
    requires
        from <= c@.len(),
    ensures
        j == spec_scan_ws(c@, from as int),
        from <= j <= c@.len(),
    decreases c@.len() - from,
{
    let len: usize = c.as_str().unicode_len();
    if from >= len {
        len
    } else if !is_ws(c.as_str().get_char(from)) {
        from
    } else {
        scan_ws(c, from + 1)
    }
}

/// Decide what to do with one raw command while `active` is the active
/// mode.
pub fn route_command(cmd: &str, active: &str) -> (r: Routing)
    ensures
        r@ == spec_route_command(cmd@, active@),
{
    let c = normalize_command(cmd);
    let len: usize = c.as_str().unicode_len();
    if len >= 2 && c.as_str().get_char(0) == ':' {
        let j = scan_to_ws(&c, 1);
        proof {
            lemma_scan_to_ws_props(c@, 1);
        }
        if j == len {
            proof {
                assert(spec_word(c@.skip(1)));
                assert(c@.skip(1) =~= c@.subrange(1, len as int));
            }
            let mode = c.as_str().substring_char(1, len).to_owned();
            return Routing::Switch { mode };
        }
        proof {
            assert(spec_is_ws(c@.skip(1)[j - 1]));
            assert(!spec_word(c@.skip(1)));
        }
    }
    if len >= 2 && c.as_str().get_char(0) == '-' {
        let first = c.as_str().get_char(1);
        if !is_ws(first) {
            let j = scan_to_ws(&c, 1);
            let k = scan_ws(&c, j);
            let mode = c.as_str().substring_char(1, j).to_owned();
            let param = c.as_str().substring_char(k, len).to_owned();
            proof {
                assert(mode@ =~= spec_eager_mode(c@));
                assert(param@ =~= spec_eager_param(c@));
            }
            return Routing::Dispatch { mode, param };
        }
    }
    proof {
        assert(!spec_is_switch(c@));
        assert(!spec_is_eager(c@));
    }
    Routing::Dispatch { mode: active.to_owned(), param: c }
}

/// What the whitespace scan yields: its stop is in range, stops on
/// whitespace unless it ran out, and nothing before it is whitespace.
proof fn lemma_scan_to_ws_props(s: Seq<char>, from: int)
    requires
        0 <= from <= s.len(),
    ensures
        ({
            let j = spec_scan_to_ws(s, from);
            &&& from <= j <= s.len()
            &&& (j < s.len() ==> spec_is_ws(s[j]))
            &&& forall|i: int| from <= i < j ==> !spec_is_ws(#[trigger] s[i])
        }),
    decreases s.len() - from,
{
    if from < s.len() && !spec_is_ws(s[from]) {
        lemma_scan_to_ws_props(s, from + 1);
    }
}

/// Law: trailing line terminators never change the routing decision;
/// `"abc\n"`, `"abc\r\n"` and `"abc"` route identically.
pub proof fn lemma_terminator_ignored(cmd: Seq<char>, active: Seq<char>)
    ensures
        spec_route_command(cmd.push('\n'), active) == spec_route_command(cmd, active),
        spec_route_command(cmd.push('\r').push('\n'), active) == spec_route_command(cmd, active),
{
    assert(cmd.push('\n').drop_last() =~= cmd);
    assert(cmd.push('\r').push('\n').drop_last() =~= cmd.push('\r'));
    assert(cmd.push('\r').drop_last() =~= cmd);
    assert(spec_trim_end(cmd.push('\r').push('\n')) == spec_trim_end(cmd.push('\r')));
    assert(spec_trim_end(cmd.push('\r')) == spec_trim_end(cmd));
}

/// Law (mode switching): the command `:<m>` only switches the active mode
/// to `m`, and once `m` is active a plain command is dispatched to `m` with
/// its trimmed text as the payload.
pub proof fn lemma_mode_switching(m: Seq<char>, plain: Seq<char>, active: Seq<char>)
    requires
        spec_word(m),
        spec_trim_end(plain).len() > 0 ==> spec_trim_end(plain)[0] != ':' && spec_trim_end(
            plain,
        )[0] != '-',
    ensures
        spec_route_command(seq![':'] + m, active) == (RoutingModel::Switch { mode: m }),
        spec_route_command(plain, m) == (RoutingModel::Dispatch {
            mode: m,
            param: spec_trim_end(plain),
        }),
{
    let c = seq![':'] + m;
    assert(c.last() == m.last());
    assert(!spec_is_ws(m[m.len() - 1]));
    assert(spec_trim_end(c) == c);
    assert(c.skip(1) =~= m);
    assert(spec_is_switch(c));
}

/// Law (eager dispatch): the command `-<m> <param>` dispatches `param` to
/// the mode `m`, whatever mode is active, and decides no mode switch.
pub proof fn lemma_eager_dispatch(m: Seq<char>, param: Seq<char>, active: Seq<char>)
    requires
        spec_word(m),
        param.len() > 0,
        !spec_is_ws(param[0]),
        !spec_is_ws(param.last()),
    ensures
        spec_route_command(seq!['-'] + m + seq![' '] + param, active) == (RoutingModel::Dispatch {
            mode: m,
            param,
        }),
{
    let c = seq!['-'] + m + seq![' '] + param;
    assert(c.len() == m.len() + param.len() + 2);
    assert(c.last() == param.last());
    assert(spec_trim_end(c) == c);
    assert(c[0] == '-');
    assert(c[1] == m[0]);
    assert(spec_is_eager(c));
    let mend = 1 + m.len() as int;
    assert(c[mend] == ' ');
    lemma_scan_to_ws_at(c, 1, mend);
    assert(spec_eager_mode(c) =~= m);
    lemma_scan_ws_at(c, mend, mend + 1);
    assert(spec_eager_param(c) =~= param);
    assert(!spec_is_switch(c));
}

/// Where the scan for whitespace stops, given what the text holds.
proof fn lemma_scan_to_ws_at(s: Seq<char>, from: int, j: int)
    requires
        0 <= from <= j < s.len(),
        forall|i: int| from <= i < j ==> !spec_is_ws(#[trigger] s[i]),
        spec_is_ws(s[j]),
    ensures
        spec_scan_to_ws(s, from) == j,
    decreases j - from,
{
    if from < j {
        lemma_scan_to_ws_at(s, from + 1, j);
    }
}

/// Where the scan for non-whitespace stops, given what the text holds.
proof fn lemma_scan_ws_at(s: Seq<char>, from: int, k: int)
    requires
        0 <= from <= k < s.len(),
        forall|i: int| from <= i < k ==> spec_is_ws(#[trigger] s[i]),
        !spec_is_ws(s[k]),
    ensures
        spec_scan_ws(s, from) == k,
    decreases k - from,
{
    if from < k {
        lemma_scan_ws_at(s, from + 1, k);
    }
}

/// Why a proxied request failed.
#[derive(Debug, Clone, Copy, PartialEq, Eq, Structural)]
pub enum ProxyError {
    /// The bound addon could not be reached or sent no reply.
    AddonUnreachable,
}

/// The proxy reply discipline: a reply body from the addon is returned to
/// the caller verbatim, byte for byte; where the forwarding call produced
/// no reply, the caller gets an error distinguishable from any successful
/// reply, an empty one included.
pub fn proxy_reply(response: Option<Vec<u8>>) -> (r: Result<Vec<u8>, ProxyError>)
    ensures
        match response {
            Some(body) => r matches Ok(b) && b@ == body@,
            None => r matches Err(e) && e == ProxyError::AddonUnreachable,
        },
{
    match response {
        Some(body) => Ok(body),
        None => Err(ProxyError::AddonUnreachable),
    }
}

/// The size report of the canvas, as the info route sends it.
pub fn canvas_info_string(w: u64, h: u64) -> (s: String)
    ensures
        s@ == "\"width\":"@ + spec_dec(w as int) + ",\"height\":"@ + spec_dec(h as int),
{
    let mut s = "\"width\":".to_owned();
    s.append(u64_to_dec(w).as_str());
    s.append(",\"height\":");
    s.append(u64_to_dec(h).as_str());
    s
}

/// One requested crop bound: the member's integer wrapped into `u32`
/// range, or the default where the member is absent or not an integer.
pub open spec fn spec_crop_param(info: JsonValue, key: Seq<char>, def: u32) -> int {
    match info.spec_get(key) {
        Some(v) => match v {
            JsonValue::Int(n) => n as int % 0x1_0000_0000,
            _ => def as int,
        },
        None => def as int,
    }
}

fn wrap_to_u32(v: i64) -> (r: u32)
    ensures
        r as int == (v as int) % 0x1_0000_0000,
{
    if v >= 0 {
        (v % 0x1_0000_0000) as u32
    } else {
        let neg: i64 = -(v + 1);
        let rr: i64 = neg % 0x1_0000_0000;
        assert((v as int) % 0x1_0000_0000 == 0xFFFF_FFFF - rr) by (nonlinear_arith)
            requires
                v == -(neg + 1),
                neg >= 0,
                rr == neg % 0x1_0000_0000,
        ;
        (0xFFFF_FFFFi64 - rr) as u32
    }
}

fn crop_param(info: &JsonValue, key: &str, def: u32) -> (r: u32)
    ensures
        r == spec_crop_param(*info, key@, def),
{
    match info.get(key) {
        Some(v) => match v.as_i64() {
            Some(n) => wrap_to_u32(n),
            None => def,
        },
        None => def,
    }
}

/// The crop window a canvas request asks for: `x`, `y`, `width`, `height`
/// read from the request body, with the origin and the full canvas size as
/// the defaults.
pub fn crop_params(info: &JsonValue, def_w: u32, def_h: u32) -> (r: (u32, u32, u32, u32))
    ensures
        r.0 == spec_crop_param(*info, "x"@, 0),
        r.1 == spec_crop_param(*info, "y"@, 0),
        r.2 == spec_crop_param(*info, "width"@, def_w),
        r.3 == spec_crop_param(*info, "height"@, def_h),
{
    let x = crop_param(info, "x", 0);
    let y = crop_param(info, "y", 0);
    let w = crop_param(info, "width", def_w);
    let h = crop_param(info, "height", def_h);
    (x, y, w, h)
}

} // verus!
