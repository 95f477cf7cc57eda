//! Tool calls embedded in a model reply: fenced JSON blocks, or else the
//! first balanced `{...}` of the reply.
use vstd::prelude::*;
use crate::text::{
    chars_of, find_from, occurs_at, push_all, slice_vec, starts_with_at, string_of, trim, trim_chars,
};

verus! {

#[verifier::external_type_specification]
#[verifier::external_body]
pub struct ExJsonValue(serde_json::Value);

/// A request of the model to run a tool with parameters.
#[derive(Debug)]
pub struct ToolCall {
    pub tool: String,
    pub params: serde_json::Value,
}

/// The tool name of a JSON text that is an object with a string `tool`
/// member; none for any other text.
pub uninterp spec fn json_tool_name(s: Seq<char>) -> Option<Seq<char>>;

/// Whether a JSON text that names a tool also has a `params` member.
pub uninterp spec fn json_has_params(s: Seq<char>) -> bool;

/// Relies on `serde_json::from_str::<Value>`, `Value::get` and
/// `Value::as_str`: the `tool` string of a JSON object, and its `params`
/// member where there is one.
#[verifier::external_body]
fn decode_tool_call(s: &str) -> (r: Option<(String, Option<serde_json::Value>)>)
    ensures
        match r {
            Some((t, p)) => json_tool_name(s@) == Some(t@) && (p is Some <==> json_has_params(s@)),
            None => json_tool_name(s@).is_none(),
        },
{
    let v: serde_json::Value = serde_json::from_str(s).ok()?;
    let tool = v.get("tool")?.as_str()?.to_string();
    Some((tool, v.get("params").cloned()))
}

/// Relies on `serde_json::Map::new`: a JSON object with no members.
#[verifier::external_body]
fn empty_json_object() -> (r: serde_json::Value) {
    serde_json::Value::Object(serde_json::Map::new())
}

/// The call that a candidate text stands for: its tool, and its `params`
/// member or else an empty object.
fn tool_call_from(s: &str) -> (r: Option<ToolCall>)
    ensures
        match r {
            Some(c) => json_tool_name(s@) == Some(c.tool@),
            None => json_tool_name(s@).is_none(),
        },
{
    match decode_tool_call(s) {
        Some((tool, Some(params))) => Some(ToolCall { tool, params }),
        Some((tool, None)) => Some(ToolCall { tool, params: empty_json_object() }),
        None => None,
    }
}

/// The first occurrence of `p` in `s` at or after `pos`, if any.
pub open spec fn first_at(s: Seq<char>, p: Seq<char>, pos: int) -> Option<int>
    decreases s.len() + 1 - pos,
{
    if pos < 0 || pos > s.len() || pos + p.len() > s.len() {
        None
    } else if occurs_at(s, p, pos) {
        Some(pos)
    } else {
        first_at(s, p, pos + 1)
    }
}

pub open spec fn fence() -> Seq<char> {
    "```"@
}

/// Where the body of a block opened by the fence at `i` starts: after the
/// fence and an optional `json` tag.
pub open spec fn body_start(s: Seq<char>, i: int) -> int {
    if occurs_at(s, "json"@, i + 3) { i + 7 } else { i + 3 }
}

/// The trimmed bodies of the fenced blocks of `s` from `pos` on.
pub open spec fn blocks_at(s: Seq<char>, pos: int) -> Seq<Seq<char>>
    decreases s.len() - pos,
{
    if pos < 0 || pos > s.len() {
        Seq::empty()
    } else {
        match first_at(s, fence(), pos) {
            None => Seq::empty(),
            Some(i) => {
                let j = body_start(s, i);
                match first_at(s, fence(), j) {
                    None => Seq::empty(),
                    Some(k) => if pos <= k && k + 3 <= s.len() {
                        seq![trim(s.subrange(j, k))] + blocks_at(s, k + 3)
                    } else {
                        Seq::empty()
                    },
                }
            },
        }
    }
}

/// The text of `s` from `pos` on without its fenced blocks.
pub open spec fn prose_at(s: Seq<char>, pos: int) -> Seq<char>
    decreases s.len() - pos,
{
    if pos < 0 || pos > s.len() {
        Seq::empty()
    } else {
        match first_at(s, fence(), pos) {
            None => s.subrange(pos, s.len() as int),
            Some(i) => {
                let j = body_start(s, i);
                match first_at(s, fence(), j) {
                    None => s.subrange(pos, s.len() as int),
                    Some(k) => if pos <= k && k + 3 <= s.len() {
                        s.subrange(pos, i) + prose_at(s, k + 3)
                    } else {
                        s.subrange(pos, s.len() as int)
                    },
                }
            },
        }
    }
}

/// Index after the brace that closes the one at `a`, scanning from `pos`
/// with `depth` braces open.
pub open spec fn brace_end(t: Seq<char>, pos: int, depth: int) -> Option<int>
    decreases t.len() - pos,
{
    if pos < 0 || pos >= t.len() {
        None
    } else if t[pos] == '{' {
        brace_end(t, pos + 1, depth + 1)
    } else if t[pos] == '}' {
        if depth - 1 == 0 { Some(pos + 1) } else { brace_end(t, pos + 1, depth - 1) }
    } else {
        brace_end(t, pos + 1, depth)
    }
}

/// The first balanced `{...}` of the trimmed text, if any.
pub open spec fn raw_json(s: Seq<char>) -> Option<Seq<char>> {
    let t = trim(s);
    match first_at(t, "{"@, 0) {
        None => None,
        Some(a) => match brace_end(t, a, 0) {
            None => None,
            Some(e) => Some(t.subrange(a, e)),
        },
    }
}

/// The texts that are read as tool calls.
pub open spec fn candidates(s: Seq<char>) -> Seq<Seq<char>> {
    let b = blocks_at(s, 0);
    if b.len() > 0 {
        b
    } else {
        match raw_json(s) {
            Some(j) => seq![j],
            None => Seq::empty(),
        }
    }
}

/// The tool names of the candidates that are tool calls, in order.
pub open spec fn call_names(c: Seq<Seq<char>>) -> Seq<Seq<char>>
    decreases c.len(),
{
    if c.len() == 0 {
        Seq::empty()
    } else {
        call_names(c.drop_last()) + match json_tool_name(c.last()) {
            Some(n) => seq![n],
            None => Seq::empty(),
        }
    }
}

pub open spec fn tool_names(v: Seq<ToolCall>) -> Seq<Seq<char>> {
    v.map_values(|c: ToolCall| c.tool@)
}

proof fn lemma_first_at(s: Seq<char>, p: Seq<char>, pos: int, i: int)
    requires
        0 <= pos <= i <= s.len(),
        forall|j: int| pos <= j < i ==> !occurs_at(s, p, j),
        occurs_at(s, p, i),
    ensures
        first_at(s, p, pos) == Some(i),
    decreases i - pos,
{
    if pos < i {
        lemma_first_at(s, p, pos + 1, i);
    }
}

proof fn lemma_first_none(s: Seq<char>, p: Seq<char>, pos: int)
    requires
        0 <= pos,
        forall|j: int| pos <= j ==> !occurs_at(s, p, j),
    ensures
        first_at(s, p, pos).is_none(),
    decreases s.len() + 1 - pos,
{
    if pos <= s.len() && pos + p.len() <= s.len() {
        lemma_first_none(s, p, pos + 1);
    }
}

/// The first occurrence of `p` in `s` at or after `from`, as the spec
/// names it.
fn first_exec(s: &[char], p: &[char], from: usize) -> (r: Option<usize>)
    requires
        from <= s@.len(),
    ensures
        match r {
            Some(i) => first_at(s@, p@, from as int) == Some(i as int) && from <= i && i + p@.len() <= s@.len(),
            None => first_at(s@, p@, from as int).is_none(),
        },
{
    let r = find_from(s, p, from);
    proof {
        match r {
            Some(i) => lemma_first_at(s@, p@, from as int, i as int),
            None => lemma_first_none(s@, p@, from as int),
        }
    }
    r
}

/// The scan of the fenced blocks: their trimmed bodies, and the text
/// without them.
fn scan_blocks(s: &[char]) -> (r: (Vec<Vec<char>>, Vec<char>))
    ensures
        crate::text::seq_views(r.0@) == blocks_at(s@, 0),
        r.1@ == prose_at(s@, 0),
{
    let fence_v = chars_of("```");
    let json_v = chars_of("json");
    proof {
        reveal_strlit("```");
        reveal_strlit("json");
    }
    assert(fence_v@.len() == 3);
    assert(json_v@.len() == 4);
    let mut blocks: Vec<Vec<char>> = Vec::new();
    let mut prose: Vec<char> = Vec::new();
    let mut pos: usize = 0;
    assert(crate::text::seq_views(blocks@) =~= Seq::<Seq<char>>::empty());
    while pos <= s.len()
        invariant
            pos <= s@.len() + 3,
            fence_v@ == fence(),
            json_v@ == "json"@,
            fence_v@.len() == 3,
            json_v@.len() == 4,
            pos <= s@.len() ==> blocks_at(s@, 0) == crate::text::seq_views(blocks@) + blocks_at(s@, pos as int),
            pos <= s@.len() ==> prose_at(s@, 0) == prose@ + prose_at(s@, pos as int),
            pos > s@.len() ==> blocks_at(s@, 0) == crate::text::seq_views(blocks@) && prose_at(s@, 0) == prose@,
        decreases s@.len() + 4 - pos,
    {
        match first_exec(s, fence_v.as_slice(), pos) {
            None => {
                let rest = slice_vec(s, pos, s.len());
                push_all(&mut prose, rest.as_slice());
                assert(blocks_at(s@, pos as int) =~= Seq::<Seq<char>>::empty());
                assert(crate::text::seq_views(blocks@) + Seq::<Seq<char>>::empty() =~= crate::text::seq_views(blocks@));
                return (blocks, prose);
            },
            Some(i) => {
                assert(fence_v@.len() == 3);
                let j0 = i + 3;
                let has_json = starts_with_at(s, j0, json_v.as_slice());
                proof {
                    if has_json {
                        assert(json_v@.len() == 4);
                    }
                }
                let j = if has_json { j0 + 4 } else { j0 };
                proof {
                    let t = s@.subrange(j0 as int, s@.len() as int);
                    if j == j0 + 4 {
                        assert(t.subrange(0, 4) =~= s@.subrange(j0 as int, j0 + 4));
                    } else if occurs_at(s@, "json"@, j0 as int) {
                        assert(t.subrange(0, 4) =~= s@.subrange(j0 as int, j0 + 4));
                    }
                    assert(j == body_start(s@, i as int));
                }
                match first_exec(s, fence_v.as_slice(), j) {
                    None => {
                        let rest = slice_vec(s, pos, s.len());
                        push_all(&mut prose, rest.as_slice());
                        assert(blocks_at(s@, pos as int) =~= Seq::<Seq<char>>::empty());
                        assert(crate::text::seq_views(blocks@) + Seq::<Seq<char>>::empty() =~= crate::text::seq_views(blocks@));
                        return (blocks, prose);
                    },
                    Some(k) => {
                        let body = slice_vec(s, j, k);
                        let b = trim_chars(body.as_slice());
                        let ghost prev = blocks@;
                        blocks.push(b);
                        assert(crate::text::seq_views(blocks@) =~= crate::text::seq_views(prev).push(b@));
                        let before = slice_vec(s, pos, i);
                        push_all(&mut prose, before.as_slice());
                        pos = k + 3;
                        proof {
                            let bv = crate::text::seq_views(prev);
                            assert(bv.push(b@) =~= bv + seq![b@]);
                            assert(crate::text::seq_views(blocks@) + blocks_at(s@, pos as int) =~= bv + (seq![b@] + blocks_at(s@, pos as int)));
                            if pos > s@.len() {
                                assert(false);
                            }
                        }
                    },
                }
            },
        }
    }
    (blocks, prose)
}

/// Index after the brace that closes the first brace of `t` at `a`.
fn brace_end_exec(t: &[char], a: usize) -> (r: Option<usize>)
    requires
        a <= t@.len(),
    ensures
        match r {
            Some(e) => brace_end(t@, a as int, 0) == Some(e as int) && a < e <= t@.len(),
            None => brace_end(t@, a as int, 0).is_none(),
        },
{
    let mut depth: i128 = 0;
    let mut pos: usize = a;
    while pos < t.len()
        invariant
            a <= pos <= t@.len(),
            -(pos as int) <= depth <= pos as int,
            brace_end(t@, a as int, 0) == brace_end(t@, pos as int, depth as int),
        decreases t@.len() - pos,
    {
        let c = t[pos];
        if c == '{' {
            depth = depth + 1;
        } else if c == '}' {
            if depth - 1 == 0 {
                return Some(pos + 1);
            }
            depth = depth - 1;
        }
        pos += 1;
    }
    None
}


/// Index of the first character at or after `i` that is not white space.
pub open spec fn skip_ws_at(s: Seq<char>, i: int) -> int
    decreases s.len() - i,
{
    if 0 <= i < s.len() && crate::text::is_ws(s[i]) { skip_ws_at(s, i + 1) } else { i }
}

/// A `tool` key opens an object at `i`: a brace, white space, `"tool"`,
/// white space and a colon.
pub open spec fn tool_key_at(s: Seq<char>, i: int) -> bool {
    0 <= i < s.len() && s[i] == '{' && occurs_at(s, "\"tool\""@, skip_ws_at(s, i + 1)) && {
        let b = skip_ws_at(s, skip_ws_at(s, i + 1) + 6);
        0 <= b < s.len() && s[b] == ':'
    }
}

proof fn lemma_skip_ws_at(s: Seq<char>, i: int, k: int)
    requires
        0 <= i <= k <= s.len(),
        forall|j: int| i <= j < k ==> crate::text::is_ws(s[j]),
        k == s.len() || !crate::text::is_ws(s[k]),
    ensures
        skip_ws_at(s, i) == k,
    decreases k - i,
{
    if i < k {
        lemma_skip_ws_at(s, i + 1, k);
    }
}

fn skip_ws_exec(s: &[char], i: usize) -> (r: usize)
    requires
        i <= s@.len(),
    ensures
        i <= r <= s@.len(),
        r == skip_ws_at(s@, i as int),
{
    let mut k = i;
    while k < s.len() && crate::text::is_whitespace(s[k])
        invariant
            i <= k <= s@.len(),
            forall|j: int| i <= j < k ==> crate::text::is_ws(s@[j]),
        decreases s@.len() - k,
    {
        k += 1;
    }
    proof {
        lemma_skip_ws_at(s@, i as int, k as int);
    }
    k
}


/// The fenced blocks of `s` from `pos` on, fences included, one after
/// another: what `prose_at` leaves out.
pub open spec fn fences_at(s: Seq<char>, pos: int) -> Seq<char>
    decreases s.len() - pos,
{
    if pos < 0 || pos > s.len() {
        Seq::empty()
    } else {
        match first_at(s, fence(), pos) {
            None => Seq::empty(),
            Some(i) => {
                let j = body_start(s, i);
                match first_at(s, fence(), j) {
                    None => Seq::empty(),
                    Some(k) => if pos <= k && k + 3 <= s.len() {
                        s.subrange(i, k + 3) + fences_at(s, k + 3)
                    } else {
                        Seq::empty()
                    },
                }
            },
        }
    }
}

proof fn lemma_first_at_bounds(s: Seq<char>, p: Seq<char>, pos: int)
    requires
        0 <= pos,
    ensures
        match first_at(s, p, pos) {
            Some(i) => pos <= i && i + p.len() <= s.len() && occurs_at(s, p, i) && forall|q: int|
                pos <= q < i ==> !occurs_at(s, p, q),
            None => forall|q: int| pos <= q ==> !occurs_at(s, p, q),
        },
    decreases s.len() + 1 - pos,
{
    if pos > s.len() || pos + p.len() > s.len() {
    } else if !occurs_at(s, p, pos) {
        lemma_first_at_bounds(s, p, pos + 1);
    }
}

/// Where `a` comes first, the scan of `a + b` from inside `b` is the scan
/// of `b`.
proof fn lemma_first_shift(a: Seq<char>, b: Seq<char>, p: Seq<char>, x: int)
    requires
        0 <= x,
    ensures
        first_at(a + b, p, a.len() + x) == (match first_at(b, p, x) {
            Some(i) => Some(i + a.len()),
            None => None,
        }),
    decreases b.len() + 1 - x,
{
    let s = a + b;
    if x <= b.len() && x + p.len() <= b.len() {
        assert(s.subrange(a.len() + x, a.len() + x + p.len()) =~= b.subrange(x, x + p.len()));
        if !occurs_at(b, p, x) {
            lemma_first_shift(a, b, p, x + 1);
        }
    }
}

proof fn lemma_blocks_shift(a: Seq<char>, b: Seq<char>, q: int)
    requires
        0 <= q <= b.len(),
    ensures
        blocks_at(a + b, a.len() + q) == blocks_at(b, q),
    decreases b.len() - q,
{
    let s = a + b;
    let n = a.len() as int;
    reveal_strlit("json");
    reveal_strlit("```");
    lemma_first_shift(a, b, fence(), q);
    lemma_first_at_bounds(b, fence(), q);
    match first_at(b, fence(), q) {
        None => {},
        Some(i) => {
            if i + 7 <= b.len() {
                assert(s.subrange(n + i + 3, n + i + 7) =~= b.subrange(i + 3, i + 7));
            }
            assert(body_start(s, n + i) == n + body_start(b, i));
            let j = body_start(b, i);
            lemma_first_shift(a, b, fence(), j);
            lemma_first_at_bounds(b, fence(), j);
            match first_at(b, fence(), j) {
                None => {},
                Some(k) => {
                    assert(s.subrange(n + j, n + k) =~= b.subrange(j, k));
                    if q <= k && k + 3 <= b.len() {
                        lemma_blocks_shift(a, b, k + 3);
                    }
                },
            }
        },
    }
}

/// The fenced blocks of `r` from `pos`, taken out and put one after
/// another, are read as the same blocks.
proof fn lemma_fences_blocks(r: Seq<char>, pos: int)
    requires
        0 <= pos <= r.len(),
    ensures
        blocks_at(fences_at(r, pos), 0) == blocks_at(r, pos),
    decreases r.len() - pos,
{
    reveal_strlit("json");
    reveal_strlit("```");
    lemma_first_at_bounds(r, fence(), pos);
    match first_at(r, fence(), pos) {
        None => {},
        Some(i) => {
            let j = body_start(r, i);
            lemma_first_at_bounds(r, fence(), j);
            match first_at(r, fence(), j) {
                None => {},
                Some(k) => {
                    if pos <= k && k + 3 <= r.len() {
                        let seg = r.subrange(i, k + 3);
                        let rest = fences_at(r, k + 3);
                        let s = seg + rest;
                        // the opening fence
                        assert(s.subrange(0, 3) =~= r.subrange(i, i + 3));
                        assert(first_at(s, fence(), 0) == Some(0int));
                        // the json tag reads the same
                        if k + 3 >= i + 7 {
                            assert(s.subrange(3, 7) =~= r.subrange(i + 3, i + 7));
                        } else {
                            assert(k == i + 3);
                            assert(s[3] == r[i + 3]);
                            assert(r.subrange(k, k + 3)[0] == '`');
                            if occurs_at(s, "json"@, 3) {
                                assert(s.subrange(3, 7)[0] == 'j');
                            }
                            if occurs_at(r, "json"@, i + 3) {
                                assert(r.subrange(i + 3, i + 7)[0] == 'j');
                            }
                        }
                        assert(body_start(s, 0) == j - i);
                        // the closing fence
                        assert forall|q: int| j - i <= q < k - i implies !occurs_at(s, fence(), q) by {
                            assert(!occurs_at(r, fence(), i + q));
                            assert(s.subrange(q, q + 3) =~= r.subrange(i + q, i + q + 3));
                        }
                        assert(s.subrange(k - i, k - i + 3) =~= r.subrange(k, k + 3));
                        lemma_first_at(s, fence(), j - i, k - i);
                        assert(s.subrange(j - i, k - i) =~= r.subrange(j, k));
                        lemma_blocks_shift(seg, rest, 0);
                        assert(seg.len() == k + 3 - i);
                        lemma_fences_blocks(r, k + 3);
                        assert(blocks_at(s, 0) == seq![trim(r.subrange(j, k))] + blocks_at(s, k + 3 - i));
                    }
                },
            }
        },
    }
}

/// Stripping the fenced blocks from a reply and putting them back after
/// its prose gives the same tool calls, where the prose holds no fence of
/// its own and does not end in a backtick, and the reply has a block.
pub proof fn split_then_refence(r: Seq<char>)
    requires
        blocks_at(r, 0).len() > 0,
        !crate::text::contains_seq(trim(prose_at(r, 0)), fence()),
        trim(prose_at(r, 0)).len() == 0 || trim(prose_at(r, 0)).last() != '`',
    ensures
        candidates(trim(prose_at(r, 0)) + fences_at(r, 0)) == candidates(r),
        call_names(candidates(trim(prose_at(r, 0)) + fences_at(r, 0))) == call_names(candidates(r)),
{
    let t = trim(prose_at(r, 0));
    let f = fences_at(r, 0);
    let s = t + f;
    lemma_fences_blocks(r, 0);
    lemma_blocks_shift(t, f, 0);
    reveal_strlit("```");
    assert forall|p: int| 0 <= p < t.len() implies !occurs_at(s, fence(), p) by {
        if occurs_at(s, fence(), p) {
            if p + 3 <= t.len() {
                assert(t.subrange(p, p + 3) =~= s.subrange(p, p + 3));
                assert(crate::text::occurs_at(t, fence(), p));
            } else if p == t.len() - 1 {
                assert(s[p] == t.last());
                assert(s.subrange(p, p + 3)[0] == '`');
            } else {
                assert(s[p + 1] == t.last());
                assert(s.subrange(p, p + 3)[1] == '`');
            }
        }
    }
    lemma_first_skip(s, fence(), 0, t.len() as int);
    lemma_first_at_bounds(s, fence(), 0);
}

proof fn lemma_first_skip(s: Seq<char>, p: Seq<char>, a: int, b: int)
    requires
        0 <= a <= b,
        forall|q: int| a <= q < b ==> !occurs_at(s, p, q),
    ensures
        first_at(s, p, a) == first_at(s, p, b),
    decreases b - a,
{
    if a < b {
        lemma_first_skip(s, p, a + 1, b);
    }
}

/// Extracts tool calls from model replies.
pub struct ToolCallParser;

impl ToolCallParser {
    /// The fenced JSON blocks of a reply, or where it has none, its first
    /// balanced `{...}`.
    pub fn extract_json_blocks(text: &str) -> (r: Vec<String>)
        ensures
            crate::cli::string_views(r@) == candidates(text@),
    {
        let s = chars_of(text);
        let (blocks, _prose) = scan_blocks(s.as_slice());
        let mut out: Vec<String> = Vec::new();
        if blocks.len() > 0 {
            let mut i: usize = 0;
            while i < blocks.len()
                invariant
                    i <= blocks@.len(),
                    crate::cli::string_views(out@) == crate::text::seq_views(blocks@).subrange(0, i as int),
                decreases blocks@.len() - i,
            {
                let ghost prev = out@;
                let b = string_of(blocks[i].as_slice());
                assert(b@ == crate::text::seq_views(blocks@)[i as int]);
                out.push(b);
                assert(crate::cli::string_views(out@) =~= crate::cli::string_views(prev).push(b@));
                assert(crate::cli::string_views(out@) =~= crate::text::seq_views(blocks@).subrange(0, i + 1));
                i += 1;
            }
            assert(crate::text::seq_views(blocks@).subrange(0, i as int) =~= crate::text::seq_views(blocks@));
            return out;
        }
        proof {
            assert(crate::text::seq_views(blocks@).len() == 0);
        }
        let t = trim_chars(s.as_slice());
        let brace = chars_of("{");
        match first_exec(t.as_slice(), brace.as_slice(), 0) {
            None => {},
            Some(a) => {
                match brace_end_exec(t.as_slice(), a) {
                    None => {},
                    Some(e) => {
                        let j = slice_vec(t.as_slice(), a, e);
                        out.push(string_of(j.as_slice()));
                        assert(crate::cli::string_views(out@) =~= seq![j@]);
                    },
                }
            },
        }
        assert(crate::cli::string_views(out@) =~= candidates(text@));
        out
    }

    /// The tool calls of a reply, in order; candidates that are not JSON
    /// objects with a `tool` string are skipped.
    pub fn parse(response: &str) -> (r: Vec<ToolCall>)
        ensures
            tool_names(r@) == call_names(candidates(response@)),
    {
        let blocks = Self::extract_json_blocks(response);
        let ghost cs = crate::cli::string_views(blocks@);
        let mut calls: Vec<ToolCall> = Vec::new();
        let mut i: usize = 0;
        while i < blocks.len()
            invariant
                i <= blocks@.len(),
                cs == crate::cli::string_views(blocks@),
                cs == candidates(response@),
                tool_names(calls@) == call_names(cs.subrange(0, i as int)),
            decreases blocks@.len() - i,
        {
            assert(cs.subrange(0, i + 1).drop_last() =~= cs.subrange(0, i as int));
            assert(cs[i as int] == blocks@[i as int]@);
            let ghost prev = calls@;
            match tool_call_from(blocks[i].as_str()) {
                Some(c) => {
                    calls.push(c);
                    assert(tool_names(calls@) =~= tool_names(prev) + seq![c.tool@]);
                },
                None => {
                    assert(tool_names(calls@) =~= tool_names(prev) + Seq::<Seq<char>>::empty());
                },
            }
            i += 1;
        }
        assert(cs.subrange(0, i as int) =~= cs);
        calls
    }

    /// The first tool call of a reply, if any.
    pub fn parse_first(response: &str) -> (r: Option<ToolCall>)
        ensures
            match r {
                Some(c) => call_names(candidates(response@)).len() > 0 && c.tool@ == call_names(candidates(response@))[0],
                None => call_names(candidates(response@)).len() == 0,
            },
    {
        let mut calls = Self::parse(response);
        if calls.len() == 0 {
            None
        } else {
            let ghost names = tool_names(calls@);
            let c = calls.swap_remove(0);
            assert(names[0] == c.tool@);
            Some(c)
        }
    }

    /// Whether the reply holds an object with a `tool` key anywhere.
    pub fn has_tool_call(response: &str) -> (r: bool)
        ensures
            r == exists|i: int| tool_key_at(response@, i),
    {
        let s = chars_of(response);
        let key = chars_of("\"tool\"");
        proof {
            reveal_strlit("\"tool\"");
        }
        let mut i: usize = 0;
        while i < s.len()
            invariant
                i <= s@.len(),
                s@ == response@,
                key@ == "\"tool\""@,
                key@.len() == 6,
                forall|j: int| 0 <= j < i ==> !tool_key_at(response@, j),
            decreases s@.len() - i,
        {
            if s[i] == '{' {
                let a = skip_ws_exec(s.as_slice(), i + 1);
                if starts_with_at(s.as_slice(), a, key.as_slice()) {
                    let b = skip_ws_exec(s.as_slice(), a + 6);
                    assert(s@.subrange(a as int, s@.len() as int).subrange(0, 6) =~= s@.subrange(a as int, a + 6));
                    if b < s.len() && s[b] == ':' {
                        assert(tool_key_at(response@, i as int));
                        return true;
                    }
                } else {
                    proof {
                        if occurs_at(s@, key@, a as int) {
                            assert(s@.subrange(a as int, s@.len() as int).subrange(0, 6) =~= s@.subrange(a as int, a + 6));
                        }
                    }
                }
            }
            i += 1;
        }
        false
    }

    /// The reply's prose without its fenced blocks, trimmed, and its tool
    /// calls.
    pub fn split_response(response: &str) -> (r: (String, Vec<ToolCall>))
        ensures
            r.0@ == trim(prose_at(response@, 0)),
            tool_names(r.1@) == call_names(candidates(response@)),
    {
        let s = chars_of(response);
        let (_blocks, prose) = scan_blocks(s.as_slice());
        let text = trim_chars(prose.as_slice());
        (string_of(text.as_slice()), Self::parse(response))
    }
}

} // verus!
