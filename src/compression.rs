//! Token estimation and compression of long conversations into a summary of
//! the old messages followed by the recent ones.
use vstd::prelude::*;
use crate::conversation::{is_sys, system_prefix, Conversation, Message, Role};
use crate::text::{chars_of, contains, contains_seq, decimal, decimal_chars, find_char, index_of, is_prefix, join, join_chars, lines, push_all, push_str, seq_views, slice_vec, split_lines, starts_with, string_of};

verus! {

/// `x`, or the largest `usize` where `x` exceeds it.
pub open spec fn sat(x: nat) -> nat {
    if x > usize::MAX {
        usize::MAX as nat
    } else {
        x
    }
}

pub open spec fn ascii_count(s: Seq<char>) -> nat
    decreases s.len(),
{
    if s.len() == 0 {
        0
    } else {
        ascii_count(s.drop_last()) + if (s.last() as u32) < 128 { 1nat } else { 0nat }
    }
}

/// Estimated tokens of a text: a quarter of its ASCII characters and half
/// of the others, each rounded up.
pub open spec fn text_tokens(s: Seq<char>) -> nat {
    let a = ascii_count(s);
    let o = (s.len() - a) as nat;
    (a + 3) / 4 + (o + 1) / 2
}

/// Estimated tokens of a message: its text and four for the role.
pub open spec fn message_tokens(m: Message) -> nat {
    text_tokens(m.content@) + 4
}

pub open spec fn total_tokens(s: Seq<Message>) -> nat
    decreases s.len(),
{
    if s.len() == 0 {
        0
    } else {
        total_tokens(s.drop_last()) + message_tokens(s.last())
    }
}

/// Settings of the compressor. The threshold is a percentage of
/// `max_tokens`.
#[derive(Debug, Clone, Copy)]
pub struct CompressionConfig {
    pub threshold_percent: usize,
    pub max_tokens: usize,
    pub preserve_recent: usize,
    pub preserve_code_blocks: bool,
    pub preserve_tool_results: bool,
}

impl Default for CompressionConfig {
    fn default() -> (r: CompressionConfig)
        ensures
            r.threshold_percent == 50,
            r.max_tokens == 128000,
            r.preserve_recent == 10,
            r.preserve_code_blocks,
            r.preserve_tool_results,
    {
        CompressionConfig {
            threshold_percent: 50,
            max_tokens: 128000,
            preserve_recent: 10,
            preserve_code_blocks: true,
            preserve_tool_results: true,
        }
    }
}

/// The summary that stands for the compressed messages.
#[derive(Debug, Clone)]
pub struct CompressedMessage {
    pub original_count: usize,
    pub summary: String,
}

/// A conversation reduced to its system message, a summary of its old
/// messages and its recent messages.
#[derive(Debug, Clone)]
pub struct CompressedConversation {
    pub system_message: Option<Message>,
    pub compressed_history: Option<CompressedMessage>,
    pub preserved_messages: Vec<Message>,
    pub original_message_count: usize,
    pub estimated_tokens_saved: usize,
}

/// Compresses conversations according to a configuration.
#[derive(Debug, Clone, Copy)]
pub struct ContextCompressor {
    config: CompressionConfig,
}

/// The default configuration.
pub open spec fn default_config() -> CompressionConfig {
    CompressionConfig {
        threshold_percent: 50,
        max_tokens: 128000,
        preserve_recent: 10,
        preserve_code_blocks: true,
        preserve_tool_results: true,
    }
}

/// The count and text of a compression's summary, if any.
pub open spec fn history_of(cc: CompressedConversation) -> Option<(nat, Seq<char>)> {
    match cc.compressed_history {
        Some(h) => Some((h.original_count as nat, h.summary@)),
        None => None,
    }
}

/// `x` cut to 100 characters: 97 and an ellipsis of three dots.
pub open spec fn cut100(x: Seq<char>) -> Seq<char> {
    if x.len() > 100 {
        x.subrange(0, 97) + "..."@
    } else {
        x
    }
}

/// `x` cut to 200 characters: 197 and three dots.
pub open spec fn cut200(x: Seq<char>) -> Seq<char> {
    if x.len() > 200 {
        x.subrange(0, 197) + "..."@
    } else {
        x
    }
}

/// The topic of a user message: its first line, cut to 100 characters.
pub open spec fn topic_of(content: Seq<char>) -> Option<Seq<char>> {
    let ls = lines(content);
    if ls.len() == 0 {
        None
    } else {
        Some(cut100(ls[0]))
    }
}

/// The action of an assistant message: its text up to the first period,
/// cut to 100 characters.
pub open spec fn action_of(content: Seq<char>) -> Seq<char> {
    cut100(content.subrange(0, index_of(content, '.') as int))
}

pub open spec fn topics(s: Seq<Message>) -> Seq<Seq<char>>
    decreases s.len(),
{
    if s.len() == 0 {
        Seq::empty()
    } else {
        let m = s.last();
        topics(s.drop_last()) + if m.role == Role::User && topic_of(m.content@).is_some() {
            seq![topic_of(m.content@).unwrap()]
        } else {
            Seq::empty()
        }
    }
}

pub open spec fn actions(s: Seq<Message>) -> Seq<Seq<char>>
    decreases s.len(),
{
    if s.len() == 0 {
        Seq::empty()
    } else {
        let m = s.last();
        actions(s.drop_last()) + if m.role == Role::Assistant {
            seq![action_of(m.content@)]
        } else {
            Seq::empty()
        }
    }
}

/// A text holds code: a fence or a four-space indent.
pub open spec fn has_code(s: Seq<char>) -> bool {
    contains_seq(s, "```"@) || contains_seq(s, "    "@)
}

/// The bodies of the fenced blocks among `ls`, each line ended by a line feed.
pub open spec fn fenced_from(ls: Seq<Seq<char>>, open: bool, cur: Seq<char>) -> Seq<Seq<char>>
    decreases ls.len(),
{
    if ls.len() == 0 {
        Seq::empty()
    } else if is_prefix("```"@, ls[0]) {
        if open {
            seq![cur] + fenced_from(ls.drop_first(), false, Seq::empty())
        } else {
            fenced_from(ls.drop_first(), true, Seq::empty())
        }
    } else if open {
        fenced_from(ls.drop_first(), true, cur + ls[0] + "\n"@)
    } else {
        fenced_from(ls.drop_first(), false, cur)
    }
}

/// The fenced code of a text, blocks separated by `---` lines; none where
/// no block is closed.
pub open spec fn fenced_code(s: Seq<char>) -> Option<Seq<char>> {
    let b = fenced_from(lines(s), false, Seq::empty());
    if b.len() == 0 {
        None
    } else {
        Some(join(b, "\n---\n"@))
    }
}

/// A message of the old part that the summary reproduces.
pub open spec fn is_important(m: Message, c: CompressionConfig) -> bool {
    (c.preserve_tool_results && m.role == Role::Tool) || (c.preserve_code_blocks && has_code(
        m.content@,
    ))
}

/// What the summary reproduces of an important message.
pub open spec fn important_piece(m: Message) -> Seq<char> {
    if m.role == Role::Tool {
        match m.tool_name {
            Some(n) => "\n[Tool: "@ + n@ + "] "@ + cut200(m.content@) + "\n"@,
            None => Seq::empty(),
        }
    } else if (m.role == Role::User || m.role == Role::Assistant) && has_code(m.content@) {
        match fenced_code(m.content@) {
            Some(code) => "\n[Code context]:\n"@ + code + "\n"@,
            None => Seq::empty(),
        }
    } else {
        Seq::empty()
    }
}

pub open spec fn pieces(s: Seq<Message>, c: CompressionConfig) -> Seq<char>
    decreases s.len(),
{
    if s.len() == 0 {
        Seq::empty()
    } else {
        pieces(s.drop_last(), c) + if is_important(s.last(), c) {
            important_piece(s.last())
        } else {
            Seq::empty()
        }
    }
}

/// The summary of the old messages: the users' topics, the assistant's
/// actions, then what the important messages hold.
pub open spec fn summary_text(old: Seq<Message>, c: CompressionConfig) -> Seq<char> {
    let t = topics(old);
    let a = actions(old);
    (if t.len() > 0 {
        "User discussed: "@ + join(t, ", "@) + ".\n"@
    } else {
        Seq::empty()
    }) + (if a.len() > 0 {
        "Assistant: "@ + join(a, "; "@) + ".\n"@
    } else {
        Seq::empty()
    }) + pieces(old, c)
}

/// The header of the synthetic message that carries a summary.
pub open spec fn summary_message_text(count: nat, summary: Seq<char>) -> Seq<char> {
    "[Previous conversation summary ("@ + decimal(count) + " messages)]\n"@ + summary
}


pub open spec fn summary_header() -> Seq<char> {
    "[Previous conversation summary ("@
}

pub open spec fn summary_tail() -> Seq<char> {
    " messages)]\n"@
}

pub open spec fn is_digit_char(c: char) -> bool {
    '0' <= c && c <= '9'
}

/// Number of leading decimal digits of `a`.
pub open spec fn digit_run(a: Seq<char>) -> nat
    decreases a.len(),
{
    if a.len() > 0 && is_digit_char(a[0]) { 1 + digit_run(a.drop_first()) } else { 0 }
}

/// The number that the decimal digits `a` spell.
pub open spec fn digits_val(a: Seq<char>) -> nat
    decreases a.len(),
{
    if a.len() == 0 { 0 } else { digits_val(a.drop_last()) * 10 + ((a.last() as u32) - 48) as nat }
}

/// The count and text of a message that carries an earlier summary, as
/// `summary_message_text` writes it; none for any other text.
pub open spec fn parse_summary(c: Seq<char>) -> Option<(nat, Seq<char>)> {
    let h = summary_header();
    if !is_prefix(h, c) {
        None
    } else {
        let a = c.subrange(h.len() as int, c.len() as int);
        let d = digit_run(a);
        let tail = a.subrange(d as int, a.len() as int);
        if d == 0 || !is_prefix(summary_tail(), tail) || digits_val(a.subrange(0, d as int)) > usize::MAX {
            None
        } else {
            Some((digits_val(a.subrange(0, d as int)), tail.subrange(summary_tail().len() as int, tail.len() as int)))
        }
    }
}

/// Whether the leading system messages start with a real system message,
/// not a carried summary.
pub open spec fn has_real_system(s: Seq<Message>, n: nat) -> bool {
    n > 0 && parse_summary(s[0].content@).is_none()
}

/// The summary that the leading system messages carry from an earlier
/// compression, if any.
pub open spec fn prior_summary(s: Seq<Message>, n: nat) -> Option<(nat, Seq<char>)> {
    if n > 0 && parse_summary(s[0].content@).is_some() {
        parse_summary(s[0].content@)
    } else if n > 1 {
        parse_summary(s[1].content@)
    } else {
        None
    }
}

proof fn lemma_digit_char(d: nat)
    requires
        d < 10,
    ensures
        (crate::text::digit_char(d) as u32) == 48 + d,
        is_digit_char(crate::text::digit_char(d)),
{
}

proof fn lemma_decimal_digits(n: nat)
    ensures
        decimal(n).len() >= 1,
        forall|i: int| 0 <= i < decimal(n).len() ==> is_digit_char(#[trigger] decimal(n)[i]),
        digits_val(decimal(n)) == n,
    decreases n,
{
    if n < 10 {
        lemma_digit_char(n);
        assert(decimal(n).drop_last() =~= Seq::<char>::empty());
        assert(decimal(n).last() == crate::text::digit_char(n));
        assert(digits_val(decimal(n)) == digits_val(decimal(n).drop_last()) * 10 + ((decimal(n).last() as u32) - 48) as nat);
        assert(digits_val(Seq::<char>::empty()) == 0);
    } else {
        lemma_digit_char(n % 10);
        assert(decimal(n).last() == crate::text::digit_char(n % 10));
        lemma_decimal_digits(n / 10);
        let a = decimal(n / 10);
        assert(decimal(n).drop_last() =~= a);
        assert forall|i: int| 0 <= i < decimal(n).len() implies is_digit_char(#[trigger] decimal(n)[i]) by {
            if i < a.len() {
                assert(decimal(n)[i] == a[i]);
            }
        }
        assert(digits_val(decimal(n)) == digits_val(decimal(n).drop_last()) * 10 + ((decimal(n).last() as u32) - 48) as nat);
        assert(n == (n / 10) * 10 + n % 10);
    }
}

proof fn lemma_digit_run(d: Seq<char>, rest: Seq<char>)
    requires
        forall|i: int| 0 <= i < d.len() ==> is_digit_char(#[trigger] d[i]),
        rest.len() > 0,
        !is_digit_char(rest[0]),
    ensures
        digit_run(d + rest) == d.len(),
    decreases d.len(),
{
    if d.len() > 0 {
        assert((d + rest).drop_first() =~= d.drop_first() + rest);
        lemma_digit_run(d.drop_first(), rest);
    } else {
        assert(d + rest =~= rest);
    }
}

/// Reading back the message that carries a summary gives its count and
/// text.
pub proof fn summary_message_round_trip(count: nat, summary: Seq<char>)
    requires
        count <= usize::MAX,
    ensures
        parse_summary(summary_message_text(count, summary)) == Some((count, summary)),
{
    reveal_strlit("[Previous conversation summary (");
    reveal_strlit(" messages)]\n");
    let h = summary_header();
    let d = decimal(count);
    let t = summary_tail();
    let c = summary_message_text(count, summary);
    lemma_decimal_digits(count);
    assert(c.subrange(0, h.len() as int) =~= h);
    let a = c.subrange(h.len() as int, c.len() as int);
    assert(a =~= d + (t + summary));
    lemma_digit_run(d, t + summary);
    assert(a.subrange(0, d.len() as int) =~= d);
    let tail = a.subrange(d.len() as int, a.len() as int);
    assert(tail =~= t + summary);
    assert(tail.subrange(0, t.len() as int) =~= t);
    assert(tail.subrange(t.len() as int, tail.len() as int) =~= summary);
}

proof fn lemma_digit_run_at(a: Seq<char>, i: int)
    requires
        0 <= i <= a.len(),
        forall|j: int| 0 <= j < i ==> is_digit_char(a[j]),
        i == a.len() || !is_digit_char(a[i]),
    ensures
        digit_run(a) == i,
    decreases i,
{
    if i > 0 {
        lemma_digit_run_at(a.drop_first(), i - 1);
    }
}

/// Reads a message that carries an earlier summary.
fn parse_summary_exec(content: &str) -> (r: Option<(usize, String)>)
    ensures
        match r {
            Some((n, t)) => parse_summary(content@) == Some((n as nat, t@)),
            None => parse_summary(content@).is_none(),
        },
{
    let c = chars_of(content);
    let h = chars_of("[Previous conversation summary (");
    let t = chars_of(" messages)]\n");
    if !starts_with(c.as_slice(), h.as_slice()) {
        return None;
    }
    let a = slice_vec(c.as_slice(), h.len(), c.len());
    let mut i: usize = 0;
    let mut value: u128 = 0;
    assert(a@.subrange(0, 0) =~= Seq::<char>::empty());
    while i < a.len() && '0' <= a[i] && a[i] <= '9'
        invariant
            i <= a@.len(),
            forall|j: int| 0 <= j < i ==> is_digit_char(a@[j]),
            value == (if digits_val(a@.subrange(0, i as int)) <= usize::MAX {
                digits_val(a@.subrange(0, i as int))
            } else {
                usize::MAX as nat + 1
            }),
        decreases a@.len() - i,
    {
        let ghost prev = digits_val(a@.subrange(0, i as int));
        assert(a@.subrange(0, i + 1).drop_last() =~= a@.subrange(0, i as int));
        let dgt = (a[i] as u32 - 48) as u128;
        if value <= usize::MAX as u128 {
            let next = value * 10 + dgt;
            value = if next <= usize::MAX as u128 { next } else { usize::MAX as u128 + 1 };
        } else {
            assert(prev * 10 + dgt as nat >= prev) by (nonlinear_arith);
        }
        i += 1;
    }
    proof {
        lemma_digit_run_at(a@, i as int);
    }
    if i == 0 || value > usize::MAX as u128 {
        return None;
    }
    if !crate::text::starts_with_at(a.as_slice(), i, t.as_slice()) {
        return None;
    }
    let rest = slice_vec(a.as_slice(), i + t.len(), a.len());
    proof {
        let tail = a@.subrange(i as int, a@.len() as int);
        assert(tail.subrange(t@.len() as int, tail.len() as int) =~= rest@);
    }
    Some((value as usize, string_of(rest.as_slice())))
}

/// `r` is the compression of the messages `s`, whose first `n` are the
/// system ones, under `c`.
pub open spec fn compressed_from(
    r: CompressedConversation,
    s: Seq<Message>,
    n: nat,
    c: CompressionConfig,
) -> bool {
    let ns = s.subrange(n as int, s.len() as int);
    let k = c.preserve_recent as nat;
    &&& r.system_message == (if has_real_system(s, n) { Some(s[0]) } else { None })
    &&& r.original_message_count == s.len()
    &&& if ns.len() <= k {
        &&& history_of(r) == prior_summary(s, n)
        &&& r.preserved_messages@ == ns
        &&& r.estimated_tokens_saved == 0
    } else {
        let old = ns.subrange(0, ns.len() - k);
        let fresh = summary_text(old, c);
        &&& r.preserved_messages@ == ns.subrange(ns.len() - k, ns.len() as int)
        &&& history_of(r) == Some(match prior_summary(s, n) {
            None => (old.len(), fresh),
            Some((pc, pt)) => (
                if pc + old.len() <= usize::MAX { (pc + old.len()) as nat } else { usize::MAX as nat },
                pt + "\n"@ + fresh,
            ),
        })
        &&& r.estimated_tokens_saved == (if sat(total_tokens(old)) > sat(text_tokens(fresh)) {
            sat(total_tokens(old)) - sat(text_tokens(fresh))
        } else {
            0
        })
    }
}

/// `out` is the conversation that a compressed conversation with the given
/// parts projects to, under a bound of 100 messages.
pub open spec fn projected(
    out: Seq<Message>,
    sys: Option<Message>,
    hist: Option<(nat, Seq<char>)>,
    preserved: Seq<Message>,
) -> bool {
    let h: nat = (if sys.is_some() { 1nat } else { 0nat }) + (if hist.is_some() { 1nat } else { 0nat });
    let keep: nat = if h + preserved.len() <= 100 { preserved.len() } else { (100 - h) as nat };
    &&& out.len() == h + keep
    &&& out.subrange(h as int, out.len() as int) == preserved.subrange(
        preserved.len() - keep,
        preserved.len() as int,
    )
    &&& forall|i: int| 0 <= i < h ==> out[i].role == Role::System && out[i].tool_name.is_none()
    &&& sys matches Some(m) ==> out[0].content@ == m.content@
    &&& hist matches Some(p) ==> out[h - 1].content@ == summary_message_text(p.0, p.1)
}

pub open spec fn keep_of(h: nat, i: nat) -> nat {
    if h + i <= 100 {
        i
    } else {
        (100 - h) as nat
    }
}

fn cut_chars(x: &[char], limit: usize) -> (r: Vec<char>)
    requires
        3 <= limit,
    ensures
        r@ == (if x@.len() > limit {
            x@.subrange(0, limit - 3) + "..."@
        } else {
            x@
        }),
{
    if x.len() > limit {
        let mut r = slice_vec(x, 0, limit - 3);
        push_str(&mut r, "...");
        r
    } else {
        slice_vec(x, 0, x.len())
    }
}

fn fenced_code_chars(content: &[char]) -> (r: Option<Vec<char>>)
    ensures
        match r {
            Some(v) => fenced_code(content@) == Some(v@),
            None => fenced_code(content@).is_none(),
        },
{
    let ls = split_lines(content);
    let fence = chars_of("```");
    let mut blocks: Vec<Vec<char>> = Vec::new();
    let mut open = false;
    let mut cur: Vec<char> = Vec::new();
    let mut i: usize = 0;
    assert(seq_views(ls@).subrange(0, ls@.len() as int) =~= seq_views(ls@));
    assert(seq_views(blocks@) =~= Seq::<Seq<char>>::empty());
    while i < ls.len()
        invariant
            i <= ls@.len(),
            fence@ == "```"@,
            fenced_from(lines(content@), false, Seq::empty()) == seq_views(blocks@) + fenced_from(
                seq_views(ls@).subrange(i as int, ls@.len() as int),
                open,
                cur@,
            ),
            seq_views(ls@) == lines(content@),
        decreases ls@.len() - i,
    {
        let ghost rest = seq_views(ls@).subrange(i as int, ls@.len() as int);
        assert(rest.drop_first() =~= seq_views(ls@).subrange(i + 1, ls@.len() as int));
        assert(rest[0] == ls@[i as int]@);
        let line = ls[i].as_slice();
        if starts_with(line, fence.as_slice()) {
            if open {
                let ghost prev = blocks@;
                let done = cur;
                blocks.push(done);
                assert(seq_views(blocks@) =~= seq_views(prev).push(done@));
                cur = Vec::new();
                open = false;
            } else {
                cur = Vec::new();
                open = true;
            }
            assert(cur@ =~= Seq::<char>::empty());
        } else if open {
            push_all(&mut cur, line);
            push_str(&mut cur, "\n");
        }
        i += 1;
    }
    assert(seq_views(ls@).subrange(i as int, ls@.len() as int) =~= Seq::<Seq<char>>::empty());
    assert(seq_views(blocks@) + Seq::<Seq<char>>::empty() =~= seq_views(blocks@));
    if blocks.len() == 0 {
        None
    } else {
        let sep = chars_of("\n---\n");
        Some(join_chars(&blocks, sep.as_slice()))
    }
}

/// Whether a text holds code: a fence or a four-space indent.
fn has_code_chars(content: &[char]) -> (r: bool)
    ensures
        r == has_code(content@),
{
    contains(content, chars_of("```").as_slice()) || contains(content, chars_of("    ").as_slice())
}


/// Estimated tokens of a text, saturated at the largest `usize`.
pub fn estimate_text_tokens(text: &[char]) -> (r: usize)
    ensures
        r == sat(text_tokens(text@)),
{
    let mut a: usize = 0;
    let mut i: usize = 0;
    while i < text.len()
        invariant
            i <= text@.len(),
            a == ascii_count(text@.subrange(0, i as int)),
            a <= i,
        decreases text@.len() - i,
    {
        assert(text@.subrange(0, i + 1).drop_last() =~= text@.subrange(0, i as int));
        if (text[i] as u32) < 128 {
            a += 1;
        }
        i += 1;
    }
    assert(text@.subrange(0, i as int) =~= text@);
    let o: usize = text.len() - a;
    let v: u128 = (a as u128 + 3) / 4 + (o as u128 + 1) / 2;
    if v > usize::MAX as u128 {
        usize::MAX
    } else {
        v as usize
    }
}

fn estimate_message_tokens(m: &Message) -> (r: usize)
    ensures
        r == sat(message_tokens(*m)),
{
    let c = chars_of(m.content.as_str());
    let t = estimate_text_tokens(c.as_slice());
    t.saturating_add(4)
}

/// Estimated tokens of a sequence of messages, saturated.
fn estimate_messages(msgs: &[Message]) -> (r: usize)
    ensures
        r == sat(total_tokens(msgs@)),
{
    let mut acc: usize = 0;
    let mut i: usize = 0;
    while i < msgs.len()
        invariant
            i <= msgs@.len(),
            acc == sat(total_tokens(msgs@.subrange(0, i as int))),
        decreases msgs@.len() - i,
    {
        assert(msgs@.subrange(0, i + 1).drop_last() =~= msgs@.subrange(0, i as int));
        let t = estimate_message_tokens(&msgs[i]);
        acc = acc.saturating_add(t);
        i += 1;
    }
    assert(msgs@.subrange(0, i as int) =~= msgs@);
    acc
}

/// The topic of a user message: its first line, cut to 100 characters.
fn extract_topic(content: &[char]) -> (r: Option<Vec<char>>)
    ensures
        match r {
            Some(v) => topic_of(content@) == Some(v@),
            None => topic_of(content@).is_none(),
        },
{
    let ls = split_lines(content);
    if ls.len() == 0 {
        None
    } else {
        assert(seq_views(ls@)[0] == ls@[0]@);
        Some(cut_chars(ls[0].as_slice(), 100))
    }
}

/// The action of an assistant message: its text up to the first period,
/// cut to 100 characters.
fn extract_action(content: &[char]) -> (r: Vec<char>)
    ensures
        r@ == action_of(content@),
{
    let j = find_char(content, '.', 0);
    assert(content@.subrange(0, content@.len() as int) =~= content@);
    let first = slice_vec(content, 0, j);
    cut_chars(first.as_slice(), 100)
}

/// What the summary reproduces of an important message.
fn important_piece_chars(m: &Message) -> (r: Vec<char>)
    ensures
        r@ == important_piece(*m),
{
    let content = chars_of(m.content.as_str());
    let mut out: Vec<char> = Vec::new();
    if m.role == Role::Tool {
        if let Some(name) = &m.tool_name {
            push_str(&mut out, "\n[Tool: ");
            push_str(&mut out, name.as_str());
            push_str(&mut out, "] ");
            let cut = cut_chars(content.as_slice(), 200);
            push_all(&mut out, cut.as_slice());
            push_str(&mut out, "\n");
        }
    } else if (m.role == Role::User || m.role == Role::Assistant) && has_code_chars(content.as_slice()) {
        if let Some(code) = fenced_code_chars(content.as_slice()) {
            push_str(&mut out, "\n[Code context]:\n");
            push_all(&mut out, code.as_slice());
            push_str(&mut out, "\n");
        }
    }
    assert(out@ =~= important_piece(*m));
    out
}

impl ContextCompressor {
    pub closed spec fn cfg(&self) -> CompressionConfig {
        self.config
    }

    /// A compressor with the default configuration.
    pub fn new() -> (r: ContextCompressor)
        ensures
            r.cfg().threshold_percent == 50,
            r.cfg().max_tokens == 128000,
            r.cfg().preserve_recent == 10,
            r.cfg().preserve_code_blocks,
            r.cfg().preserve_tool_results,
    {
        ContextCompressor { config: CompressionConfig::default() }
    }

    pub fn with_config(config: CompressionConfig) -> (r: ContextCompressor)
        ensures
            r.cfg() == config,
    {
        ContextCompressor { config }
    }

    /// Sets the threshold, as a percentage at most 100.
    pub fn with_threshold(self, percent: usize) -> (r: ContextCompressor)
        ensures
            r.cfg() == (CompressionConfig {
                threshold_percent: if percent > 100 { 100 } else { percent },
                ..self.cfg()
            }),
    {
        let mut config = self.config;
        config.threshold_percent = if percent > 100 { 100 } else { percent };
        ContextCompressor { config }
    }

    pub fn with_max_tokens(self, max_tokens: usize) -> (r: ContextCompressor)
        ensures
            r.cfg() == (CompressionConfig { max_tokens, ..self.cfg() }),
    {
        let mut config = self.config;
        config.max_tokens = max_tokens;
        ContextCompressor { config }
    }

    /// Estimated tokens of the whole conversation, saturated.
    pub fn estimate_tokens(&self, conversation: &Conversation) -> (r: usize)
        ensures
            r == sat(total_tokens(conversation.msgs())),
    {
        estimate_messages(conversation.messages())
    }

    /// Whether the estimate exceeds the threshold share of `max_tokens`.
    pub fn should_compress(&self, conversation: &Conversation) -> (r: bool)
        ensures
            r == (sat(total_tokens(conversation.msgs())) > self.cfg().max_tokens
                * self.cfg().threshold_percent / 100),
    {
        let est = self.estimate_tokens(conversation);
        let a = self.config.max_tokens;
        let b = self.config.threshold_percent;
        assert((a as int) * (b as int) <= (usize::MAX as int) * (usize::MAX as int)) by (nonlinear_arith)
            requires
                a <= usize::MAX,
                b <= usize::MAX,
        ;
        assert((usize::MAX as int) * (usize::MAX as int) < u128::MAX);
        let limit: u128 = (self.config.max_tokens as u128) * (self.config.threshold_percent as u128) / 100;
        (est as u128) > limit
    }

    /// The summary of the old messages.
    fn summarize_messages(&self, old: &[Message]) -> (r: Vec<char>)
        ensures
            r@ == summary_text(old@, self.cfg()),
    {
        let mut user_topics: Vec<Vec<char>> = Vec::new();
        let mut assistant_actions: Vec<Vec<char>> = Vec::new();
        let mut tail: Vec<char> = Vec::new();
        let mut i: usize = 0;
        while i < old.len()
            invariant
                i <= old@.len(),
                seq_views(user_topics@) == topics(old@.subrange(0, i as int)),
                seq_views(assistant_actions@) == actions(old@.subrange(0, i as int)),
                tail@ == pieces(old@.subrange(0, i as int), self.cfg()),
            decreases old@.len() - i,
        {
            let ghost pre = old@.subrange(0, i as int);
            assert(old@.subrange(0, i + 1).drop_last() =~= pre);
            let m = &old[i];
            let content = chars_of(m.content.as_str());
            if m.role == Role::User {
                if let Some(t) = extract_topic(content.as_slice()) {
                    let ghost prev = user_topics@;
                    user_topics.push(t);
                    assert(seq_views(user_topics@) =~= seq_views(prev) + seq![t@]);
                } else {
                    assert(seq_views(user_topics@) =~= seq_views(user_topics@) + Seq::<Seq<char>>::empty());
                }
            } else {
                assert(seq_views(user_topics@) =~= seq_views(user_topics@) + Seq::<Seq<char>>::empty());
            }
            if m.role == Role::Assistant {
                let a = extract_action(content.as_slice());
                let ghost prev = assistant_actions@;
                assistant_actions.push(a);
                assert(seq_views(assistant_actions@) =~= seq_views(prev) + seq![a@]);
            } else {
                assert(seq_views(assistant_actions@) =~= seq_views(assistant_actions@) + Seq::<Seq<char>>::empty());
            }
            let important = (self.config.preserve_tool_results && m.role == Role::Tool) || (
            self.config.preserve_code_blocks && has_code_chars(content.as_slice()));
            if important {
                let piece = important_piece_chars(m);
                push_all(&mut tail, piece.as_slice());
            } else {
                assert(tail@ =~= tail@ + Seq::<char>::empty());
            }
            i += 1;
        }
        assert(old@.subrange(0, i as int) =~= old@);
        let mut out: Vec<char> = Vec::new();
        if user_topics.len() > 0 {
            push_str(&mut out, "User discussed: ");
            let j = join_chars(&user_topics, chars_of(", ").as_slice());
            push_all(&mut out, j.as_slice());
            push_str(&mut out, ".\n");
        }
        if assistant_actions.len() > 0 {
            push_str(&mut out, "Assistant: ");
            let j = join_chars(&assistant_actions, chars_of("; ").as_slice());
            push_all(&mut out, j.as_slice());
            push_str(&mut out, ".\n");
        }
        push_all(&mut out, tail.as_slice());
        assert(out@ =~= summary_text(old@, self.cfg()));
        out
    }

    /// Compresses a conversation: the first system message stays, the
    /// `preserve_recent` latest other messages stay, and the older ones are
    /// replaced by a summary.
    pub fn compress(&self, conversation: &Conversation) -> (r: CompressedConversation)
        requires
            conversation.wf(),
        ensures
            compressed_from(r, conversation.msgs(), conversation.system_count(), self.cfg()),
            forall|i: int|
                0 <= i < r.preserved_messages@.len() ==> !is_sys(#[trigger] r.preserved_messages@[i]),
    {
        let messages = conversation.messages();
        let ghost s = messages@;
        let n = conversation.system_count_exec();
        let original_count = messages.len();
        let first = if n > 0 { parse_summary_exec(messages[0].content.as_str()) } else { None };
        let first_is_summary = first.is_some();
        let prior = if n > 0 && first_is_summary {
            first
        } else if n > 1 {
            parse_summary_exec(messages[1].content.as_str())
        } else {
            None
        };
        let system_message = if n > 0 && !first_is_summary {
            Some(messages[0].duplicate())
        } else {
            None
        };
        let ghost prior_view: Option<(nat, Seq<char>)> = match &prior {
            Some((pc, pt)) => Some((pc as nat, pt@)),
            None => None,
        };
        assert(prior_view == prior_summary(s, n as nat));
        let k = self.config.preserve_recent;
        let ns_len = original_count - n;
        let ghost ns = s.subrange(n as int, s.len() as int);
        if ns_len <= k {
            let mut preserved: Vec<Message> = Vec::new();
            let mut i: usize = n;
            while i < original_count
                invariant
                    n <= i <= original_count == s.len(),
                    messages@ == s,
                    preserved@ == s.subrange(n as int, i as int),
                decreases original_count - i,
            {
                preserved.push(messages[i].duplicate());
                i += 1;
                assert(preserved@ =~= s.subrange(n as int, i as int));
            }
            let compressed_history = match prior {
                Some((pc, pt)) => Some(CompressedMessage { original_count: pc, summary: pt }),
                None => None,
            };
            return CompressedConversation {
                system_message,
                compressed_history,
                preserved_messages: preserved,
                original_message_count: original_count,
                estimated_tokens_saved: 0,
            };
        }
        let split = n + (ns_len - k);
        let mut old: Vec<Message> = Vec::new();
        let mut recent: Vec<Message> = Vec::new();
        let mut i: usize = n;
        while i < original_count
            invariant
                n <= split <= original_count == s.len(),
                n <= i <= original_count,
                messages@ == s,
                old@ == s.subrange(n as int, if i < split { i as int } else { split as int }),
                recent@ == (if i <= split { Seq::empty() } else { s.subrange(split as int, i as int) }),
            decreases original_count - i,
        {
            if i < split {
                old.push(messages[i].duplicate());
            } else {
                recent.push(messages[i].duplicate());
            }
            i += 1;
            assert(old@ =~= s.subrange(n as int, if i < split { i as int } else { split as int }));
            assert(recent@ =~= (if i <= split { Seq::empty() } else { s.subrange(split as int, i as int) }));
        }
        assert(old@ =~= ns.subrange(0, ns.len() - k));
        assert(recent@ =~= ns.subrange(ns.len() - k, ns.len() as int));
        let summary = self.summarize_messages(old.as_slice());
        let old_tokens = estimate_messages(old.as_slice());
        let summary_tokens = estimate_text_tokens(summary.as_slice());
        let saved = old_tokens.saturating_sub(summary_tokens);
        let old_count = old.len();
        let history = match prior {
            None => CompressedMessage { original_count: old_count, summary: string_of(summary.as_slice()) },
            Some((pc, pt)) => {
                let mut text = chars_of(pt.as_str());
                push_str(&mut text, "\n");
                push_all(&mut text, summary.as_slice());
                CompressedMessage { original_count: pc.saturating_add(old_count), summary: string_of(text.as_slice()) }
            },
        };
        CompressedConversation {
            system_message,
            compressed_history: Some(history),
            preserved_messages: recent,
            original_message_count: original_count,
            estimated_tokens_saved: saved,
        }
    }
}

impl Default for ContextCompressor {
    fn default() -> (r: ContextCompressor)
        ensures
            r.cfg().preserve_recent == 10,
    {
        ContextCompressor::new()
    }
}


proof fn lemma_ascii_count_le(s: Seq<char>)
    ensures
        ascii_count(s) <= s.len(),
    decreases s.len(),
{
    if s.len() > 0 {
        lemma_ascii_count_le(s.drop_last());
    }
}

/// The token estimate is zero exactly on empty input: for a text, and for a
/// sequence of messages.
pub proof fn token_estimate_zero_iff_empty(s: Seq<char>, msgs: Seq<Message>)
    ensures
        text_tokens(s) == 0 <==> s.len() == 0,
        total_tokens(msgs) == 0 <==> msgs.len() == 0,
{
    lemma_ascii_count_le(s);
    if msgs.len() > 0 {
        assert(total_tokens(msgs) >= message_tokens(msgs.last()));
    }
}

/// Projecting a compression back keeps the system message exactly where the
/// conversation had one, adds no other system message than the summary, and
/// never makes the conversation longer. A system text that itself reads as
/// a carried summary is left out, since no one can tell it from one.
pub proof fn projection_keeps_system(
    s: Seq<Message>,
    n: nat,
    c: CompressionConfig,
    cc: CompressedConversation,
    out: Seq<Message>,
)
    requires
        system_prefix(s, n),
        n == 0 || parse_summary(s[0].content@).is_none(),
        compressed_from(cc, s, n, c),
        projected(out, cc.system_message, history_of(cc), cc.preserved_messages@),
    ensures
        n > 0 ==> out.len() > 0 && out[0].role == Role::System && out[0].content@ == s[0].content@,
        n == 0 ==> forall|i: int|
            0 <= i < out.len() && is_sys(#[trigger] out[i]) ==> i == 0 && cc.compressed_history.is_some(),
        out.len() <= s.len(),
{
    let ns = s.subrange(n as int, s.len() as int);
    let p = cc.preserved_messages@;
    let h: nat = (if cc.system_message.is_some() { 1nat } else { 0nat }) + (if cc.compressed_history.is_some() { 1nat } else { 0nat });
    let keep: nat = if h + p.len() <= 100 { p.len() } else { (100 - h) as nat };
    assert forall|i: int| 0 <= i < p.len() implies !is_sys(#[trigger] p[i]) by {
        if ns.len() <= c.preserve_recent {
            assert(p[i] == s[n + i]);
        } else {
            assert(p[i] == s[n + (ns.len() - c.preserve_recent) + i]);
        }
    }
    assert forall|i: int| h <= i < out.len() implies !is_sys(#[trigger] out[i]) by {
        assert(out[i] == out.subrange(h as int, out.len() as int)[i - h]);
        assert(out[i] == p[p.len() - keep + i - h]);
    }
}

/// Compressing the projection of a compression again keeps its shape: the
/// same system text, the summary carried as one message with the same
/// count and text, and the preserved messages as they are.
pub proof fn compress_projection_again(
    s: Seq<Message>,
    n: nat,
    c: CompressionConfig,
    cc: CompressedConversation,
    out: Seq<Message>,
    n2: nat,
    cc2: CompressedConversation,
)
    requires
        system_prefix(s, n),
        n == 0 || parse_summary(s[0].content@).is_none(),
        compressed_from(cc, s, n, c),
        projected(out, cc.system_message, history_of(cc), cc.preserved_messages@),
        system_prefix(out, n2),
        compressed_from(cc2, out, n2, c),
    ensures
        history_of(cc2) == history_of(cc),
        cc2.system_message.is_some() == cc.system_message.is_some(),
        cc2.system_message matches Some(m2) ==> m2.content@ == s[0].content@,
        n2 == (if cc.system_message.is_some() { 1nat } else { 0nat }) + (if cc.compressed_history.is_some() { 1nat } else { 0nat }),
        n2 + cc.preserved_messages@.len() <= 100 ==> cc2.preserved_messages@ == cc.preserved_messages@,
{
    projection_keeps_system(s, n, c, cc, out);
    let p = cc.preserved_messages@;
    let h: nat = (if cc.system_message.is_some() { 1nat } else { 0nat }) + (if cc.compressed_history.is_some() { 1nat } else { 0nat });
    let ns = s.subrange(n as int, s.len() as int);
    assert forall|i: int| 0 <= i < p.len() implies !is_sys(#[trigger] p[i]) by {
        if ns.len() <= c.preserve_recent {
            assert(p[i] == s[n + i]);
        } else {
            assert(p[i] == s[n + (ns.len() - c.preserve_recent) + i]);
        }
    }
    assert(p.len() <= c.preserve_recent);
    let keep: nat = if h + p.len() <= 100 { p.len() } else { (100 - h) as nat };
    if h > 0 {
        assert(is_sys(out[h - 1]));
    }
    if h < out.len() {
        assert(out[h as int] == out.subrange(h as int, out.len() as int)[0]);
        assert(out[h as int] == p[p.len() - keep]);
        assert(!is_sys(out[h as int]));
    }
    assert(n2 == h);
    assert(out.subrange(h as int, out.len() as int).len() <= c.preserve_recent);
    if h + p.len() <= 100 {
        assert(p.subrange(0, p.len() as int) =~= p);
    }
    match cc.compressed_history {
        Some(hh) => {
            summary_message_round_trip(hh.original_count as nat, hh.summary@);
            assert(parse_summary(out[h - 1].content@) == history_of(cc));
        },
        None => {},
    }
    match cc.system_message {
        Some(m) => {
            assert(out[0].content@ == s[0].content@);
            assert(parse_summary(out[0].content@).is_none());
            assert(has_real_system(out, n2));
        },
        None => {},
    }
    assert(prior_summary(out, n2) == history_of(cc));
}

/// With nothing to preserve and no earlier summary, every non-system
/// message goes into the summary.
pub proof fn zero_recent_summarizes_all(s: Seq<Message>, n: nat, c: CompressionConfig, cc: CompressedConversation)
    requires
        system_prefix(s, n),
        c.preserve_recent == 0,
        s.len() > n,
        prior_summary(s, n).is_none(),
        compressed_from(cc, s, n, c),
    ensures
        cc.preserved_messages@.len() == 0,
        cc.compressed_history matches Some(h) && h.original_count == s.len() - n,
{
}

/// Where the preserved count covers every non-system message, nothing new
/// is summarised: those messages are kept as they are, and an earlier
/// summary is carried as it was.
pub proof fn enough_recent_keeps_all(s: Seq<Message>, n: nat, c: CompressionConfig, cc: CompressedConversation)
    requires
        system_prefix(s, n),
        c.preserve_recent >= s.len() - n,
        compressed_from(cc, s, n, c),
    ensures
        history_of(cc) == prior_summary(s, n),
        prior_summary(s, n).is_none() ==> cc.compressed_history.is_none(),
        cc.preserved_messages@ == s.subrange(n as int, s.len() as int),
        cc.estimated_tokens_saved == 0,
{
}

impl CompressedConversation {
    /// The conversation that this compression stands for: the system
    /// message, then a system message carrying the summary, then the
    /// preserved messages, under the default bound of 100 messages.
    pub fn to_conversation(&self) -> (r: Conversation)
        requires
            forall|i: int|
                0 <= i < self.preserved_messages@.len() ==> !is_sys(
                    #[trigger] self.preserved_messages@[i],
                ),
        ensures
            r.wf(),
            r.max() == 100,
            projected(r.msgs(), self.system_message, history_of(*self), self.preserved_messages@),
            r.system_count() == (if self.system_message.is_some() { 1nat } else { 0nat }) + (
            if self.compressed_history.is_some() {
                1nat
            } else {
                0nat
            }),
    {
        let mut conv = Conversation::new();
        if let Some(system) = &self.system_message {
            conv.set_system(system.content.as_str());
            assert(conv.msgs() =~= seq![conv.msgs()[0]]);
        }
        let ghost h0 = conv.msgs();
        if let Some(compressed) = &self.compressed_history {
            let mut text: Vec<char> = Vec::new();
            push_str(&mut text, "[Previous conversation summary (");
            let digits = decimal_chars(compressed.original_count);
            push_all(&mut text, digits.as_slice());
            push_str(&mut text, " messages)]\n");
            push_str(&mut text, compressed.summary.as_str());
            assert(text@ =~= summary_message_text(compressed.original_count as nat, compressed.summary@));
            let body = string_of(text.as_slice());
            let m = Message::system(body.as_str());
            conv.add(m);
            assert(h0.insert(h0.len() as int, m) =~= h0.push(m));
            assert(conv.msgs() =~= h0.push(m));
        }
        let ghost head = conv.msgs();
        let ghost h = head.len();
        let ghost p = self.preserved_messages@;
        assert(head + p.subrange(0, 0) =~= head);
        let mut i: usize = 0;
        while i < self.preserved_messages.len()
            invariant
                conv.wf(),
                conv.max() == 100,
                conv.system_count() == h,
                h == head.len(),
                h <= 2,
                i <= p.len(),
                p == self.preserved_messages@,
                forall|j: int| 0 <= j < p.len() ==> !is_sys(#[trigger] p[j]),
                conv.msgs() == head + p.subrange(i - keep_of(h, i as nat), i as int),
            decreases p.len() - i,
        {
            let m = self.preserved_messages[i].duplicate();
            let ghost before = conv.msgs();
            let ghost k = keep_of(h, i as nat);
            assert(!is_sys(p[i as int]));
            conv.add(m);
            let ghost t = head + p.subrange(i - k, i + 1);
            assert(before.push(m) =~= t);
            proof {
                if h + k + 1 <= 100 {
                    assert(conv.msgs() =~= head + p.subrange(i + 1 - keep_of(h, (i + 1) as nat), i + 1));
                } else {
                    assert(t.subrange(0, h as int) =~= head);
                    assert(t.subrange(t.len() - (100 - h), t.len() as int) =~= p.subrange(
                        i + 1 - keep_of(h, (i + 1) as nat),
                        i + 1,
                    ));
                }
            }
            i += 1;
        }
        proof {
            let out = conv.msgs();
            let k = keep_of(h, p.len());
            assert(out.subrange(h as int, out.len() as int) =~= p.subrange(p.len() - k, p.len() as int));
            assert(forall|j: int| 0 <= j < h ==> out[j] == head[j]);
        }
        conv
    }
}

} // verus!
