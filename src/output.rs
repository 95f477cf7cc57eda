//! Post-processing of model output: fenced code blocks with their line
//! numbers, removal of "thought" passages, and code-only views.
use vstd::prelude::*;
use crate::text::{
    chars_of, is_prefix, join, join_chars, lines, lower_of, push_all, push_str, seq_views, slice_vec,
    split_lines, starts_with, string_of, to_lower, trim, trim_chars,
};

verus! {

/// A fenced code block of a text, with the lines of its fences.
#[derive(Debug, Clone)]
pub struct CodeBlock {
    pub language: Option<String>,
    pub code: String,
    pub start_line: usize,
    pub end_line: usize,
}

/// A code block with its texts as character sequences.
pub struct CodeBlockView {
    pub language: Option<Seq<char>>,
    pub code: Seq<char>,
    pub start_line: nat,
    pub end_line: nat,
}

impl View for CodeBlock {
    type V = CodeBlockView;

    open spec fn view(&self) -> CodeBlockView {
        CodeBlockView {
            language: match self.language {
                Some(l) => Some(l@),
                None => None,
            },
            code: self.code@,
            start_line: self.start_line as nat,
            end_line: self.end_line as nat,
        }
    }
}

/// The first line at or after `k` that is a bare fence, once trimmed.
pub open spec fn closing_at(ls: Seq<Seq<char>>, k: int) -> Option<int>
    decreases ls.len() - k,
{
    if k < 0 || k >= ls.len() {
        None
    } else if trim(ls[k]) == "```"@ {
        Some(k)
    } else {
        closing_at(ls, k + 1)
    }
}

/// The language named after an opening fence, if any.
pub open spec fn fence_language(t: Seq<char>) -> Option<Seq<char>> {
    if t.len() > 3 { Some(trim(t.subrange(3, t.len() as int))) } else { None }
}

/// The closed code blocks among the lines from `i` on.
pub open spec fn code_blocks_at(ls: Seq<Seq<char>>, i: int) -> Seq<CodeBlockView>
    decreases ls.len() - i,
{
    if i < 0 || i >= ls.len() {
        Seq::empty()
    } else if is_prefix("```"@, trim(ls[i])) {
        match closing_at(ls, i + 1) {
            Some(j) => if i < j < ls.len() {
                seq![
                    CodeBlockView {
                        language: fence_language(trim(ls[i])),
                        code: join(ls.subrange(i + 1, j), "\n"@),
                        start_line: i as nat,
                        end_line: j as nat,
                    },
                ] + code_blocks_at(ls, j + 1)
            } else {
                Seq::empty()
            },
            None => Seq::empty(),
        }
    } else {
        code_blocks_at(ls, i + 1)
    }
}

pub open spec fn block_views(v: Seq<CodeBlock>) -> Seq<CodeBlockView> {
    v.map_values(|b: CodeBlock| b@)
}

proof fn lemma_closing_none(ls: Seq<Seq<char>>, k: int)
    requires
        0 <= k,
        forall|j: int| k <= j < ls.len() ==> trim(ls[j]) != "```"@,
    ensures
        closing_at(ls, k).is_none(),
    decreases ls.len() - k,
{
    if k < ls.len() {
        lemma_closing_none(ls, k + 1);
    }
}

proof fn lemma_closing_some(ls: Seq<Seq<char>>, k: int, j: int)
    requires
        0 <= k <= j < ls.len(),
        forall|q: int| k <= q < j ==> trim(ls[q]) != "```"@,
        trim(ls[j]) == "```"@,
    ensures
        closing_at(ls, k) == Some(j),
    decreases j - k,
{
    if k < j {
        lemma_closing_some(ls, k + 1, j);
    }
}

fn is_bare_fence(line: &[char]) -> (r: bool)
    ensures
        r == (trim(line@) == "```"@),
{
    let t = trim_chars(line);
    proof {
        reveal_strlit("```");
    }
    if t.len() != 3 {
        return false;
    }
    let r = t[0] == '`' && t[1] == '`' && t[2] == '`';
    proof {
        if r {
            assert(t@ =~= "```"@);
        } else {
            assert(t@ != "```"@) by {
                if t@ == "```"@ {
                    assert(t@[0] == '`' && t@[1] == '`' && t@[2] == '`');
                }
            }
        }
    }
    r
}

/// The closed fenced blocks of `content`: a line that starts with a fence
/// once trimmed opens one (its language follows the fence), a line that is
/// a bare fence closes it.
pub fn detect_code_blocks(content: &str) -> (r: Vec<CodeBlock>)
    ensures
        block_views(r@) == code_blocks_at(lines(content@), 0),
{
    let c = chars_of(content);
    let ls = split_lines(c.as_slice());
    let ghost lv = seq_views(ls@);
    let fence = chars_of("```");
    let nl = chars_of("\n");
    let mut out: Vec<CodeBlock> = Vec::new();
    let mut i: usize = 0;
    assert(block_views(out@) =~= Seq::<CodeBlockView>::empty());
    while i < ls.len()
        invariant
            i <= ls@.len(),
            lv == seq_views(ls@),
            lv == lines(content@),
            fence@ == "```"@,
            nl@ == "\n"@,
            code_blocks_at(lv, 0) == block_views(out@) + code_blocks_at(lv, i as int),
        decreases ls@.len() - i,
    {
        let t = trim_chars(ls[i].as_slice());
        assert(lv[i as int] == ls@[i as int]@);
        if starts_with(t.as_slice(), fence.as_slice()) {
            let language = if t.len() > 3 {
                let rest = slice_vec(t.as_slice(), 3, t.len());
                Some(string_of(trim_chars(rest.as_slice()).as_slice()))
            } else {
                None
            };
            assert(t@ == trim(lv[i as int]));
            let start_line = i;
            let mut code_lines: Vec<Vec<char>> = Vec::new();
            let mut j = i + 1;
            while j < ls.len() && !is_bare_fence(ls[j].as_slice())
                invariant
                    i + 1 <= j <= ls@.len(),
                    i < ls@.len(),
                    lv == seq_views(ls@),
                    (match language {
                        Some(l) => Some(l@),
                        None => None,
                    }) == fence_language(trim(lv[i as int])),
                    seq_views(code_lines@) == lv.subrange(i + 1, j as int),
                    forall|q: int| i + 1 <= q < j ==> trim(lv[q]) != "```"@,
                decreases ls@.len() - j,
            {
                assert(lv[j as int] == ls@[j as int]@);
                let ghost prev = code_lines@;
                let copy = slice_vec(ls[j].as_slice(), 0, ls[j].len());
                assert(ls@[j as int]@.subrange(0, ls@[j as int]@.len() as int) =~= ls@[j as int]@);
                assert(copy@ == lv[j as int]);
                code_lines.push(copy);
                assert(seq_views(code_lines@) =~= seq_views(prev).push(lv[j as int]));
                assert(seq_views(code_lines@) =~= lv.subrange(i + 1, j + 1));
                j += 1;
            }
            if j < ls.len() {
                proof {
                    assert(lv[j as int] == ls@[j as int]@);
                    lemma_closing_some(lv, i + 1, j as int);
                }
                let code = join_chars(&code_lines, nl.as_slice());
                let block = CodeBlock { language, code: string_of(code.as_slice()), start_line, end_line: j };
                let ghost prev = out@;
                out.push(block);
                proof {
                    assert(block@.language == fence_language(trim(lv[i as int])));
                    assert(block_views(out@) =~= block_views(prev).push(block@));
                    assert(block_views(out@) + code_blocks_at(lv, j + 1) =~= block_views(prev) + (seq![block@]
                        + code_blocks_at(lv, j + 1)));
                }
                i = j + 1;
            } else {
                proof {
                    lemma_closing_none(lv, i + 1);
                    assert(code_blocks_at(lv, i as int) =~= Seq::<CodeBlockView>::empty());
                    assert(code_blocks_at(lv, ls@.len() as int) =~= Seq::<CodeBlockView>::empty());
                }
                i = ls.len();
            }
        } else {
            i += 1;
        }
    }
    proof {
        assert(code_blocks_at(lv, i as int) =~= Seq::<CodeBlockView>::empty());
    }
    assert(block_views(out@) + Seq::<CodeBlockView>::empty() =~= block_views(out@));
    out
}

/// Whether a trimmed line starts a thought passage that runs to the next
/// blank line.
pub open spec fn thought_label(t: Seq<char>) -> bool {
    is_prefix("THOUGHT:"@, t) || is_prefix("**THOUGHT:**"@, t)
}

/// The lines kept from `ls[i..]`, inside a `<thought>` element or not, and
/// skipping to a blank line or not.
pub open spec fn kept_lines(ls: Seq<Seq<char>>, i: int, in_thought: bool, skipping: bool) -> Seq<Seq<char>>
    decreases ls.len() - i,
{
    if i < 0 || i >= ls.len() {
        Seq::empty()
    } else {
        let t = trim(ls[i]);
        if thought_label(t) {
            kept_lines(ls, i + 1, in_thought, true)
        } else if skipping {
            kept_lines(ls, i + 1, in_thought, t.len() != 0)
        } else if is_prefix("<thought>"@, lower_of(t)) {
            kept_lines(ls, i + 1, true, false)
        } else if is_prefix("</thought>"@, lower_of(t)) {
            kept_lines(ls, i + 1, false, false)
        } else if in_thought {
            kept_lines(ls, i + 1, true, false)
        } else {
            seq![ls[i]] + kept_lines(ls, i + 1, false, false)
        }
    }
}

/// Each line followed by a line feed.
pub open spec fn lines_text(ls: Seq<Seq<char>>) -> Seq<char>
    decreases ls.len(),
{
    if ls.len() == 0 { Seq::empty() } else { lines_text(ls.drop_last()) + ls.last() + "\n"@ }
}

/// A block as the code-only view shows it.
pub open spec fn fenced_text(b: CodeBlockView) -> Seq<char> {
    match b.language {
        Some(l) => "```"@ + l + "\n"@ + b.code + "\n```"@,
        None => "```\n"@ + b.code + "\n```"@,
    }
}

/// Output post-processing.
pub struct OutputPostProcessor;

impl OutputPostProcessor {
    /// The text without thought passages: a line starting with `THOUGHT:`
    /// (or its bold form) and the lines after it up to a blank line, and
    /// what stands between `<thought>` and `</thought>` lines; trimmed.
    pub fn remove_thought_blocks(content: &str) -> (r: String)
        ensures
            r@ == trim(lines_text(kept_lines(lines(content@), 0, false, false))),
    {
        let c = chars_of(content);
        let ls = split_lines(c.as_slice());
        let ghost lv = seq_views(ls@);
        let l1 = chars_of("THOUGHT:");
        let l2 = chars_of("**THOUGHT:**");
        let open_tag = chars_of("<thought>");
        let close_tag = chars_of("</thought>");
        let mut kept: Vec<Vec<char>> = Vec::new();
        let mut in_thought = false;
        let mut skipping = false;
        let mut i: usize = 0;
        assert(seq_views(kept@) =~= Seq::<Seq<char>>::empty());
        while i < ls.len()
            invariant
                i <= ls@.len(),
                lv == seq_views(ls@),
                lv == lines(content@),
                l1@ == "THOUGHT:"@,
                l2@ == "**THOUGHT:**"@,
                open_tag@ == "<thought>"@,
                close_tag@ == "</thought>"@,
                kept_lines(lv, 0, false, false) == seq_views(kept@) + kept_lines(lv, i as int, in_thought, skipping),
            decreases ls@.len() - i,
        {
            assert(lv[i as int] == ls@[i as int]@);
            let t = trim_chars(ls[i].as_slice());
            let lower = chars_of(to_lower(string_of(t.as_slice()).as_str()).as_str());
            if starts_with(t.as_slice(), l1.as_slice()) || starts_with(t.as_slice(), l2.as_slice()) {
                skipping = true;
            } else if skipping {
                skipping = t.len() != 0;
            } else if starts_with(lower.as_slice(), open_tag.as_slice()) {
                in_thought = true;
            } else if starts_with(lower.as_slice(), close_tag.as_slice()) {
                in_thought = false;
            } else if !in_thought {
                let ghost prev = kept@;
                kept.push(slice_vec(ls[i].as_slice(), 0, ls[i].len()));
                assert(ls@[i as int]@.subrange(0, ls@[i as int]@.len() as int) =~= ls@[i as int]@);
                assert(seq_views(kept@) =~= seq_views(prev).push(lv[i as int]));
                assert(seq_views(kept@) + kept_lines(lv, i + 1, false, false) =~= seq_views(prev) + (seq![lv[i as int]]
                    + kept_lines(lv, i + 1, false, false)));
            }
            i += 1;
        }
        let mut text: Vec<char> = Vec::new();
        let mut k: usize = 0;
        let ghost kv = seq_views(kept@);
        assert(kept_lines(lv, i as int, in_thought, skipping) =~= Seq::<Seq<char>>::empty());
        assert(kv + Seq::<Seq<char>>::empty() =~= kv);
        while k < kept.len()
            invariant
                k <= kept@.len(),
                kv == seq_views(kept@),
                text@ == lines_text(kv.subrange(0, k as int)),
            decreases kept@.len() - k,
        {
            assert(kv.subrange(0, k + 1).drop_last() =~= kv.subrange(0, k as int));
            assert(kv[k as int] == kept@[k as int]@);
            push_all(&mut text, kept[k].as_slice());
            push_str(&mut text, "\n");
            k += 1;
        }
        assert(kv.subrange(0, k as int) =~= kv);
        string_of(trim_chars(text.as_slice()).as_slice())
    }

    /// The fenced blocks alone, each with its fence and language, separated
    /// by blank lines; the text itself where it has none.
    pub fn extract_code_only(content: &str) -> (r: String)
        ensures
            code_blocks_at(lines(content@), 0).len() == 0 ==> r@ == content@,
            code_blocks_at(lines(content@), 0).len() > 0 ==> r@ == join(
                code_blocks_at(lines(content@), 0).map_values(|b: CodeBlockView| fenced_text(b)),
                "\n\n"@,
            ),
    {
        let blocks = detect_code_blocks(content);
        if blocks.len() == 0 {
            return String::from_str(content);
        }
        let ghost bv = block_views(blocks@);
        let mut parts: Vec<Vec<char>> = Vec::new();
        let mut i: usize = 0;
        while i < blocks.len()
            invariant
                i <= blocks@.len(),
                bv == block_views(blocks@),
                seq_views(parts@) == bv.subrange(0, i as int).map_values(|b: CodeBlockView| fenced_text(b)),
            decreases blocks@.len() - i,
        {
            let b = &blocks[i];
            let mut v: Vec<char> = Vec::new();
            match &b.language {
                Some(l) => {
                    push_str(&mut v, "```");
                    push_str(&mut v, l.as_str());
                    push_str(&mut v, "\n");
                },
                None => push_str(&mut v, "```\n"),
            }
            push_str(&mut v, b.code.as_str());
            push_str(&mut v, "\n```");
            assert(bv[i as int] == b@);
            assert(v@ =~= fenced_text(b@));
            let ghost prev = parts@;
            let ghost vv = v@;
            parts.push(v);
            assert(seq_views(parts@) =~= seq_views(prev).push(vv));
            assert(seq_views(parts@) =~= bv.subrange(0, i + 1).map_values(|b: CodeBlockView| fenced_text(b)));
            i += 1;
        }
        assert(bv.subrange(0, i as int) =~= bv);
        let joined = join_chars(&parts, chars_of("\n\n").as_slice());
        string_of(joined.as_slice())
    }

    /// The text without thought passages, and where asked, its code alone.
    pub fn process(content: &str, code_only: bool) -> (r: String)
        ensures
            !code_only ==> r@ == trim(lines_text(kept_lines(lines(content@), 0, false, false))),
    {
        let cleaned = Self::remove_thought_blocks(content);
        if code_only {
            Self::extract_code_only(cleaned.as_str())
        } else {
            cleaned
        }
    }
}

} // verus!
