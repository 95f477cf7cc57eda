//! Checking generated code: finding fenced blocks, naming their language,
//! choosing the check to run, and asking for a fix when it fails.
use vstd::prelude::*;
use crate::text::{chars_of, contains, contains_seq, is_prefix, join, join_chars, lines, lower_of, push_str, seq_views, slice_vec, split_lines, starts_with, str_eq, string_of, to_lower, trim, trim_chars};

verus! {

/// Outcome of checking one piece of code.
#[derive(Debug, Clone)]
pub struct VerificationResult {
    pub success: bool,
    pub output: String,
    pub error: String,
    pub language: String,
    pub code: String,
}

/// How a piece of code in a language is checked: a program, its arguments
/// before the file holding the code, and the suffix of that file.
#[derive(Debug, Clone)]
pub struct CheckCommand {
    pub program: String,
    pub args: Vec<String>,
    pub suffix: String,
}

/// Checks generated code, with a bounded number of fix attempts.
pub struct CodeVerifier {
    max_attempts: usize,
}

/// The first five lines of `code`, joined by line feeds.
pub open spec fn head_lines(code: Seq<char>) -> Seq<char> {
    let ls = lines(code);
    join(if ls.len() > 5 { ls.subrange(0, 5) } else { ls }, "\n"@)
}

/// The language that the text of `code` suggests, if any.
pub open spec fn inferred_language(code: Seq<char>) -> Option<Seq<char>> {
    let h = head_lines(code);
    if contains_seq(h, "def "@) || contains_seq(h, "import "@) || contains_seq(h, "print("@) {
        Some("python"@)
    } else if contains_seq(h, "fn "@) || contains_seq(h, "let "@) || contains_seq(h, "use "@) {
        Some("rust"@)
    } else if contains_seq(h, "function "@) || contains_seq(h, "const "@) || contains_seq(h, "=>"@) {
        Some("javascript"@)
    } else if is_prefix("#!/bin/bash"@, h) || is_prefix("#!/bin/sh"@, h) {
        Some("bash"@)
    } else {
        None
    }
}

/// The canonical name of a language tag, matched in any letter case; other
/// tags stay as they are.
pub open spec fn normalized_language(lang: Seq<char>) -> Seq<char> {
    language_of_lowered(lower_of(lang), lang)
}

/// The canonical name for the lower-case tag `l` of `lang`; `lang` itself
/// where `l` names no known language.
pub open spec fn language_of_lowered(l: Seq<char>, lang: Seq<char>) -> Seq<char> {
    if l == "python"@ || l == "py"@ || l == "python3"@ {
        "python"@
    } else if l == "rust"@ || l == "rs"@ {
        "rust"@
    } else if l == "javascript"@ || l == "js"@ || l == "node"@ {
        "javascript"@
    } else if l == "typescript"@ || l == "ts"@ {
        "typescript"@
    } else if l == "bash"@ || l == "sh"@ || l == "shell"@ {
        "bash"@
    } else {
        lang
    }
}

/// The language of a finished block: its tag, or else what its code suggests.
pub open spec fn block_language(tag: Seq<char>, code: Seq<char>) -> Seq<char> {
    if tag.len() > 0 {
        tag
    } else {
        match inferred_language(code) {
            Some(l) => l,
            None => Seq::empty(),
        }
    }
}

/// The fenced blocks among `ls`, as `(language, code)`, where the scan is
/// inside a block opened with `tag` and holding `cur` when `open`.
pub open spec fn blocks_from(
    ls: Seq<Seq<char>>,
    open: bool,
    tag: Seq<char>,
    cur: Seq<Seq<char>>,
) -> Seq<(Seq<char>, Seq<char>)>
    decreases ls.len(),
{
    if ls.len() == 0 {
        Seq::empty()
    } else {
        let t = trim(ls[0]);
        if is_prefix("```"@, t) {
            if open {
                let code = join(cur, "\n"@);
                seq![(block_language(tag, code), code)] + blocks_from(
                    ls.drop_first(),
                    false,
                    tag,
                    Seq::empty(),
                )
            } else {
                blocks_from(ls.drop_first(), true, trim(t.subrange(3, t.len() as int)), cur)
            }
        } else if open {
            blocks_from(ls.drop_first(), true, tag, cur.push(ls[0]))
        } else {
            blocks_from(ls.drop_first(), false, tag, cur)
        }
    }
}

/// The fenced blocks of `content`, as `(language, code)`.
pub open spec fn code_blocks(content: Seq<char>) -> Seq<(Seq<char>, Seq<char>)> {
    blocks_from(lines(content), false, Seq::empty(), Seq::empty())
}

pub open spec fn pair_views(v: Seq<(String, String)>) -> Seq<(Seq<char>, Seq<char>)> {
    v.map_values(|p: (String, String)| (p.0@, p.1@))
}

/// The text of the prompt that asks for a fix of a failed check.
pub open spec fn fix_prompt(language: Seq<char>, code: Seq<char>, error: Seq<char>) -> Seq<char> {
    "The following "@ + language + " code has an error. Please fix it.\n\n**Original Code:**\n```"@
        + language + "\n"@ + code + "\n```\n\n**Error:**\n```\n"@ + error
        + "\n```\n\nPlease provide the corrected code. Only output the fixed code block, no explanation."@
}

fn inferred_language_chars(code: &[char]) -> (r: Option<String>)
    ensures
        match r {
            Some(s) => inferred_language(code@) == Some(s@),
            None => inferred_language(code@).is_none(),
        },
{
    let ls = split_lines(code);
    let mut head: Vec<Vec<char>> = Vec::new();
    let mut i: usize = 0;
    let bound: usize = if ls.len() > 5 { 5 } else { ls.len() };
    while i < bound
        invariant
            i <= bound <= ls@.len(),
            bound == (if ls@.len() > 5 { 5 } else { ls@.len() }),
            seq_views(head@) == seq_views(ls@).subrange(0, i as int),
        decreases bound - i,
    {
        let ghost prev = head@;
        head.push(slice_vec(ls[i].as_slice(), 0, ls[i].len()));
        proof {
            assert(ls@[i as int]@.subrange(0, ls@[i as int]@.len() as int) =~= ls@[i as int]@);
            assert(seq_views(head@) =~= seq_views(prev).push(ls@[i as int]@));
            assert(seq_views(head@) =~= seq_views(ls@).subrange(0, i + 1));
        }
        i += 1;
    }
    proof {
        if ls@.len() <= 5 {
            assert(seq_views(ls@).subrange(0, i as int) =~= seq_views(ls@));
        }
    }
    let nl = chars_of("\n");
    let h = join_chars(&head, nl.as_slice());
    let hs = h.as_slice();
    if contains(hs, chars_of("def ").as_slice()) || contains(hs, chars_of("import ").as_slice())
        || contains(hs, chars_of("print(").as_slice()) {
        Some(String::from_str("python"))
    } else if contains(hs, chars_of("fn ").as_slice()) || contains(hs, chars_of("let ").as_slice())
        || contains(hs, chars_of("use ").as_slice()) {
        Some(String::from_str("rust"))
    } else if contains(hs, chars_of("function ").as_slice()) || contains(
        hs,
        chars_of("const ").as_slice(),
    ) || contains(hs, chars_of("=>").as_slice()) {
        Some(String::from_str("javascript"))
    } else if starts_with(hs, chars_of("#!/bin/bash").as_slice()) || starts_with(
        hs,
        chars_of("#!/bin/sh").as_slice(),
    ) {
        Some(String::from_str("bash"))
    } else {
        None
    }
}

impl CodeVerifier {
    pub closed spec fn attempts(&self) -> nat {
        self.max_attempts as nat
    }

    /// A verifier that allows three fix attempts.
    pub fn new() -> (r: CodeVerifier)
        ensures
            r.attempts() == 3,
    {
        CodeVerifier { max_attempts: 3 }
    }

    /// How many fix attempts a failed check gets.
    pub fn max_attempts(&self) -> (r: usize)
        ensures
            r == self.attempts(),
    {
        self.max_attempts
    }

    /// The fenced blocks of `content` with their language: the block's tag,
    /// or else the language that its first lines suggest, or else empty.
    pub fn extract_code_blocks(content: &str) -> (r: Vec<(String, String)>)
        ensures
            pair_views(r@) == code_blocks(content@),
    {
        let text = chars_of(content);
        let ls = split_lines(text.as_slice());
        let fence = chars_of("```");
        let nl = chars_of("\n");
        let mut out: Vec<(String, String)> = Vec::new();
        let mut open = false;
        let mut tag: Vec<char> = Vec::new();
        let mut cur: Vec<Vec<char>> = Vec::new();
        let mut i: usize = 0;
        assert(seq_views(ls@).subrange(0, ls@.len() as int) =~= seq_views(ls@));
        assert(pair_views(out@) =~= Seq::<(Seq<char>, Seq<char>)>::empty());
        assert(seq_views(cur@) =~= Seq::<Seq<char>>::empty());
        while i < ls.len()
            invariant
                i <= ls@.len(),
                fence@ == "```"@,
                nl@ == "\n"@,
                code_blocks(content@) == pair_views(out@) + blocks_from(
                    seq_views(ls@).subrange(i as int, ls@.len() as int),
                    open,
                    tag@,
                    seq_views(cur@),
                ),
                seq_views(ls@) == lines(content@),
            decreases ls@.len() - i,
        {
            let ghost rest = seq_views(ls@).subrange(i as int, ls@.len() as int);
            assert(rest.drop_first() =~= seq_views(ls@).subrange(i + 1, ls@.len() as int));
            assert(rest[0] == ls@[i as int]@);
            let line = ls[i].as_slice();
            let t = trim_chars(line);
            if starts_with(t.as_slice(), fence.as_slice()) {
                if open {
                    let code = join_chars(&cur, nl.as_slice());
                    let lang = if tag.len() > 0 {
                        string_of(tag.as_slice())
                    } else {
                        match inferred_language_chars(code.as_slice()) {
                            Some(l) => l,
                            None => String::new(),
                        }
                    };
                    let ghost prev = out@;
                    let item = (lang, string_of(code.as_slice()));
                    out.push(item);
                    assert(pair_views(out@) =~= pair_views(prev).push((item.0@, item.1@)));
                    cur = Vec::new();
                    assert(seq_views(cur@) =~= Seq::<Seq<char>>::empty());
                    open = false;
                } else {
                    proof {
                        reveal_strlit("```");
                    }
                    let rest_t = slice_vec(t.as_slice(), 3, t.len());
                    tag = trim_chars(rest_t.as_slice());
                    open = true;
                }
            } else if open {
                let ghost prev = cur@;
                cur.push(slice_vec(line, 0, line.len()));
                assert(line@.subrange(0, line@.len() as int) =~= line@);
                assert(seq_views(cur@) =~= seq_views(prev).push(ls@[i as int]@));
            }
            i += 1;
        }
        assert(seq_views(ls@).subrange(i as int, ls@.len() as int) =~= Seq::<Seq<char>>::empty());
        assert(pair_views(out@) + Seq::<(Seq<char>, Seq<char>)>::empty() =~= pair_views(out@));
        out
    }

    /// The language that the first five lines of `code` suggest: python,
    /// rust, javascript or bash, tried in that order.
    pub fn infer_language(code: &str) -> (r: Option<String>)
        ensures
            match r {
                Some(s) => inferred_language(code@) == Some(s@),
                None => inferred_language(code@).is_none(),
            },
    {
        let c = chars_of(code);
        inferred_language_chars(c.as_slice())
    }

    /// The canonical name of a language tag.
    pub fn normalize_language(lang: &str) -> (r: String)
        ensures
            r@ == normalized_language(lang@),
    {
        let l = to_lower(lang);
        Self::normalize_lowered(l.as_str(), lang)
    }

    /// The canonical name for the lower-case form `l` of the tag `lang`.
    pub fn normalize_lowered(l: &str, lang: &str) -> (r: String)
        ensures
            r@ == language_of_lowered(l@, lang@),
    {
        if str_eq(l, "python") || str_eq(l, "py") || str_eq(l, "python3") {
            String::from_str("python")
        } else if str_eq(l, "rust") || str_eq(l, "rs") {
            String::from_str("rust")
        } else if str_eq(l, "javascript") || str_eq(l, "js") || str_eq(l, "node") {
            String::from_str("javascript")
        } else if str_eq(l, "typescript") || str_eq(l, "ts") {
            String::from_str("typescript")
        } else if str_eq(l, "bash") || str_eq(l, "sh") || str_eq(l, "shell") {
            String::from_str("bash")
        } else {
            String::from_str(lang)
        }
    }

    /// The check for a language tag: `python3 FILE`, `rustc --emit=metadata
    /// -o /dev/null FILE`, `node --check FILE` or `bash -n FILE`; none for
    /// other languages, whose code passes unchecked.
    pub fn check_command(language: &str) -> (r: Option<CheckCommand>)
        ensures
            r.is_some() <==> (normalized_language(language@) == "python"@ || normalized_language(
                language@,
            ) == "rust"@ || normalized_language(language@) == "javascript"@
                || normalized_language(language@) == "bash"@),
            r matches Some(c) ==> c.program@ == (if normalized_language(language@) == "python"@ {
                "python3"@
            } else if normalized_language(language@) == "rust"@ {
                "rustc"@
            } else if normalized_language(language@) == "javascript"@ {
                "node"@
            } else {
                "bash"@
            }),
            r matches Some(c) ==> crate::cli::string_views(c.args@) == (if normalized_language(language@) == "python"@ {
                Seq::<Seq<char>>::empty()
            } else if normalized_language(language@) == "rust"@ {
                seq!["--emit=metadata"@, "-o"@, "/dev/null"@]
            } else if normalized_language(language@) == "javascript"@ {
                seq!["--check"@]
            } else {
                seq!["-n"@]
            }),
            r matches Some(c) ==> c.suffix@ == (if normalized_language(language@) == "python"@ {
                ".py"@
            } else if normalized_language(language@) == "rust"@ {
                ".rs"@
            } else if normalized_language(language@) == "javascript"@ {
                ".js"@
            } else {
                ".sh"@
            }),
    {
        let lang = Self::normalize_language(language);
        let l = lang.as_str();
        if str_eq(l, "python") {
            Some(CheckCommand { program: String::from_str("python3"), args: Vec::new(), suffix: String::from_str(".py") })
        } else if str_eq(l, "rust") {
            Some(CheckCommand {
                program: String::from_str("rustc"),
                args: vec![String::from_str("--emit=metadata"), String::from_str("-o"), String::from_str("/dev/null")],
                suffix: String::from_str(".rs"),
            })
        } else if str_eq(l, "javascript") {
            Some(CheckCommand { program: String::from_str("node"), args: vec![String::from_str("--check")], suffix: String::from_str(".js") })
        } else if str_eq(l, "bash") {
            Some(CheckCommand { program: String::from_str("bash"), args: vec![String::from_str("-n")], suffix: String::from_str(".sh") })
        } else {
            None
        }
    }

    /// The result for code in a language that has no check: a success that
    /// says so.
    pub fn unsupported(language: &str, code: &str) -> (r: VerificationResult)
        ensures
            r.success,
            r.output@ == "Verification not supported for language: "@ + language@,
            r.error@.len() == 0,
            r.language@ == language@,
            r.code@ == code@,
    {
        let mut out: Vec<char> = Vec::new();
        push_str(&mut out, "Verification not supported for language: ");
        push_str(&mut out, language);
        VerificationResult {
            success: true,
            output: string_of(out.as_slice()),
            error: String::new(),
            language: String::from_str(language),
            code: String::from_str(code),
        }
    }

    /// The prompt that shows the failed code and its error and asks for a
    /// corrected block.
    pub fn create_fix_prompt(&self, result: &VerificationResult) -> (r: String)
        ensures
            r@ == fix_prompt(result.language@, result.code@, result.error@),
    {
        let mut out: Vec<char> = Vec::new();
        push_str(&mut out, "The following ");
        push_str(&mut out, result.language.as_str());
        push_str(&mut out, " code has an error. Please fix it.\n\n**Original Code:**\n```");
        push_str(&mut out, result.language.as_str());
        push_str(&mut out, "\n");
        push_str(&mut out, result.code.as_str());
        push_str(&mut out, "\n```\n\n**Error:**\n```\n");
        push_str(&mut out, result.error.as_str());
        push_str(
            &mut out,
            "\n```\n\nPlease provide the corrected code. Only output the fixed code block, no explanation.",
        );
        assert(out@ =~= fix_prompt(result.language@, result.code@, result.error@));
        string_of(out.as_slice())
    }
}

impl Default for CodeVerifier {
    fn default() -> (r: CodeVerifier)
        ensures
            r.attempts() == 3,
    {
        CodeVerifier::new()
    }
}

/// What the fix loop does after a check.
#[derive(Debug, Clone, PartialEq, Eq)]
pub enum FixStep {
    /// The code passed.
    Done,
    /// Ask the model for a fix with this prompt.
    AskFix(String),
    /// The attempts are used up.
    GiveUp,
}

/// The state of fixing one piece of code: attempts made so far.
pub struct FixLoop {
    attempts: usize,
    max_attempts: usize,
}

impl FixLoop {
    pub closed spec fn made(&self) -> nat {
        self.attempts as nat
    }

    pub closed spec fn limit(&self) -> nat {
        self.max_attempts as nat
    }

    /// A loop that may ask for as many fixes as the verifier allows.
    pub fn new(verifier: &CodeVerifier) -> (r: FixLoop)
        ensures
            r.made() == 0,
            r.limit() == verifier.attempts(),
    {
        FixLoop { attempts: 0, max_attempts: verifier.max_attempts }
    }

    /// The step after a check: done on success; a fix request while
    /// attempts are left, counting one; giving up otherwise.
    pub fn after_check(&mut self, verifier: &CodeVerifier, result: &VerificationResult) -> (r: FixStep)
        ensures
            final(self).limit() == old(self).limit(),
            result.success ==> r == FixStep::Done && final(self).made() == old(self).made(),
            !result.success && old(self).made() < old(self).limit() ==> (r matches FixStep::AskFix(p)
                && p@ == fix_prompt(result.language@, result.code@, result.error@)) && final(self).made()
                == old(self).made() + 1,
            !result.success && old(self).made() >= old(self).limit() ==> r == FixStep::GiveUp
                && final(self).made() == old(self).made(),
    {
        if result.success {
            FixStep::Done
        } else if self.attempts < self.max_attempts {
            self.attempts = self.attempts + 1;
            FixStep::AskFix(verifier.create_fix_prompt(result))
        } else {
            FixStep::GiveUp
        }
    }
}

/// The code that a fix reply offers: its first block, or else the whole
/// reply trimmed.
pub open spec fn fix_candidate_of(reply: Seq<char>) -> Seq<char> {
    let b = code_blocks(reply);
    if b.len() > 0 { b[0].1 } else { trim(reply) }
}

/// The code that a fix reply offers.
pub fn fix_candidate(reply: &str) -> (r: String)
    ensures
        r@ == fix_candidate_of(reply@),
{
    let blocks = CodeVerifier::extract_code_blocks(reply);
    if blocks.len() > 0 {
        assert(pair_views(blocks@)[0] == (blocks@[0].0@, blocks@[0].1@));
        blocks[0].1.clone()
    } else {
        string_of(trim_chars(chars_of(reply).as_slice()).as_slice())
    }
}

/// A fenced block with a language tag.
pub open spec fn fenced_block(lang: Seq<char>, code: Seq<char>) -> Seq<char> {
    "```"@ + lang + "\n"@ + code + "\n```"@
}

/// `content` with the block holding `old` (tagged with `lang`, or else
/// untagged) replaced by a block tagged `lang` holding `new`; unchanged
/// where there is no such block.
pub open spec fn replaced_block(content: Seq<char>, old: Seq<char>, new: Seq<char>, lang: Seq<char>) -> Seq<char> {
    let tagged = fenced_block(lang, old);
    let bare = "```\n"@ + old + "\n```"@;
    let fresh = fenced_block(lang, new);
    if contains_seq(content, tagged) {
        crate::tools::replace_all(content, tagged, fresh)
    } else if contains_seq(content, bare) {
        crate::tools::replace_all(content, bare, fresh)
    } else {
        content
    }
}

/// Puts a fixed block in place of the failing one in a reply.
pub fn replace_code_block(content: &str, old: &str, new: &str, lang: &str) -> (r: String)
    ensures
        r@ == replaced_block(content@, old@, new@, lang@),
{
    let c = chars_of(content);
    let mut tagged = chars_of("```");
    push_str(&mut tagged, lang);
    push_str(&mut tagged, "\n");
    push_str(&mut tagged, old);
    push_str(&mut tagged, "\n```");
    let mut bare = chars_of("```\n");
    push_str(&mut bare, old);
    push_str(&mut bare, "\n```");
    let mut fresh = chars_of("```");
    push_str(&mut fresh, lang);
    push_str(&mut fresh, "\n");
    push_str(&mut fresh, new);
    push_str(&mut fresh, "\n```");
    proof {
        reveal_strlit("```");
        reveal_strlit("```\n");
        assert(tagged@ =~= fenced_block(lang@, old@));
        assert(bare@ =~= "```\n"@ + old@ + "\n```"@);
        assert(fresh@ =~= fenced_block(lang@, new@));
    }
    if contains(c.as_slice(), tagged.as_slice()) {
        let (out, _) = crate::tools::scan_replace(c.as_slice(), tagged.as_slice(), fresh.as_slice(), true);
        string_of(out.as_slice())
    } else if contains(c.as_slice(), bare.as_slice()) {
        let (out, _) = crate::tools::scan_replace(c.as_slice(), bare.as_slice(), fresh.as_slice(), true);
        string_of(out.as_slice())
    } else {
        String::from_str(content)
    }
}

} // verus!
