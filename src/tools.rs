//! Results of tool runs, the tools' settings, and the text work of the file
//! tools: numbering the lines read and replacing text in an edit.
use vstd::prelude::*;
use crate::text::{chars_of, decimal, decimal_chars, join, join_chars, lines, push_all, push_str, seq_views, split_lines, starts_with_at, string_of};

verus! {

/// Outcome of one tool run. A success carries no error.
#[derive(Debug, Clone)]
pub struct ToolResult {
    pub success: bool,
    pub output: String,
    pub error: Option<String>,
}

impl ToolResult {
    pub open spec fn wf(&self) -> bool {
        self.success ==> self.error.is_none()
    }

    pub fn success(output: &str) -> (r: ToolResult)
        ensures
            r.wf(),
            r.success,
            r.output@ == output@,
            r.error.is_none(),
    {
        ToolResult { success: true, output: String::from_str(output), error: None }
    }

    pub fn failure(error: &str) -> (r: ToolResult)
        ensures
            r.wf(),
            !r.success,
            r.output@.len() == 0,
            r.error matches Some(e) && e@ == error@,
    {
        ToolResult { success: false, output: String::new(), error: Some(String::from_str(error)) }
    }

    /// The text that a conversation records for this result: the output of
    /// a success, the error of a failure.
    pub fn message_text(&self) -> (r: String)
        ensures
            r@ == (if self.success { self.output@ } else {
                match self.error {
                    Some(e) => e@,
                    None => self.output@,
                }
            }),
    {
        if self.success {
            self.output.clone()
        } else {
            match &self.error {
                Some(e) => e.clone(),
                None => self.output.clone(),
            }
        }
    }
}

/// Number of non-overlapping occurrences of `p` in `s`, scanning from the left.
pub open spec fn count_matches(s: Seq<char>, p: Seq<char>) -> nat
    decreases s.len(),
{
    if p.len() == 0 || s.len() < p.len() {
        0
    } else if s.subrange(0, p.len() as int) == p {
        1 + count_matches(s.subrange(p.len() as int, s.len() as int), p)
    } else {
        count_matches(s.drop_first(), p)
    }
}

/// `s` with every non-overlapping occurrence of `p` replaced by `r`.
pub open spec fn replace_all(s: Seq<char>, p: Seq<char>, r: Seq<char>) -> Seq<char>
    decreases s.len(),
{
    if p.len() == 0 || s.len() < p.len() {
        s
    } else if s.subrange(0, p.len() as int) == p {
        r + replace_all(s.subrange(p.len() as int, s.len() as int), p, r)
    } else {
        seq![s[0]] + replace_all(s.drop_first(), p, r)
    }
}

/// `s` with the first occurrence of `p` replaced by `r`.
pub open spec fn replace_first(s: Seq<char>, p: Seq<char>, r: Seq<char>) -> Seq<char>
    decreases s.len(),
{
    if p.len() == 0 || s.len() < p.len() {
        s
    } else if s.subrange(0, p.len() as int) == p {
        r + s.subrange(p.len() as int, s.len() as int)
    } else {
        seq![s[0]] + replace_first(s.drop_first(), p, r)
    }
}

/// Why an edit was refused.
#[derive(Debug, Clone, Copy, PartialEq, Eq, Structural)]
pub enum EditError {
    /// The text to replace is empty.
    EmptyPattern,
    NotFound,
    /// The text occurs this many times and `replace_all` was not asked.
    Ambiguous { count: usize },
}

/// The outcome of an edit of a text, as `(new text, replacements)`.
pub open spec fn edit_spec(s: Seq<char>, p: Seq<char>, r: Seq<char>, all: bool) -> Result<(Seq<char>, nat), EditError> {
    let n = count_matches(s, p);
    if p.len() == 0 {
        Err(EditError::EmptyPattern)
    } else if n == 0 {
        Err(EditError::NotFound)
    } else if n > 1 && !all {
        Err(EditError::Ambiguous { count: n as usize })
    } else if all {
        Ok((replace_all(s, p, r), n))
    } else {
        Ok((replace_first(s, p, r), 1))
    }
}

proof fn lemma_count_le(s: Seq<char>, p: Seq<char>)
    ensures
        count_matches(s, p) <= s.len(),
    decreases s.len(),
{
    if p.len() > 0 && s.len() >= p.len() {
        if s.subrange(0, p.len() as int) == p {
            lemma_count_le(s.subrange(p.len() as int, s.len() as int), p);
        } else {
            lemma_count_le(s.drop_first(), p);
        }
    }
}

/// Counts the occurrences of `p` in `s` and replaces them: all of them, or
/// the first.
pub(crate) fn scan_replace(s: &[char], p: &[char], r: &[char], all: bool) -> (res: (Vec<char>, usize))
    requires
        p@.len() > 0,
    ensures
        res.1 == count_matches(s@, p@),
        res.0@ == (if all { replace_all(s@, p@, r@) } else { replace_first(s@, p@, r@) }),
{
    let n = s.len();
    let mut out: Vec<char> = Vec::new();
    let mut count: usize = 0;
    let mut i: usize = 0;
    let mut replaced = false;
    assert(s@.subrange(0, n as int) =~= s@);
    proof {
        lemma_count_le(s@, p@);
    }
    while i < n
        invariant
            i <= n == s@.len(),
            p@.len() > 0,
            count_matches(s@, p@) == count + count_matches(s@.subrange(i as int, n as int), p@),
            count_matches(s@, p@) <= n,
            all ==> replace_all(s@, p@, r@) == out@ + replace_all(s@.subrange(i as int, n as int), p@, r@),
            !all && !replaced ==> replace_first(s@, p@, r@) == out@ + replace_first(s@.subrange(i as int, n as int), p@, r@),
            !all && replaced ==> replace_first(s@, p@, r@) == out@ + s@.subrange(i as int, n as int),
        decreases n - i,
    {
        let ghost t = s@.subrange(i as int, n as int);
        let m = starts_with_at(s, i, p);
        if m {
            proof {
                assert(t.subrange(p@.len() as int, t.len() as int) =~= s@.subrange(i + p@.len(), n as int));
                lemma_count_le(s@.subrange(i + p@.len(), n as int), p@);
            }
            count += 1;
            if all || !replaced {
                push_all(&mut out, r);
                replaced = true;
            } else {
                push_all(&mut out, p);
                assert(t =~= p@ + s@.subrange(i + p@.len(), n as int));
            }
            i += p.len();
        } else {
            proof {
                assert(t.drop_first() =~= s@.subrange(i + 1, n as int));
                if t.len() >= p@.len() {
                    assert(t.subrange(0, p@.len() as int) != p@);
                }
                assert(t =~= seq![s@[i as int]] + s@.subrange(i + 1, n as int));
            }
            out.push(s[i]);
            i += 1;
        }
    }
    assert(s@.subrange(i as int, n as int) =~= Seq::<char>::empty());
    assert(out@ + Seq::<char>::empty() =~= out@);
    (out, count)
}

/// `d` right-aligned in six columns.
pub open spec fn pad6(d: Seq<char>) -> Seq<char> {
    if d.len() < 6 {
        Seq::new((6 - d.len()) as nat, |i: int| ' ') + d
    } else {
        d
    }
}

/// Line number `n` and the line, as the read tool shows them.
pub open spec fn numbered_line(n: nat, line: Seq<char>) -> Seq<char> {
    pad6(decimal(n)) + "\t"@ + line
}

/// The numbered lines `ls[from..to]`, the first numbered `from + 1`.
pub open spec fn numbered(ls: Seq<Seq<char>>, from: nat, to: nat) -> Seq<Seq<char>> {
    Seq::new((to - from) as nat, |i: int| numbered_line((from + i + 1) as nat, ls[from + i]))
}

pub open spec fn min_nat(a: nat, b: nat) -> nat {
    if a <= b { a } else { b }
}

/// What the read tool shows of a file: a header with the path and the
/// number of lines, then the selected lines, numbered.
pub open spec fn read_output(path: Seq<char>, content: Seq<char>, offset: nat, limit: Option<nat>) -> Seq<char> {
    let ls = lines(content);
    let from = min_nat(offset, ls.len());
    let to = match limit {
        Some(l) => min_nat(offset + l, ls.len()),
        None => ls.len(),
    };
    "File: "@ + path + " ("@ + decimal(ls.len()) + " lines)\n"@ + join(numbered(ls, from, if to >= from { to } else { from }), "\n"@)
}

fn pad6_chars(d: &Vec<char>) -> (r: Vec<char>)
    ensures
        r@ == pad6(d@),
{
    let mut r: Vec<char> = Vec::new();
    if d.len() < 6 {
        let k: usize = 6 - d.len();
        let mut i: usize = 0;
        while i < k
            invariant
                i <= k,
                r@ == Seq::new(i as nat, |j: int| ' '),
            decreases k - i,
        {
            r.push(' ');
            i += 1;
            assert(r@ =~= Seq::new(i as nat, |j: int| ' '));
        }
    }
    push_all(&mut r, d.as_slice());
    assert(r@ =~= pad6(d@));
    r
}

/// The read tool.
pub struct ReadTool;

impl ReadTool {
    pub fn new() -> (r: ReadTool) {
        ReadTool
    }

    /// What the tool shows of the file at `path` holding `content`: from
    /// line `offset` (from 0), at most `limit` lines.
    pub fn render(path: &str, content: &str, offset: usize, limit: Option<usize>) -> (r: String)
        ensures
            r@ == read_output(path@, content@, offset as nat, match limit {
                Some(l) => Some(l as nat),
                None => None,
            }),
    {
        let c = chars_of(content);
        let ls = split_lines(c.as_slice());
        let total = ls.len();
        let from: usize = if offset <= total { offset } else { total };
        let to0: usize = match limit {
            Some(l) => if l <= total - from && offset <= total { offset + l } else { total },
            None => total,
        };
        let to: usize = if to0 >= from { to0 } else { from };
        let ghost lsv = seq_views(ls@);
        let ghost spec_to: nat = match limit {
            Some(l) => min_nat((offset + l) as nat, lsv.len()),
            None => lsv.len(),
        };
        assert(from == min_nat(offset as nat, lsv.len()));
        assert(to == (if spec_to >= from { spec_to } else { from as nat }));
        let mut parts: Vec<Vec<char>> = Vec::new();
        let mut i: usize = from;
        while i < to
            invariant
                from <= i <= to <= total == ls@.len(),
                lsv == seq_views(ls@),
                seq_views(parts@) == numbered(lsv, from as nat, i as nat),
            decreases to - i,
        {
            let mut line = pad6_chars(&decimal_chars(i + 1));
            push_str(&mut line, "\t");
            push_all(&mut line, ls[i].as_slice());
            assert(lsv[i as int] == ls@[i as int]@);
            assert(line@ =~= numbered_line((i + 1) as nat, lsv[i as int]));
            let ghost prev = parts@;
            parts.push(line);
            assert(seq_views(parts@) =~= seq_views(prev).push(numbered_line((i + 1) as nat, lsv[i as int])));
            assert(seq_views(parts@) =~= numbered(lsv, from as nat, (i + 1) as nat));
            i += 1;
        }
        let mut out: Vec<char> = Vec::new();
        push_str(&mut out, "File: ");
        push_str(&mut out, path);
        push_str(&mut out, " (");
        push_all(&mut out, decimal_chars(total).as_slice());
        push_str(&mut out, " lines)\n");
        let body = join_chars(&parts, chars_of("\n").as_slice());
        assert(body@ == join(numbered(lsv, from as nat, to as nat), "\n"@));
        push_all(&mut out, body.as_slice());
        assert(out@ =~= read_output(path@, content@, offset as nat, match limit {
            Some(l) => Some(l as nat),
            None => None,
        }));
        string_of(out.as_slice())
    }
}

/// The edit tool.
pub struct EditTool;

impl EditTool {
    pub fn new() -> (r: EditTool) {
        EditTool
    }

    /// Replaces `old` in `content` by `new`: the one occurrence, or all of
    /// them with `replace_all`. Returns the new text and the number of
    /// replacements; refuses an empty `old`, an `old` that does not occur,
    /// and one that occurs more than once without `replace_all`.
    pub fn apply_edit(content: &str, old: &str, new: &str, replace_all: bool) -> (r: Result<(String, usize), EditError>)
        ensures
            match r {
                Ok((t, n)) => edit_spec(content@, old@, new@, replace_all) == Ok::<(Seq<char>, nat), EditError>((t@, n as nat)),
                Err(e) => edit_spec(content@, old@, new@, replace_all) == Err::<(Seq<char>, nat), EditError>(e),
            },
    {
        let s = chars_of(content);
        let p = chars_of(old);
        let r = chars_of(new);
        if p.len() == 0 {
            return Err(EditError::EmptyPattern);
        }
        let (text, count) = scan_replace(s.as_slice(), p.as_slice(), r.as_slice(), replace_all);
        if count == 0 {
            Err(EditError::NotFound)
        } else if count > 1 && !replace_all {
            Err(EditError::Ambiguous { count })
        } else if replace_all {
            Ok((string_of(text.as_slice()), count))
        } else {
            Ok((string_of(text.as_slice()), 1))
        }
    }
}

/// An edit whose text occurs twice is refused without `replace_all`, and
/// with it replaces both occurrences and reports two.
pub proof fn edit_of_twice_occurring_text(s: Seq<char>, p: Seq<char>, r: Seq<char>)
    requires
        p.len() > 0,
        count_matches(s, p) == 2,
    ensures
        edit_spec(s, p, r, false) == Err::<(Seq<char>, nat), EditError>(EditError::Ambiguous { count: 2 }),
        edit_spec(s, p, r, true) == Ok::<(Seq<char>, nat), EditError>((replace_all(s, p, r), 2)),
{
}

/// The write tool.
pub struct WriteTool;

impl WriteTool {
    pub fn new() -> (r: WriteTool) {
        WriteTool
    }
}

/// The glob tool.
pub struct GlobTool;

impl GlobTool {
    pub fn new() -> (r: GlobTool) {
        GlobTool
    }
}

/// The grep tool.
pub struct GrepTool;

impl GrepTool {
    pub fn new() -> (r: GrepTool) {
        GrepTool
    }
}

/// The shell tool, with its default timeout in seconds.
pub struct BashTool {
    pub timeout_secs: u64,
}

impl BashTool {
    pub fn new() -> (r: BashTool)
        ensures
            r.timeout_secs == 120,
    {
        BashTool { timeout_secs: 120 }
    }

    pub fn with_timeout(timeout_secs: u64) -> (r: BashTool)
        ensures
            r.timeout_secs == timeout_secs,
    {
        BashTool { timeout_secs }
    }
}

pub struct GitStatusTool;

impl GitStatusTool {
    pub fn new() -> (r: GitStatusTool) {
        GitStatusTool
    }
}

pub struct GitDiffTool;

impl GitDiffTool {
    pub fn new() -> (r: GitDiffTool) {
        GitDiffTool
    }
}

pub struct GitAddTool;

impl GitAddTool {
    pub fn new() -> (r: GitAddTool) {
        GitAddTool
    }
}

pub struct GitCommitTool;

impl GitCommitTool {
    pub fn new() -> (r: GitCommitTool) {
        GitCommitTool
    }
}

pub struct GitLogTool;

impl GitLogTool {
    pub fn new() -> (r: GitLogTool) {
        GitLogTool
    }
}

impl ReadTool {
    /// The name the model calls this tool by.
    pub fn name(&self) -> (r: &'static str)
        ensures
            r@ == "read"@,
    {
        "read"
    }

    pub fn description(&self) -> (r: &'static str)
        ensures
            r@ == "Read the contents of a file"@,
    {
        "Read the contents of a file"
    }
}

impl WriteTool {
    /// The name the model calls this tool by.
    pub fn name(&self) -> (r: &'static str)
        ensures
            r@ == "write"@,
    {
        "write"
    }

    pub fn description(&self) -> (r: &'static str)
        ensures
            r@ == "Write content to a file (creates or overwrites)"@,
    {
        "Write content to a file (creates or overwrites)"
    }
}

impl EditTool {
    /// The name the model calls this tool by.
    pub fn name(&self) -> (r: &'static str)
        ensures
            r@ == "edit"@,
    {
        "edit"
    }

    pub fn description(&self) -> (r: &'static str)
        ensures
            r@ == "Edit a file by replacing old_string with new_string"@,
    {
        "Edit a file by replacing old_string with new_string"
    }
}

impl GlobTool {
    /// The name the model calls this tool by.
    pub fn name(&self) -> (r: &'static str)
        ensures
            r@ == "glob"@,
    {
        "glob"
    }

    pub fn description(&self) -> (r: &'static str)
        ensures
            r@ == "Find files matching a glob pattern"@,
    {
        "Find files matching a glob pattern"
    }
}

impl GrepTool {
    /// The name the model calls this tool by.
    pub fn name(&self) -> (r: &'static str)
        ensures
            r@ == "grep"@,
    {
        "grep"
    }

    pub fn description(&self) -> (r: &'static str)
        ensures
            r@ == "Search for a pattern in files"@,
    {
        "Search for a pattern in files"
    }
}

impl BashTool {
    /// The name the model calls this tool by.
    pub fn name(&self) -> (r: &'static str)
        ensures
            r@ == "bash"@,
    {
        "bash"
    }

    pub fn description(&self) -> (r: &'static str)
        ensures
            r@ == "Execute a bash command"@,
    {
        "Execute a bash command"
    }
}

impl GitStatusTool {
    /// The name the model calls this tool by.
    pub fn name(&self) -> (r: &'static str)
        ensures
            r@ == "git_status"@,
    {
        "git_status"
    }

    pub fn description(&self) -> (r: &'static str)
        ensures
            r@ == "Show the working tree status"@,
    {
        "Show the working tree status"
    }
}

impl GitDiffTool {
    /// The name the model calls this tool by.
    pub fn name(&self) -> (r: &'static str)
        ensures
            r@ == "git_diff"@,
    {
        "git_diff"
    }

    pub fn description(&self) -> (r: &'static str)
        ensures
            r@ == "Show changes between commits, commit and working tree, etc"@,
    {
        "Show changes between commits, commit and working tree, etc"
    }
}

impl GitAddTool {
    /// The name the model calls this tool by.
    pub fn name(&self) -> (r: &'static str)
        ensures
            r@ == "git_add"@,
    {
        "git_add"
    }

    pub fn description(&self) -> (r: &'static str)
        ensures
            r@ == "Add file contents to the staging area"@,
    {
        "Add file contents to the staging area"
    }
}

impl GitCommitTool {
    /// The name the model calls this tool by.
    pub fn name(&self) -> (r: &'static str)
        ensures
            r@ == "git_commit"@,
    {
        "git_commit"
    }

    pub fn description(&self) -> (r: &'static str)
        ensures
            r@ == "Record changes to the repository"@,
    {
        "Record changes to the repository"
    }
}

impl GitLogTool {
    /// The name the model calls this tool by.
    pub fn name(&self) -> (r: &'static str)
        ensures
            r@ == "git_log"@,
    {
        "git_log"
    }

    pub fn description(&self) -> (r: &'static str)
        ensures
            r@ == "Show commit logs"@,
    {
        "Show commit logs"
    }
}

/// The language server tools: definition, references and diagnostics.
#[derive(Debug, Clone, Copy, PartialEq, Eq, Structural)]
pub enum LspTool {
    Definition,
    References,
    Diagnostics,
}

impl LspTool {
    pub fn name(&self) -> (r: &'static str)
        ensures
            r@ == (match *self {
                LspTool::Definition => "lsp_definition"@,
                LspTool::References => "lsp_references"@,
                LspTool::Diagnostics => "lsp_diagnostics"@,
            }),
    {
        match self {
            LspTool::Definition => "lsp_definition",
            LspTool::References => "lsp_references",
            LspTool::Diagnostics => "lsp_diagnostics",
        }
    }

    pub fn description(&self) -> (r: &'static str)
        ensures
            r@ == (match *self {
                LspTool::Definition => "Jump to the definition of a symbol at the specified position"@,
                LspTool::References => "Find all references to a symbol at the specified position"@,
                LspTool::Diagnostics => "Get diagnostics (errors, warnings) for a file"@,
            }),
    {
        match self {
            LspTool::Definition => "Jump to the definition of a symbol at the specified position",
            LspTool::References => "Find all references to a symbol at the specified position",
            LspTool::Diagnostics => "Get diagnostics (errors, warnings) for a file",
        }
    }

    /// The JSON-RPC method that the tool sends.
    pub fn method(&self) -> (r: &'static str)
        ensures
            r@ == (match *self {
                LspTool::Definition => "textDocument/definition"@,
                LspTool::References => "textDocument/references"@,
                LspTool::Diagnostics => "textDocument/diagnostic"@,
            }),
    {
        match self {
            LspTool::Definition => "textDocument/definition",
            LspTool::References => "textDocument/references",
            LspTool::Diagnostics => "textDocument/diagnostic",
        }
    }
}

/// Whether `pattern`, as a regular expression, matches somewhere in
/// `line`; none where the pattern does not compile.
pub uninterp spec fn regex_match_of(pattern: Seq<char>, line: Seq<char>) -> Option<bool>;

#[verifier::external_type_specification]
#[verifier::external_body]
pub struct ExRegex(regex::Regex);

/// A regular expression compiled once, with the pattern it was compiled
/// from. Only `compile_regex` makes one, so the two always agree.
pub struct CompiledRegex {
    re: regex::Regex,
    pattern: String,
}

impl CompiledRegex {
    pub closed spec fn pattern_view(&self) -> Seq<char> {
        self.pattern@
    }
}

/// Relies on `regex::Regex::new`: it compiles exactly the patterns that
/// `regex_match_of` gives a result for.
#[verifier::external_body]
fn compile_regex(pattern: &str) -> (r: Option<CompiledRegex>)
    ensures
        match r {
            Some(c) => c.pattern_view() == pattern@ && regex_match_of(pattern@, Seq::empty()).is_some(),
            None => regex_match_of(pattern@, Seq::empty()).is_none(),
        },
{
    regex::Regex::new(pattern).ok().map(|re| CompiledRegex { re, pattern: pattern.to_string() })
}

/// Relies on `regex::Regex::is_match`, on the regex compiled from
/// `pattern_view`.
#[verifier::external_body]
fn regex_is_match(c: &CompiledRegex, line: &str) -> (r: bool)
    ensures
        regex_match_of(c.pattern_view(), line@) == Some(r),
{
    c.re.is_match(line)
}

/// The pattern compiles.
pub open spec fn regex_valid(pattern: Seq<char>) -> bool {
    regex_match_of(pattern, Seq::empty()).is_some()
}

/// The most hits grep reports.
pub open spec fn grep_cap() -> nat {
    100
}

/// The hits among the lines `ls` of the file `path`: `path:n:line`.
pub open spec fn line_hits(pattern: Seq<char>, path: Seq<char>, ls: Seq<Seq<char>>) -> Seq<Seq<char>>
    decreases ls.len(),
{
    if ls.len() == 0 {
        Seq::empty()
    } else {
        line_hits(pattern, path, ls.drop_last()) + if regex_match_of(pattern, ls.last()) == Some(true) {
            seq![path + ":"@ + decimal(ls.len()) + ":"@ + ls.last()]
        } else {
            Seq::empty()
        }
    }
}

/// The hits of all files, as `(path, content)`, in order.
pub open spec fn file_hits(pattern: Seq<char>, files: Seq<(Seq<char>, Seq<char>)>) -> Seq<Seq<char>>
    decreases files.len(),
{
    if files.len() == 0 {
        Seq::empty()
    } else {
        file_hits(pattern, files.drop_last()) + line_hits(pattern, files.last().0, lines(files.last().1))
    }
}

pub open spec fn file_views(files: Seq<(String, String)>) -> Seq<(Seq<char>, Seq<char>)> {
    files.map_values(|f: (String, String)| (f.0@, f.1@))
}

/// What grep reports: the first hits up to the cap, marked as truncated
/// at the cap; a plain note where there are none.
pub open spec fn grep_output(pattern: Seq<char>, files: Seq<(Seq<char>, Seq<char>)>) -> Seq<char> {
    let all = file_hits(pattern, files);
    let hits = if all.len() > grep_cap() { all.subrange(0, grep_cap() as int) } else { all };
    if hits.len() == 0 {
        "No matches found"@
    } else {
        "Found "@ + decimal(hits.len()) + " matches"@ + (if hits.len() >= grep_cap() {
            " (truncated)"@
        } else {
            Seq::<char>::empty()
        }) + ":\n"@ + join(hits, "\n"@)
    }
}

impl GrepTool {
    /// Searches files already read, as `(path, content)` in the order they
    /// were found, for lines that `pattern` matches.
    pub fn search(pattern: &str, files: &Vec<(String, String)>) -> (r: ToolResult)
        ensures
            r.wf(),
            r.success == regex_valid(pattern@),
            r.success ==> r.output@ == grep_output(pattern@, file_views(files@)),
            !r.success ==> (r.error matches Some(e) && e@ == "Invalid regex: "@ + pattern@),
    {
        let re = match compile_regex(pattern) {
            Some(c) => c,
            None => {
                let mut v = chars_of("Invalid regex: ");
                push_str(&mut v, pattern);
                return ToolResult::failure(string_of(v.as_slice()).as_str());
            },
        };
        let ghost fv = file_views(files@);
        let mut hits: Vec<Vec<char>> = Vec::new();
        let mut i: usize = 0;
        assert(seq_views(hits@) =~= Seq::<Seq<char>>::empty());
        while i < files.len()
            invariant
                i <= files@.len(),
                fv == file_views(files@),
                re.pattern_view() == pattern@,
                regex_valid(pattern@),
                seq_views(hits@) == file_hits(pattern@, fv.subrange(0, i as int)),
            decreases files@.len() - i,
        {
            assert(fv.subrange(0, i + 1).drop_last() =~= fv.subrange(0, i as int));
            assert(fv[i as int] == (files@[i as int].0@, files@[i as int].1@));
            let path = &files[i].0;
            let content = chars_of(files[i].1.as_str());
            let ls = split_lines(content.as_slice());
            let ghost lv = seq_views(ls@);
            let ghost base = seq_views(hits@);
            let mut j: usize = 0;
            assert(lv.subrange(0, 0) =~= Seq::<Seq<char>>::empty());
            assert(base + Seq::<Seq<char>>::empty() =~= base);
            while j < ls.len()
                invariant
                    j <= ls@.len(),
                    lv == seq_views(ls@),
                    lv == lines(files@[i as int].1@),
                    re.pattern_view() == pattern@,
                    seq_views(hits@) == base + line_hits(pattern@, path@, lv.subrange(0, j as int)),
                decreases ls@.len() - j,
            {
                assert(lv.subrange(0, j + 1).drop_last() =~= lv.subrange(0, j as int));
                assert(lv[j as int] == ls@[j as int]@);
                let line = string_of(ls[j].as_slice());
                let ghost prev = seq_views(hits@);
                if regex_is_match(&re, line.as_str()) {
                    let mut h = chars_of(path.as_str());
                    push_str(&mut h, ":");
                    push_all(&mut h, decimal_chars(j + 1).as_slice());
                    push_str(&mut h, ":");
                    push_all(&mut h, ls[j].as_slice());
                    let ghost hv = h@;
                    hits.push(h);
                    assert(seq_views(hits@) =~= prev.push(hv));
                    assert(seq_views(hits@) =~= base + line_hits(pattern@, path@, lv.subrange(0, j + 1)));
                } else {
                    assert(seq_views(hits@) =~= base + line_hits(pattern@, path@, lv.subrange(0, j + 1)));
                }
                j += 1;
            }
            assert(lv.subrange(0, j as int) =~= lv);
            i += 1;
        }
        assert(fv.subrange(0, i as int) =~= fv);
        let ghost all = seq_views(hits@);
        if hits.len() > 100 {
            hits.truncate(100);
            assert(seq_views(hits@) =~= all.subrange(0, 100));
        }
        let n = hits.len();
        if n == 0 {
            return ToolResult::success("No matches found");
        }
        let mut out = chars_of("Found ");
        push_all(&mut out, decimal_chars(n).as_slice());
        push_str(&mut out, " matches");
        if n >= 100 {
            push_str(&mut out, " (truncated)");
        }
        push_str(&mut out, ":\n");
        push_all(&mut out, join_chars(&hits, chars_of("\n").as_slice()).as_slice());
        ToolResult::success(string_of(out.as_slice()).as_str())
    }
}

/// What the glob tool reports for the paths it found.
pub open spec fn glob_output(paths: Seq<Seq<char>>) -> Seq<char> {
    if paths.len() == 0 {
        "No files found matching the pattern"@
    } else {
        "Found "@ + decimal(paths.len()) + " files:\n"@ + join(paths, "\n"@)
    }
}

impl GlobTool {
    /// The report on the paths that matched, in the order found.
    pub fn report(paths: &Vec<String>) -> (r: ToolResult)
        ensures
            r.success,
            r.error.is_none(),
            r.output@ == glob_output(crate::cli::string_views(paths@)),
    {
        if paths.len() == 0 {
            return ToolResult::success("No files found matching the pattern");
        }
        let mut parts: Vec<Vec<char>> = Vec::new();
        let mut i: usize = 0;
        while i < paths.len()
            invariant
                i <= paths@.len(),
                seq_views(parts@) == crate::cli::string_views(paths@).subrange(0, i as int),
            decreases paths@.len() - i,
        {
            let c = chars_of(paths[i].as_str());
            let ghost prev = seq_views(parts@);
            let ghost cv = c@;
            parts.push(c);
            assert(seq_views(parts@) =~= prev.push(cv));
            assert(seq_views(parts@) =~= crate::cli::string_views(paths@).subrange(0, i + 1));
            i += 1;
        }
        assert(crate::cli::string_views(paths@).subrange(0, i as int) =~= crate::cli::string_views(paths@));
        let mut out = chars_of("Found ");
        push_all(&mut out, decimal_chars(paths.len()).as_slice());
        push_str(&mut out, " files:\n");
        push_all(&mut out, join_chars(&parts, chars_of("\n").as_slice()).as_slice());
        ToolResult::success(string_of(out.as_slice()).as_str())
    }
}

/// The text of an exit code, with its sign.
pub open spec fn code_text(c: int) -> Seq<char> {
    if c < 0 { "-"@ + decimal((-c) as nat) } else { decimal(c as nat) }
}

/// A command's output: its standard output, then its error output after an
/// `[stderr]` line.
pub open spec fn command_output(stdout: Seq<char>, stderr: Seq<char>) -> Seq<char> {
    if stderr.len() == 0 {
        stdout
    } else {
        (if stdout.len() > 0 { stdout + "\n"@ } else { Seq::empty() }) + "[stderr]\n"@ + stderr
    }
}

impl BashTool {
    /// The result of a command that ran to its end: a success with its
    /// output where it exited with success, else a failure naming the exit
    /// code (-1 where there is none) before the output.
    pub fn outcome(stdout: &str, stderr: &str, success: bool, code: i32) -> (r: ToolResult)
        ensures
            r.wf(),
            r.success == success,
            success ==> r.output@ == command_output(stdout@, stderr@),
            !success ==> (r.error matches Some(e) && e@ == "Command exited with code "@ + code_text(code as int) + "\n"@
                + command_output(stdout@, stderr@)),
    {
        let mut out: Vec<char> = Vec::new();
        let so = chars_of(stdout);
        let se = chars_of(stderr);
        if se.len() == 0 {
            push_all(&mut out, so.as_slice());
        } else {
            if so.len() > 0 {
                push_all(&mut out, so.as_slice());
                push_str(&mut out, "\n");
            }
            push_str(&mut out, "[stderr]\n");
            push_all(&mut out, se.as_slice());
        }
        assert(out@ =~= command_output(stdout@, stderr@));
        if success {
            return ToolResult::success(string_of(out.as_slice()).as_str());
        }
        let mut msg = chars_of("Command exited with code ");
        if code < 0 {
            push_str(&mut msg, "-");
            let m: i64 = -(code as i64);
            push_all(&mut msg, decimal_chars(m as usize).as_slice());
        } else {
            push_all(&mut msg, decimal_chars(code as usize).as_slice());
        }
        push_str(&mut msg, "\n");
        push_all(&mut msg, out.as_slice());
        ToolResult::failure(string_of(msg.as_slice()).as_str())
    }

    /// The result of a command stopped at its time limit.
    pub fn timed_out(timeout_secs: u64) -> (r: ToolResult)
        requires
            timeout_secs <= usize::MAX,
        ensures
            r.wf(),
            !r.success,
            r.output@.len() == 0,
            r.error matches Some(e) && e@ == "Command timed out after "@ + decimal(timeout_secs as nat) + " seconds"@,
    {
        let mut msg = chars_of("Command timed out after ");
        push_all(&mut msg, decimal_chars(timeout_secs as usize).as_slice());
        push_str(&mut msg, " seconds");
        ToolResult::failure(string_of(msg.as_slice()).as_str())
    }
}

impl ReadTool {
    /// The JSON schema of the tool's parameters.
    pub fn parameters_schema(&self) -> (r: &'static str)
        ensures
            r@ == "{\"type\":\"object\",\"properties\":{\"file_path\":{\"type\":\"string\",\"description\":\"The path to the file to read\"},\"offset\":{\"type\":\"integer\",\"description\":\"Line number to start reading from (0-indexed)\"},\"limit\":{\"type\":\"integer\",\"description\":\"Maximum number of lines to read\"}},\"required\":[\"file_path\"]}"@,
    {
        "{\"type\":\"object\",\"properties\":{\"file_path\":{\"type\":\"string\",\"description\":\"The path to the file to read\"},\"offset\":{\"type\":\"integer\",\"description\":\"Line number to start reading from (0-indexed)\"},\"limit\":{\"type\":\"integer\",\"description\":\"Maximum number of lines to read\"}},\"required\":[\"file_path\"]}"
    }
}

impl WriteTool {
    /// The JSON schema of the tool's parameters.
    pub fn parameters_schema(&self) -> (r: &'static str)
        ensures
            r@ == "{\"type\":\"object\",\"properties\":{\"file_path\":{\"type\":\"string\",\"description\":\"The path to the file to write\"},\"content\":{\"type\":\"string\",\"description\":\"The content to write\"}},\"required\":[\"file_path\",\"content\"]}"@,
    {
        "{\"type\":\"object\",\"properties\":{\"file_path\":{\"type\":\"string\",\"description\":\"The path to the file to write\"},\"content\":{\"type\":\"string\",\"description\":\"The content to write\"}},\"required\":[\"file_path\",\"content\"]}"
    }
}

impl EditTool {
    /// The JSON schema of the tool's parameters.
    pub fn parameters_schema(&self) -> (r: &'static str)
        ensures
            r@ == "{\"type\":\"object\",\"properties\":{\"file_path\":{\"type\":\"string\",\"description\":\"The path to the file to edit\"},\"old_string\":{\"type\":\"string\",\"description\":\"The text to replace\"},\"new_string\":{\"type\":\"string\",\"description\":\"The replacement text\"},\"replace_all\":{\"type\":\"boolean\",\"description\":\"Replace all occurrences (default: false)\"}},\"required\":[\"file_path\",\"old_string\",\"new_string\"]}"@,
    {
        "{\"type\":\"object\",\"properties\":{\"file_path\":{\"type\":\"string\",\"description\":\"The path to the file to edit\"},\"old_string\":{\"type\":\"string\",\"description\":\"The text to replace\"},\"new_string\":{\"type\":\"string\",\"description\":\"The replacement text\"},\"replace_all\":{\"type\":\"boolean\",\"description\":\"Replace all occurrences (default: false)\"}},\"required\":[\"file_path\",\"old_string\",\"new_string\"]}"
    }
}

impl GlobTool {
    /// The JSON schema of the tool's parameters.
    pub fn parameters_schema(&self) -> (r: &'static str)
        ensures
            r@ == "{\"type\":\"object\",\"properties\":{\"pattern\":{\"type\":\"string\",\"description\":\"The glob pattern to match\"},\"path\":{\"type\":\"string\",\"description\":\"The directory to search in\"}},\"required\":[\"pattern\"]}"@,
    {
        "{\"type\":\"object\",\"properties\":{\"pattern\":{\"type\":\"string\",\"description\":\"The glob pattern to match\"},\"path\":{\"type\":\"string\",\"description\":\"The directory to search in\"}},\"required\":[\"pattern\"]}"
    }
}

impl GrepTool {
    /// The JSON schema of the tool's parameters.
    pub fn parameters_schema(&self) -> (r: &'static str)
        ensures
            r@ == "{\"type\":\"object\",\"properties\":{\"pattern\":{\"type\":\"string\",\"description\":\"The regular expression to search for\"},\"path\":{\"type\":\"string\",\"description\":\"The file or directory to search in\"},\"glob\":{\"type\":\"string\",\"description\":\"Glob pattern to filter files\"}},\"required\":[\"pattern\"]}"@,
    {
        "{\"type\":\"object\",\"properties\":{\"pattern\":{\"type\":\"string\",\"description\":\"The regular expression to search for\"},\"path\":{\"type\":\"string\",\"description\":\"The file or directory to search in\"},\"glob\":{\"type\":\"string\",\"description\":\"Glob pattern to filter files\"}},\"required\":[\"pattern\"]}"
    }
}

impl BashTool {
    /// The JSON schema of the tool's parameters.
    pub fn parameters_schema(&self) -> (r: &'static str)
        ensures
            r@ == "{\"type\":\"object\",\"properties\":{\"command\":{\"type\":\"string\",\"description\":\"The command to execute\"},\"working_dir\":{\"type\":\"string\",\"description\":\"Working directory\"},\"timeout\":{\"type\":\"integer\",\"description\":\"Timeout in seconds (default: 120)\"}},\"required\":[\"command\"]}"@,
    {
        "{\"type\":\"object\",\"properties\":{\"command\":{\"type\":\"string\",\"description\":\"The command to execute\"},\"working_dir\":{\"type\":\"string\",\"description\":\"Working directory\"},\"timeout\":{\"type\":\"integer\",\"description\":\"Timeout in seconds (default: 120)\"}},\"required\":[\"command\"]}"
    }
}

impl GitStatusTool {
    /// The JSON schema of the tool's parameters.
    pub fn parameters_schema(&self) -> (r: &'static str)
        ensures
            r@ == "{\"type\":\"object\",\"properties\":{\"path\":{\"type\":\"string\",\"description\":\"Repository path\"}}}"@,
    {
        "{\"type\":\"object\",\"properties\":{\"path\":{\"type\":\"string\",\"description\":\"Repository path\"}}}"
    }
}

impl GitDiffTool {
    /// The JSON schema of the tool's parameters.
    pub fn parameters_schema(&self) -> (r: &'static str)
        ensures
            r@ == "{\"type\":\"object\",\"properties\":{\"path\":{\"type\":\"string\",\"description\":\"Repository path\"},\"staged\":{\"type\":\"boolean\",\"description\":\"Show staged changes\"},\"file\":{\"type\":\"string\",\"description\":\"Specific file to diff\"}}}"@,
    {
        "{\"type\":\"object\",\"properties\":{\"path\":{\"type\":\"string\",\"description\":\"Repository path\"},\"staged\":{\"type\":\"boolean\",\"description\":\"Show staged changes\"},\"file\":{\"type\":\"string\",\"description\":\"Specific file to diff\"}}}"
    }
}

impl GitAddTool {
    /// The JSON schema of the tool's parameters.
    pub fn parameters_schema(&self) -> (r: &'static str)
        ensures
            r@ == "{\"type\":\"object\",\"properties\":{\"path\":{\"type\":\"string\",\"description\":\"Repository path\"},\"files\":{\"type\":\"array\",\"items\":{\"type\":\"string\"},\"description\":\"Files to add\"}},\"required\":[\"files\"]}"@,
    {
        "{\"type\":\"object\",\"properties\":{\"path\":{\"type\":\"string\",\"description\":\"Repository path\"},\"files\":{\"type\":\"array\",\"items\":{\"type\":\"string\"},\"description\":\"Files to add\"}},\"required\":[\"files\"]}"
    }
}

impl GitCommitTool {
    /// The JSON schema of the tool's parameters.
    pub fn parameters_schema(&self) -> (r: &'static str)
        ensures
            r@ == "{\"type\":\"object\",\"properties\":{\"path\":{\"type\":\"string\",\"description\":\"Repository path\"},\"message\":{\"type\":\"string\",\"description\":\"Commit message\"}},\"required\":[\"message\"]}"@,
    {
        "{\"type\":\"object\",\"properties\":{\"path\":{\"type\":\"string\",\"description\":\"Repository path\"},\"message\":{\"type\":\"string\",\"description\":\"Commit message\"}},\"required\":[\"message\"]}"
    }
}

impl GitLogTool {
    /// The JSON schema of the tool's parameters.
    pub fn parameters_schema(&self) -> (r: &'static str)
        ensures
            r@ == "{\"type\":\"object\",\"properties\":{\"path\":{\"type\":\"string\",\"description\":\"Repository path\"},\"count\":{\"type\":\"integer\",\"description\":\"Number of commits to show (default: 10)\"},\"oneline\":{\"type\":\"boolean\",\"description\":\"Show one line per commit\"}}}"@,
    {
        "{\"type\":\"object\",\"properties\":{\"path\":{\"type\":\"string\",\"description\":\"Repository path\"},\"count\":{\"type\":\"integer\",\"description\":\"Number of commits to show (default: 10)\"},\"oneline\":{\"type\":\"boolean\",\"description\":\"Show one line per commit\"}}}"
    }
}

impl LspTool {
    /// The JSON schema of the tool's parameters.
    pub fn parameters_schema(&self) -> (r: &'static str)
        ensures
            r@ == (match *self {
                LspTool::Diagnostics => "{\"type\":\"object\",\"properties\":{\"file_path\":{\"type\":\"string\",\"description\":\"Path to the file\"}},\"required\":[\"file_path\"]}"@,
                _ => "{\"type\":\"object\",\"properties\":{\"file_path\":{\"type\":\"string\",\"description\":\"Path to the file\"},\"line\":{\"type\":\"integer\",\"description\":\"Line number (0-indexed)\"},\"character\":{\"type\":\"integer\",\"description\":\"Character position (0-indexed)\"}},\"required\":[\"file_path\",\"line\",\"character\"]}"@,
            }),
    {
        match self {
            LspTool::Diagnostics => "{\"type\":\"object\",\"properties\":{\"file_path\":{\"type\":\"string\",\"description\":\"Path to the file\"}},\"required\":[\"file_path\"]}",
            _ => "{\"type\":\"object\",\"properties\":{\"file_path\":{\"type\":\"string\",\"description\":\"Path to the file\"},\"line\":{\"type\":\"integer\",\"description\":\"Line number (0-indexed)\"},\"character\":{\"type\":\"integer\",\"description\":\"Character position (0-indexed)\"}},\"required\":[\"file_path\",\"line\",\"character\"]}",
        }
    }
}

impl ToolResult {
    /// The failure for a required parameter that was not given.
    pub fn missing_parameter(key: &str) -> (r: ToolResult)
        ensures
            r.wf(),
            !r.success,
            r.output@.len() == 0,
            r.error matches Some(e) && e@ == "Missing "@ + key@ + " parameter"@,
    {
        let mut v = chars_of("Missing ");
        push_str(&mut v, key);
        push_str(&mut v, " parameter");
        ToolResult::failure(string_of(v.as_slice()).as_str())
    }

    /// The failure for a file that does not exist.
    pub fn file_not_found(path: &str) -> (r: ToolResult)
        ensures
            r.wf(),
            !r.success,
            r.output@.len() == 0,
            r.error matches Some(e) && e@ == "File not found: "@ + path@,
    {
        let mut v = chars_of("File not found: ");
        push_str(&mut v, path);
        ToolResult::failure(string_of(v.as_slice()).as_str())
    }
}

impl WriteTool {
    /// The report on writing `content` to `path`: its number of lines.
    pub fn report(path: &str, content: &str) -> (r: ToolResult)
        ensures
            r.wf(),
            r.success,
            r.output@ == "Successfully wrote "@ + decimal(lines(content@).len()) + " lines to "@ + path@,
    {
        let ls = split_lines(chars_of(content).as_slice());
        let mut v = chars_of("Successfully wrote ");
        push_all(&mut v, decimal_chars(ls.len()).as_slice());
        push_str(&mut v, " lines to ");
        push_str(&mut v, path);
        ToolResult::success(string_of(v.as_slice()).as_str())
    }
}

/// The text to replace as an error shows it: at most 50 characters, then
/// three dots where it was longer.
pub open spec fn shown_pattern(old: Seq<char>) -> Seq<char> {
    if old.len() > 50 { old.subrange(0, 50) + "..."@ } else { old }
}

impl EditTool {
    /// The report on an edit of the file at `path` that replaced `count`
    /// occurrences.
    pub fn report_success(path: &str, count: usize) -> (r: ToolResult)
        ensures
            r.wf(),
            r.success,
            r.output@ == "Successfully replaced "@ + decimal(count as nat) + " occurrence(s) in "@ + path@,
    {
        let mut v = chars_of("Successfully replaced ");
        push_all(&mut v, decimal_chars(count).as_slice());
        push_str(&mut v, " occurrence(s) in ");
        push_str(&mut v, path);
        ToolResult::success(string_of(v.as_slice()).as_str())
    }

    /// The failure for a refused edit of `old`.
    pub fn report_error(error: EditError, old: &str) -> (r: ToolResult)
        ensures
            r.wf(),
            !r.success,
            r.error matches Some(e) && e@ == (match error {
                EditError::EmptyPattern => "old_string must not be empty"@,
                EditError::NotFound => "old_string not found in file: '"@ + shown_pattern(old@) + "'"@,
                EditError::Ambiguous { count } => "old_string found "@ + decimal(count as nat)
                    + " times. Use replace_all: true to replace all, or provide a more unique string."@,
            }),
    {
        match error {
            EditError::EmptyPattern => ToolResult::failure("old_string must not be empty"),
            EditError::NotFound => {
                let o = chars_of(old);
                let mut v = chars_of("old_string not found in file: '");
                if o.len() > 50 {
                    let head = crate::text::slice_vec(o.as_slice(), 0, 50);
                    push_all(&mut v, head.as_slice());
                    push_str(&mut v, "...");
                } else {
                    push_all(&mut v, o.as_slice());
                }
                push_str(&mut v, "'");
                ToolResult::failure(string_of(v.as_slice()).as_str())
            },
            EditError::Ambiguous { count } => {
                let mut v = chars_of("old_string found ");
                push_all(&mut v, decimal_chars(count).as_slice());
                push_str(&mut v, " times. Use replace_all: true to replace all, or provide a more unique string.");
                ToolResult::failure(string_of(v.as_slice()).as_str())
            },
        }
    }
}

impl GitAddTool {
    /// The report on staging `count` files.
    pub fn report(count: usize) -> (r: ToolResult)
        ensures
            r.wf(),
            r.success,
            r.output@ == "Added "@ + decimal(count as nat) + " file(s)"@,
    {
        let mut v = chars_of("Added ");
        push_all(&mut v, decimal_chars(count).as_slice());
        push_str(&mut v, " file(s)");
        ToolResult::success(string_of(v.as_slice()).as_str())
    }
}

/// A reference location as the tool lists it, with line and column from 1.
pub open spec fn location_line(l: (Seq<char>, u32, u32)) -> Seq<char> {
    l.0 + ":"@ + decimal(l.1 as nat + 1) + ":"@ + decimal(l.2 as nat + 1)
}

pub open spec fn location_views(v: Seq<(String, u32, u32)>) -> Seq<(Seq<char>, u32, u32)> {
    v.map_values(|l: (String, u32, u32)| (l.0@, l.1, l.2))
}

impl LspTool {
    /// What the tool reports when the server found nothing.
    pub fn nothing_found(&self) -> (r: ToolResult)
        ensures
            r.wf(),
            r.success,
            r.output@ == (match *self {
                LspTool::Definition => "No definition found"@,
                LspTool::References => "No references found"@,
                LspTool::Diagnostics => "No diagnostics found"@,
            }),
    {
        match self {
            LspTool::Definition => ToolResult::success("No definition found"),
            LspTool::References => ToolResult::success("No references found"),
            LspTool::Diagnostics => ToolResult::success("No diagnostics found"),
        }
    }

    /// The references found, as `path:line:column` lines counted from 1;
    /// a note where there are none.
    pub fn report_locations(locations: &Vec<(String, u32, u32)>) -> (r: ToolResult)
        requires
            forall|i: int| 0 <= i < locations@.len() ==> (#[trigger] locations@[i]).1 < u32::MAX && locations@[i].2 < u32::MAX,
        ensures
            r.wf(),
            r.success,
            r.output@ == (if locations@.len() == 0 {
                "No references found"@
            } else {
                join(location_views(locations@).map_values(|l: (Seq<char>, u32, u32)| location_line(l)), "\n"@)
            }),
    {
        if locations.len() == 0 {
            return ToolResult::success("No references found");
        }
        let ghost lv = location_views(locations@).map_values(|l: (Seq<char>, u32, u32)| location_line(l));
        let mut parts: Vec<Vec<char>> = Vec::new();
        let mut i: usize = 0;
        while i < locations.len()
            invariant
                i <= locations@.len(),
                lv == location_views(locations@).map_values(|l: (Seq<char>, u32, u32)| location_line(l)),
                seq_views(parts@) == lv.subrange(0, i as int),
                forall|q: int| 0 <= q < locations@.len() ==> (#[trigger] locations@[q]).1 < u32::MAX && locations@[q].2 < u32::MAX,
            decreases locations@.len() - i,
        {
            let mut v = chars_of(locations[i].0.as_str());
            push_str(&mut v, ":");
            push_all(&mut v, decimal_chars(locations[i].1 as usize + 1).as_slice());
            push_str(&mut v, ":");
            push_all(&mut v, decimal_chars(locations[i].2 as usize + 1).as_slice());
            assert(v@ == lv[i as int]);
            let ghost prev = seq_views(parts@);
            let ghost vv = v@;
            parts.push(v);
            assert(seq_views(parts@) =~= prev.push(vv));
            assert(seq_views(parts@) =~= lv.subrange(0, i + 1));
            i += 1;
        }
        assert(lv.subrange(0, i as int) =~= lv);
        ToolResult::success(string_of(join_chars(&parts, chars_of("\n").as_slice()).as_slice()).as_str())
    }

    /// The failure for an error from the language server.
    pub fn server_error(message: &str) -> (r: ToolResult)
        ensures
            r.wf(),
            !r.success,
            r.error matches Some(e) && e@ == "LSP error: "@ + message@,
    {
        let mut v = chars_of("LSP error: ");
        push_str(&mut v, message);
        ToolResult::failure(string_of(v.as_slice()).as_str())
    }
}

} // verus!
