//! Tab completion of slash commands.
use vstd::prelude::*;
use crate::cli::string_views;
use crate::text::{chars_of, is_prefix, lower_of, push_all, slice_vec, starts_with, str_eq, string_of, to_lower};

verus! {

/// The built-in slash commands.
pub open spec fn builtin_commands() -> Seq<Seq<char>> {
    seq![
        "/help"@, "/h"@, "/?"@, "/quit"@, "/q"@, "/exit"@, "/plan"@, "/execute"@, "/exec"@,
        "/clear"@, "/cls"@, "/status"@, "/skills"@, "/model"@, "/save"@, "/load"@, "/history"@,
        "/hist"@,
    ]
}

fn builtin_list() -> (r: Vec<&'static str>)
    ensures
        r@.map_values(|s: &str| s@) == builtin_commands(),
{
    let r = vec![
        "/help", "/h", "/?", "/quit", "/q", "/exit", "/plan", "/execute", "/exec", "/clear", "/cls",
        "/status", "/skills", "/model", "/save", "/load", "/history", "/hist",
    ];
    assert(r@.map_values(|s: &str| s@) =~= builtin_commands());
    r
}

/// What `char::to_lowercase` yields first for a character.
pub uninterp spec fn lower_first(c: char) -> Option<char>;

/// Relies on `char::to_lowercase`: its first character, which depends on
/// `c` alone.
#[verifier::external_body]
fn char_lower(c: char) -> (r: Option<char>)
    ensures
        r == lower_first(c),
{
    c.to_lowercase().next()
}

/// Whether `a` comes before `b` in the order of their characters' code
/// points, a prefix first.
pub open spec fn str_lt(a: Seq<char>, b: Seq<char>) -> bool
    decreases a.len(),
{
    if a.len() == 0 {
        b.len() > 0
    } else if b.len() == 0 {
        false
    } else if a[0] != b[0] {
        (a[0] as u32) < (b[0] as u32)
    } else {
        str_lt(a.drop_first(), b.drop_first())
    }
}

/// No string comes before one to its left.
pub open spec fn sorted_strs(s: Seq<Seq<char>>) -> bool {
    forall|i: int, j: int| 0 <= i < j < s.len() ==> !str_lt(#[trigger] s[j], #[trigger] s[i])
}

/// Relies on `slice::sort` of `String`s: the same strings, reordered so that
/// none comes before one to its left. `String` orders by UTF-8 bytes, which
/// is the order of the characters' code points.
#[verifier::external_body]
fn sort_strings(v: &mut Vec<String>)
    ensures
        final(v)@.len() == old(v)@.len(),
        string_views(final(v)@).to_multiset() == string_views(old(v)@).to_multiset(),
        forall|x: Seq<char>| string_views(final(v)@).contains(x) <==> string_views(old(v)@).contains(x),
        no_dup(string_views(old(v)@)) ==> no_dup(string_views(final(v)@)),
        sorted_strs(string_views(final(v)@)),
{
    v.sort();
}

/// `/` followed by `name`, unless `name` starts with `/` already.
pub open spec fn slashed(name: Seq<char>) -> Seq<char> {
    if is_prefix("/"@, name) {
        name
    } else {
        "/"@ + name
    }
}

/// Whether `cand` completes `input`, ignoring letter case.
pub open spec fn completes(input: Seq<char>, cand: Seq<char>) -> bool {
    is_prefix(lower_of(input), lower_of(cand))
}

/// The entries of `list` that complete `input`, in order.
pub open spec fn filtered(input: Seq<char>, list: Seq<Seq<char>>) -> Seq<Seq<char>>
    decreases list.len(),
{
    if list.len() == 0 {
        Seq::empty()
    } else {
        filtered(input, list.drop_last()) + if completes(input, list.last()) {
            seq![list.last()]
        } else {
            Seq::empty()
        }
    }
}

/// Number of leading characters on which `a` and `b` agree, ignoring case.
pub open spec fn match_len(a: Seq<char>, b: Seq<char>) -> nat
    decreases a.len(),
{
    if a.len() == 0 || b.len() == 0 {
        0
    } else if lower_first(a[0]) == lower_first(b[0]) {
        1 + match_len(a.drop_first(), b.drop_first())
    } else {
        0
    }
}

/// Length of the prefix of `first` that every one of `rest` shares.
pub open spec fn shared_len(first: Seq<char>, rest: Seq<Seq<char>>) -> nat
    decreases rest.len(),
{
    if rest.len() == 0 {
        first.len()
    } else {
        let a = shared_len(first, rest.drop_last());
        let b = match_len(first, rest.last());
        if a <= b { a } else { b }
    }
}

/// The common prefix of the candidates, taken from the first; none for no
/// candidates or an empty prefix of several.
pub open spec fn common_prefix_of(c: Seq<Seq<char>>) -> Option<Seq<char>> {
    if c.len() == 0 {
        None
    } else if c.len() == 1 {
        Some(c[0])
    } else {
        let k = shared_len(c[0], c.subrange(1, c.len() as int));
        if k > 0 { Some(c[0].subrange(0, k as int)) } else { None }
    }
}

/// The result of a completion.
#[derive(Debug, Clone)]
pub enum CompletionResult {
    /// One candidate, to put in place of the input.
    Single(String),
    /// Several candidates and the prefix that they share.
    Multiple { common_prefix: String, candidates: Vec<String> },
    /// No candidate.
    Empty,
}

/// Completes slash commands: the built-in ones, skills and extra commands.
pub struct Completer {
    skill_names: Vec<String>,
    extra_commands: Vec<String>,
    working_dir: String,
}

pub open spec fn no_dup(s: Seq<Seq<char>>) -> bool {
    forall|i: int, j: int| 0 <= i < j < s.len() ==> s[i] != s[j]
}

fn slashed_string(name: &String) -> (r: String)
    ensures
        r@ == slashed(name@),
{
    let c = chars_of(name.as_str());
    let slash = chars_of("/");
    if starts_with(c.as_slice(), slash.as_slice()) {
        name.clone()
    } else {
        let mut v = slash;
        push_all(&mut v, c.as_slice());
        string_of(v.as_slice())
    }
}

/// Number of leading characters on which `a` and `b` agree, ignoring case.
fn match_len_exec(a: &[char], b: &[char]) -> (r: usize)
    ensures
        r == match_len(a@, b@),
        r <= a@.len(),
{
    let mut i: usize = 0;
    assert(a@.subrange(0, a@.len() as int) =~= a@);
    assert(b@.subrange(0, b@.len() as int) =~= b@);
    while i < a.len() && i < b.len() && char_lower(a[i]) == char_lower(b[i])
        invariant
            i <= a@.len(),
            i <= b@.len(),
            match_len(a@, b@) == i + match_len(a@.subrange(i as int, a@.len() as int), b@.subrange(i as int, b@.len() as int)),
        decreases a@.len() - i,
    {
        assert(a@.subrange(i as int, a@.len() as int).drop_first() =~= a@.subrange(i + 1, a@.len() as int));
        assert(b@.subrange(i as int, b@.len() as int).drop_first() =~= b@.subrange(i + 1, b@.len() as int));
        i += 1;
    }
    i
}

impl Completer {
    pub closed spec fn skills(&self) -> Seq<Seq<char>> {
        string_views(self.skill_names@)
    }

    pub closed spec fn extras(&self) -> Seq<Seq<char>> {
        string_views(self.extra_commands@)
    }

    pub closed spec fn dir(&self) -> Seq<char> {
        self.working_dir@
    }

    /// The candidates for `input`: the built-in commands, the skills with a
    /// `/` before them, then the extra commands, each kept where it
    /// completes `input`.
    pub open spec fn candidates(&self, input: Seq<char>) -> Seq<Seq<char>> {
        filtered(input, builtin_commands()) + filtered(
            input,
            self.skills().map_values(|n: Seq<char>| "/"@ + n),
        ) + filtered(input, self.extras().map_values(|n: Seq<char>| slashed(n)))
    }

    /// A completer with no skills and no extra commands, working in `.`.
    pub fn new() -> (r: Completer)
        ensures
            r.skills().len() == 0,
            r.extras().len() == 0,
            r.dir() == "."@,
    {
        Completer { skill_names: Vec::new(), extra_commands: Vec::new(), working_dir: String::from_str(".") }
    }

    pub fn set_skills(&mut self, skills: Vec<String>)
        ensures
            final(self).skills() == string_views(skills@),
            final(self).extras() == old(self).extras(),
            final(self).dir() == old(self).dir(),
    {
        self.skill_names = skills;
    }

    pub fn set_extra_commands(&mut self, commands: Vec<String>)
        ensures
            final(self).extras() == string_views(commands@),
            final(self).skills() == old(self).skills(),
            final(self).dir() == old(self).dir(),
    {
        self.extra_commands = commands;
    }

    /// Sets the directory that relative paths are completed in.
    pub fn set_working_dir(&mut self, path: String)
        ensures
            final(self).dir() == path@,
            final(self).skills() == old(self).skills(),
            final(self).extras() == old(self).extras(),
    {
        self.working_dir = path;
    }

    pub fn working_dir(&self) -> (r: &String)
        ensures
            r@ == self.dir(),
    {
        &self.working_dir
    }

    /// The extra commands, each starting with `/`.
    pub fn get_superpowers_commands(&self) -> (r: Vec<String>)
        ensures
            string_views(r@) == self.extras().map_values(|e: Seq<char>| slashed(e)),
    {
        let mut r: Vec<String> = Vec::new();
        let mut i: usize = 0;
        while i < self.extra_commands.len()
            invariant
                i <= self.extras().len(),
                self.extras() == string_views(self.extra_commands@),
                string_views(r@) == self.extras().subrange(0, i as int).map_values(|e: Seq<char>| slashed(e)),
            decreases self.extras().len() - i,
        {
            let s = slashed_string(&self.extra_commands[i]);
            assert(s@ == slashed(self.extras()[i as int]));
            let ghost prev = r@;
            r.push(s);
            assert(string_views(r@) =~= string_views(prev).push(s@));
            assert(string_views(r@) =~= self.extras().subrange(0, i + 1).map_values(|e: Seq<char>| slashed(e)));
            i += 1;
        }
        assert(self.extras().subrange(0, i as int) =~= self.extras());
        r
    }

    /// Whether an input asks for path completion rather than command
    /// completion: it holds a path separator or starts with `.` or `~`.
    pub fn wants_path(input: &str) -> (r: bool)
        ensures
            r == (input@.len() > 0 && input@[0] != '/' && ((exists|j: int|
                0 <= j < input@.len() && (input@[j] == '/' || input@[j] == '\\')) || input@[0] == '.'
                || input@[0] == '~')),
    {
        let c = chars_of(input);
        if c.len() == 0 || c[0] == '/' {
            return false;
        }
        let mut i: usize = 0;
        while i < c.len()
            invariant
                i <= c@.len(),
                c@ == input@,
                c@.len() > 0 && c@[0] != '/',
                forall|j: int| 0 <= j < i ==> c@[j] != '/' && c@[j] != '\\',
            decreases c@.len() - i,
        {
            if c[i] == '/' || c[i] == '\\' {
                assert(input@[i as int] == c@[i as int]);
                return true;
            }
            i += 1;
        }
        proof {
            if exists|j: int| 0 <= j < input@.len() && (input@[j] == '/' || input@[j] == '\\') {
                let j = choose|j: int| 0 <= j < input@.len() && (input@[j] == '/' || input@[j] == '\\');
                assert(c@[j] != '/' && c@[j] != '\\');
            }
        }
        c[0] == '.' || c[0] == '~'
    }

    /// The commands that `input` (starting with `/`) completes to, ignoring
    /// letter case, each once; nothing for other input.
    pub fn complete(&self, input: &str) -> (r: Vec<String>)
        ensures
            !is_prefix("/"@, input@) ==> r@.len() == 0,
            is_prefix("/"@, input@) ==> forall|x: Seq<char>|
                string_views(r@).contains(x) <==> self.candidates(input@).contains(x),
            no_dup(string_views(r@)),
            sorted_strs(string_views(r@)),
    {
        let ic = chars_of(input);
        if !starts_with(ic.as_slice(), chars_of("/").as_slice()) {
            let empty: Vec<String> = Vec::new();
            assert(string_views(empty@) =~= Seq::<Seq<char>>::empty());
            return empty;
        }
        let input_lower = chars_of(to_lower(input).as_str());
        let mut cands: Vec<String> = Vec::new();
        let builtins = builtin_list();
        let ghost bl = builtin_commands();
        let mut i: usize = 0;
        assert(bl.subrange(0, 0) =~= Seq::<Seq<char>>::empty());
        assert(string_views(cands@) =~= Seq::<Seq<char>>::empty());
        while i < builtins.len()
            invariant
                i <= builtins@.len(),
                builtins@.map_values(|s: &str| s@) == bl,
                bl == builtin_commands(),
                input_lower@ == lower_of(input@),
                string_views(cands@) == filtered(input@, bl.subrange(0, i as int)),
            decreases builtins@.len() - i,
        {
            assert(bl.subrange(0, i + 1).drop_last() =~= bl.subrange(0, i as int));
            assert(bl[i as int] == builtins@[i as int]@);
            let lc = chars_of(to_lower(builtins[i]).as_str());
            if starts_with(lc.as_slice(), input_lower.as_slice()) {
                let ghost prev = cands@;
                let item = String::from_str(builtins[i]);
                cands.push(item);
                assert(string_views(cands@) =~= string_views(prev).push(item@));
            }
            i += 1;
        }
        assert(bl.subrange(0, i as int) =~= bl);
        let ghost sl = self.skills().map_values(|n: Seq<char>| "/"@ + n);
        let ghost base1 = string_views(cands@);
        let mut k: usize = 0;
        assert(sl.subrange(0, 0) =~= Seq::<Seq<char>>::empty());
        assert(base1 + Seq::<Seq<char>>::empty() =~= base1);
        while k < self.skill_names.len()
            invariant
                k <= self.skills().len(),
                self.skills() == string_views(self.skill_names@),
                sl == self.skills().map_values(|n: Seq<char>| "/"@ + n),
                input_lower@ == lower_of(input@),
                string_views(cands@) == base1 + filtered(input@, sl.subrange(0, k as int)),
            decreases self.skills().len() - k,
        {
            assert(sl.subrange(0, k + 1).drop_last() =~= sl.subrange(0, k as int));
            let mut v = chars_of("/");
            push_all(&mut v, chars_of(self.skill_names[k].as_str()).as_slice());
            let sc = string_of(v.as_slice());
            assert(sc@ == sl[k as int]);
            let lc = chars_of(to_lower(sc.as_str()).as_str());
            let ghost before = string_views(cands@);
            if starts_with(lc.as_slice(), input_lower.as_slice()) {
                let ghost prev = cands@;
                cands.push(sc);
                assert(string_views(cands@) =~= string_views(prev).push(sl[k as int]));
            }
            assert(string_views(cands@) =~= base1 + filtered(input@, sl.subrange(0, k + 1)));
            k += 1;
        }
        assert(sl.subrange(0, k as int) =~= sl);
        let ghost el = self.extras().map_values(|n: Seq<char>| slashed(n));
        let ghost base2 = string_views(cands@);
        let mut e: usize = 0;
        assert(el.subrange(0, 0) =~= Seq::<Seq<char>>::empty());
        assert(base2 + Seq::<Seq<char>>::empty() =~= base2);
        while e < self.extra_commands.len()
            invariant
                e <= self.extras().len(),
                self.extras() == string_views(self.extra_commands@),
                el == self.extras().map_values(|n: Seq<char>| slashed(n)),
                input_lower@ == lower_of(input@),
                string_views(cands@) == base2 + filtered(input@, el.subrange(0, e as int)),
            decreases self.extras().len() - e,
        {
            assert(el.subrange(0, e + 1).drop_last() =~= el.subrange(0, e as int));
            let sc = slashed_string(&self.extra_commands[e]);
            assert(sc@ == el[e as int]);
            let lc = chars_of(to_lower(sc.as_str()).as_str());
            if starts_with(lc.as_slice(), input_lower.as_slice()) {
                let ghost prev = cands@;
                cands.push(sc);
                assert(string_views(cands@) =~= string_views(prev).push(el[e as int]));
            }
            assert(string_views(cands@) =~= base2 + filtered(input@, el.subrange(0, e + 1)));
            e += 1;
        }
        assert(el.subrange(0, e as int) =~= el);
        assert(string_views(cands@) =~= self.candidates(input@));
        let mut out = dedup_strings(&cands);
        sort_strings(&mut out);
        out
    }

    /// The prefix that all candidates share, ignoring letter case, as the
    /// first candidate spells it.
    pub fn common_prefix(candidates: &[String]) -> (r: Option<String>)
        ensures
            match r {
                Some(s) => common_prefix_of(string_views(candidates@)) == Some(s@),
                None => common_prefix_of(string_views(candidates@)).is_none(),
            },
    {
        if candidates.len() == 0 {
            return None;
        }
        if candidates.len() == 1 {
            let c = candidates[0].clone();
            assert(string_views(candidates@)[0] == c@);
            return Some(c);
        }
        let ghost cv = string_views(candidates@);
        let first = chars_of(candidates[0].as_str());
        let mut k: usize = first.len();
        let mut j: usize = 1;
        assert(cv.subrange(1, 1) =~= Seq::<Seq<char>>::empty());
        while j < candidates.len()
            invariant
                1 <= j <= candidates@.len(),
                cv == string_views(candidates@),
                first@ == cv[0],
                k == shared_len(cv[0], cv.subrange(1, j as int)),
                k <= first@.len(),
            decreases candidates@.len() - j,
        {
            let other = chars_of(candidates[j].as_str());
            let m = match_len_exec(first.as_slice(), other.as_slice());
            assert(cv.subrange(1, j + 1).drop_last() =~= cv.subrange(1, j as int));
            assert(cv.subrange(1, j + 1).last() == other@);
            if m < k {
                k = m;
            }
            j += 1;
        }
        assert(cv.subrange(1, candidates@.len() as int) == cv.subrange(1, j as int));
        assert(cv[0] == candidates@[0]@);
        if k > 0 {
            Some(string_of(slice_vec(first.as_slice(), 0, k).as_slice()))
        } else {
            None
        }
    }

    /// Completes `input`: nothing, one candidate, or several with the
    /// prefix they share (the input itself where they share none).
    pub fn complete_with_result(&self, input: &str) -> (r: CompletionResult)
        ensures
            r is Empty ==> self.complete_spec_empty(input@),
            (r matches CompletionResult::Single(s) ==> is_prefix("/"@, input@) && forall|x: Seq<char>|
                self.candidates(input@).contains(x) <==> x == s@),
            (r matches CompletionResult::Multiple { common_prefix, candidates } ==> is_prefix("/"@, input@)
                && candidates@.len() > 1 && no_dup(string_views(candidates@)) && sorted_strs(string_views(candidates@))
                && (forall|x: Seq<char>| string_views(candidates@).contains(x)
                <==> self.candidates(input@).contains(x)) && common_prefix@ == (match common_prefix_of(
                string_views(candidates@),
            ) {
                Some(p) => p,
                None => input@,
            })),
    {
        let candidates = self.complete(input);
        if candidates.len() == 0 {
            proof {
                if is_prefix("/"@, input@) && self.candidates(input@).len() > 0 {
                    let x = self.candidates(input@)[0];
                    assert(self.candidates(input@).contains(x));
                    assert(string_views(candidates@).contains(x));
                    assert(string_views(candidates@).len() == 0);
                }
            }
            CompletionResult::Empty
        } else if candidates.len() == 1 {
            let c = candidates[0].clone();
            proof {
                assert(string_views(candidates@)[0] == c@);
                assert(string_views(candidates@).contains(c@));
                assert forall|x: Seq<char>| string_views(candidates@).contains(x) implies x == c@ by {
                    let q = choose|q: int| 0 <= q < string_views(candidates@).len() && string_views(candidates@)[q] == x;
                    assert(q == 0);
                }
                assert forall|x: Seq<char>| self.candidates(input@).contains(x) <==> x == c@ by {
                    assert(string_views(candidates@).contains(x) <==> self.candidates(input@).contains(x));
                }
            }
            CompletionResult::Single(c)
        } else {
            let common = match Self::common_prefix(candidates.as_slice()) {
                Some(p) => p,
                None => String::from_str(input),
            };
            CompletionResult::Multiple { common_prefix: common, candidates }
        }
    }

    /// No command is a candidate for `input`.
    pub open spec fn complete_spec_empty(&self, input: Seq<char>) -> bool {
        !is_prefix("/"@, input) || self.candidates(input).len() == 0
    }
}


/// A directory entry as path completion offers it.
pub open spec fn path_entry_text(expanded: Seq<char>, prefix: Seq<char>, parent: Seq<char>, name: Seq<char>, dir: bool) -> Seq<char> {
    let full = if (expanded.len() > 0 && expanded.last() == '/') || prefix.len() == 0 {
        expanded + name
    } else if parent.len() == 0 {
        name
    } else {
        parent + "/"@ + name
    };
    if dir { full + "/"@ } else { full }
}

/// Whether an entry named `name` is offered for `prefix`: hidden names
/// only for a prefix starting with a dot, and names that start with the
/// prefix, ignoring case.
pub open spec fn offers(prefix: Seq<char>, name: Seq<char>) -> bool {
    (!is_prefix("."@, name) || is_prefix("."@, prefix)) && is_prefix(lower_of(prefix), lower_of(name))
}

/// The offered entries among `entries`, in order, as completion texts.
pub open spec fn path_texts(
    expanded: Seq<char>,
    prefix: Seq<char>,
    parent: Seq<char>,
    entries: Seq<(Seq<char>, bool)>,
) -> Seq<Seq<char>>
    decreases entries.len(),
{
    if entries.len() == 0 {
        Seq::empty()
    } else {
        let e = entries.last();
        path_texts(expanded, prefix, parent, entries.drop_last()) + if offers(prefix, e.0) {
            seq![path_entry_text(expanded, prefix, parent, e.0, e.1)]
        } else {
            Seq::empty()
        }
    }
}

pub open spec fn entry_views(v: Seq<(String, bool)>) -> Seq<(Seq<char>, bool)> {
    v.map_values(|e: (String, bool)| (e.0@, e.1))
}

impl Completer {
    /// Path completion over a listed directory: `expanded` is the input
    /// with `~` expanded, `prefix` the file name typed so far, `parent` the
    /// input's directory part as typed, and `entries` the directory's
    /// entries with whether each is a directory. The result holds the
    /// offered entries, directories ending in `/`.
    pub fn path_candidates(expanded: &str, prefix: &str, parent: &str, entries: &Vec<(String, bool)>) -> (r: Vec<String>)
        ensures
            forall|x: Seq<char>| string_views(r@).contains(x) <==> path_texts(expanded@, prefix@, parent@, entry_views(entries@)).contains(x),
            sorted_strs(string_views(r@)),
    {
        let ex = chars_of(expanded);
        let pc = chars_of(prefix);
        let pl = chars_of(to_lower(prefix).as_str());
        let dot = chars_of(".");
        let prefix_dot = starts_with(pc.as_slice(), dot.as_slice());
        let slash_end = ex.len() > 0 && ex[ex.len() - 1] == '/';
        let ghost ev = entry_views(entries@);
        let mut out: Vec<String> = Vec::new();
        let mut i: usize = 0;
        assert(ev.subrange(0, 0) =~= Seq::<(Seq<char>, bool)>::empty());
        assert(string_views(out@) =~= Seq::<Seq<char>>::empty());
        while i < entries.len()
            invariant
                i <= entries@.len(),
                ev == entry_views(entries@),
                ex@ == expanded@,
                pc@ == prefix@,
                pl@ == lower_of(prefix@),
                dot@ == "."@,
                prefix_dot == is_prefix("."@, prefix@),
                slash_end == (expanded@.len() > 0 && expanded@.last() == '/'),
                string_views(out@) == path_texts(expanded@, prefix@, parent@, ev.subrange(0, i as int)),
            decreases entries@.len() - i,
        {
            assert(ev.subrange(0, i + 1).drop_last() =~= ev.subrange(0, i as int));
            assert(ev[i as int] == (entries@[i as int].0@, entries@[i as int].1));
            let name = chars_of(entries[i].0.as_str());
            let lower = chars_of(to_lower(entries[i].0.as_str()).as_str());
            let hidden = starts_with(name.as_slice(), dot.as_slice());
            if (!hidden || prefix_dot) && starts_with(lower.as_slice(), pl.as_slice()) {
                let mut v: Vec<char> = Vec::new();
                if slash_end || pc.len() == 0 {
                    push_all(&mut v, ex.as_slice());
                    push_all(&mut v, name.as_slice());
                } else if parent.unicode_len() == 0 {
                    push_all(&mut v, name.as_slice());
                } else {
                    push_all(&mut v, chars_of(parent).as_slice());
                    v.push('/');
                    push_all(&mut v, name.as_slice());
                }
                if entries[i].1 {
                    v.push('/');
                }
                proof {
                    reveal_strlit("/");
                }
                assert(v@ =~= path_entry_text(expanded@, prefix@, parent@, ev[i as int].0, ev[i as int].1));
                let ghost prev = out@;
                let sv = string_of(v.as_slice());
                out.push(sv);
                assert(string_views(out@) =~= string_views(prev).push(v@));
            } else {
                assert(string_views(out@) =~= string_views(out@) + Seq::<Seq<char>>::empty());
            }
            i += 1;
        }
        assert(ev.subrange(0, i as int) =~= ev);
        sort_strings(&mut out);
        out
    }
}

/// The strings, each kept at its first occurrence only.
fn dedup_strings(v: &Vec<String>) -> (r: Vec<String>)
    ensures
        no_dup(string_views(r@)),
        forall|x: Seq<char>| string_views(r@).contains(x) <==> string_views(v@).contains(x),
{
    let mut r: Vec<String> = Vec::new();
    let mut i: usize = 0;
    while i < v.len()
        invariant
            i <= v@.len(),
            no_dup(string_views(r@)),
            forall|x: Seq<char>| string_views(r@).contains(x) <==> string_views(v@).subrange(0, i as int).contains(x),
        decreases v@.len() - i,
    {
        let mut seen = false;
        let mut j: usize = 0;
        while j < r.len()
            invariant
                j <= r@.len(),
                i < v@.len(),
                seen == exists|q: int| 0 <= q < j && string_views(r@)[q] == v@[i as int]@,
            decreases r@.len() - j,
        {
            assert(string_views(r@)[j as int] == r@[j as int]@);
            if str_eq(r[j].as_str(), v[i].as_str()) {
                seen = true;
            }
            j += 1;
        }
        let ghost prev = r@;
        assert(string_views(v@).subrange(0, i + 1) =~= string_views(v@).subrange(0, i as int).push(v@[i as int]@));
        if !seen {
            let c = v[i].clone();
            r.push(c);
            assert(string_views(r@) =~= string_views(prev).push(v@[i as int]@));
            let ghost vi = string_views(v@).subrange(0, i as int);
            let ghost vi1 = string_views(v@).subrange(0, i + 1);
            assert forall|x: Seq<char>| string_views(r@).contains(x) <==> vi1.contains(x) by {
                if string_views(r@).contains(x) {
                    let q = choose|q: int| 0 <= q < string_views(r@).len() && string_views(r@)[q] == x;
                    if q < prev.len() {
                        assert(string_views(prev)[q] == x);
                        assert(string_views(prev).contains(x));
                        assert(vi.contains(x));
                        let q2 = choose|q2: int| 0 <= q2 < vi.len() && vi[q2] == x;
                        assert(vi1[q2] == x);
                    } else {
                        assert(x == v@[i as int]@);
                        assert(vi1[i as int] == x);
                    }
                }
                if vi1.contains(x) {
                    let q = choose|q: int| 0 <= q < vi1.len() && vi1[q] == x;
                    if q < i {
                        assert(vi[q] == x);
                        assert(string_views(prev).contains(x));
                        let q2 = choose|q2: int| 0 <= q2 < string_views(prev).len() && string_views(prev)[q2] == x;
                        assert(string_views(r@)[q2] == x);
                    } else {
                        assert(string_views(r@)[prev.len() as int] == x);
                    }
                }
            }
        } else {
            proof {
                let q = choose|q: int| 0 <= q < r@.len() && string_views(r@)[q] == v@[i as int]@;
                assert(string_views(r@).contains(v@[i as int]@));
            }
        }
        i += 1;
    }
    assert(string_views(v@).subrange(0, i as int) =~= string_views(v@));
    r
}

} // verus!
