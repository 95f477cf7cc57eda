//! State of the terminal front end: icons, the confirmation dialog, the
//! command history and the log of the full-screen view.
use vstd::prelude::*;
use crate::text::{chars_of, lines, lower_of, seq_views, split_lines, str_eq, string_of, to_lower, trim, trim_chars};

verus! {

/// Icons of the terminal output, in a Unicode and a plain form.
pub struct Icons;

impl Icons {
    pub fn user(unicode: bool) -> (r: &'static str)
        ensures
            r@ == (if unicode { "󰀄 "@ } else { "[U]"@ }),
    {
        if unicode { "󰀄 " } else { "[U]" }
    }

    pub fn assistant(unicode: bool) -> (r: &'static str)
        ensures
            r@ == (if unicode { "󰚩 "@ } else { "[A]"@ }),
    {
        if unicode { "󰚩 " } else { "[A]" }
    }

    pub fn tool(unicode: bool) -> (r: &'static str)
        ensures
            r@ == (if unicode { "󰒓 "@ } else { "[T]"@ }),
    {
        if unicode { "󰒓 " } else { "[T]" }
    }

    pub fn error(unicode: bool) -> (r: &'static str)
        ensures
            r@ == (if unicode { "󰅚 "@ } else { "[!]"@ }),
    {
        if unicode { "󰅚 " } else { "[!]" }
    }

    pub fn info(unicode: bool) -> (r: &'static str)
        ensures
            r@ == (if unicode { "󰋽 "@ } else { "[i]"@ }),
    {
        if unicode { "󰋽 " } else { "[i]" }
    }

    pub fn success(unicode: bool) -> (r: &'static str)
        ensures
            r@ == (if unicode { "󰄬 "@ } else { "[+]"@ }),
    {
        if unicode { "󰄬 " } else { "[+]" }
    }

    pub fn prompt(unicode: bool) -> (r: &'static str)
        ensures
            r@ == (if unicode { "❯"@ } else { ">"@ }),
    {
        if unicode { "❯" } else { ">" }
    }
}

/// The user's answer to a confirmation.
#[derive(Debug, Clone, Copy, PartialEq, Eq, Structural)]
pub enum ConfirmResult {
    Approved,
    Denied,
}

/// A request for the user's consent to an action.
#[derive(Debug, Clone)]
pub struct ConfirmDialog {
    action: String,
    details: String,
    auto_approve: bool,
}

impl ConfirmDialog {
    pub closed spec fn action_view(&self) -> Seq<char> {
        self.action@
    }

    pub closed spec fn details_view(&self) -> Seq<char> {
        self.details@
    }

    pub closed spec fn auto(&self) -> bool {
        self.auto_approve
    }

    pub fn new(action: &str, details: &str) -> (r: ConfirmDialog)
        ensures
            r.action_view() == action@,
            r.details_view() == details@,
            !r.auto(),
    {
        ConfirmDialog { action: String::from_str(action), details: String::from_str(details), auto_approve: false }
    }

    /// The same dialog, approving by itself where `auto_approve`.
    pub fn with_auto_approve(self, auto_approve: bool) -> (r: ConfirmDialog)
        ensures
            r.action_view() == self.action_view(),
            r.details_view() == self.details_view(),
            r.auto() == auto_approve,
    {
        ConfirmDialog { auto_approve, ..self }
    }

    pub fn action(&self) -> (r: &str)
        ensures
            r@ == self.action_view(),
    {
        self.action.as_str()
    }

    pub fn details(&self) -> (r: &str)
        ensures
            r@ == self.details_view(),
    {
        self.details.as_str()
    }

    /// Whether the dialog approves without asking.
    pub fn is_auto_approved(&self) -> (r: bool)
        ensures
            r == self.auto(),
    {
        self.auto_approve
    }

    /// Reads the user's answer: `y` or `yes` in any letter case, around
    /// white space, approves; anything else denies.
    pub fn decide(answer: &str) -> (r: ConfirmResult)
        ensures
            r == answer_result(lower_of(trim(answer@))),
    {
        let t = trim_chars(chars_of(answer).as_slice());
        let ts = string_of(t.as_slice());
        let l = to_lower(ts.as_str());
        Self::decide_lowered(l.as_str())
    }

    /// Reads a trimmed, lower-case answer.
    pub fn decide_lowered(l: &str) -> (r: ConfirmResult)
        ensures
            r == answer_result(l@),
    {
        if str_eq(l, "y") || str_eq(l, "yes") {
            ConfirmResult::Approved
        } else {
            ConfirmResult::Denied
        }
    }
}

/// What a trimmed, lower-case answer means.
pub open spec fn answer_result(l: Seq<char>) -> ConfirmResult {
    if l == "y"@ || l == "yes"@ { ConfirmResult::Approved } else { ConfirmResult::Denied }
}

/// Commands typed before, with a cursor for browsing them.
pub struct CommandHistory {
    history: Vec<String>,
    position: usize,
    max_history: usize,
}

pub open spec fn string_views(v: Seq<String>) -> Seq<Seq<char>> {
    v.map_values(|s: String| s@)
}

impl CommandHistory {
    pub closed spec fn entries(&self) -> Seq<Seq<char>> {
        string_views(self.history@)
    }

    pub closed spec fn pos(&self) -> nat {
        self.position as nat
    }

    pub closed spec fn limit(&self) -> nat {
        self.max_history as nat
    }

    pub open spec fn wf(&self) -> bool {
        self.pos() <= self.entries().len()
    }

    /// An empty history that keeps the last 1000 commands when saved.
    pub fn new() -> (r: CommandHistory)
        ensures
            r.wf(),
            r.entries().len() == 0,
            r.pos() == 0,
            r.limit() == 1000,
    {
        CommandHistory { history: Vec::new(), position: 0, max_history: 1000 }
    }

    /// A history holding earlier commands, the cursor after the last one.
    pub fn with_entries(entries: Vec<String>) -> (r: CommandHistory)
        ensures
            r.wf(),
            r.entries() == string_views(entries@),
            r.pos() == entries@.len(),
            r.limit() == 1000,
    {
        let n = entries.len();
        CommandHistory { history: entries, position: n, max_history: 1000 }
    }

    /// Records a command, unless it is blank or repeats the last one, and
    /// moves the cursor after the last command.
    pub fn add(&mut self, cmd: String)
        requires
            old(self).wf(),
        ensures
            final(self).wf(),
            final(self).limit() == old(self).limit(),
            final(self).entries() == (if trim(cmd@).len() == 0 {
                old(self).entries()
            } else if old(self).entries().len() > 0 && old(self).entries().last() == cmd@ {
                old(self).entries()
            } else {
                old(self).entries().push(cmd@)
            }),
            trim(cmd@).len() == 0 ==> final(self).pos() == old(self).pos(),
            trim(cmd@).len() > 0 ==> final(self).pos() == final(self).entries().len(),
    {
        let t = trim_chars(chars_of(cmd.as_str()).as_slice());
        if t.len() == 0 {
            return;
        }
        let n = self.history.len();
        if n > 0 && str_eq(self.history[n - 1].as_str(), cmd.as_str()) {
            self.position = n;
            return;
        }
        let ghost prev = self.history@;
        self.history.push(cmd);
        assert(string_views(self.history@) =~= string_views(prev).push(cmd@));
        self.position = self.history.len();
    }

    /// Moves the cursor one command back and gives that command.
    pub fn prev(&mut self) -> (r: Option<&String>)
        requires
            old(self).wf(),
        ensures
            final(self).wf(),
            final(self).entries() == old(self).entries(),
            old(self).entries().len() == 0 ==> r.is_none() && final(self).pos() == old(self).pos(),
            old(self).entries().len() > 0 ==> final(self).pos() == (if old(self).pos() > 0 {
                old(self).pos() - 1
            } else {
                0
            }) && (r matches Some(s) && s@ == final(self).entries()[final(self).pos() as int]),
    {
        if self.history.len() == 0 {
            return None;
        }
        if self.position > 0 {
            self.position -= 1;
        }
        if self.position >= self.history.len() {
            self.position = self.history.len() - 1;
        }
        Some(&self.history[self.position])
    }

    /// Moves the cursor one command forward and gives that command; none
    /// past the last one, where new input begins.
    pub fn next(&mut self) -> (r: Option<&String>)
        requires
            old(self).wf(),
        ensures
            final(self).wf(),
            final(self).entries() == old(self).entries(),
            old(self).entries().len() == 0 ==> r.is_none() && final(self).pos() == old(self).pos(),
            old(self).entries().len() > 0 ==> final(self).pos() == (if old(self).pos() < old(self).entries().len() {
                old(self).pos() + 1
            } else {
                old(self).pos()
            }),
            (r matches Some(s) ==> final(self).pos() < final(self).entries().len() && s@ == final(self).entries()[final(self).pos() as int]),
            (r is None && old(self).entries().len() > 0) ==> final(self).pos() == final(self).entries().len(),
    {
        if self.history.len() == 0 {
            return None;
        }
        if self.position < self.history.len() {
            self.position += 1;
        }
        if self.position >= self.history.len() {
            None
        } else {
            Some(&self.history[self.position])
        }
    }

    /// Moves the cursor after the last command.
    pub fn reset_position(&mut self)
        requires
            old(self).wf(),
        ensures
            final(self).wf(),
            final(self).entries() == old(self).entries(),
            final(self).pos() == old(self).entries().len(),
    {
        self.position = self.history.len();
    }

    /// The commands to save: the last `max_history` of them.
    pub fn entries_to_save(&self) -> (r: Vec<String>)
        ensures
            string_views(r@) == (if self.entries().len() > self.limit() {
                self.entries().subrange(self.entries().len() - self.limit(), self.entries().len() as int)
            } else {
                self.entries()
            }),
    {
        let n = self.history.len();
        let start: usize = if n > self.max_history { n - self.max_history } else { 0 };
        let mut r: Vec<String> = Vec::new();
        let mut i: usize = start;
        while i < n
            invariant
                start <= i <= n == self.history@.len(),
                string_views(r@) == string_views(self.history@).subrange(start as int, i as int),
            decreases n - i,
        {
            let ghost prev = r@;
            let c = self.history[i].clone();
            assert(string_views(prev.push(c)) =~= string_views(prev).push(self.history@[i as int]@));
            r.push(c);
            assert(string_views(r@) =~= string_views(self.history@).subrange(start as int, i + 1));
            i += 1;
        }
        assert(string_views(self.history@).subrange(0, n as int) =~= string_views(self.history@));
        r
    }
}

/// Line of the full-screen view that stands for a separator.
pub open spec fn separator_mark() -> Seq<char> {
    "__LOCAL_CODE_SEPARATOR__"@
}

/// What the status bar shows.
pub struct StatusLine {
    pub mode: String,
    pub model: String,
    pub project: String,
    pub skills: usize,
    pub commands: Vec<String>,
}

impl Default for StatusLine {
    fn default() -> (r: StatusLine)
        ensures
            r.mode@.len() == 0,
            r.model@.len() == 0,
            r.project@.len() == 0,
            r.skills == 0,
            r.commands@.len() == 0,
    {
        StatusLine { mode: String::new(), model: String::new(), project: String::new(), skills: 0, commands: Vec::new() }
    }
}

/// The full-screen view: a title, a log of lines and a status bar.
pub struct Ui {
    title: String,
    log: Vec<String>,
    status: StatusLine,
}

impl Ui {
    pub closed spec fn log_view(&self) -> Seq<Seq<char>> {
        string_views(self.log@)
    }

    pub closed spec fn title_view(&self) -> Seq<char> {
        self.title@
    }

    pub fn new(title: String) -> (r: Ui)
        ensures
            r.title_view() == title@,
            r.log_view().len() == 0,
    {
        Ui { title, log: Vec::new(), status: StatusLine::default() }
    }

    pub fn set_status(&mut self, status: StatusLine)
        ensures
            final(self).log_view() == old(self).log_view(),
            final(self).title_view() == old(self).title_view(),
    {
        self.status = status;
    }

    pub fn clear(&mut self)
        ensures
            final(self).log_view().len() == 0,
            final(self).title_view() == old(self).title_view(),
    {
        self.log.clear();
        assert(string_views(self.log@) =~= Seq::<Seq<char>>::empty());
    }

    /// The log lines.
    pub fn log_lines(&self) -> (r: &Vec<String>)
        ensures
            string_views(r@) == self.log_view(),
    {
        &self.log
    }

    pub fn push_line(&mut self, line: &str)
        ensures
            final(self).log_view() == old(self).log_view().push(line@),
            final(self).title_view() == old(self).title_view(),
    {
        let ghost prev = self.log@;
        self.log.push(String::from_str(line));
        assert(string_views(self.log@) =~= string_views(prev).push(line@));
    }

    pub fn push_separator(&mut self)
        ensures
            final(self).log_view() == old(self).log_view().push(separator_mark()),
            final(self).title_view() == old(self).title_view(),
    {
        self.push_line("__LOCAL_CODE_SEPARATOR__");
    }

    /// Adds the lines of `text`; an empty text adds one empty line.
    pub fn push_text(&mut self, text: &str)
        ensures
            final(self).log_view() == old(self).log_view() + (if text@.len() == 0 {
                seq![Seq::<char>::empty()]
            } else {
                lines(text@)
            }),
            final(self).title_view() == old(self).title_view(),
    {
        let ghost start = string_views(self.log@);
        let c = chars_of(text);
        if c.len() == 0 {
            let ghost prev = self.log@;
            self.log.push(String::new());
            assert(string_views(self.log@) =~= string_views(prev).push(Seq::<char>::empty()));
            assert(string_views(self.log@) =~= start + seq![Seq::<char>::empty()]);
            return;
        }
        let ls = split_lines(c.as_slice());
        let mut i: usize = 0;
        while i < ls.len()
            invariant
                i <= ls@.len(),
                seq_views(ls@) == lines(text@),
                string_views(self.log@) == start + seq_views(ls@).subrange(0, i as int),
                self.title@ == old(self).title@,
            decreases ls@.len() - i,
        {
            let ghost prev = self.log@;
            let line = string_of(ls[i].as_slice());
            assert(line@ == seq_views(ls@)[i as int]);
            self.log.push(line);
            assert(string_views(self.log@) =~= string_views(prev).push(line@));
            assert(string_views(self.log@) =~= start + seq_views(ls@).subrange(0, i + 1));
            i += 1;
        }
        assert(seq_views(ls@).subrange(0, i as int) =~= seq_views(ls@));
    }

    /// Adds a separator, the title followed by a colon, then the text.
    pub fn push_block(&mut self, title: &str, text: &str)
        ensures
            final(self).log_view() == old(self).log_view().push(separator_mark()).push(title@ + ":"@) + (
            if text@.len() == 0 {
                seq![Seq::<char>::empty()]
            } else {
                lines(text@)
            }),
            final(self).title_view() == old(self).title_view(),
    {
        self.push_separator();
        let mut t: Vec<char> = chars_of(title);
        t.push(':');
        let ts = string_of(t.as_slice());
        proof {
            reveal_strlit(":");
            assert(t@ =~= title@ + ":"@);
        }
        self.push_line(ts.as_str());
        self.push_text(text);
    }
}

} // verus!
