//! Slash commands typed at the prompt.
use vstd::prelude::*;
use crate::text::{
    chars_of, decimal, decimal_chars, is_prefix, is_ws, is_whitespace, join, join_chars, lower_of,
    push_all, push_str, seq_views, slice_vec, str_eq, string_of, to_lower, trim, trim_chars,
};
use crate::cli::string_views;
use crate::history::HistoryEntry;
use crate::mode::{tools_of, views, Mode};
use crate::skills::{has_named, skill_names, superpowers_prefix, SkillRegistry};

verus! {

/// A line typed at the prompt, read as a command or as a message.
#[derive(Debug, Clone)]
pub enum Command {
    Help,
    Quit,
    Plan,
    Execute,
    Clear,
    Skill { name: String, args: Option<String> },
    Model { name: String },
    Status,
    Skills,
    Save { name: String },
    Load { name: String },
    History,
    Unknown(String),
    Message(String),
}

/// A command with its texts as character sequences.
pub enum CommandView {
    Help,
    Quit,
    Plan,
    Execute,
    Clear,
    Skill { name: Seq<char>, args: Option<Seq<char>> },
    Model { name: Seq<char> },
    Status,
    Skills,
    Save { name: Seq<char> },
    Load { name: Seq<char> },
    History,
    Unknown(Seq<char>),
    Message(Seq<char>),
}

pub open spec fn opt_view(o: Option<String>) -> Option<Seq<char>> {
    match o {
        Some(s) => Some(s@),
        None => None,
    }
}

impl View for Command {
    type V = CommandView;

    open spec fn view(&self) -> CommandView {
        match self {
            Command::Help => CommandView::Help,
            Command::Quit => CommandView::Quit,
            Command::Plan => CommandView::Plan,
            Command::Execute => CommandView::Execute,
            Command::Clear => CommandView::Clear,
            Command::Skill { name, args } => CommandView::Skill { name: name@, args: opt_view(*args) },
            Command::Model { name } => CommandView::Model { name: name@ },
            Command::Status => CommandView::Status,
            Command::Skills => CommandView::Skills,
            Command::Save { name } => CommandView::Save { name: name@ },
            Command::Load { name } => CommandView::Load { name: name@ },
            Command::History => CommandView::History,
            Command::Unknown(s) => CommandView::Unknown(s@),
            Command::Message(s) => CommandView::Message(s@),
        }
    }
}

/// Index of the first white space character of `s`, or `s.len()`.
pub open spec fn ws_index(s: Seq<char>) -> nat
    decreases s.len(),
{
    if s.len() == 0 {
        0
    } else if is_ws(s[0]) {
        0
    } else {
        1 + ws_index(s.drop_first())
    }
}

/// The command word: up to the first white space.
pub open spec fn head_word(s: Seq<char>) -> Seq<char> {
    s.subrange(0, ws_index(s) as int)
}

/// The arguments: what follows the first white space, trimmed; none where
/// there is no white space.
pub open spec fn tail_args(s: Seq<char>) -> Option<Seq<char>> {
    if ws_index(s) < s.len() {
        Some(trim(s.subrange(ws_index(s) as int + 1, s.len() as int)))
    } else {
        None
    }
}

/// The command that a line stands for. A line that does not start with `/`
/// once trimmed is a message. The command word is matched in any letter
/// case; an unknown word names a skill.
pub open spec fn parse_command(input: Seq<char>) -> CommandView {
    let t = trim(input);
    if !is_prefix("/"@, t) {
        CommandView::Message(t)
    } else {
        let rest = t.subrange(1, t.len() as int);
        command_of_word(lower_of(head_word(rest)), tail_args(rest))
    }
}

/// The command that a lower-case command word and its arguments stand for;
/// an unknown word names a skill.
pub open spec fn command_of_word(cmd: Seq<char>, args: Option<Seq<char>>) -> CommandView {
    if cmd == "help"@ || cmd == "h"@ || cmd == "?"@ {
        CommandView::Help
    } else if cmd == "quit"@ || cmd == "q"@ || cmd == "exit"@ {
        CommandView::Quit
    } else if cmd == "plan"@ {
        CommandView::Plan
    } else if cmd == "execute"@ || cmd == "exec"@ {
        CommandView::Execute
    } else if cmd == "clear"@ || cmd == "cls"@ {
        CommandView::Clear
    } else if cmd == "model"@ {
        match args {
            Some(a) => CommandView::Model { name: a },
            None => CommandView::Unknown("/model requires a model name"@),
        }
    } else if cmd == "status"@ {
        CommandView::Status
    } else if cmd == "skills"@ {
        CommandView::Skills
    } else if cmd == "save"@ {
        match args {
            Some(a) => CommandView::Save { name: a },
            None => CommandView::Unknown("/save requires a conversation name"@),
        }
    } else if cmd == "load"@ {
        match args {
            Some(a) => CommandView::Load { name: a },
            None => CommandView::Unknown("/load requires a conversation name"@),
        }
    } else if cmd == "history"@ || cmd == "hist"@ {
        CommandView::History
    } else {
        CommandView::Skill { name: cmd, args }
    }
}

proof fn lemma_ws_index(s: Seq<char>, i: int)
    requires
        0 <= i <= s.len(),
        forall|j: int| 0 <= j < i ==> !is_ws(s[j]),
        i == s.len() || is_ws(s[i]),
    ensures
        ws_index(s) == i,
    decreases s.len(),
{
    if s.len() > 0 && i > 0 {
        lemma_ws_index(s.drop_first(), i - 1);
    }
}

/// Index of the first white space character of `s`, or `s.len()`.
pub fn find_ws(s: &[char]) -> (r: usize)
    ensures
        r == ws_index(s@),
        r <= s@.len(),
{
    let mut i: usize = 0;
    while i < s.len() && !is_whitespace(s[i])
        invariant
            i <= s@.len(),
            forall|j: int| 0 <= j < i ==> !is_ws(s@[j]),
        decreases s@.len() - i,
    {
        i += 1;
    }
    proof {
        lemma_ws_index(s@, i as int);
    }
    i
}

/// The command word of `s` and its arguments.
pub fn split_command(s: &[char]) -> (r: (Vec<char>, Option<Vec<char>>))
    ensures
        r.0@ == head_word(s@),
        match r.1 {
            Some(a) => tail_args(s@) == Some(a@),
            None => tail_args(s@).is_none(),
        },
{
    let i = find_ws(s);
    let word = slice_vec(s, 0, i);
    if i < s.len() {
        let after = slice_vec(s, i + 1, s.len());
        (word, Some(trim_chars(after.as_slice())))
    } else {
        (word, None)
    }
}

impl Command {
    /// Reads a line typed at the prompt.
    pub fn parse(input: &str) -> (r: Command)
        ensures
            r@ == parse_command(input@),
    {
        let chars = chars_of(input);
        let t = trim_chars(chars.as_slice());
        if t.len() == 0 || t[0] != '/' {
            proof {
                reveal_strlit("/");
                if t@.len() > 0 {
                    assert(t@.subrange(0, 1)[0] != "/"@[0]);
                }
            }
            return Command::Message(string_of(t.as_slice()));
        }
        proof {
            reveal_strlit("/");
            assert(t@.subrange(0, 1) =~= "/"@);
        }
        let rest = slice_vec(t.as_slice(), 1, t.len());
        let (word, args) = split_command(rest.as_slice());
        let word_s = string_of(word.as_slice());
        let cmd = to_lower(word_s.as_str());
        let args_s: Option<String> = match args {
            Some(a) => Some(string_of(a.as_slice())),
            None => None,
        };
        Self::from_word(cmd, args_s)
    }

    /// The command that a lower-case command word and its arguments stand
    /// for.
    pub fn from_word(cmd: String, args: Option<String>) -> (r: Command)
        ensures
            r@ == command_of_word(cmd@, opt_view(args)),
    {
        let c = cmd.as_str();
        if str_eq(c, "help") || str_eq(c, "h") || str_eq(c, "?") {
            Command::Help
        } else if str_eq(c, "quit") || str_eq(c, "q") || str_eq(c, "exit") {
            Command::Quit
        } else if str_eq(c, "plan") {
            Command::Plan
        } else if str_eq(c, "execute") || str_eq(c, "exec") {
            Command::Execute
        } else if str_eq(c, "clear") || str_eq(c, "cls") {
            Command::Clear
        } else if str_eq(c, "model") {
            match args {
                Some(name) => Command::Model { name },
                None => Command::Unknown(String::from_str("/model requires a model name")),
            }
        } else if str_eq(c, "status") {
            Command::Status
        } else if str_eq(c, "skills") {
            Command::Skills
        } else if str_eq(c, "save") {
            match args {
                Some(name) => Command::Save { name },
                None => Command::Unknown(String::from_str("/save requires a conversation name")),
            }
        } else if str_eq(c, "load") {
            match args {
                Some(name) => Command::Load { name },
                None => Command::Unknown(String::from_str("/load requires a conversation name")),
            }
        } else if str_eq(c, "history") || str_eq(c, "hist") {
            Command::History
        } else {
            Command::Skill { name: cmd, args }
        }    }
}

/// What the front end does after a command.
#[derive(Debug)]
pub enum CommandResult {
    Output(String),
    Exit,
    Clear,
    SendToLLM(String),
    ChangeModel { name: String },
    Skill { name: String, args: Option<String> },
    SaveConversation { name: String },
    LoadConversation { name: String },
}

/// The help text.
pub open spec fn help_text() -> Seq<char> {
    "\nCommands:\n  /help, /h, /?   - Show this help message\n  /quit, /q       - Exit the REPL\n  /plan           - Switch to Plan mode (read-only tools)\n  /execute, /exec - Switch to Execute mode (all tools)\n  /clear, /cls    - Clear the screen\n  /status         - Show current mode and available tools\n  /skills         - List available skills\n  /model <name>   - Change the model\n  /save <name>    - Save current conversation\n  /load <name>    - Load a saved conversation\n  /history, /hist - List saved conversations\n  /<skill-name>   - Run a skill\n\nEnter text to chat with the AI.\n"@
}

/// `n` followed by `unit`, plural unless `n` is one.
pub open spec fn count_text(n: nat, unit: Seq<char>) -> Seq<char> {
    decimal(n) + " "@ + unit + (if n == 1 { Seq::<char>::empty() } else { "s"@ }) + " ago"@
}

/// How long ago `then` was, seen at `now`, in seconds since the epoch.
pub open spec fn age_text(then: nat, now: nat) -> Seq<char> {
    if now < then {
        "unknown"@
    } else {
        let secs = (now - then) as nat;
        if secs < 60 {
            "just now"@
        } else if secs < 3600 {
            count_text(secs / 60, "minute"@)
        } else if secs < 86400 {
            count_text(secs / 3600, "hour"@)
        } else {
            count_text(secs / 86400, "day"@)
        }
    }
}

fn count_chars(n: u64, unit: &str) -> (r: Vec<char>)
    requires
        n <= usize::MAX,
    ensures
        r@ == count_text(n as nat, unit@),
{
    let mut v = decimal_chars(n as usize);
    push_str(&mut v, " ");
    push_str(&mut v, unit);
    if n != 1 {
        push_str(&mut v, "s");
    }
    push_str(&mut v, " ago");
    proof {
        reveal_strlit("s");
    }
    assert(v@ =~= count_text(n as nat, unit@));
    v
}

/// How long ago a time was, as the history list shows it.
pub fn format_timestamp(then: u64, now: u64) -> (r: String)
    requires
        now <= usize::MAX,
    ensures
        r@ == age_text(then as nat, now as nat),
{
    if now < then {
        return String::from_str("unknown");
    }
    let secs = now - then;
    if secs < 60 {
        String::from_str("just now")
    } else if secs < 3600 {
        string_of(count_chars(secs / 60, "minute").as_slice())
    } else if secs < 86400 {
        string_of(count_chars(secs / 3600, "hour").as_slice())
    } else {
        string_of(count_chars(secs / 86400, "day").as_slice())
    }
}

/// Each name on a line of its own, after `/`.
pub open spec fn skill_lines(names: Seq<Seq<char>>) -> Seq<char>
    decreases names.len(),
{
    if names.len() == 0 { Seq::empty() } else { skill_lines(names.drop_last()) + "\n  /"@ + names.last() }
}

/// The names the registry lists: user skills, then bundled ones with their
/// prefix.
pub open spec fn listed_names(registry: SkillRegistry) -> Seq<Seq<char>> {
    skill_names(registry.user_skills()) + skill_names(registry.bundled_skills()).map_values(
        |n: Seq<char>| superpowers_prefix() + n,
    )
}

/// One line of the history listing.
pub open spec fn history_line(e: HistoryEntry, now: nat) -> Seq<char> {
    "  "@ + e.name@ + " ("@ + decimal(e.message_count as nat) + " messages) - "@ + age_text(e.saved_at as nat, now)
        + "\n"@
}

pub open spec fn history_lines(entries: Seq<HistoryEntry>, now: nat) -> Seq<char>
    decreases entries.len(),
{
    if entries.len() == 0 {
        Seq::empty()
    } else {
        history_lines(entries.drop_last(), now) + history_line(entries.last(), now)
    }
}

/// What could be found of the saved conversations.
pub enum HistoryListing<'a> {
    /// There is no history directory.
    Unavailable,
    /// Listing failed, with this error.
    Failed(String),
    /// The saved conversations, newest first.
    Entries(&'a Vec<HistoryEntry>),
}

/// Carries out commands on the front end's state: the mode, and the names
/// that stand for skills.
pub struct CommandHandler {
    pub mode: Mode,
    pub skill_aliases: Vec<(String, String)>,
}

/// The name an alias list maps `name` to: its first entry for `name`, or
/// `name` itself.
pub open spec fn resolve_alias(aliases: Seq<(Seq<char>, Seq<char>)>, name: Seq<char>) -> Seq<char>
    decreases aliases.len(),
{
    if aliases.len() == 0 {
        name
    } else if aliases[0].0 == name {
        aliases[0].1
    } else {
        resolve_alias(aliases.drop_first(), name)
    }
}

impl CommandHandler {
    pub closed spec fn aliases(&self) -> Seq<(Seq<char>, Seq<char>)> {
        self.skill_aliases@.map_values(|p: (String, String)| (p.0@, p.1@))
    }

    pub fn new(mode: Mode) -> (r: CommandHandler)
        ensures
            r.mode == mode,
            r.aliases().len() == 0,
    {
        CommandHandler { mode, skill_aliases: Vec::new() }
    }

    /// The same handler with these aliases, each `(alias, skill name)`.
    pub fn with_skill_aliases(self, aliases: Vec<(String, String)>) -> (r: CommandHandler)
        ensures
            r.mode == self.mode,
            r.aliases() == aliases@.map_values(|p: (String, String)| (p.0@, p.1@)),
    {
        CommandHandler { mode: self.mode, skill_aliases: aliases }
    }

    fn resolve(&self, name: &str) -> (r: String)
        ensures
            r@ == resolve_alias(self.aliases(), name@),
    {
        let ghost al = self.aliases();
        let mut i: usize = 0;
        assert(al.subrange(0, al.len() as int) =~= al);
        while i < self.skill_aliases.len()
            invariant
                i <= al.len(),
                al == self.aliases(),
                resolve_alias(al, name@) == resolve_alias(al.subrange(i as int, al.len() as int), name@),
            decreases al.len() - i,
        {
            let ghost rest = al.subrange(i as int, al.len() as int);
            assert(rest.drop_first() =~= al.subrange(i + 1, al.len() as int));
            assert(rest[0] == (self.skill_aliases@[i as int].0@, self.skill_aliases@[i as int].1@));
            if str_eq(self.skill_aliases[i].0.as_str(), name) {
                return self.skill_aliases[i].1.clone();
            }
            i += 1;
        }
        String::from_str(name)
    }

    /// The text of the status command.
    fn status_text(&self) -> (r: String)
        ensures
            r@ == "Mode: "@ + self.mode.as_str_spec() + "\nAllowed tools: "@ + join(tools_of(self.mode), ", "@),
    {
        let tools = self.mode.allowed_tools();
        let mut parts: Vec<Vec<char>> = Vec::new();
        let mut i: usize = 0;
        while i < tools.len()
            invariant
                i <= tools@.len(),
                views(tools@) == tools_of(self.mode),
                seq_views(parts@) == views(tools@).subrange(0, i as int),
            decreases tools@.len() - i,
        {
            let c = chars_of(tools[i]);
            assert(c@ == views(tools@)[i as int]);
            let ghost prev = parts@;
            parts.push(c);
            assert(seq_views(parts@) =~= seq_views(prev).push(c@));
            assert(seq_views(parts@) =~= views(tools@).subrange(0, i + 1));
            i += 1;
        }
        assert(views(tools@).subrange(0, i as int) =~= views(tools@));
        let mut v: Vec<char> = Vec::new();
        push_str(&mut v, "Mode: ");
        push_str(&mut v, self.mode.as_str());
        push_str(&mut v, "\nAllowed tools: ");
        push_all(&mut v, join_chars(&parts, chars_of(", ").as_slice()).as_slice());
        string_of(v.as_slice())
    }

    /// Carries out a command. Mode commands change the mode; the others
    /// say what the front end is to do. `history` is the list of saved
    /// conversations where it could be read, and `now` the time in seconds.
    pub fn handle(&mut self, command: &Command, registry: &SkillRegistry, history: HistoryListing, now: u64) -> (r: CommandResult)
        requires
            now <= usize::MAX,
        ensures
            final(self).skill_aliases@ == old(self).skill_aliases@,
            final(self).mode == (match command {
                Command::Plan => Mode::Plan,
                Command::Execute => Mode::Execute,
                _ => old(self).mode,
            }),
            command is Quit ==> r is Exit,
            command is Clear ==> r is Clear,
            command is Help ==> (r matches CommandResult::Output(t) && t@ == help_text()),
            (command matches Command::Message(m) ==> (r matches CommandResult::SendToLLM(t) && t@ == m@)),
            (command matches Command::Model { name } ==> (r matches CommandResult::ChangeModel { name: n } && n@ == name@)),
            (command matches Command::Save { name } ==> (r matches CommandResult::SaveConversation { name: n } && n@ == name@)),
            (command matches Command::Load { name } ==> (r matches CommandResult::LoadConversation { name: n } && n@ == name@)),
            (command matches Command::Unknown(m) ==> (r matches CommandResult::Output(t) && t@ == "Unknown command: "@ + m@)),
            (command matches Command::Skill { name, args } ==> {
                let e = resolve_alias(old(self).aliases(), name@);
                let known = if is_prefix(superpowers_prefix(), e) {
                    has_named(registry.bundled_skills(), e.subrange(superpowers_prefix().len() as int, e.len() as int))
                } else {
                    has_named(registry.user_skills(), e) || has_named(registry.bundled_skills(), e)
                };
                if known {
                    r matches CommandResult::Skill { name: n, args: a } && n@ == e && opt_view(a) == opt_view(*args)
                } else {
                    r matches CommandResult::Output(t) && t@ == "Unknown skill: "@ + name@ + ". Use /skills to list available skills."@
                }
            }),
            command is Status ==> (r matches CommandResult::Output(t) && t@ == "Mode: "@ + old(self).mode.as_str_spec()
                + "\nAllowed tools: "@ + join(tools_of(old(self).mode), ", "@)),
            command is Plan ==> (r matches CommandResult::Output(t) && t@ == "Switched to Plan mode (read-only tools)"@),
            command is Execute ==> (r matches CommandResult::Output(t) && t@
                == "Switched to Execute mode (all tools available)"@),
            command is Skills ==> (r matches CommandResult::Output(t) && t@ == (if listed_names(*registry).len() == 0 {
                "No skills loaded"@
            } else {
                "Available skills:"@ + skill_lines(listed_names(*registry))
            })),
            command is History ==> (r matches CommandResult::Output(t) && t@ == (match history {
                HistoryListing::Unavailable => "History manager is not available."@,
                HistoryListing::Failed(e) => "Failed to list history: "@ + e@,
                HistoryListing::Entries(h) => if h@.len() == 0 {
                    "No saved conversations found."@
                } else {
                    "Saved conversations:\n"@ + history_lines(h@, now as nat)
                        + "\nUse /load <name> to restore a conversation."@
                },
            })),
    {
        match command {
            Command::Help => CommandResult::Output(help_string()),
            Command::Quit => CommandResult::Exit,
            Command::Plan => {
                self.mode = Mode::Plan;
                CommandResult::Output(String::from_str("Switched to Plan mode (read-only tools)"))
            },
            Command::Execute => {
                self.mode = Mode::Execute;
                CommandResult::Output(String::from_str("Switched to Execute mode (all tools available)"))
            },
            Command::Clear => CommandResult::Clear,
            Command::Status => CommandResult::Output(self.status_text()),
            Command::Skills => {
                let names = registry.names();
                if names.len() == 0 {
                    CommandResult::Output(String::from_str("No skills loaded"))
                } else {
                    let mut v: Vec<char> = Vec::new();
                    push_str(&mut v, "Available skills:");
                    let ghost nv = string_views(names@);
                    let mut i: usize = 0;
                    while i < names.len()
                        invariant
                            i <= names@.len(),
                            nv == string_views(names@),
                            v@ == "Available skills:"@ + skill_lines(nv.subrange(0, i as int)),
                        decreases names@.len() - i,
                    {
                        assert(nv.subrange(0, i + 1).drop_last() =~= nv.subrange(0, i as int));
                        assert(nv[i as int] == names@[i as int]@);
                        push_str(&mut v, "\n  /");
                        push_str(&mut v, names[i].as_str());
                        i += 1;
                    }
                    assert(nv.subrange(0, i as int) =~= nv);
                    CommandResult::Output(string_of(v.as_slice()))
                }
            },
            Command::Skill { name, args } => {
                let effective = self.resolve(name.as_str());
                match registry.get(effective.as_str()) {
                    Some(_) => {
                        let a = match args {
                            Some(x) => Some(x.clone()),
                            None => None,
                        };
                        CommandResult::Skill { name: effective, args: a }
                    },
                    None => {
                        let mut v: Vec<char> = Vec::new();
                        push_str(&mut v, "Unknown skill: ");
                        push_str(&mut v, name.as_str());
                        push_str(&mut v, ". Use /skills to list available skills.");
                        CommandResult::Output(string_of(v.as_slice()))
                    },
                }
            },
            Command::Model { name } => CommandResult::ChangeModel { name: name.clone() },
            Command::Unknown(msg) => {
                let mut v: Vec<char> = Vec::new();
                push_str(&mut v, "Unknown command: ");
                push_str(&mut v, msg.as_str());
                CommandResult::Output(string_of(v.as_slice()))
            },
            Command::Message(msg) => CommandResult::SendToLLM(msg.clone()),
            Command::Save { name } => CommandResult::SaveConversation { name: name.clone() },
            Command::Load { name } => CommandResult::LoadConversation { name: name.clone() },
            Command::History => match history {
                HistoryListing::Unavailable => CommandResult::Output(String::from_str("History manager is not available.")),
                HistoryListing::Failed(e) => {
                    let mut v = chars_of("Failed to list history: ");
                    push_str(&mut v, e.as_str());
                    CommandResult::Output(string_of(v.as_slice()))
                },
                HistoryListing::Entries(entries) => {
                    if entries.len() == 0 {
                        CommandResult::Output(String::from_str("No saved conversations found."))
                    } else {
                        let mut v: Vec<char> = Vec::new();
                        push_str(&mut v, "Saved conversations:\n");
                        let mut i: usize = 0;
                        while i < entries.len()
                            invariant
                                i <= entries@.len(),
                                now <= usize::MAX,
                                v@ == "Saved conversations:\n"@ + history_lines(entries@.subrange(0, i as int), now as nat),
                            decreases entries@.len() - i,
                        {
                            assert(entries@.subrange(0, i + 1).drop_last() =~= entries@.subrange(0, i as int));
                            push_str(&mut v, "  ");
                            push_str(&mut v, entries[i].name.as_str());
                            push_str(&mut v, " (");
                            push_all(&mut v, decimal_chars(entries[i].message_count).as_slice());
                            push_str(&mut v, " messages) - ");
                            let age = format_timestamp(entries[i].saved_at, now);
                            push_str(&mut v, age.as_str());
                            push_str(&mut v, "\n");
                            i += 1;
                        }
                        assert(entries@.subrange(0, i as int) =~= entries@);
                        push_str(&mut v, "\nUse /load <name> to restore a conversation.");
                        CommandResult::Output(string_of(v.as_slice()))
                    }
                },
            },
        }
    }
}

fn help_string() -> (r: String)
    ensures
        r@ == help_text(),
{
    String::from_str("\nCommands:\n  /help, /h, /?   - Show this help message\n  /quit, /q       - Exit the REPL\n  /plan           - Switch to Plan mode (read-only tools)\n  /execute, /exec - Switch to Execute mode (all tools)\n  /clear, /cls    - Clear the screen\n  /status         - Show current mode and available tools\n  /skills         - List available skills\n  /model <name>   - Change the model\n  /save <name>    - Save current conversation\n  /load <name>    - Load a saved conversation\n  /history, /hist - List saved conversations\n  /<skill-name>   - Run a skill\n\nEnter text to chat with the AI.\n")
}

} // verus!
