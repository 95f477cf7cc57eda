//! The prompt line's state: mode, model, the prompt text, and what
//! completion knows of skills and commands.
use vstd::prelude::*;
use crate::cli::{string_views, CommandHistory, Icons};
use crate::completion::Completer;
use crate::text::{push_str, string_of};

verus! {

/// The prompt text for a mode and a model.
pub open spec fn prompt_text(mode: Seq<char>, model: Seq<char>, icon: Seq<char>) -> Seq<char> {
    "["@ + mode + "|"@ + model + "] "@ + icon + " "@
}

/// The read-eval-print loop's state.
pub struct Repl {
    pub command_history: CommandHistory,
    prompt: String,
    mode: String,
    model: String,
    completer: Completer,
    superpowers_commands: Vec<String>,
    unicode: bool,
}

impl Repl {
    pub closed spec fn prompt_view(&self) -> Seq<char> {
        self.prompt@
    }

    pub closed spec fn mode_view(&self) -> Seq<char> {
        self.mode@
    }

    pub closed spec fn model_view(&self) -> Seq<char> {
        self.model@
    }

    pub closed spec fn icon_view(&self) -> Seq<char> {
        if self.unicode { "❯"@ } else { ">"@ }
    }

    pub closed spec fn extras(&self) -> Seq<Seq<char>> {
        string_views(self.superpowers_commands@)
    }

    pub closed spec fn completer_view(&self) -> Completer {
        self.completer
    }

    /// A loop in plan mode on the default model, with the prompt `> `.
    pub fn new(unicode: bool) -> (r: Repl)
        ensures
            r.prompt_view() == "> "@,
            r.mode_view() == "Plan"@,
            r.model_view() == "ollama"@,
    {
        Repl {
            command_history: CommandHistory::new(),
            prompt: String::from_str("> "),
            mode: String::from_str("Plan"),
            model: String::from_str("ollama"),
            completer: Completer::new(),
            superpowers_commands: Vec::new(),
            unicode,
        }
    }

    fn update_prompt(&mut self)
        ensures
            final(self).prompt_view() == prompt_text(old(self).mode_view(), old(self).model_view(), old(self).icon_view()),
            final(self).mode_view() == old(self).mode_view(),
            final(self).model_view() == old(self).model_view(),
            final(self).icon_view() == old(self).icon_view(),
            final(self).extras() == old(self).extras(),
    {
        let mut v: Vec<char> = Vec::new();
        push_str(&mut v, "[");
        push_str(&mut v, self.mode.as_str());
        push_str(&mut v, "|");
        push_str(&mut v, self.model.as_str());
        push_str(&mut v, "] ");
        push_str(&mut v, Icons::prompt(self.unicode));
        push_str(&mut v, " ");
        self.prompt = string_of(v.as_slice());
    }

    pub fn set_mode(&mut self, mode: String)
        ensures
            final(self).mode_view() == mode@,
            final(self).prompt_view() == prompt_text(mode@, old(self).model_view(), old(self).icon_view()),
    {
        self.mode = mode;
        self.update_prompt();
    }

    pub fn set_model(&mut self, model: String)
        ensures
            final(self).model_view() == model@,
            final(self).prompt_view() == prompt_text(old(self).mode_view(), model@, old(self).icon_view()),
    {
        self.model = model;
        self.update_prompt();
    }

    /// The extra commands, for cycling and for completion.
    pub fn set_superpowers_commands(&mut self, commands: Vec<String>)
        ensures
            final(self).extras() == string_views(commands@),
            final(self).completer_view().extras() == string_views(commands@),
    {
        let mut copy: Vec<String> = Vec::new();
        let mut i: usize = 0;
        while i < commands.len()
            invariant
                i <= commands@.len(),
                string_views(copy@) == string_views(commands@).subrange(0, i as int),
            decreases commands@.len() - i,
        {
            let c = commands[i].clone();
            let ghost prev = copy@;
            copy.push(c);
            assert(string_views(copy@) =~= string_views(prev).push(commands@[i as int]@));
            assert(string_views(copy@) =~= string_views(commands@).subrange(0, i + 1));
            i += 1;
        }
        assert(string_views(commands@).subrange(0, i as int) =~= string_views(commands@));
        self.superpowers_commands = commands;
        self.completer.set_extra_commands(copy);
    }

    pub fn set_skills(&mut self, skills: Vec<String>)
        ensures
            final(self).completer_view().skills() == string_views(skills@),
    {
        self.completer.set_skills(skills);
    }

    pub fn set_commands(&mut self, commands: Vec<String>)
        ensures
            final(self).completer_view().extras() == string_views(commands@),
    {
        self.completer.set_extra_commands(commands);
    }

    pub fn set_prompt(&mut self, prompt: String)
        ensures
            final(self).prompt_view() == prompt@,
    {
        self.prompt = prompt;
    }

    pub fn prompt_str(&self) -> (r: &str)
        ensures
            r@ == self.prompt_view(),
    {
        self.prompt.as_str()
    }

    pub fn set_working_dir(&mut self, path: String)
        ensures
            final(self).completer_view().dir() == path@,
    {
        self.completer.set_working_dir(path);
    }

    /// The completer, for tab completion.
    pub fn completer(&self) -> (r: &Completer)
        ensures
            *r == self.completer_view(),
    {
        &self.completer
    }
}

} // verus!
