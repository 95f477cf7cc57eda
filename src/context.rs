//! Project instructions read from a context file in the project root.
use vstd::prelude::*;
use crate::text::{push_str, string_of};

verus! {

/// The project's context file, if one was found.
pub struct AgentContext {
    pub content: Option<String>,
    pub source_path: Option<String>,
}

/// The context text as it goes into the system prompt.
pub open spec fn context_prompt(c: Seq<char>) -> Seq<char> {
    "# Project Context\nThe following instructions are from the project's agent configuration file:\n\n"@ + c + "\n"@
}

impl AgentContext {
    /// The file names tried in the project root, in order.
    pub fn candidate_files() -> (r: Vec<&'static str>)
        ensures
            r@.map_values(|s: &str| s@) == seq!["agent.md"@, "AGENT.md"@],
    {
        let r = vec!["agent.md", "AGENT.md"];
        assert(r@.map_values(|s: &str| s@) =~= seq!["agent.md"@, "AGENT.md"@]);
        r
    }

    /// The context with its text, for the system prompt.
    pub fn as_system_prompt(&self) -> (r: Option<String>)
        ensures
            match self.content {
                Some(c) => r matches Some(p) && p@ == context_prompt(c@),
                None => r.is_none(),
            },
    {
        match &self.content {
            Some(c) => {
                let mut v: Vec<char> = Vec::new();
                push_str(
                    &mut v,
                    "# Project Context\nThe following instructions are from the project's agent configuration file:\n\n",
                );
                push_str(&mut v, c.as_str());
                push_str(&mut v, "\n");
                Some(string_of(v.as_slice()))
            },
            None => None,
        }
    }

    pub fn has_context(&self) -> (r: bool)
        ensures
            r == self.content.is_some(),
    {
        self.content.is_some()
    }
}

impl Default for AgentContext {
    fn default() -> (r: AgentContext)
        ensures
            r.content.is_none(),
            r.source_path.is_none(),
    {
        AgentContext { content: None, source_path: None }
    }
}

} // verus!
