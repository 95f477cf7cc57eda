//! The bookkeeping of one turn: which tool calls may run, and the messages
//! and transcript that their outcomes leave in the conversation.
use vstd::prelude::*;
use crate::conversation::{window, Conversation, Message, Role};
use crate::mode::{dangerous_tools, tools_of, requires_confirmation, Mode};
use crate::text::{push_str, string_of};

verus! {

/// What to do with one tool call.
#[derive(Debug, Clone, Copy, PartialEq, Eq, Structural)]
pub enum CallDecision {
    /// The mode does not allow the tool.
    Deny,
    /// Ask the user first.
    Confirm,
    Run,
}

/// Decides a tool call: denied where the mode does not allow the tool,
/// confirmed first where the tool is destructive and not approved ahead.
pub fn decide_call(mode: Mode, tool: &str, auto_approve: bool) -> (r: CallDecision)
    ensures
        r == (if !tools_of(mode).contains(tool@) {
            CallDecision::Deny
        } else if dangerous_tools().contains(tool@) && !auto_approve {
            CallDecision::Confirm
        } else {
            CallDecision::Run
        }),
{
    if !mode.is_tool_allowed(tool) {
        CallDecision::Deny
    } else if requires_confirmation(tool) && !auto_approve {
        CallDecision::Confirm
    } else {
        CallDecision::Run
    }
}

/// The message that records a call that the mode does not allow.
pub open spec fn denial_text(tool: Seq<char>, mode: Seq<char>) -> Seq<char> {
    "Tool '"@ + tool + "' is not allowed in "@ + mode + " mode"@
}

/// The transcript of a turn in progress: the reply's prose, then one
/// stanza per tool call.
pub struct Turn {
    transcript: Vec<char>,
}

/// `conv` after `old` had a tool message with this name and text added.
pub open spec fn added_tool(old: Conversation, new: Conversation, tool: Seq<char>, text: Seq<char>) -> bool {
    &&& new.wf()
    &&& new.max() == old.max()
    &&& new.system_count() == old.system_count()
    &&& exists|m: Message|
        m.role == Role::Tool && m.content@ == text && (m.tool_name matches Some(n) && n@ == tool)
            && new.msgs() == window(old.msgs().push(m), old.system_count(), old.max())
}

impl Turn {
    pub closed spec fn text(&self) -> Seq<char> {
        self.transcript@
    }

    /// A turn whose reply had this prose (already stripped of its blocks).
    pub fn start(prose: &str) -> (r: Turn)
        ensures
            r.text() == (if prose@.len() > 0 { prose@ + "\n\n"@ } else { Seq::empty() }),
    {
        let mut t: Vec<char> = Vec::new();
        if prose.unicode_len() > 0 {
            push_str(&mut t, prose);
            push_str(&mut t, "\n\n");
        }
        Turn { transcript: t }
    }

    /// Records a call that the mode denied.
    pub fn record_denied(&mut self, conv: &mut Conversation, tool: &str, mode: Mode)
        requires
            old(conv).wf(),
        ensures
            added_tool(*old(conv), *final(conv), tool@, denial_text(tool@, mode.as_str_spec())),
            final(self).text() == old(self).text() + "["@ + tool@ + "] "@ + denial_text(tool@, mode.as_str_spec()) + "\n"@,
    {
        let mut msg: Vec<char> = Vec::new();
        push_str(&mut msg, "Tool '");
        push_str(&mut msg, tool);
        push_str(&mut msg, "' is not allowed in ");
        push_str(&mut msg, mode.as_str());
        push_str(&mut msg, " mode");
        let m = string_of(msg.as_slice());
        conv.add_tool_result(tool, m.as_str());
        push_str(&mut self.transcript, "[");
        push_str(&mut self.transcript, tool);
        push_str(&mut self.transcript, "] ");
        push_str(&mut self.transcript, m.as_str());
        push_str(&mut self.transcript, "\n");
    }

    /// Records a call that ran; `output` is its output, or its error text
    /// where it failed.
    pub fn record_output(&mut self, conv: &mut Conversation, tool: &str, output: &str)
        requires
            old(conv).wf(),
        ensures
            added_tool(*old(conv), *final(conv), tool@, output@),
            final(self).text() == old(self).text() + "["@ + tool@ + "]\n"@ + output@ + "\n\n"@,
    {
        conv.add_tool_result(tool, output);
        push_str(&mut self.transcript, "[");
        push_str(&mut self.transcript, tool);
        push_str(&mut self.transcript, "]\n");
        push_str(&mut self.transcript, output);
        push_str(&mut self.transcript, "\n\n");
    }

    /// Records a call that could not be carried out (an unknown tool, a
    /// failure to run it, a denied confirmation): the message stands alone.
    pub fn record_error(&mut self, conv: &mut Conversation, tool: &str, error: &str)
        requires
            old(conv).wf(),
        ensures
            added_tool(*old(conv), *final(conv), tool@, error@),
            final(self).text() == old(self).text() + "["@ + tool@ + "] "@ + error@ + "\n\n"@,
    {
        conv.add_tool_result(tool, error);
        push_str(&mut self.transcript, "[");
        push_str(&mut self.transcript, tool);
        push_str(&mut self.transcript, "] ");
        push_str(&mut self.transcript, error);
        push_str(&mut self.transcript, "\n\n");
    }

    /// Ends the turn: the transcript becomes the assistant's message.
    pub fn finish(self, conv: &mut Conversation) -> (r: String)
        requires
            old(conv).wf(),
        ensures
            r@ == self.text(),
            final(conv).wf(),
            exists|m: Message|
                m.role == Role::Assistant && m.content@ == self.text() && final(conv).msgs() == window(
                    old(conv).msgs().push(m),
                    old(conv).system_count(),
                    old(conv).max(),
                ),
    {
        let s = string_of(self.transcript.as_slice());
        conv.add_assistant(s.as_str());
        s
    }
}

impl Mode {
    /// The mode's name, as `as_str` gives it.
    pub open spec fn as_str_spec(self) -> Seq<char> {
        match self {
            Mode::Plan => "plan"@,
            Mode::Execute => "execute"@,
        }
    }
}

/// Ends a turn whose reply called no tool: the reply is the assistant's
/// message as it is.
pub fn plain_reply(conv: &mut Conversation, response: &str)
    requires
        old(conv).wf(),
    ensures
        final(conv).wf(),
        exists|m: Message|
            m.role == Role::Assistant && m.content@ == response@ && final(conv).msgs() == window(
                old(conv).msgs().push(m),
                old(conv).system_count(),
                old(conv).max(),
            ),
{
    conv.add_assistant(response);
}

} // verus!
