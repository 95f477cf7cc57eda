//! Messages and the bounded conversation that holds them.
use vstd::prelude::*;
use crate::compression::{
    compressed_from, default_config, history_of, projected, sat, total_tokens,
    CompressedConversation, CompressionConfig, ContextCompressor,
};
use crate::text::{push_str, string_of};

verus! {

/// Who wrote a message.
#[derive(Debug, Clone, Copy, PartialEq, Eq, Structural)]
pub enum Role {
    System,
    User,
    Assistant,
    Tool,
}

/// One message of a conversation. `tool_name` is set exactly for tool output.
#[derive(Debug, Clone)]
pub struct Message {
    pub role: Role,
    pub content: String,
    pub tool_name: Option<String>,
    /// Creation time in seconds since the Unix epoch, where known.
    pub timestamp: Option<u64>,
}

pub open spec fn is_sys(m: Message) -> bool {
    m.role == Role::System
}

/// A well-formed message: a tool name exactly on tool output.
pub open spec fn message_ok(m: Message) -> bool {
    (m.role == Role::Tool) == m.tool_name.is_some()
}

impl Message {
    pub fn system(content: &str) -> (r: Message)
        ensures
            r.role == Role::System,
            r.content@ == content@,
            r.tool_name.is_none(),
    {
        Message { role: Role::System, content: String::from_str(content), tool_name: None, timestamp: None }
    }

    pub fn user(content: &str) -> (r: Message)
        ensures
            r.role == Role::User,
            r.content@ == content@,
            r.tool_name.is_none(),
    {
        Message { role: Role::User, content: String::from_str(content), tool_name: None, timestamp: None }
    }

    pub fn assistant(content: &str) -> (r: Message)
        ensures
            r.role == Role::Assistant,
            r.content@ == content@,
            r.tool_name.is_none(),
    {
        Message {
            role: Role::Assistant,
            content: String::from_str(content),
            tool_name: None,
            timestamp: None,
        }
    }

    pub fn tool(name: &str, content: &str) -> (r: Message)
        ensures
            r.role == Role::Tool,
            r.content@ == content@,
            r.tool_name matches Some(n) && n@ == name@,
    {
        Message {
            role: Role::Tool,
            content: String::from_str(content),
            tool_name: Some(String::from_str(name)),
            timestamp: None,
        }
    }

    /// An identical copy of this message.
    pub fn duplicate(&self) -> (r: Message)
        ensures
            r == *self,
    {
        let tool_name = match &self.tool_name {
            Some(n) => Some(n.clone()),
            None => None,
        };
        Message { role: self.role, content: self.content.clone(), tool_name, timestamp: self.timestamp }
    }
}

/// What remains of `s` when at most `max` messages may stay: the first `n`
/// messages (the system ones) stay, and the oldest of the others go first.
pub open spec fn window(s: Seq<Message>, n: nat, max: nat) -> Seq<Message> {
    if s.len() <= max {
        s
    } else {
        let keep: int = if max > n { max - n } else { 0 };
        s.subrange(0, n as int) + s.subrange(s.len() - keep, s.len() as int)
    }
}

/// The leading `n` messages are the system ones.
pub open spec fn system_prefix(s: Seq<Message>, n: nat) -> bool {
    n <= s.len() && forall|i: int| 0 <= i < s.len() ==> (is_sys(s[i]) <==> i < n)
}

/// The text of one message in the prompt form.
pub open spec fn prompt_entry(m: Message) -> Seq<char> {
    match m.role {
        Role::System => "System: "@ + m.content@ + "\n\n"@,
        Role::User => "User: "@ + m.content@ + "\n\n"@,
        Role::Assistant => "Assistant: "@ + m.content@ + "\n\n"@,
        Role::Tool => "Tool ("@ + (match m.tool_name {
            Some(n) => n@,
            None => "unknown"@,
        }) + "): "@ + m.content@ + "\n\n"@,
    }
}

pub open spec fn prompt_body(s: Seq<Message>) -> Seq<char>
    decreases s.len(),
{
    if s.len() == 0 {
        Seq::empty()
    } else {
        prompt_body(s.drop_last()) + prompt_entry(s.last())
    }
}


/// Truncation keeps the conversation's invariants: the system messages stay,
/// and stay first; only the oldest non-system messages go; afterwards the
/// bound holds unless the system messages alone exceed it.
pub proof fn window_keeps_invariants(s: Seq<Message>, n: nat, max: nat)
    requires
        system_prefix(s, n),
    ensures
        system_prefix(window(s, n, max), n),
        window(s, n, max).len() <= max || window(s, n, max).len() == n,
        window(s, n, max).subrange(0, n as int) == s.subrange(0, n as int),
        n <= window(s, n, max).len() <= s.len(),
        window(s, n, max).subrange(n as int, window(s, n, max).len() as int) == s.subrange(
            s.len() - (window(s, n, max).len() - n),
            s.len() as int,
        ),
{
    let w = window(s, n, max);
    if s.len() <= max {
        assert(w.subrange(n as int, w.len() as int) == s.subrange(n as int, s.len() as int));
    } else {
        let keep: int = if max > n { max - n } else { 0 };
        let d = s.len() - n - keep;
        assert(w.subrange(0, n as int) =~= s.subrange(0, n as int));
        assert(w.subrange(n as int, w.len() as int) =~= s.subrange(n + d, s.len() as int));
        assert forall|i: int| 0 <= i < w.len() implies (is_sys(w[i]) <==> i < n) by {
            if i >= n {
                assert(w[i] == s[i + d]);
            } else {
                assert(w[i] == s[i]);
            }
        }
    }
}

/// Every mutation leaves a well-formed conversation, in which the system
/// messages lead and the bound holds unless they alone exceed it.
pub proof fn conversation_invariants(c: Conversation)
    requires
        c.wf(),
    ensures
        forall|i: int, j: int|
            0 <= i < j < c.msgs().len() && is_sys(#[trigger] c.msgs()[j]) ==> is_sys(#[trigger] c.msgs()[i]),
        c.msgs().len() <= c.max() || forall|i: int| 0 <= i < c.msgs().len() ==> is_sys(#[trigger] c.msgs()[i]),
{
}

/// An ordered conversation of at most `max_messages` messages, system
/// messages first.
#[derive(Debug, Clone)]
pub struct Conversation {
    messages: Vec<Message>,
    max_messages: usize,
    n_system: usize,
}

impl Conversation {
    pub closed spec fn msgs(&self) -> Seq<Message> {
        self.messages@
    }

    pub closed spec fn max(&self) -> nat {
        self.max_messages as nat
    }

    /// Number of system messages; they lead the conversation.
    pub closed spec fn system_count(&self) -> nat {
        self.n_system as nat
    }

    /// System messages form a prefix, and the bound holds unless the system
    /// messages alone exceed it.
    pub open spec fn wf(&self) -> bool {
        &&& system_prefix(self.msgs(), self.system_count())
        &&& (self.msgs().len() <= self.max() || self.msgs().len() == self.system_count())
    }

    pub fn new() -> (r: Conversation)
        ensures
            r.wf(),
            r.msgs().len() == 0,
            r.max() == 100,
    {
        Conversation { messages: Vec::new(), max_messages: 100, n_system: 0 }
    }

    pub fn with_max_messages(max: usize) -> (r: Conversation)
        ensures
            r.wf(),
            r.msgs().len() == 0,
            r.max() == max,
    {
        Conversation { messages: Vec::new(), max_messages: max, n_system: 0 }
    }

    /// Drops the oldest non-system messages until the bound holds.
    fn truncate_if_needed(&mut self)
        requires
            system_prefix(old(self).msgs(), old(self).system_count()),
        ensures
            final(self).wf(),
            final(self).max() == old(self).max(),
            final(self).system_count() == old(self).system_count(),
            final(self).msgs() == window(old(self).msgs(), old(self).system_count(), old(self).max()),
    {
        let ghost s = self.messages@;
        let n = self.n_system;
        let len = self.messages.len();
        if len <= self.max_messages {
            return;
        }
        let keep: usize = if self.max_messages > n { self.max_messages - n } else { 0 };
        let drop = len - n - keep;
        let mut i: usize = 0;
        while i < drop
            invariant
                i <= drop,
                n == self.n_system,
                self.max_messages == old(self).max_messages,
                keep == (if self.max_messages > n { self.max_messages - n } else { 0 }),
                drop == len - n - keep,
                len == s.len(),
                system_prefix(s, n as nat),
                self.messages@ == s.subrange(0, n as int) + s.subrange(n + i, len as int),
            decreases drop - i,
        {
            let ghost before = self.messages@;
            assert(before[n as int] == s[n + i]);
            self.messages.remove(n);
            i += 1;
            assert(self.messages@ =~= s.subrange(0, n as int) + s.subrange(n + i, len as int));
        }
        assert(self.messages@ =~= window(s, n as nat, self.max_messages as nat));
        assert forall|j: int| 0 <= j < self.messages@.len() implies (is_sys(self.messages@[j]) <==> j < n) by {
            if j >= n {
                assert(self.messages@[j] == s[j + drop]);
            } else {
                assert(self.messages@[j] == s[j]);
            }
        }
    }

    /// Sets the bound, dropping the oldest non-system messages if needed.
    pub fn set_max_messages(&mut self, max: usize)
        requires
            old(self).wf(),
        ensures
            final(self).wf(),
            final(self).max() == max,
            final(self).system_count() == old(self).system_count(),
            final(self).msgs() == window(old(self).msgs(), old(self).system_count(), max as nat),
    {
        self.max_messages = max;
        self.truncate_if_needed();
    }

    /// Replaces every system message by one with `content`, placed first.
    pub fn set_system(&mut self, content: &str)
        requires
            old(self).wf(),
        ensures
            final(self).wf(),
            final(self).max() == old(self).max(),
            final(self).system_count() == 1,
            final(self).msgs().len() > 0,
            final(self).msgs() == window(
                seq![final(self).msgs()[0]] + old(self).msgs().subrange(
                    old(self).system_count() as int,
                    old(self).msgs().len() as int,
                ),
                1,
                old(self).max(),
            ),
            final(self).msgs()[0].role == Role::System,
            final(self).msgs()[0].content@ == content@,
            final(self).msgs()[0].tool_name.is_none(),
    {
        let ghost s = self.messages@;
        let ghost n = self.n_system;
        while self.n_system > 0
            invariant
                self.n_system <= n,
                self.max_messages == old(self).max_messages,
                system_prefix(self.messages@, self.n_system as nat),
                self.messages@.subrange(self.n_system as int, self.messages@.len() as int)
                    == s.subrange(n as int, s.len() as int),
            decreases self.n_system,
        {
            let ghost before = self.messages@;
            self.messages.remove(0);
            self.n_system = self.n_system - 1;
            assert forall|j: int| 0 <= j < self.messages@.len() implies (is_sys(self.messages@[j])
                <==> j < self.n_system) by {
                assert(self.messages@[j] == before[j + 1]);
            }
            assert(self.messages@.subrange(self.n_system as int, self.messages@.len() as int)
                =~= s.subrange(n as int, s.len() as int));
        }
        assert(self.messages@ =~= s.subrange(n as int, s.len() as int));
        let m = Message::system(content);
        self.messages.insert(0, m);
        self.n_system = 1;
        let ghost t = seq![m] + s.subrange(n as int, s.len() as int);
        assert(self.messages@ =~= t);
        assert forall|j: int| 0 <= j < t.len() implies (is_sys(t[j]) <==> j < 1) by {
            if j > 0 {
                assert(t[j] == s[n + j - 1]);
            }
        }
        self.truncate_if_needed();
        assert(self.messages@[0] == m);
    }

    /// Adds a message, after the last system message if it is one, at the
    /// end otherwise, then drops the oldest non-system messages if needed.
    pub fn add(&mut self, message: Message)
        requires
            old(self).wf(),
        ensures
            final(self).wf(),
            final(self).max() == old(self).max(),
            is_sys(message) ==> final(self).system_count() == old(self).system_count() + 1,
            !is_sys(message) ==> final(self).system_count() == old(self).system_count(),
            final(self).msgs() == window(
                if is_sys(message) {
                    old(self).msgs().insert(old(self).system_count() as int, message)
                } else {
                    old(self).msgs().push(message)
                },
                final(self).system_count(),
                old(self).max(),
            ),
    {
        if message.role == Role::System {
            let n = self.n_system;
            let ghost t = self.messages@.insert(n as int, message);
            self.messages.insert(n, message);
            let l = self.messages.len();
            assert(n < l);
            self.n_system = n + 1;
            assert forall|j: int| 0 <= j < t.len() implies (is_sys(t[j]) <==> j < n + 1) by {
                if j > n {
                    assert(t[j] == old(self).msgs()[j - 1]);
                } else if j < n {
                    assert(t[j] == old(self).msgs()[j]);
                }
            }
        } else {
            self.messages.push(message);
        }
        self.truncate_if_needed();
    }

    pub fn add_user(&mut self, content: &str)
        requires
            old(self).wf(),
        ensures
            final(self).wf(),
            final(self).max() == old(self).max(),
            final(self).system_count() == old(self).system_count(),
            exists|m: Message|
                m.role == Role::User && m.content@ == content@ && m.tool_name.is_none()
                    && final(self).msgs() == window(
                    old(self).msgs().push(m),
                    old(self).system_count(),
                    old(self).max(),
                ),
    {
        let m = Message::user(content);
        self.add(m);
    }

    pub fn add_assistant(&mut self, content: &str)
        requires
            old(self).wf(),
        ensures
            final(self).wf(),
            final(self).max() == old(self).max(),
            final(self).system_count() == old(self).system_count(),
            exists|m: Message|
                m.role == Role::Assistant && m.content@ == content@ && m.tool_name.is_none()
                    && final(self).msgs() == window(
                    old(self).msgs().push(m),
                    old(self).system_count(),
                    old(self).max(),
                ),
    {
        let m = Message::assistant(content);
        self.add(m);
    }

    pub fn add_tool_result(&mut self, tool_name: &str, content: &str)
        requires
            old(self).wf(),
        ensures
            final(self).wf(),
            final(self).max() == old(self).max(),
            final(self).system_count() == old(self).system_count(),
            exists|m: Message|
                m.role == Role::Tool && m.content@ == content@ && (m.tool_name matches Some(n)
                    && n@ == tool_name@) && final(self).msgs() == window(
                    old(self).msgs().push(m),
                    old(self).system_count(),
                    old(self).max(),
                ),
    {
        let m = Message::tool(tool_name, content);
        self.add(m);
    }

    /// An identical copy of this conversation.
    pub fn duplicate(&self) -> (r: Conversation)
        ensures
            r.msgs() == self.msgs(),
            r.max() == self.max(),
            r.system_count() == self.system_count(),
    {
        let mut messages: Vec<Message> = Vec::new();
        let mut i: usize = 0;
        while i < self.messages.len()
            invariant
                i <= self.messages@.len(),
                messages@ == self.messages@.subrange(0, i as int),
            decreases self.messages@.len() - i,
        {
            messages.push(self.messages[i].duplicate());
            i += 1;
            assert(messages@ =~= self.messages@.subrange(0, i as int));
        }
        assert(messages@ =~= self.messages@);
        Conversation { messages, max_messages: self.max_messages, n_system: self.n_system }
    }

    /// Estimated tokens of the conversation, saturated.
    pub fn estimated_tokens(&self) -> (r: usize)
        ensures
            r == sat(total_tokens(self.msgs())),
    {
        ContextCompressor::new().estimate_tokens(self)
    }

    /// Whether the estimate exceeds `threshold_percent` percent of `max_tokens`.
    pub fn needs_compression(&self, threshold_percent: usize, max_tokens: usize) -> (r: bool)
        ensures
            r == (sat(total_tokens(self.msgs())) > max_tokens * (if threshold_percent > 100 {
                100
            } else {
                threshold_percent
            }) / 100),
    {
        ContextCompressor::new().with_threshold(threshold_percent).with_max_tokens(max_tokens).should_compress(self)
    }

    /// The conversation compressed under `config` where its estimate is over
    /// the threshold, an identical copy otherwise.
    pub fn compress_with_config(&self, config: CompressionConfig) -> (r: Conversation)
        requires
            self.wf(),
        ensures
            r.wf(),
            if sat(total_tokens(self.msgs())) > config.max_tokens * config.threshold_percent / 100 {
                exists|cc: CompressedConversation|
                    compressed_from(cc, self.msgs(), self.system_count(), config) && projected(
                        r.msgs(),
                        cc.system_message,
                        history_of(cc),
                        cc.preserved_messages@,
                    ) && r.system_count() == (if cc.system_message.is_some() { 1nat } else { 0nat })
                        + (if cc.compressed_history.is_some() { 1nat } else { 0nat })
            } else {
                r.msgs() == self.msgs() && r.max() == self.max() && r.system_count() == self.system_count()
            },
    {
        let compressor = ContextCompressor::with_config(config);
        if compressor.should_compress(self) {
            let cc = compressor.compress(self);
            cc.to_conversation()
        } else {
            self.duplicate()
        }
    }

    /// The conversation compressed under the default configuration where
    /// its estimate is over the threshold, an identical copy otherwise.
    pub fn compress(&self) -> (r: Conversation)
        requires
            self.wf(),
        ensures
            r.wf(),
            if sat(total_tokens(self.msgs())) > 64000 {
                exists|cc: CompressedConversation|
                    compressed_from(cc, self.msgs(), self.system_count(), default_config()) && projected(
                        r.msgs(),
                        cc.system_message,
                        history_of(cc),
                        cc.preserved_messages@,
                    )
            } else {
                r.msgs() == self.msgs() && r.max() == self.max() && r.system_count() == self.system_count()
            },
    {
        let config = CompressionConfig::default();
        assert(config == default_config());
        assert(config.max_tokens * config.threshold_percent / 100 == 64000);
        self.compress_with_config(config)
    }

    /// Number of system messages; they lead the conversation.
    pub fn system_count_exec(&self) -> (r: usize)
        ensures
            r == self.system_count(),
    {
        self.n_system
    }

    pub fn messages(&self) -> (r: &[Message])
        ensures
            r@ == self.msgs(),
    {
        self.messages.as_slice()
    }

    pub fn last(&self) -> (r: Option<&Message>)
        ensures
            r == (if self.msgs().len() == 0 { None } else { Some(&self.msgs().last()) }),
    {
        if self.messages.len() == 0 {
            None
        } else {
            Some(&self.messages[self.messages.len() - 1])
        }
    }

    pub fn len(&self) -> (r: usize)
        ensures
            r == self.msgs().len(),
    {
        self.messages.len()
    }

    pub fn is_empty(&self) -> (r: bool)
        ensures
            r == (self.msgs().len() == 0),
    {
        self.messages.len() == 0
    }

    /// Empties the conversation but for its first system message.
    pub fn clear(&mut self)
        requires
            old(self).wf(),
        ensures
            final(self).wf(),
            final(self).max() == old(self).max(),
            final(self).msgs() == (if old(self).system_count() > 0 {
                seq![old(self).msgs()[0]]
            } else {
                Seq::<Message>::empty()
            }),
    {
        if self.n_system > 0 {
            self.messages.truncate(1);
            self.n_system = 1;
        } else {
            self.messages.clear();
        }
        assert(self.msgs() =~= (if old(self).system_count() > 0 {
            seq![old(self).msgs()[0]]
        } else {
            Seq::<Message>::empty()
        }));
    }

    /// The conversation as one prompt text, each message tagged with its
    /// role, ending with the cue for the assistant's turn.
    pub fn to_prompt(&self) -> (r: String)
        ensures
            r@ == prompt_body(self.msgs()) + "Assistant: "@,
    {
        let mut out: Vec<char> = Vec::new();
        let mut i: usize = 0;
        while i < self.messages.len()
            invariant
                i <= self.msgs().len(),
                out@ == prompt_body(self.msgs().subrange(0, i as int)),
            decreases self.msgs().len() - i,
        {
            let m = &self.messages[i];
            let ghost before = out@;
            match m.role {
                Role::System => push_str(&mut out, "System: "),
                Role::User => push_str(&mut out, "User: "),
                Role::Assistant => push_str(&mut out, "Assistant: "),
                Role::Tool => {
                    push_str(&mut out, "Tool (");
                    match &m.tool_name {
                        Some(n) => push_str(&mut out, n.as_str()),
                        None => push_str(&mut out, "unknown"),
                    }
                    push_str(&mut out, "): ");
                },
            }
            push_str(&mut out, m.content.as_str());
            push_str(&mut out, "\n\n");
            assert(self.msgs().subrange(0, i + 1).drop_last() =~= self.msgs().subrange(0, i as int));
            assert(out@ =~= before + prompt_entry(*m));
            i += 1;
        }
        assert(self.msgs().subrange(0, i as int) =~= self.msgs());
        push_str(&mut out, "Assistant: ");
        string_of(out.as_slice())
    }
}

} // verus!
