//! The saved form of conversations, and where they are saved.
use vstd::prelude::*;
use crate::conversation::{message_ok, Conversation, Message, Role};
use crate::text::{chars_of, push_str, str_eq, string_of};

verus! {

/// A saved message: its role by name.
#[derive(Debug, Clone)]
pub struct PersistedMessage {
    pub role: String,
    pub content: String,
    pub tool_name: Option<String>,
    pub timestamp: Option<u64>,
}

/// Facts about a saved conversation.
#[derive(Debug, Clone)]
pub struct ConversationMetadata {
    pub created_at: Option<u64>,
    pub model: Option<String>,
    pub project_path: Option<String>,
}

impl Default for ConversationMetadata {
    fn default() -> (r: ConversationMetadata)
        ensures
            r.created_at.is_none(),
            r.model.is_none(),
            r.project_path.is_none(),
    {
        ConversationMetadata { created_at: None, model: None, project_path: None }
    }
}

/// A saved conversation.
#[derive(Debug, Clone)]
pub struct PersistedConversation {
    pub name: String,
    pub saved_at: u64,
    pub messages: Vec<PersistedMessage>,
    pub metadata: ConversationMetadata,
}

/// One line of the list of saved conversations.
#[derive(Debug, Clone)]
pub struct HistoryEntry {
    pub name: String,
    pub saved_at: u64,
    pub message_count: usize,
    pub path: String,
}

/// The saved name of a role.
pub open spec fn role_name(r: Role) -> Seq<char> {
    match r {
        Role::System => "system"@,
        Role::User => "user"@,
        Role::Assistant => "assistant"@,
        Role::Tool => "tool"@,
    }
}

/// The role that a saved name stands for; an unknown name reads as user.
pub open spec fn role_of_name(s: Seq<char>) -> Role {
    if s == "system"@ {
        Role::System
    } else if s == "assistant"@ {
        Role::Assistant
    } else if s == "tool"@ {
        Role::Tool
    } else {
        Role::User
    }
}

/// A file name character that the file system may not take.
pub open spec fn reserved(c: char) -> bool {
    c == '/' || c == '\\' || c == ':' || c == '*' || c == '?' || c == '"' || c == '<' || c == '>' || c == '|'
}

/// `name` with each reserved character replaced by `_`.
pub open spec fn sanitized(name: Seq<char>) -> Seq<char> {
    Seq::new(name.len(), |i: int| if reserved(name[i]) { '_' } else { name[i] })
}

/// Saves conversations as files in one directory.
pub struct HistoryManager {
    history_dir: String,
}

impl HistoryManager {
    pub closed spec fn dir(&self) -> Seq<char> {
        self.history_dir@
    }

    /// A manager saving in `history_dir`.
    pub fn with_directory(history_dir: String) -> (r: HistoryManager)
        ensures
            r.dir() == history_dir@,
    {
        HistoryManager { history_dir }
    }

    pub fn history_dir(&self) -> (r: &String)
        ensures
            r@ == self.dir(),
    {
        &self.history_dir
    }

    /// The file that the conversation `name` is saved in.
    pub fn file_path(&self, name: &str) -> (r: String)
        ensures
            r@ == self.dir() + "/"@ + sanitized(name@) + ".json"@,
    {
        let mut v = chars_of(self.history_dir.as_str());
        push_str(&mut v, "/");
        let s = Self::sanitize_filename(name);
        push_str(&mut v, s.as_str());
        push_str(&mut v, ".json");
        string_of(v.as_slice())
    }

    /// `name` with `/ \ : * ? " < > |` replaced by `_`.
    pub fn sanitize_filename(name: &str) -> (r: String)
        ensures
            r@ == sanitized(name@),
    {
        let c = chars_of(name);
        let mut out: Vec<char> = Vec::new();
        let mut i: usize = 0;
        while i < c.len()
            invariant
                i <= c@.len(),
                c@ == name@,
                out@ == sanitized(name@).subrange(0, i as int),
            decreases c@.len() - i,
        {
            let ch = c[i];
            let reserved_char = ch == '/' || ch == '\\' || ch == ':' || ch == '*' || ch == '?' || ch == '"'
                || ch == '<' || ch == '>' || ch == '|';
            out.push(if reserved_char { '_' } else { ch });
            i += 1;
            assert(out@ =~= sanitized(name@).subrange(0, i as int));
        }
        assert(sanitized(name@).subrange(0, i as int) =~= sanitized(name@));
        string_of(out.as_slice())
    }

    /// The saved form of a message.
    pub fn message_to_persisted(msg: &Message) -> (r: PersistedMessage)
        ensures
            r.role@ == role_name(msg.role),
            r.content == msg.content,
            r.tool_name == msg.tool_name,
            r.timestamp == msg.timestamp,
    {
        let role = match msg.role {
            Role::System => "system",
            Role::User => "user",
            Role::Assistant => "assistant",
            Role::Tool => "tool",
        };
        let tool_name = match &msg.tool_name {
            Some(n) => Some(n.clone()),
            None => None,
        };
        PersistedMessage { role: String::from_str(role), content: msg.content.clone(), tool_name, timestamp: msg.timestamp }
    }

    /// The message that a saved message stands for.
    pub fn persisted_to_message(persisted: &PersistedMessage) -> (r: Message)
        ensures
            r.role == role_of_name(persisted.role@),
            r.content == persisted.content,
            r.tool_name == persisted.tool_name,
            r.timestamp == persisted.timestamp,
    {
        let s = persisted.role.as_str();
        let role = if str_eq(s, "system") {
            Role::System
        } else if str_eq(s, "assistant") {
            Role::Assistant
        } else if str_eq(s, "tool") {
            Role::Tool
        } else {
            Role::User
        };
        let tool_name = match &persisted.tool_name {
            Some(n) => Some(n.clone()),
            None => None,
        };
        Message { role, content: persisted.content.clone(), tool_name, timestamp: persisted.timestamp }
    }

    /// The saved form of a conversation, named `name` and saved at `now`.
    pub fn to_persisted(name: &str, conversation: &Conversation, now: u64) -> (r: PersistedConversation)
        ensures
            r.name@ == name@,
            r.saved_at == now,
            r.messages@.len() == conversation.msgs().len(),
            forall|i: int| 0 <= i < r.messages@.len() ==> {
                let p = #[trigger] r.messages@[i];
                let m = conversation.msgs()[i];
                p.role@ == role_name(m.role) && p.content == m.content && p.tool_name == m.tool_name
            },
    {
        let msgs = conversation.messages();
        let mut out: Vec<PersistedMessage> = Vec::new();
        let mut i: usize = 0;
        while i < msgs.len()
            invariant
                i <= msgs@.len(),
                msgs@ == conversation.msgs(),
                out@.len() == i,
                forall|j: int| 0 <= j < i ==> {
                    let p = #[trigger] out@[j];
                    let m = msgs@[j];
                    p.role@ == role_name(m.role) && p.content == m.content && p.tool_name == m.tool_name
                },
            decreases msgs@.len() - i,
        {
            out.push(Self::message_to_persisted(&msgs[i]));
            i += 1;
        }
        PersistedConversation {
            name: String::from_str(name),
            saved_at: now,
            messages: out,
            metadata: ConversationMetadata::default(),
        }
    }

    /// The list entry of a saved conversation found at `path`.
    pub fn entry_of(persisted: &PersistedConversation, path: String) -> (r: HistoryEntry)
        ensures
            r.name == persisted.name,
            r.saved_at == persisted.saved_at,
            r.message_count == persisted.messages@.len(),
            r.path == path,
    {
        HistoryEntry {
            name: persisted.name.clone(),
            saved_at: persisted.saved_at,
            message_count: persisted.messages.len(),
            path,
        }
    }
}

/// Relies on `slice::sort_by` with the saved times compared newest first:
/// the same number of entries, ordered by time, newest first.
#[verifier::external_body]
fn sort_newest_first(v: &mut Vec<HistoryEntry>)
    ensures
        final(v)@.len() == old(v)@.len(),
        forall|i: int, j: int| 0 <= i < j < final(v)@.len() ==> final(v)@[i].saved_at >= final(v)@[j].saved_at,
        forall|e: HistoryEntry| final(v)@.contains(e) <==> old(v)@.contains(e),
{
    v.sort_by(|a, b| b.saved_at.cmp(&a.saved_at));
}

impl HistoryManager {
    /// The list entries, newest first.
    pub fn sort_entries(entries: Vec<HistoryEntry>) -> (r: Vec<HistoryEntry>)
        ensures
            r@.len() == entries@.len(),
            forall|i: int, j: int| 0 <= i < j < r@.len() ==> r@[i].saved_at >= r@[j].saved_at,
            forall|e: HistoryEntry| r@.contains(e) <==> entries@.contains(e),
    {
        let mut v = entries;
        sort_newest_first(&mut v);
        v
    }
}

/// Saving then loading a message keeps its role and content, and its tool
/// name, which a well-formed message has exactly when it is tool output.
pub proof fn persist_round_trip(m: Message, p: PersistedMessage, back: Message)
    requires
        message_ok(m),
        p.role@ == role_name(m.role),
        p.content == m.content,
        p.tool_name == m.tool_name,
        back.role == role_of_name(p.role@),
        back.content == p.content,
        back.tool_name == p.tool_name,
    ensures
        back.role == m.role,
        back.content@ == m.content@,
        back.tool_name.is_some() <==> back.role == Role::Tool,
        back.tool_name == m.tool_name,
{
    reveal_strlit("system");
    reveal_strlit("user");
    reveal_strlit("assistant");
    reveal_strlit("tool");
    if m.role == Role::User {
        assert("user"@ != "system"@ && "user"@ != "assistant"@ && "user"@ != "tool"@) by {
            assert("user"@[0] != "system"@[0]);
            assert("user"@.len() != "assistant"@.len());
            assert("user"@[0] != "tool"@[0]);
        }
    }
    if m.role == Role::Assistant {
        assert("assistant"@ != "system"@) by {
            assert("assistant"@.len() != "system"@.len());
        }
    }
    if m.role == Role::Tool {
        assert("tool"@ != "system"@ && "tool"@ != "assistant"@) by {
            assert("tool"@.len() != "system"@.len());
            assert("tool"@.len() != "assistant"@.len());
        }
    }
}

impl HistoryManager {
    /// The messages that a saved conversation stands for, in order.
    pub fn messages_of(persisted: &PersistedConversation) -> (r: Vec<Message>)
        ensures
            r@.len() == persisted.messages@.len(),
            forall|i: int| 0 <= i < r@.len() ==> {
                let m = #[trigger] r@[i];
                let p = persisted.messages@[i];
                m.role == role_of_name(p.role@) && m.content == p.content && m.tool_name == p.tool_name
            },
    {
        let mut out: Vec<Message> = Vec::new();
        let mut i: usize = 0;
        while i < persisted.messages.len()
            invariant
                i <= persisted.messages@.len(),
                out@.len() == i,
                forall|j: int| 0 <= j < i ==> {
                    let m = #[trigger] out@[j];
                    let p = persisted.messages@[j];
                    m.role == role_of_name(p.role@) && m.content == p.content && m.tool_name == p.tool_name
                },
            decreases persisted.messages@.len() - i,
        {
            out.push(Self::persisted_to_message(&persisted.messages[i]));
            i += 1;
        }
        out
    }
}

/// Saving a conversation and reading its messages back keeps every
/// message's role and content in order, and its tool name, which a
/// well-formed message has exactly on tool output.
pub proof fn persist_conversation_round_trip(c: Seq<Message>, p: Seq<PersistedMessage>, back: Seq<Message>)
    requires
        forall|i: int| 0 <= i < c.len() ==> message_ok(#[trigger] c[i]),
        p.len() == c.len(),
        forall|i: int| 0 <= i < p.len() ==> {
            let q = #[trigger] p[i];
            q.role@ == role_name(c[i].role) && q.content == c[i].content && q.tool_name == c[i].tool_name
        },
        back.len() == p.len(),
        forall|i: int| 0 <= i < back.len() ==> {
            let m = #[trigger] back[i];
            m.role == role_of_name(p[i].role@) && m.content == p[i].content && m.tool_name == p[i].tool_name
        },
    ensures
        back.len() == c.len(),
        forall|i: int| 0 <= i < c.len() ==> (#[trigger] back[i]).role == c[i].role && back[i].content@ == c[i].content@
            && back[i].tool_name == c[i].tool_name && (back[i].tool_name.is_some() <==> back[i].role == Role::Tool),
{
    assert forall|i: int| 0 <= i < c.len() implies (#[trigger] back[i]).role == c[i].role && back[i].content@
        == c[i].content@ && back[i].tool_name == c[i].tool_name && (back[i].tool_name.is_some() <==> back[i].role
        == Role::Tool) by {
        let q = p[i];
        assert(message_ok(c[i]));
        persist_round_trip(c[i], q, back[i]);
    }
}

} // verus!
