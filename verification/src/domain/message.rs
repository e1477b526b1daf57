//! One turn of a conversation.

use vstd::prelude::*;
use vstd::string::StringExecFns;

verus! {

/// Who speaks a turn.
#[derive(Debug, Clone, Copy, PartialEq, Eq, Structural)]
pub enum Role {
    /// Instructions framing the conversation.
    System,
    /// The person asking.
    User,
    /// The model's earlier replies.
    Assistant,
}

/// The wire name of a role.
pub open spec fn role_name(role: Role) -> Seq<char> {
    match role {
        Role::System => "system"@,
        Role::User => "user"@,
        Role::Assistant => "assistant"@,
    }
}

/// Law: each role has a wire name of its own, `system`, `user` or
/// `assistant`; no two roles share a name, so a turn's speaker is never
/// mistaken for another.
pub proof fn law_each_role_has_its_own_name(a: Role, b: Role)
    ensures
        role_name(Role::System) == "system"@,
        role_name(Role::User) == "user"@,
        role_name(Role::Assistant) == "assistant"@,
        role_name(a) == role_name(b) <==> a == b,
{
    reveal_strlit("system");
    reveal_strlit("user");
    reveal_strlit("assistant");
    if a != b {
        assert(role_name(a)[0] != role_name(b)[0] || role_name(a).len() != role_name(b).len());
    }
}

impl Role {
    /// The name both APIs use for this role.
    pub fn as_str(self) -> (s: &'static str)
        ensures
            s@ == role_name(self),
    {
        match self {
            Role::System => "system",
            Role::User => "user",
            Role::Assistant => "assistant",
        }
    }
}

/// One turn: who said it, and what.
#[derive(Debug, Clone, PartialEq)]
pub struct Message {
    pub role: Role,
    pub content: String,
}

impl Message {
    /// A turn spoken by `role`.
    pub fn new(role: Role, content: &str) -> (m: Message)
        ensures
            m.role == role,
            m.content@ == content@,
    {
        Message { role, content: String::from_str(content) }
    }

    /// A system turn.
    pub fn system(content: &str) -> (m: Message)
        ensures
            m.role == Role::System,
            m.content@ == content@,
    {
        Message::new(Role::System, content)
    }

    /// A user turn.
    pub fn user(content: &str) -> (m: Message)
        ensures
            m.role == Role::User,
            m.content@ == content@,
    {
        Message::new(Role::User, content)
    }

    /// An assistant turn.
    pub fn assistant(content: &str) -> (m: Message)
        ensures
            m.role == Role::Assistant,
            m.content@ == content@,
    {
        Message::new(Role::Assistant, content)
    }

    /// A copy of this turn.
    pub fn duplicate(&self) -> (m: Message)
        ensures
            m == *self,
    {
        Message { role: self.role, content: self.content.clone() }
    }
}

/// A copy of every turn, in order.
pub fn copy_messages(messages: &Vec<Message>) -> (r: Vec<Message>)
    ensures
        r@ == messages@,
{
    let mut r: Vec<Message> = Vec::new();
    let mut i: usize = 0;
    while i < messages.len()
        invariant
            i <= messages.len(),
            r@ == messages@.take(i as int),
        decreases messages.len() - i,
    {
        r.push(messages[i].duplicate());
        assert(messages@.take(i + 1) == messages@.take(i as int).push(messages@[i as int]));
        i = i + 1;
    }
    assert(messages@.take(messages.len() as int) == messages@);
    r
}

} // verus!
