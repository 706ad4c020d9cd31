//! Roles, messages and conversations.

use vstd::prelude::*;

verus! {

/// Who speaks a message.
#[derive(Clone, Copy, Debug, PartialEq, Eq, Structural)]
pub enum Role {
    System,
    User,
    Assistant,
    Tool,
    Function,
}

/// A role that is not given is the user's.
impl Default for Role {
    fn default() -> (r: Role)
        ensures
            r == Role::User,
    {
        Role::User
    }
}

/// The speaker label that LLaMA-style prompts put in front of a message of
/// the role. System messages are labelled as the assistant's.
pub open spec fn llama_label(role: Role) -> Seq<char> {
    match role {
        Role::System => "### Assistant"@,
        Role::User => "### User"@,
        Role::Assistant => "### Assistant"@,
        Role::Tool => "### Tool"@,
        Role::Function => "### Function"@,
    }
}

/// The role that a message gets when it is made with `role`.
pub open spec fn role_or_default(role: Option<Role>) -> Role {
    match role {
        Some(r) => r,
        None => Role::User,
    }
}

/// A message keeps the role it is given, whichever it is, and one made
/// without a role is the user's.
pub proof fn lemma_given_role_is_kept(r: Role)
    ensures
        role_or_default(Some(r)) == r,
        role_or_default(None) == Role::User,
{
}

impl Role {
    /// The speaker label of this role in a LLaMA prompt.
    pub fn to_llama(&self) -> (label: &'static str)
        ensures
            label@ == llama_label(*self),
    {
        match self {
            Role::System => "### Assistant",
            Role::User => "### User",
            Role::Assistant => "### Assistant",
            Role::Tool => "### Tool",
            Role::Function => "### Function",
        }
    }
}

/// One message of a conversation.
#[derive(Clone, Debug)]
pub struct Message {
    pub role: Role,
    pub content: String,
}

impl Message {
    /// A message with the given role, or the user's role when none is given.
    pub fn new(role: Option<Role>, content: String) -> (m: Message)
        ensures
            m.role == role_or_default(role),
            role matches Some(r) ==> m.role == r,
            role is None ==> m.role == Role::User,
            m.content@ == content@,
    {
        let role = match role {
            Some(r) => r,
            None => Role::default(),
        };
        Message { role, content }
    }

    /// Whether the user speaks this message.
    pub fn is_user(&self) -> (r: bool)
        ensures
            r == (self.role == Role::User),
    {
        self.role == Role::User
    }
}

/// The empty message of the user.
impl Default for Message {
    fn default() -> (m: Message)
        ensures
            m.role == Role::User,
            m.content@.len() == 0,
    {
        Message { role: Role::default(), content: String::new() }
    }
}

impl PartialEq for Message {
    fn eq(&self, other: &Message) -> (r: bool) {
        self.role == other.role && self.content == other.content
    }
}

impl vstd::std_specs::cmp::PartialEqSpecImpl for Message {
    open spec fn obeys_eq_spec() -> bool {
        true
    }

    open spec fn eq_spec(&self, other: &Message) -> bool {
        self.role == other.role && self.content@ == other.content@
    }
}

/// The messages exchanged so far, oldest first.
#[derive(Clone, Debug)]
pub struct Conversation {
    pub messages: Vec<Message>,
}

impl Conversation {
    /// A conversation without messages.
    pub fn new() -> (c: Conversation)
        ensures
            c.messages@.len() == 0,
    {
        Conversation { messages: Vec::new() }
    }
}

} // verus!
