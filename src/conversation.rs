//! Conversation bookkeeping: the running history of turns, how a reply or a
//! failed completion is recorded, and the commands a typed line stands for.
use vstd::prelude::*;
use vstd::string::*;
use crate::chunker::is_whitespace;
use crate::context::{augment, augmented, SearchHit, MAX_CONTEXT_LEN, RELEVANCE_CUTOFF};

verus! {

/// The most internal tool-use turns one completion may take.
pub const MAX_TOOL_TURNS: usize = 20;

/// Who spoke a turn.
#[derive(Clone, Copy, Debug, PartialEq, Eq, Structural)]
pub enum Role {
    User,
    Assistant,
}

/// One message of the conversation.
pub struct Turn {
    pub role: Role,
    pub content: String,
}

pub open spec fn turn_view(t: Turn) -> (Role, Seq<char>) {
    (t.role, t.content@)
}

/// The history after one exchange: the user's message always stays; the
/// assistant's reply follows it when the completion succeeded.
pub open spec fn after_turn(
    history: Seq<(Role, Seq<char>)>,
    message: Seq<char>,
    reply: Option<Seq<char>>,
) -> Seq<(Role, Seq<char>)> {
    match reply {
        Some(text) => history.push((Role::User, message)).push((Role::Assistant, text)),
        None => history.push((Role::User, message)),
    }
}

/// A completion that fails keeps every earlier turn and the user's message,
/// so the next exchange goes on from that history; a successful one keeps
/// them too.
pub proof fn failed_turn_keeps_history(
    history: Seq<(Role, Seq<char>)>,
    message: Seq<char>,
    reply: Option<Seq<char>>,
)
    ensures
        after_turn(history, message, None) == history.push((Role::User, message)),
        history.is_prefix_of(after_turn(history, message, reply)),
        after_turn(history, message, reply)[history.len() as int] == (Role::User, message),
{
    let h = after_turn(history, message, reply);
    assert(h.subrange(0, history.len() as int) =~= history);
}

/// Retrieval-augmented prompting for a conversation: builds the prompt for a
/// query from its search results, and resets the history whenever fresh
/// retrieved context is injected.
pub trait RagMiddleware {
    spec fn history_turns(&self) -> Seq<(Role, Seq<char>)>;

    fn query_rag(&mut self, query: &str, hits: &Vec<SearchHit>) -> (r: String)
        ensures
            r@ == augmented(query@, hits@, RELEVANCE_CUTOFF as int, MAX_CONTEXT_LEN as int),
            hits@.len() == 0 ==> r@ == query@ && final(self).history_turns() == old(self).history_turns(),
            hits@.len() > 0 ==> final(self).history_turns().len() == 0,
    ;
}

/// The running history of one conversation.
pub struct Conversation {
    history: Vec<Turn>,
}

impl Conversation {
    pub closed spec fn turns(&self) -> Seq<(Role, Seq<char>)> {
        self.history@.map_values(|t: Turn| turn_view(t))
    }

    /// A conversation with no turns yet.
    pub fn new() -> (r: Conversation)
        ensures
            r.turns().len() == 0,
    {
        Conversation { history: Vec::new() }
    }

    /// The turns so far, oldest first.
    pub fn history(&self) -> (r: &Vec<Turn>)
        ensures
            r@.map_values(|t: Turn| turn_view(t)) == self.turns(),
    {
        &self.history
    }

    /// Forgets every turn.
    pub fn clear(&mut self)
        ensures
            final(self).turns().len() == 0,
    {
        self.history.clear();
    }

    fn push_turn(&mut self, role: Role, content: &str)
        ensures
            final(self).turns() == old(self).turns().push((role, content@)),
    {
        let t = Turn { role, content: String::from_str(content) };
        self.history.push(t);
        assert(self.turns() =~= old(self).turns().push((role, content@)));
    }

    /// Records one exchange: the message sent, then the reply when the
    /// completion succeeded (`None` when it failed).
    pub fn record_turn(&mut self, message: &str, reply: Option<&str>)
        ensures
            reply is None ==> final(self).turns() == after_turn(old(self).turns(), message@, None),
            reply is Some ==> final(self).turns() == after_turn(
                old(self).turns(),
                message@,
                Some(reply->Some_0@),
            ),
    {
        self.push_turn(Role::User, message);
        match reply {
            Some(text) => self.push_turn(Role::Assistant, text),
            None => {},
        }
    }
}

impl RagMiddleware for Conversation {
    open spec fn history_turns(&self) -> Seq<(Role, Seq<char>)> {
        self.turns()
    }

    fn query_rag(&mut self, query: &str, hits: &Vec<SearchHit>) -> (r: String) {
        if hits.len() > 0 {
            self.clear();
        }
        augment(query, hits)
    }
}

/// What a typed line asks for.
#[derive(Clone, Copy, Debug, PartialEq, Eq, Structural)]
pub enum Command {
    Quit,
    Ask,
}

/// The word that ends the session.
pub open spec fn quit_word() -> Seq<char> {
    seq!['q', 'u', 'i', 't']
}

/// The text without its leading whitespace.
pub open spec fn trim_start(s: Seq<char>) -> Seq<char>
    decreases s.len(),
{
    if s.len() > 0 && is_whitespace(s[0]) {
        trim_start(s.drop_first())
    } else {
        s
    }
}

/// The text without its trailing whitespace.
pub open spec fn trim_end(s: Seq<char>) -> Seq<char>
    decreases s.len(),
{
    if s.len() > 0 && is_whitespace(s.last()) {
        trim_end(s.drop_last())
    } else {
        s
    }
}

/// The text with leading and trailing whitespace removed.
pub open spec fn trimmed(s: Seq<char>) -> Seq<char> {
    trim_end(trim_start(s))
}

/// Relies on str::trim: it removes the leading and trailing characters that
/// have the Unicode White_Space property.
#[verifier::external_body]
fn trim(s: &str) -> (r: &str)
    ensures
        r@ == trimmed(s@),
{
    s.trim()
}

/// Whether two texts hold the same characters.
fn same_text(a: &str, b: &str) -> (r: bool)
    ensures
        r == (a@ == b@),
{
    let n = a.unicode_len();
    if n != b.unicode_len() {
        return false;
    }
    let mut i: usize = 0;
    while i < n
        invariant
            n == a@.len(),
            n == b@.len(),
            i <= n,
            forall|j: int| 0 <= j < i ==> a@[j] == b@[j],
        decreases n - i,
    {
        if a.get_char(i) != b.get_char(i) {
            return false;
        }
        i = i + 1;
    }
    assert(a@ =~= b@);
    true
}

/// The command of an already trimmed line: `quit` ends the session, anything
/// else is a question.
pub fn command_of_trimmed(t: &str) -> (r: Command)
    ensures
        r == (if t@ == quit_word() {
            Command::Quit
        } else {
            Command::Ask
        }),
{
    proof {
        reveal_strlit("quit");
        assert("quit"@ =~= quit_word());
    }
    if same_text(t, "quit") {
        Command::Quit
    } else {
        Command::Ask
    }
}

/// The command a typed line stands for, ignoring surrounding whitespace.
pub fn parse_command(line: &str) -> (r: Command)
    ensures
        r == (if trimmed(line@) == quit_word() {
            Command::Quit
        } else {
            Command::Ask
        }),
{
    command_of_trimmed(trim(line))
}

} // verus!
