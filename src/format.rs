//! The command formatter: turns a relayed chat message into the console line
//! that shows it, quoting the text so that it cannot leave its literal.
use vstd::prelude::*;
use vstd::string::*;

verus! {

broadcast use vstd::string::axiom_spec_iter;

/// A chat message on its way to the game server.
#[derive(Debug)]
pub struct IncomingDiscordMessage {
    pub username: String,
    pub content: String,
}

/// A line for the server's input: a relayed chat message, or text typed by the
/// local operator, which goes through untouched.
#[derive(Debug)]
pub enum StdinMessage {
    DiscordMessage(IncomingDiscordMessage),
    UserInput(String),
}

/// The marker put before the name of an automated sender.
pub open spec fn bot_marker() -> Seq<char> {
    seq!['[', 'B', 'O', 'T', ']', ' ']
}

/// What one character becomes inside a quoted literal.
pub open spec fn escape_char(c: char) -> Seq<char> {
    if c == '\\' || c == '"' {
        seq!['\\', c]
    } else {
        seq![c]
    }
}

/// `s` with each backslash and double quote preceded by a backslash.
pub open spec fn escape_spec(s: Seq<char>) -> Seq<char>
    decreases s.len(),
{
    if s.len() == 0 {
        Seq::empty()
    } else {
        escape_spec(s.drop_last()) + escape_char(s.last())
    }
}

/// The console line for a message from `name` saying `body`:
/// `prefix "<name> body"` and a line break, name and body escaped.
pub open spec fn command_spec(prefix: Seq<char>, name: Seq<char>, body: Seq<char>) -> Seq<char> {
    prefix + seq![' ', '"', '<'] + escape_spec(name) + seq!['>', ' '] + escape_spec(body) + seq![
        '"',
        '\n',
    ]
}

/// How the console reads a quoted literal whose opening quote is already
/// consumed: a backslash takes the next character as it is, and an unescaped
/// double quote ends the literal. Gives the literal's text and what follows
/// the closing quote, or `None` if the literal never closes.
pub open spec fn read_quoted(t: Seq<char>) -> Option<(Seq<char>, Seq<char>)>
    decreases t.len(),
{
    if t.len() == 0 {
        None
    } else if t[0] == '"' {
        Some((Seq::empty(), t.drop_first()))
    } else if t[0] == '\\' {
        if t.len() < 2 {
            None
        } else {
            match read_quoted(t.subrange(2, t.len() as int)) {
                Some((text, rest)) => Some((seq![t[1]] + text, rest)),
                None => None,
            }
        }
    } else {
        match read_quoted(t.drop_first()) {
            Some((text, rest)) => Some((seq![t[0]] + text, rest)),
            None => None,
        }
    }
}

/// Relies on `String::push`: appends one character.
#[verifier::external_body]
pub(crate) fn push_char(s: &mut String, c: char)
    ensures
        final(s)@ == old(s)@.push(c),
{
    s.push(c)
}

/// Appends the escaped form of `s` to `out`.
fn push_escaped(out: &mut String, s: &str)
    ensures
        final(out)@ == old(out)@ + escape_spec(s@),
{
    let ghost start = out@;
    for c in it: s.chars()
        invariant
            it.seq() == s@,
            out@ == start + escape_spec(s@.take(it.index() as int)),
    {
        let ghost i = it.index() as int;
        if c == '\\' || c == '"' {
            push_char(out, '\\');
        }
        push_char(out, c);
        proof {
            assert(s@.take(i + 1).drop_last() =~= s@.take(i));
            assert(out@ =~= start + escape_spec(s@.take(i + 1)));
        }
    }
    proof {
        assert(s@.take(s@.len() as int) =~= s@);
    }
}

/// `inp` with each backslash and double quote preceded by a backslash.
pub fn escape_for_component(inp: &str) -> (r: String)
    ensures
        r@ == escape_spec(inp@),
{
    let mut out = String::new();
    push_escaped(&mut out, inp);
    out
}

impl IncomingDiscordMessage {
    /// The message as seen by the game server: for a message the gateway
    /// delivered on the watched channel, not posted by this bridge's own
    /// webhook and not empty; the author's name carries the automated-sender
    /// marker when the author is a bot.
    pub fn from_gateway(
        channel_id: u64,
        watched_channel_id: u64,
        webhook_id: Option<u64>,
        own_webhook_id: u64,
        author_name: &str,
        author_is_bot: bool,
        content: &str,
    ) -> (r: Option<IncomingDiscordMessage>)
        ensures
            r is Some <==> (channel_id == watched_channel_id && webhook_id != Some(own_webhook_id)
                && content@.len() > 0),
            r matches Some(m) ==> m.content@ == content@ && m.username@ == (if author_is_bot {
                bot_marker() + author_name@
            } else {
                author_name@
            }),
    {
        let from_own_webhook = match webhook_id {
            Some(id) => id == own_webhook_id,
            None => false,
        };
        if channel_id != watched_channel_id || from_own_webhook || content.is_empty() {
            return None;
        }
        let mut username = String::new();
        if author_is_bot {
            push_char(&mut username, '[');
            push_char(&mut username, 'B');
            push_char(&mut username, 'O');
            push_char(&mut username, 'T');
            push_char(&mut username, ']');
            push_char(&mut username, ' ');
        }
        username.append(author_name);
        assert(author_is_bot ==> username@ =~= bot_marker() + author_name@);
        assert(!author_is_bot ==> username@ =~= author_name@);
        Some(IncomingDiscordMessage { username, content: content.to_owned() })
    }

    /// The console line that shows this message to the players.
    pub fn create_command(self, tellraw_prefix: &str) -> (r: String)
        ensures
            r@ == command_spec(tellraw_prefix@, self.username@, self.content@),
    {
        let mut out = tellraw_prefix.to_owned();
        push_char(&mut out, ' ');
        push_char(&mut out, '"');
        push_char(&mut out, '<');
        push_escaped(&mut out, self.username.as_str());
        push_char(&mut out, '>');
        push_char(&mut out, ' ');
        push_escaped(&mut out, self.content.as_str());
        push_char(&mut out, '"');
        push_char(&mut out, '\n');
        assert(out@ =~= command_spec(tellraw_prefix@, self.username@, self.content@));
        out
    }
}

impl StdinMessage {
    /// The text this line puts on the server's input.
    pub open spec fn text_spec(&self, tellraw_prefix: Seq<char>) -> Seq<char> {
        match self {
            StdinMessage::DiscordMessage(m) => command_spec(tellraw_prefix, m.username@, m.content@),
            StdinMessage::UserInput(s) => s@,
        }
    }

    /// The text this line puts on the server's input.
    pub fn as_string(self, tellraw_prefix: &str) -> (r: String)
        ensures
            r@ == self.text_spec(tellraw_prefix@),
    {
        match self {
            StdinMessage::DiscordMessage(m) => m.create_command(tellraw_prefix),
            StdinMessage::UserInput(input) => input,
        }
    }
}

/// Reading an escaped text back through a quoted literal gives the text, and
/// leaves what follows it to be read as before.
pub proof fn lemma_read_escaped(s: Seq<char>, rest: Seq<char>)
    ensures
        read_quoted(escape_spec(s) + rest) == match read_quoted(rest) {
            Some((text, after)) => Some((s + text, after)),
            None => None,
        },
    decreases s.len(),
{
    if s.len() > 0 {
        let c = s.last();
        let init = s.drop_last();
        let tail = escape_char(c) + rest;
        assert(escape_spec(s) + rest =~= escape_spec(init) + tail);
        lemma_read_escaped(init, tail);
        if c == '\\' || c == '"' {
            assert(tail.subrange(2, tail.len() as int) =~= rest);
        } else {
            assert(tail.drop_first() =~= rest);
        }
        match read_quoted(rest) {
            Some((text, after)) => {
                assert(init + (seq![c] + text) =~= s + text);
            },
            None => {},
        }
    } else {
        assert(escape_spec(s) + rest =~= rest);
        match read_quoted(rest) {
            Some((text, after)) => {
                assert(s + text =~= text);
            },
            None => {},
        }
    }
}

/// A command built from any name and body, read by the console's quoting
/// rules from its opening quote, gives back `<name> body` exactly, and the
/// literal closes just before the final line break.
pub proof fn lemma_command_round_trip(prefix: Seq<char>, name: Seq<char>, body: Seq<char>)
    ensures
        read_quoted(command_spec(prefix, name, body).subrange(
            prefix.len() + 2int,
            command_spec(prefix, name, body).len() as int,
        )) == Some((seq!['<'] + name + seq!['>', ' '] + body, seq!['\n'])),
{
    let cmd = command_spec(prefix, name, body);
    let closing = seq!['"', '\n'];
    let body_rest = escape_spec(body) + closing;
    let spaced = seq![' '] + body_rest;
    let mid = seq!['>'] + spaced;
    let named = escape_spec(name) + mid;
    let t = cmd.subrange(prefix.len() + 2int, cmd.len() as int);
    assert(t =~= seq!['<'] + named);
    assert(read_quoted(closing) == Some((Seq::<char>::empty(), seq!['\n']))) by {
        assert(closing.drop_first() =~= seq!['\n']);
    }
    lemma_read_escaped(body, closing);
    assert(read_quoted(body_rest) == Some((body + Seq::<char>::empty(), seq!['\n'])));
    assert(spaced.drop_first() =~= body_rest);
    assert(read_quoted(spaced) == Some((seq![' '] + body, seq!['\n']))) by {
        assert(body + Seq::<char>::empty() =~= body);
    }
    assert(mid.drop_first() =~= spaced);
    assert(read_quoted(mid) == Some((seq!['>'] + (seq![' '] + body), seq!['\n'])));
    lemma_read_escaped(name, mid);
    assert(read_quoted(named) == Some((name + (seq!['>'] + (seq![' '] + body)), seq!['\n'])));
    assert((seq!['<'] + named).drop_first() =~= named);
    assert(seq!['<'] + (name + (seq!['>'] + (seq![' '] + body)))
        =~= seq!['<'] + name + seq!['>', ' '] + body);
}

} // verus!
