//! Command bus over a Unix socket in the runtime directory.
//!
//! A second invocation signals the running one rather than starting a rival session, so
//! a single key both starts and stops a scroll capture.

use vstd::prelude::*;
use vstd::string::StringExecFns;
use vstd::utf8::encode_utf8;

use crate::paths::{join, path_in};
use crate::text::{blank, joined, trim, trimmed};

verus! {

/// Stop the running capture.
pub const STOP: &'static str = "stop";

/// Where the socket of the runtime directory `dir` is.
pub open spec fn socket_in(dir: Seq<char>) -> Seq<u8> {
    path_in(encode_utf8(dir), encode_utf8("frame.sock"@))
}

/// The path of the socket. `dir` is the runtime directory, where the environment sets one.
pub fn socket_path(dir: Option<&str>) -> (r: Result<Vec<u8>, String>)
    ensures
        match (dir, r) {
            (Some(d), Ok(path)) => path@ == socket_in(d@),
            (None, Err(e)) => e@ == "XDG_RUNTIME_DIR is not set"@,
            _ => false,
        },
{
    match dir {
        Some(d) => Ok(join(d.as_bytes(), "frame.sock".as_bytes())),
        None => Err("XDG_RUNTIME_DIR is not set".to_owned()),
    }
}

/// What to send, and where to.
pub struct Message {
    pub path: Vec<u8>,
    pub line: String,
}

/// A command as it is sent: one line.
pub open spec fn line_of(command: Seq<char>) -> Seq<char> {
    command.push('\n')
}

/// The line that carries `command`.
pub fn command_line(command: &str) -> (r: String)
    ensures
        r@ == line_of(command@),
{
    let r: String = joined(command, "\n");
    proof {
        reveal_strlit("\n");
        assert(r@ =~= line_of(command@));
    }
    r
}

/// How to send `command` to a running session. That nothing is listening there is not a
/// failure but the answer to a question: there is no session to signal.
pub fn send(dir: Option<&str>, command: &str) -> (r: Result<Message, String>)
    ensures
        match (dir, r) {
            (Some(d), Ok(m)) => m.path@ == socket_in(d@) && m.line@ == line_of(command@),
            (None, Err(e)) => e@ == "XDG_RUNTIME_DIR is not set"@,
            _ => false,
        },
{
    match socket_path(dir) {
        Ok(path) => Ok(Message { path, line: command_line(command) }),
        Err(e) => Err(e),
    }
}

/// The command in a line that arrived, if one did. A connection that closed without
/// sending anything brought none.
pub fn take_command(line: Option<&str>) -> (r: Option<String>)
    ensures
        match (line, r) {
            (Some(l), Some(command)) => l@.len() > 0 && command@ == trimmed(l@),
            (Some(l), None) => l@.len() == 0,
            (None, r) => r is None,
        },
{
    match line {
        Some(l) => {
            if l.is_empty() {
                None
            } else {
                Some(trim(l))
            }
        },
        None => None,
    }
}

/// What reading one line of `text` gives: all up to and with the first line feed.
pub open spec fn first_line(text: Seq<char>) -> Seq<char>
    decreases text.len(),
{
    if text.len() == 0 || text.first() == '\n' {
        text.take(if text.len() == 0 {
            0
        } else {
            1
        })
    } else {
        seq![text.first()] + first_line(text.drop_first())
    }
}

/// A command round trips: what the session reads is the command that was sent, without
/// blanks at its ends. Left out are commands of more than one line.
pub proof fn law_command_round_trips(command: Seq<char>)
    requires
        !command.contains('\n'),
    ensures
        trimmed(first_line(line_of(command))) == trimmed(command),
{
    lemma_one_line(command);
    lemma_trim_push(command, '\n');
}

proof fn lemma_one_line(command: Seq<char>)
    requires
        !command.contains('\n'),
    ensures
        first_line(line_of(command)) == line_of(command),
    decreases command.len(),
{
    let line = line_of(command);
    if command.len() == 0 {
        assert(line.take(1) =~= line);
    } else {
        assert(command.contains(command[0]));
        assert(line.drop_first() =~= line_of(command.drop_first()));
        assert forall|i: int| 0 <= i < command.drop_first().len() implies #[trigger]
            command.drop_first()[i] != '\n' by {
            assert(command.contains(command[i + 1]));
        }
        lemma_one_line(command.drop_first());
        assert(seq![line.first()] + line.drop_first() =~= line);
    }
}

proof fn lemma_trim_push(s: Seq<char>, c: char)
    requires
        blank(c),
    ensures
        trimmed(s.push(c)) == trimmed(s),
    decreases s.len(),
{
    if s.len() == 0 {
        assert(s.push(c).drop_first() =~= s);
    } else if blank(s.first()) {
        assert(s.push(c).drop_first() =~= s.drop_first().push(c));
        lemma_trim_push(s.drop_first(), c);
    } else {
        assert(s.push(c).first() == s.first());
        assert(s.push(c).drop_last() =~= s);
    }
}

/// What a step of binding the socket came to.
pub enum BindEvent {
    /// Whether there is a file at the socket's path.
    Found(bool),
    /// Whether something accepted a connection there.
    Answered(bool),
    /// The stale file was removed.
    Removed(Result<(), String>),
    /// The socket was bound.
    Bound(Result<(), String>),
    /// The socket was made non-blocking, so that polling it cannot stall a frame.
    Unblocked(Result<(), String>),
}

/// What binding the socket does next.
pub enum BindAction {
    /// Try to connect.
    Probe,
    /// Remove the file.
    Remove,
    /// Bind and listen.
    Bind,
    /// Make the socket non-blocking.
    Unblock,
    /// The session listens.
    Listen,
    Fail(String),
}

/// Bind at a path that reads as `path`, step by step. A file left behind by a process that
/// died cannot be told from a live one by looking: only connecting tells. If something
/// accepts, a session is running and is left alone. If nothing does, the file is stale and
/// goes.
pub fn bind_at(path: &str, event: BindEvent) -> (r: BindAction)
    ensures
        match (event, r) {
            (BindEvent::Found(found), BindAction::Probe) => found,
            (BindEvent::Found(found), BindAction::Bind) => !found,
            (BindEvent::Answered(live), BindAction::Fail(e)) => live && e@
                == "another frame session is already listening"@,
            (BindEvent::Answered(live), BindAction::Remove) => !live,
            (BindEvent::Removed(Ok(_)), BindAction::Bind) => true,
            (BindEvent::Removed(Err(e)), BindAction::Fail(m)) => m@ == "removing stale socket: "@
                + e@,
            (BindEvent::Bound(Ok(_)), BindAction::Unblock) => true,
            (BindEvent::Bound(Err(e)), BindAction::Fail(m)) => m@ == "binding "@ + path@ + ": "@
                + e@,
            (BindEvent::Unblocked(Ok(_)), BindAction::Listen) => true,
            (BindEvent::Unblocked(Err(e)), BindAction::Fail(m)) => m@ == "set_nonblocking: "@ + e@,
            _ => false,
        },
{
    match event {
        BindEvent::Found(found) => {
            if found {
                BindAction::Probe
            } else {
                BindAction::Bind
            }
        },
        BindEvent::Answered(live) => {
            if live {
                BindAction::Fail("another frame session is already listening".to_owned())
            } else {
                BindAction::Remove
            }
        },
        BindEvent::Removed(Ok(_)) => BindAction::Bind,
        BindEvent::Removed(Err(e)) => BindAction::Fail(
            joined("removing stale socket: ", e.as_str()),
        ),
        BindEvent::Bound(Ok(_)) => BindAction::Unblock,
        BindEvent::Bound(Err(e)) => {
            let mut m: String = joined("binding ", path);
            m.append(": ");
            m.append(e.as_str());
            BindAction::Fail(m)
        },
        BindEvent::Unblocked(Ok(_)) => BindAction::Listen,
        BindEvent::Unblocked(Err(e)) => BindAction::Fail(joined("set_nonblocking: ", e.as_str())),
    }
}

/// A command travels as one line: its own characters, and a line feed after the last.
pub proof fn law_command_is_sent_as_one_line(command: Seq<char>)
    ensures
        line_of(command).len() == command.len() + 1,
        line_of(command)[command.len() as int] == '\n',
        line_of(command).subrange(0, command.len() as int) == command,
{
    assert(line_of(command).subrange(0, command.len() as int) =~= command);
}

/// Both ends meet at `frame.sock` in the runtime directory: the directory, a slash where it
/// does not end in one, and that name.
pub proof fn law_socket_is_in_the_runtime_directory(dir: Seq<char>)
    ensures
        ({
            let d = encode_utf8(dir);
            let name = encode_utf8("frame.sock"@);
            socket_in(dir) == (if d.len() > 0 && d[d.len() - 1] != 47 {
                d.push(47u8) + name
            } else {
                d + name
            })
        }),
{
    reveal_strlit("frame.sock");
    let name = "frame.sock"@;
    assert(vstd::utf8::is_ascii_chars(name));
    vstd::utf8::is_ascii_chars_encode_utf8(name);
    assert(encode_utf8(name)[0] == name[0] as u8);
    assert(name[0] == 'f');
    assert(encode_utf8(name)[0] != 47);
}

} // verus!
