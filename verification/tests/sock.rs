use frame::sock::{
    bind_at, command_line, send, socket_path, take_command, BindAction, BindEvent, STOP,
};
use frame::text::trim;

/// Sockets in memory: the files there are, those that something listens behind, and what
/// was written to them.
#[derive(Default)]
struct Sockets {
    files: Vec<String>,
    live: Vec<String>,
    pending: Vec<(String, String)>,
}

impl Sockets {
    fn is_there(&self, path: &str) -> bool {
        self.files.iter().any(|f| f == path)
    }

    fn accepts(&self, path: &str) -> bool {
        self.live.iter().any(|f| f == path)
    }

    fn listen(&mut self, path: &str) -> Result<(), String> {
        if self.is_there(path) {
            return Err("address in use".to_string());
        }
        self.files.push(path.to_string());
        self.live.push(path.to_string());
        Ok(())
    }

    fn bind(&mut self, path: &str) -> Result<(), String> {
        let mut event = BindEvent::Found(self.is_there(path));
        loop {
            event = match bind_at(path, event) {
                BindAction::Probe => {
                    // To probe is to connect and close.
                    let live = self.accepts(path);
                    if live {
                        self.pending.push((path.to_string(), String::new()));
                    }
                    BindEvent::Answered(live)
                }
                BindAction::Remove => {
                    self.files.retain(|f| f != path);
                    BindEvent::Removed(Ok(()))
                }
                BindAction::Bind => BindEvent::Bound(self.listen(path)),
                BindAction::Unblock => BindEvent::Unblocked(Ok(())),
                BindAction::Listen => return Ok(()),
                BindAction::Fail(e) => return Err(e),
            };
        }
    }

    fn send(&mut self, path: &str, command: &str) -> Result<(), String> {
        if !self.accepts(path) {
            return Err("connection refused".to_string());
        }
        self.pending.push((path.to_string(), command_line(command)));
        Ok(())
    }

    fn take(&mut self, path: &str) -> Option<String> {
        let at = self.pending.iter().position(|p| p.0 == path);
        take_command(at.map(|i| self.pending.remove(i).1).as_deref())
    }
}

#[test]
fn a_command_round_trips() {
    let mut sockets = Sockets::default();
    sockets.bind("roundtrip").expect("bind");
    assert_eq!(sockets.take("roundtrip"), None, "idle socket yields nothing");

    sockets.send("roundtrip", STOP).expect("send");
    assert_eq!(sockets.take("roundtrip").as_deref(), Some(STOP));
    assert_eq!(sockets.take("roundtrip"), None, "the command is consumed once");
}

#[test]
fn a_stale_socket_file_is_replaced() {
    let mut sockets = Sockets::default();
    // What a killed process leaves: a file with nothing listening behind it.
    sockets.files.push("stale".to_string());
    assert!(sockets.is_there("stale"), "the socket file outlives its listener");

    // Binding must succeed by clearing it, not fail.
    let server = sockets.bind("stale");
    assert!(server.is_ok(), "stale socket should be replaced: {:?}", server.err());
}

#[test]
fn a_live_server_is_not_clobbered() {
    let mut sockets = Sockets::default();
    sockets.bind("live").expect("first bind");
    let second = sockets.bind("live");
    assert!(second.is_err(), "a running session must not be displaced");
}

fn failed() -> Result<(), String> {
    Err("why".to_string())
}

#[test]
fn the_socket_is_in_the_runtime_directory() {
    assert_eq!(socket_path(Some("/run/user/1000")), Ok(b"/run/user/1000/frame.sock".to_vec()));
    assert_eq!(socket_path(None), Err("XDG_RUNTIME_DIR is not set".to_string()));
}

#[test]
fn a_command_is_sent_as_a_line() {
    let m = send(Some("/run"), STOP).ok().expect("there is a directory");
    assert_eq!(m.path, b"/run/frame.sock");
    assert_eq!(m.line, "stop\n");
    assert_eq!(send(None, STOP).err().as_deref(), Some("XDG_RUNTIME_DIR is not set"));
}

#[test]
fn what_is_sent_is_what_is_read() {
    let line = command_line(STOP);
    assert_eq!(take_command(Some(&line)).as_deref(), Some(STOP));
    assert_eq!(take_command(Some("\n")).as_deref(), Some(""));
    assert_eq!(take_command(None), None);
}

#[test]
fn a_connection_that_sent_nothing_brings_no_command() {
    assert_eq!(take_command(Some("")), None);
    let mut sockets = Sockets::default();
    sockets.bind("probed").expect("bind");
    assert!(sockets.bind("probed").is_err());
    assert_eq!(sockets.take("probed"), None, "the probe wrote nothing");
}

#[test]
fn blanks_at_the_ends_are_dropped() {
    for s in [
        "", " ", "a", " a", "a ", "\t a b \r\n", "\u{a0}x\u{3000}", "\u{200b}x", "\u{1680}\u{2029}",
        "\u{85}é\u{205f}", "\u{1c}y",
    ] {
        assert_eq!(trim(s), s.trim(), "{s:?}");
    }
}

#[test]
fn a_free_path_is_bound() {
    assert!(matches!(bind_at("p", BindEvent::Found(false)), BindAction::Bind));
    assert!(matches!(bind_at("p", BindEvent::Bound(Ok(()))), BindAction::Unblock));
    assert!(matches!(bind_at("p", BindEvent::Unblocked(Ok(()))), BindAction::Listen));
}

#[test]
fn a_stale_file_is_removed_first() {
    assert!(matches!(bind_at("p", BindEvent::Found(true)), BindAction::Probe));
    assert!(matches!(bind_at("p", BindEvent::Answered(false)), BindAction::Remove));
    assert!(matches!(bind_at("p", BindEvent::Removed(Ok(()))), BindAction::Bind));
}

#[test]
fn a_live_session_is_left_alone() {
    let BindAction::Fail(m) = bind_at("p", BindEvent::Answered(true)) else {
        panic!("a running session must not be displaced");
    };
    assert_eq!(m, "another frame session is already listening");
}

#[test]
fn each_failure_to_bind_is_told_apart() {
    let message = |event| match bind_at("/run/frame.sock", event) {
        BindAction::Fail(m) => m,
        _ => panic!("a failure ends it"),
    };
    assert_eq!(message(BindEvent::Removed(failed())), "removing stale socket: why");
    assert_eq!(message(BindEvent::Bound(failed())), "binding /run/frame.sock: why");
    assert_eq!(message(BindEvent::Unblocked(failed())), "set_nonblocking: why");
}
