use eirc::config::{Config, ServerConfig};
use eirc::message::IrcMessage;
use eirc::session::{reply_to, Action, Event, Irc};

fn sample_config() -> Config {
    Config {
        server: ServerConfig {
            hostname: "irc.example.org".to_string(),
            port: 6697,
            channels: vec!["#one".to_string(), "#two".to_string(), "#three".to_string()],
            nickname: "bot".to_string(),
            username: "robot".to_string(),
        },
    }
}

fn connected() -> Irc {
    let mut irc = Irc::new(sample_config());
    irc.step(Event::Connected);
    irc
}

fn sent(action: Action) -> Vec<String> {
    match action {
        Action::Send(lines) => lines,
        Action::Stop => panic!("the session stopped"),
    }
}

fn read(irc: &mut Irc, line: &str) -> Action {
    irc.step(Event::Read { bytes: line.len(), line })
}

#[test]
fn new_session_is_not_connected() {
    let irc = Irc::new(sample_config());
    assert!(!irc.is_connected());
    assert_eq!(irc.config().server.hostname, "irc.example.org");
    assert_eq!(irc.config().server.port, 6697);
}

#[test]
fn address_is_host_colon_port() {
    assert_eq!(Irc::new(sample_config()).address(), "irc.example.org:6697");
    assert_eq!(Irc::new(Config::new()).address(), "irc.rizon.net:6667");
}

#[test]
fn address_prints_every_port_in_decimal() {
    for port in [0u16, 7, 10, 80, 100, 6667, 9999, 10000, 65535] {
        let mut config = sample_config();
        config.server.port = port;
        assert_eq!(Irc::new(config).address(), format!("irc.example.org:{}", port));
    }
}

#[test]
fn registration_is_nick_user_join() {
    let irc = Irc::new(sample_config());
    assert_eq!(
        irc.registration(),
        vec![
            "NICK bot".to_string(),
            "USER robot 0 * :eIRC bot".to_string(),
            "JOIN #one #two #three".to_string(),
        ]
    );
}

#[test]
fn registration_with_one_channel_and_with_none() {
    let mut config = sample_config();
    config.server.channels = vec!["#only".to_string()];
    assert_eq!(Irc::new(config).registration()[2], "JOIN #only");
    let mut config = sample_config();
    config.server.channels = Vec::new();
    assert_eq!(Irc::new(config).registration()[2], "JOIN ");
}

#[test]
fn connecting_sends_the_framed_registration() {
    let mut irc = Irc::new(sample_config());
    let lines = sent(irc.step(Event::Connected));
    assert!(irc.is_connected());
    assert_eq!(
        lines,
        vec![
            "NICK bot\r\n".to_string(),
            "USER robot 0 * :eIRC bot\r\n".to_string(),
            "JOIN #one #two #three\r\n".to_string(),
        ]
    );
}

#[test]
fn ping_is_answered_with_pong() {
    let mut irc = connected();
    let lines = sent(read(&mut irc, "PING :server.example.com"));
    assert_eq!(lines, vec!["PONG :server.example.com\r\n".to_string()]);
    assert!(irc.is_connected());
}

#[test]
fn ping_trigger_in_a_channel_is_answered_there() {
    let mut irc = connected();
    let lines = sent(read(&mut irc, ":a!b@c PRIVMSG #x :.ping now"));
    assert_eq!(lines, vec!["PRIVMSG #x :PONG right in yo face!\r\n".to_string()]);
}

#[test]
fn reply_carries_the_parameter_as_parsed() {
    let mut irc = connected();
    let lines = sent(read(&mut irc, "PING :irc.example.org\r\n"));
    assert_eq!(lines, vec!["PONG :irc.example.org\r\n\r\n".to_string()]);
}

#[test]
fn other_messages_get_no_answer() {
    let mut irc = connected();
    for line in [
        ":a!b@c PRIVMSG #x :hello",
        ":a!b@c PRIVMSG #x : .ping",
        ":a!b@c PRIVMSG #x :.pin",
        ":a!b@c NOTICE #x :.ping",
        ":srv 001 bot :Welcome",
        "ping :x",
        "PINGX :x",
        "PING",
        "\r\n",
    ] {
        let lines = sent(read(&mut irc, line));
        assert!(lines.is_empty(), "line {:?}", line);
        assert!(irc.is_connected());
    }
}

#[test]
fn lines_that_can_not_be_answered_are_skipped() {
    let mut irc = connected();
    for line in [":lonely", "PING ", ":srv PING ", "PRIVMSG #x", "PRIVMSG ", ":a PRIVMSG #x"] {
        let lines = sent(read(&mut irc, line));
        assert!(lines.is_empty(), "line {:?}", line);
        assert!(irc.is_connected());
    }
}

#[test]
fn zero_byte_read_stops_without_writing() {
    let mut irc = connected();
    let action = irc.step(Event::Read { bytes: 0, line: "" });
    assert!(matches!(action, Action::Stop));
    assert!(!irc.is_connected());
}

#[test]
fn zero_byte_read_stops_whatever_the_buffer_holds() {
    let mut irc = connected();
    let action = irc.step(Event::Read { bytes: 0, line: "PING :x" });
    assert!(matches!(action, Action::Stop));
    assert!(!irc.is_connected());
}

#[test]
fn read_before_connecting_stops() {
    let mut irc = Irc::new(sample_config());
    let action = irc.step(Event::Read { bytes: 9, line: "PING :abc" });
    assert!(matches!(action, Action::Stop));
    assert!(!irc.is_connected());
}

#[test]
fn read_after_the_stream_closed_stops() {
    let mut irc = connected();
    irc.step(Event::Read { bytes: 0, line: "" });
    let action = irc.step(Event::Read { bytes: 9, line: "PING :abc" });
    assert!(matches!(action, Action::Stop));
}

#[test]
fn reply_to_answers_ping_with_its_first_parameter() {
    let msg = IrcMessage::new(":srv PING one two");
    assert_eq!(reply_to(&msg), Some("PONG :one".to_string()));
}

#[test]
fn reply_to_answers_the_trigger_only_at_the_start() {
    let yes = IrcMessage::new(":n PRIVMSG bot :.pingpong");
    assert_eq!(reply_to(&yes), Some("PRIVMSG bot :PONG right in yo face!".to_string()));
    let no = IrcMessage::new(":n PRIVMSG bot :say .ping");
    assert_eq!(reply_to(&no), None);
}

#[test]
fn reply_to_is_silent_without_the_needed_parameters() {
    assert_eq!(reply_to(&IrcMessage::new("PING ")), None);
    assert_eq!(reply_to(&IrcMessage::new("PRIVMSG #x")), None);
    assert_eq!(reply_to(&IrcMessage::new("QUIT")), None);
}

#[test]
fn every_sent_line_ends_with_the_terminator() {
    let mut irc = Irc::new(sample_config());
    let mut all = sent(irc.step(Event::Connected));
    all.extend(sent(read(&mut irc, "PING :x")));
    all.extend(sent(read(&mut irc, ":a!b@c PRIVMSG #x :.ping")));
    assert_eq!(all.len(), 5);
    for line in all {
        assert!(line.ends_with("\r\n"));
        assert!(!line.ends_with("\r\n\r\n"));
    }
}
