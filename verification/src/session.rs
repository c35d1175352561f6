//! The connection session: what to send when, and when to stop.
//!
//! The session never touches the transport. Its owner opens the connection,
//! reads lines and writes bytes, and tells the session what happened as an
//! [`Event`]; [`Irc::step`] answers with the [`Action`] to perform next.
//!
//! A line that can not be answered is skipped, and the session goes on reading:
//! a line without a parse, a `PING` without a parameter, a `PRIVMSG` with fewer
//! than two parameters.

use vstd::prelude::*;
use crate::config::{Config, ConfigView, ServerConfigView};
use crate::message::{parse_line, parseable, IrcMessage, MessageView};
use crate::text::{append_decimal, begins_with, decimal, ends_with, join, joined, same_text};
use crate::wire::{frame, frame_all, framed, framed_all, lemma_framed_ends_line, line_end};

verus! {

/// Mathematical value of a session.
pub ghost struct IrcView {
    pub config: ConfigView,
    pub connected: bool,
}

/// What the owner of the transport reports to the session.
#[derive(Debug)]
pub enum Event<'a> {
    /// The connection to the server was opened.
    Connected,
    /// One blocking line read returned: the number of bytes it read and the
    /// text it delivered. Zero bytes mean that the remote end closed the stream.
    Read { bytes: usize, line: &'a str },
}

/// Mathematical value of an [`Event`].
pub ghost enum EventView {
    Connected,
    Read { bytes: int, line: Seq<char> },
}

/// What the owner of the transport does next.
#[derive(Debug)]
pub enum Action {
    /// Write each of these wire lines in order, flushing after each, then read
    /// the next line.
    Send(Vec<String>),
    /// Leave the loop and release the transport.
    Stop,
}

/// Mathematical value of an [`Action`].
pub ghost enum ActionView {
    Send(Seq<Seq<char>>),
    Stop,
}

impl<'a> View for Event<'a> {
    type V = EventView;

    open spec fn view(&self) -> EventView {
        match *self {
            Event::Connected => EventView::Connected,
            Event::Read { bytes, line } => EventView::Read { bytes: bytes as int, line: line@ },
        }
    }
}

impl View for Action {
    type V = ActionView;

    open spec fn view(&self) -> ActionView {
        match *self {
            Action::Send(lines) => ActionView::Send(lines.deep_view()),
            Action::Stop => ActionView::Stop,
        }
    }
}

/// Where to connect: host name, a colon, the port in decimal.
pub open spec fn address_of(server: ServerConfigView) -> Seq<char> {
    server.hostname + ":"@ + decimal(server.port as nat)
}

/// The three registration commands in the order they are sent.
pub open spec fn registration_of(server: ServerConfigView) -> Seq<Seq<char>> {
    seq![
        "NICK "@ + server.nickname,
        "USER "@ + server.username + " 0 * :eIRC bot"@,
        "JOIN "@ + joined(server.channels, " "@),
    ]
}

/// The command that answers a message, if it calls for one. A `PING` is
/// answered with a `PONG` that carries its first parameter; a `PRIVMSG` whose
/// text opens with `.ping` is answered to where it came from.
pub open spec fn reply_for(msg: MessageView) -> Option<Seq<char>> {
    if msg.command == "PING"@ {
        if msg.params.len() >= 1 {
            Some("PONG :"@ + msg.params[0])
        } else {
            None
        }
    } else if msg.command == "PRIVMSG"@ {
        if msg.params.len() >= 2 && ".ping"@.is_prefix_of(msg.params[1]) {
            Some("PRIVMSG "@ + msg.params[0] + " :PONG right in yo face!"@)
        } else {
            None
        }
    } else {
        None
    }
}

/// The wire lines that answer one received line: the framed reply, or nothing
/// where the line has no parse or calls for no reply.
pub open spec fn lines_for(line: Seq<char>) -> Seq<Seq<char>> {
    if parseable(line) && reply_for(parse_line(line)) is Some {
        seq![framed(reply_for(parse_line(line))->0)]
    } else {
        Seq::empty()
    }
}

/// The session after an event.
pub open spec fn next_state(state: IrcView, event: EventView) -> IrcView {
    match event {
        EventView::Connected => IrcView { config: state.config, connected: true },
        EventView::Read { bytes, line } => IrcView {
            config: state.config,
            connected: state.connected && bytes != 0,
        },
    }
}

/// What an event calls for. Opening the connection calls for the registration.
/// A read of zero bytes, or any read while not connected, ends the session;
/// every other read calls for the answer to its line.
pub open spec fn next_action(state: IrcView, event: EventView) -> ActionView {
    match event {
        EventView::Connected => ActionView::Send(framed_all(registration_of(state.config.server))),
        EventView::Read { bytes, line } => if state.connected && bytes != 0 {
            ActionView::Send(lines_for(line))
        } else {
            ActionView::Stop
        },
    }
}

/// Answers a parsed message.
pub fn reply_to(msg: &IrcMessage) -> (reply: Option<String>)
    ensures
        match reply {
            Some(text) => reply_for(msg@) == Some(text@),
            None => reply_for(msg@) is None,
        },
{
    let params = msg.params();
    if same_text(msg.command(), "PING") {
        if params.len() >= 1 {
            let mut text = "PONG :".to_owned();
            text.append(params[0].as_str());
            Some(text)
        } else {
            None
        }
    } else if same_text(msg.command(), "PRIVMSG") {
        if params.len() >= 2 && begins_with(params[1].as_str(), ".ping") {
            let mut text = "PRIVMSG ".to_owned();
            text.append(params[0].as_str());
            text.append(" :PONG right in yo face!");
            Some(text)
        } else {
            None
        }
    } else {
        None
    }
}

/// One session with one server.
#[derive(Debug)]
pub struct Irc {
    config: Config,
    connected: bool,
}

impl View for Irc {
    type V = IrcView;

    closed spec fn view(&self) -> IrcView {
        IrcView { config: self.config@, connected: self.connected }
    }
}

impl Irc {
    /// A session that is not connected yet.
    pub fn new(config: Config) -> (irc: Irc)
        ensures
            irc@ == (IrcView { config: config@, connected: false }),
    {
        Irc { config: config, connected: false }
    }

    /// The configuration the session was made with.
    pub fn config(&self) -> (config: &Config)
        ensures
            config@ == self@.config,
    {
        &self.config
    }

    /// Whether the connection is open.
    pub fn is_connected(&self) -> (connected: bool)
        ensures
            connected == self@.connected,
    {
        self.connected
    }

    /// The address to connect to.
    pub fn address(&self) -> (address: String)
        ensures
            address@ == address_of(self@.config.server),
    {
        let mut address = String::new();
        address.append(self.config.server.hostname.as_str());
        address.append(":");
        append_decimal(&mut address, self.config.server.port);
        address
    }

    /// The registration commands, not yet framed.
    pub fn registration(&self) -> (commands: Vec<String>)
        ensures
            commands.deep_view() == registration_of(self@.config.server),
    {
        let server = &self.config.server;
        let mut nick = "NICK ".to_owned();
        nick.append(server.nickname.as_str());
        let mut user = "USER ".to_owned();
        user.append(server.username.as_str());
        user.append(" 0 * :eIRC bot");
        let mut join_command = "JOIN ".to_owned();
        join_command.append(join(&server.channels, " ").as_str());
        let mut commands: Vec<String> = Vec::new();
        commands.push(nick);
        commands.push(user);
        commands.push(join_command);
        commands
    }

    /// Takes in one event and says what to do next.
    pub fn step(&mut self, event: Event) -> (action: Action)
        ensures
            final(self)@ == next_state(old(self)@, event@),
            action@ == next_action(old(self)@, event@),
    {
        match event {
            Event::Connected => {
                self.connected = true;
                let commands = self.registration();
                Action::Send(frame_all(&commands))
            },
            Event::Read { bytes, line } => {
                if !self.connected {
                    Action::Stop
                } else if bytes == 0 {
                    self.connected = false;
                    Action::Stop
                } else {
                    let mut lines: Vec<String> = Vec::new();
                    if let Some(msg) = IrcMessage::parse(line) {
                        if let Some(reply) = reply_to(&msg) {
                            lines.push(frame(reply.as_str()));
                        }
                    }
                    assert(lines.deep_view() =~= lines_for(line@));
                    Action::Send(lines)
                }
            },
        }
    }
}

/// A read of zero bytes ends the session whatever its state: nothing more is
/// written, and the session is no longer connected.
pub proof fn lemma_zero_read_stops(state: IrcView, event: EventView)
    requires
        event is Read,
        event->bytes == 0,
    ensures
        next_action(state, event) == ActionView::Stop,
        !next_state(state, event).connected,
{
}

/// Whatever the session sends, each line of it closes with the line terminator.
pub proof fn lemma_sent_lines_end_line(state: IrcView, event: EventView, i: int)
    requires
        next_action(state, event) is Send,
        0 <= i < next_action(state, event)->Send_0.len(),
    ensures
        ends_with(next_action(state, event)->Send_0[i], line_end()),
{
    match event {
        EventView::Connected => {
            lemma_framed_ends_line(registration_of(state.config.server)[i]);
        },
        EventView::Read { bytes, line } => {
            lemma_framed_ends_line(reply_for(parse_line(line))->0);
        },
    }
}

/// A received line is answered with one line at most.
pub proof fn lemma_one_reply_at_most(state: IrcView, event: EventView)
    requires
        event is Read,
        next_action(state, event) is Send,
    ensures
        next_action(state, event)->Send_0.len() <= 1,
{
}

} // verus!
