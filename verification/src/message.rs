//! The wire-message parser: one raw protocol line in, one structured message out.
//!
//! A line has the shape
//! `[":" prefix SPACE] command (SPACE param)* [SPACE ":" trailing]`.
//! The parser keeps whatever line terminator the raw line carries: it belongs
//! to the last token.
//!
//! Two rules deserve a note. A line that holds a single token and no space
//! yields an empty command and no parameters: a verb is recognised only where
//! a space follows it. A line that opens with the prefix marker and holds no
//! space has no parse: [`IrcMessage::new`] leaves it out by its precondition
//! and [`IrcMessage::parse`] answers `None` for it.

use vstd::prelude::*;
use crate::text::{
    find, first_index, lemma_first_index, split_first, starts_with_char, tail_from,
};

verus! {

/// Introduces the prefix at the start of a line, and the trailing parameter.
pub const MARKER: char = ':';

/// Separates the tokens of a line.
pub const SPACE: char = ' ';

/// Mathematical value of an [`IrcMessage`].
pub ghost struct MessageView {
    /// The line exactly as received
    pub raw: Seq<char>,
    /// The sender annotation, empty where the line has none
    pub prefix: Seq<char>,
    /// The protocol verb
    pub command: Seq<char>,
    /// The parameters in order
    pub params: Seq<Seq<char>>,
}

/// The line opens with the prefix marker.
pub open spec fn has_prefix(raw: Seq<char>) -> bool {
    raw.len() > 0 && raw[0] == MARKER
}

/// The lines that have a parse: all but those that open with the prefix marker
/// and hold no space to end the prefix.
pub open spec fn parseable(raw: Seq<char>) -> bool {
    has_prefix(raw) ==> raw.contains(SPACE)
}

/// The sender annotation of a line: what stands between the marker and the
/// first space, or nothing where the line does not open with the marker.
pub open spec fn prefix_of(raw: Seq<char>) -> Seq<char> {
    if has_prefix(raw) {
        raw.take(first_index(raw, SPACE)).skip(1)
    } else {
        Seq::empty()
    }
}

/// What is left of a line once its prefix and the space behind it are taken off.
pub open spec fn body_of(raw: Seq<char>) -> Seq<char> {
    if has_prefix(raw) {
        raw.skip(first_index(raw, SPACE) + 1)
    } else {
        raw
    }
}

/// The parameters that a remainder holds. A remainder that opens with the
/// marker is one trailing parameter, spaces included; otherwise the token up to
/// the first space is a parameter and the rest holds the others.
pub open spec fn params_of(rest: Seq<char>) -> Seq<Seq<char>>
    decreases rest.len(),
{
    let i = first_index(rest, SPACE);
    if rest.len() == 0 {
        Seq::empty()
    } else if rest[0] == MARKER {
        seq![rest.skip(1)]
    } else if 0 <= i < rest.len() {
        seq![rest.take(i)] + params_of(rest.skip(i + 1))
    } else {
        seq![rest]
    }
}

/// The structured message that a raw line stands for.
pub open spec fn parse_line(raw: Seq<char>) -> MessageView {
    let body = body_of(raw);
    let i = first_index(body, SPACE);
    if 0 <= i < body.len() {
        MessageView {
            raw,
            prefix: prefix_of(raw),
            command: body.take(i),
            params: params_of(body.skip(i + 1)),
        }
    } else {
        MessageView { raw, prefix: prefix_of(raw), command: Seq::empty(), params: Seq::empty() }
    }
}

/// One parsed protocol line.
#[derive(Debug)]
pub struct IrcMessage {
    raw_message: String,
    prefix: String,
    command: String,
    params: Vec<String>,
}

impl View for IrcMessage {
    type V = MessageView;

    closed spec fn view(&self) -> MessageView {
        MessageView {
            raw: self.raw_message@,
            prefix: self.prefix@,
            command: self.command@,
            params: self.params.deep_view(),
        }
    }
}

impl IrcMessage {
    /// Every message is the parse of the line it keeps.
    #[verifier::type_invariant]
    spec fn is_parsed(self) -> bool {
        parseable(self.raw_message@) && self@ == parse_line(self.raw_message@)
    }

    /// Parses a raw line.
    pub fn new(raw_msg: &str) -> (msg: IrcMessage)
        requires
            parseable(raw_msg@),
        ensures
            msg@ == parse_line(raw_msg@),
    {
        let mut rest: &str = raw_msg;
        let mut prefix = String::new();
        if starts_with_char(rest, MARKER) {
            if let Some((head, tail)) = split_first(rest, SPACE) {
                proof {
                    lemma_first_index(raw_msg@, SPACE);
                }
                prefix = tail_from(head, 1).to_owned();
                rest = tail;
            }
        }

        let mut command = String::new();
        let mut params: Vec<String> = Vec::new();
        proof {
            lemma_first_index(rest@, SPACE);
        }
        assert(params.deep_view() =~= Seq::<Seq<char>>::empty());
        if let Some((head, tail)) = split_first(rest, SPACE) {
            command = head.to_owned();
            rest = tail;

            let ghost all = params_of(rest@);
            while !rest.is_empty()
                invariant_except_break
                    params.deep_view() + params_of(rest@) == all,
                ensures
                    params.deep_view() == all,
                decreases rest@.len(),
            {
                proof {
                    lemma_first_index(rest@, SPACE);
                }
                if starts_with_char(rest, MARKER) {
                    params.push(tail_from(rest, 1).to_owned());
                    break ;
                }
                match split_first(rest, SPACE) {
                    None => {
                        params.push(rest.to_owned());
                        break ;
                    },
                    Some((head, tail)) => {
                        params.push(head.to_owned());
                        rest = tail;
                        assert(params.deep_view() + params_of(rest@) =~= all);
                    },
                }
            }
        }
        IrcMessage { raw_message: raw_msg.to_owned(), prefix, command, params }
    }

    /// Parses a raw line if it has a parse: `None` exactly for a line that
    /// opens with the prefix marker and holds no space.
    pub fn parse(raw_msg: &str) -> (parsed: Option<IrcMessage>)
        ensures
            parsed is Some <==> parseable(raw_msg@),
            parsed matches Some(msg) ==> msg@ == parse_line(raw_msg@),
    {
        if starts_with_char(raw_msg, MARKER) && find(raw_msg, SPACE).is_none() {
            None
        } else {
            Some(IrcMessage::new(raw_msg))
        }
    }

    /// The line exactly as it was received. Every message is the parse of this line.
    pub fn raw_message(&self) -> (raw: &str)
        ensures
            raw@ == self@.raw,
            parseable(raw@),
            self@ == parse_line(raw@),
    {
        proof {
            use_type_invariant(self);
        }
        self.raw_message.as_str()
    }

    /// The sender annotation; empty where the line has none.
    pub fn prefix(&self) -> (prefix: &str)
        ensures
            prefix@ == self@.prefix,
    {
        self.prefix.as_str()
    }

    /// The protocol verb; empty where the line holds no space after its prefix.
    pub fn command(&self) -> (command: &str)
        ensures
            command@ == self@.command,
    {
        self.command.as_str()
    }

    /// The parameters in order.
    pub fn params(&self) -> (params: &Vec<String>)
        ensures
            params.deep_view() == self@.params,
    {
        &self.params
    }
}

/// A line that does not open with the prefix marker parses to an empty prefix.
pub proof fn lemma_prefix_needs_marker(raw: Seq<char>)
    requires
        !has_prefix(raw),
    ensures
        parse_line(raw).prefix == Seq::<char>::empty(),
        parse_line(raw).prefix.len() == 0,
{
}

/// Parsing keeps the line, so parsing the kept line again gives the same message.
pub proof fn lemma_reparse_is_identity(raw: Seq<char>)
    ensures
        parse_line(raw).raw == raw,
        parse_line(parse_line(raw).raw) == parse_line(raw),
        parseable(parse_line(raw).raw) == parseable(raw),
{
}

/// A parseable line that opens with the marker is the marker, the prefix, one
/// space and the body, in that order: command and parameters are read from the
/// body alone and never hold a character of the prefix.
pub proof fn lemma_line_is_prefix_then_body(raw: Seq<char>)
    requires
        has_prefix(raw),
        parseable(raw),
    ensures
        raw == seq![MARKER] + prefix_of(raw) + seq![SPACE] + body_of(raw),
{
    lemma_first_index(raw, SPACE);
}

/// Two lines with the same body have the same command and the same parameters.
pub proof fn lemma_command_and_params_come_from_body(a: Seq<char>, b: Seq<char>)
    requires
        body_of(a) == body_of(b),
    ensures
        parse_line(a).command == parse_line(b).command,
        parse_line(a).params == parse_line(b).params,
{
}

/// Prefix and command hold no space.
pub proof fn lemma_prefix_and_command_hold_no_space(raw: Seq<char>)
    ensures
        !parse_line(raw).prefix.contains(SPACE),
        !parse_line(raw).command.contains(SPACE),
{
    lemma_first_index(raw, SPACE);
    let body = body_of(raw);
    lemma_first_index(body, SPACE);
    let prefix = parse_line(raw).prefix;
    assert(forall|k: int| 0 <= k < prefix.len() ==> prefix[k] == raw[k + 1]);
    let command = parse_line(raw).command;
    assert(forall|k: int| 0 <= k < command.len() ==> command[k] == body[k]);
}

/// Only the last parameter can hold a space: each one before it is a token
/// that was cut at the space behind it.
pub proof fn lemma_only_last_param_holds_space(rest: Seq<char>, k: int)
    requires
        0 <= k < params_of(rest).len() - 1,
    ensures
        !params_of(rest)[k].contains(SPACE),
    decreases rest.len(),
{
    lemma_first_index(rest, SPACE);
    let i = first_index(rest, SPACE);
    if rest.len() > 0 && rest[0] != MARKER && 0 <= i < rest.len() {
        let token = rest.take(i);
        if k == 0 {
            assert(forall|j: int| 0 <= j < token.len() ==> token[j] == rest[j]);
        } else {
            lemma_only_last_param_holds_space(rest.skip(i + 1), k - 1);
        }
    }
}

} // verus!

