//! The wire grammar, and that the parser reads back what the grammar writes.
//!
//! `[":" prefix SPACE] command (SPACE param)* [SPACE ":" trailing]`

use vstd::prelude::*;
use crate::message::{
    body_of, has_prefix, params_of, parse_line, parseable, prefix_of, MessageView, MARKER, SPACE,
};
use crate::text::{first_index, lemma_first_index, lemma_first_index_at};

verus! {

/// The parts that the grammar puts into one line.
pub ghost struct LineParts {
    /// The sender annotation, if the line carries one
    pub prefix: Option<Seq<char>>,
    /// The protocol verb
    pub command: Seq<char>,
    /// The parameters that hold no space
    pub middle: Seq<Seq<char>>,
    /// The last parameter, if it is written behind a marker
    pub trailing: Option<Seq<char>>,
}

/// A parameter that can stand anywhere: not empty, without a space, not
/// opening with the marker.
pub open spec fn is_middle(token: Seq<char>) -> bool {
    token.len() > 0 && token[0] != MARKER && !token.contains(SPACE)
}

/// The parts that the grammar can write so that they can be told apart again:
/// no space inside prefix, command or middle parameters, a command that is not
/// taken for a prefix, and one parameter at least.
pub open spec fn well_formed(parts: LineParts) -> bool {
    &&& parts.prefix matches Some(prefix) ==> !prefix.contains(SPACE)
    &&& !parts.command.contains(SPACE)
    &&& parts.prefix is None ==> !has_prefix(parts.command)
    &&& forall|k: int| 0 <= k < parts.middle.len() ==> is_middle(#[trigger] parts.middle[k])
    &&& parts.middle.len() > 0 || parts.trailing is Some
}

/// The parameters as the line writes them: one space between neighbours, the
/// marker before the trailing one.
pub open spec fn params_text(middle: Seq<Seq<char>>, trailing: Option<Seq<char>>) -> Seq<char>
    decreases middle.len(),
{
    if middle.len() == 0 {
        match trailing {
            Some(text) => seq![MARKER] + text,
            None => Seq::empty(),
        }
    } else if middle.len() == 1 && trailing is None {
        middle[0]
    } else {
        middle[0] + seq![SPACE] + params_text(middle.skip(1), trailing)
    }
}

/// All parameters in order, the trailing one last.
pub open spec fn all_params(middle: Seq<Seq<char>>, trailing: Option<Seq<char>>) -> Seq<Seq<char>> {
    match trailing {
        Some(text) => middle.push(text),
        None => middle,
    }
}

/// What the line opens with: the marker, the prefix and a space, or nothing.
pub open spec fn prefix_text(prefix: Option<Seq<char>>) -> Seq<char> {
    match prefix {
        Some(text) => seq![MARKER] + text + seq![SPACE],
        None => Seq::empty(),
    }
}

/// The line that the grammar writes for the parts.
pub open spec fn line_of(parts: LineParts) -> Seq<char> {
    prefix_text(parts.prefix) + parts.command + seq![SPACE] + params_text(
        parts.middle,
        parts.trailing,
    )
}

/// The message that the parts stand for: the prefix (empty where there is
/// none), the command, and the parameters in order with the trailing one last.
pub open spec fn message_of(parts: LineParts) -> MessageView {
    MessageView {
        raw: line_of(parts),
        prefix: match parts.prefix {
            Some(prefix) => prefix,
            None => Seq::empty(),
        },
        command: parts.command,
        params: all_params(parts.middle, parts.trailing),
    }
}

/// A word, a space and more: the first space is the one behind the word.
proof fn lemma_cut_behind_word(word: Seq<char>, more: Seq<char>)
    requires
        !word.contains(SPACE),
    ensures
        first_index(word + seq![SPACE] + more, SPACE) == word.len(),
        (word + seq![SPACE] + more).take(word.len() as int) == word,
        (word + seq![SPACE] + more).skip(word.len() as int + 1) == more,
{
    let line = word + seq![SPACE] + more;
    assert(forall|j: int| 0 <= j < word.len() ==> line[j] == word[j]);
    lemma_first_index_at(line, SPACE, word.len() as int);
}

/// The parameters are read back from their text.
pub proof fn lemma_params_read_back(middle: Seq<Seq<char>>, trailing: Option<Seq<char>>)
    requires
        forall|k: int| 0 <= k < middle.len() ==> is_middle(#[trigger] middle[k]),
    ensures
        params_of(params_text(middle, trailing)) == all_params(middle, trailing),
    decreases middle.len(),
{
    let text = params_text(middle, trailing);
    if middle.len() == 0 {
        if let Some(last) = trailing {
            assert(text.skip(1) =~= last);
        }
    } else if middle.len() == 1 && trailing is None {
        lemma_first_index(text, SPACE);
    } else {
        let others = middle.skip(1);
        lemma_cut_behind_word(middle[0], params_text(others, trailing));
        assert(forall|k: int| 0 <= k < others.len() ==> others[k] == middle[k + 1]);
        lemma_params_read_back(others, trailing);
    }
}

/// A line written by the grammar has a parse, and the parse gives back the parts.
pub proof fn lemma_parse_reads_back(parts: LineParts)
    requires
        well_formed(parts),
    ensures
        parseable(line_of(parts)),
        parse_line(line_of(parts)) == message_of(parts),
{
    let line = line_of(parts);
    let params = params_text(parts.middle, parts.trailing);
    let body = parts.command + seq![SPACE] + params;
    if let Some(prefix) = parts.prefix {
        let opening = seq![MARKER] + prefix;
        assert(line =~= opening + seq![SPACE] + body);
        assert(forall|j: int| 0 < j < opening.len() ==> opening[j] == prefix[j - 1]);
        lemma_cut_behind_word(opening, body);
        lemma_first_index(line, SPACE);
        assert(prefix_of(line) =~= prefix);
    }
    lemma_cut_behind_word(parts.command, params);
    lemma_params_read_back(parts.middle, parts.trailing);
}

} // verus!
