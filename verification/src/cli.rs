//! The terminal's command language: a line is read as a command word and up
//! to two arguments, which are either quoted or plain words.
use vstd::prelude::*;

use crate::edit::{Edit, EditView};
use crate::text::{
    blank, is_blank, is_white_space, join_from, joined, lemma_split_joined_words, same_text,
    split_words, words,
};

verus! {

/// The pattern that picks out a quoted argument: a double quote, one or
/// more other characters (the argument), and a double quote.
pub const QUOTED_INPUT_PATTERN: &'static str = "\"([^\"]+)\"";

/// The reply to `help`.
pub const HELP_TEXT: &'static str =
    "commands are list, help, format, rename, update, remove, promote, demote, add, and exit";

/// The reply to `format`.
pub const FORMAT_TEXT: &'static str =
    "commands must be provided as 'command \"name wth spaces\" \"second input with spaces\"'; or simple commands as 'command name_without_spaces second input with or without spaces or quotes";

/// What `regex::Regex::new(pattern)` followed by `captures_iter(text)`
/// yields: `None` when the pattern does not compile, else for each match in
/// turn the text of capture group `group`, or `None` where that group did
/// not take part in the match.
pub uninterp spec fn regex_group_captures(pattern: Seq<char>, text: Seq<char>, group: usize) -> Option<
    Seq<Option<Seq<char>>>,
>;

/// Calls `regex::Regex::new(pattern)` and, when it compiles,
/// `Regex::captures_iter(text)`, taking `Captures::get(group)` of each match.
/// The contract claims only that the result is a function of the three
/// arguments, named `regex_group_captures`; what the regex matches is not
/// stated.
#[verifier::external_body]
fn regex_captures(pattern: &str, text: &str, group: usize) -> (r: Option<Vec<Option<String>>>)
    ensures
        r.deep_view() == regex_group_captures(pattern@, text@, group),
{
    match regex::Regex::new(pattern) {
        Ok(re) => Some(
            re.captures_iter(text).map(|c| c.get(group).map(|m| m.as_str().to_string())).collect(),
        ),
        Err(_) => None,
    }
}

/// The quoted arguments kept from a list of captures: those that are not
/// blank. A capture whose group did not take part is passed over.
pub open spec fn kept_captures(caps: Seq<Option<Seq<char>>>) -> Seq<Seq<char>>
    decreases caps.len(),
{
    if caps.len() == 0 {
        Seq::empty()
    } else {
        let rest = kept_captures(caps.drop_last());
        match caps.last() {
            Some(t) => if is_blank(t) {
                rest
            } else {
                rest.push(t)
            },
            None => rest,
        }
    }
}

/// The quoted arguments of a line, from what the regex found in it (none
/// when the pattern did not compile).
pub open spec fn quoted_inputs(caps: Option<Seq<Option<Seq<char>>>>) -> Seq<Seq<char>> {
    match caps {
        Some(c) => kept_captures(c),
        None => Seq::empty(),
    }
}

/// The command word and its arguments: the first plain word, then the first
/// two quoted arguments if there are any, else the second plain word and the
/// rest of the plain words joined by single spaces.
pub open spec fn cli_inputs(simple: Seq<Seq<char>>, quoted: Seq<Seq<char>>) -> Seq<Seq<char>> {
    if simple.len() == 0 {
        Seq::empty()
    } else if quoted.len() >= 2 {
        seq![simple[0], quoted[0], quoted[1]]
    } else if quoted.len() == 1 {
        seq![simple[0], quoted[0]]
    } else if simple.len() >= 3 {
        seq![simple[0], simple[1], joined(simple.skip(2), " "@)]
    } else if simple.len() == 2 {
        seq![simple[0], simple[1]]
    } else {
        seq![simple[0]]
    }
}

/// What the user asked for at the terminal.
#[derive(Debug)]
pub enum CliCommand {
    /// A change to the board.
    Edit(Edit),
    /// `exit` or `quit`.
    Exit,
    /// `list`.
    List,
    /// `help`.
    Help,
    /// `format`.
    Format,
    /// A single word that is no command.
    Unknown,
    /// Two or three inputs that are no command.
    UnknownOrTooMany,
    /// Nothing but white space.
    NoInput,
}

/// The abstract value of a [`CliCommand`].
pub enum CliCommandView {
    Edit(EditView),
    Exit,
    List,
    Help,
    Format,
    Unknown,
    UnknownOrTooMany,
    NoInput,
}

impl View for CliCommand {
    type V = CliCommandView;

    open spec fn view(&self) -> CliCommandView {
        match self {
            CliCommand::Edit(e) => CliCommandView::Edit(e@),
            CliCommand::Exit => CliCommandView::Exit,
            CliCommand::List => CliCommandView::List,
            CliCommand::Help => CliCommandView::Help,
            CliCommand::Format => CliCommandView::Format,
            CliCommand::Unknown => CliCommandView::Unknown,
            CliCommand::UnknownOrTooMany => CliCommandView::UnknownOrTooMany,
            CliCommand::NoInput => CliCommandView::NoInput,
        }
    }
}

/// The command that a command word and its arguments stand for.
pub open spec fn cli_command_of(inputs: Seq<Seq<char>>) -> CliCommandView {
    if inputs.len() == 3 {
        let (c, a, b) = (inputs[0], inputs[1], inputs[2]);
        if c == "add"@ {
            CliCommandView::Edit(EditView::Add(a, b))
        } else if c == "rename"@ {
            CliCommandView::Edit(EditView::Rename(a, b))
        } else if c == "update"@ {
            CliCommandView::Edit(EditView::Update(a, b))
        } else {
            CliCommandView::UnknownOrTooMany
        }
    } else if inputs.len() == 2 {
        let (c, a) = (inputs[0], inputs[1]);
        if c == "promote"@ {
            CliCommandView::Edit(EditView::Promote(a))
        } else if c == "demote"@ {
            CliCommandView::Edit(EditView::Demote(a))
        } else if c == "remove"@ {
            CliCommandView::Edit(EditView::Remove(a))
        } else {
            CliCommandView::UnknownOrTooMany
        }
    } else if inputs.len() == 1 {
        let c = inputs[0];
        if c == "exit"@ || c == "quit"@ {
            CliCommandView::Exit
        } else if c == "list"@ {
            CliCommandView::List
        } else if c == "help"@ {
            CliCommandView::Help
        } else if c == "format"@ {
            CliCommandView::Format
        } else {
            CliCommandView::Unknown
        }
    } else {
        CliCommandView::NoInput
    }
}

/// The non-blank quoted arguments among the captures.
pub fn keep_captures(caps: &Option<Vec<Option<String>>>) -> (kept: Vec<String>)
    ensures
        kept.deep_view() == quoted_inputs(caps.deep_view()),
{
    let mut kept: Vec<String> = Vec::new();
    match caps {
        None => {
            assert(kept.deep_view() =~= Seq::<Seq<char>>::empty());
        },
        Some(cs) => {
            let mut i: usize = 0;
            assert(cs.deep_view().take(0) =~= Seq::<Option<Seq<char>>>::empty());
            assert(kept.deep_view() =~= Seq::<Seq<char>>::empty());
            while i < cs.len()
                invariant
                    i <= cs.len(),
                    kept.deep_view() == kept_captures(cs.deep_view().take(i as int)),
                decreases cs.len() - i,
            {
                let ghost prefix = cs.deep_view().take(i + 1);
                assert(prefix.drop_last() =~= cs.deep_view().take(i as int));
                assert(prefix.last() == cs[i as int].deep_view());
                match &cs[i] {
                    Some(t) => {
                        if !blank(t.as_str()) {
                            let ghost before = kept.deep_view();
                            kept.push(t.clone());
                            assert(kept.deep_view() =~= before.push(t@));
                        }
                    },
                    None => {},
                }
                i += 1;
            }
            assert(cs.deep_view().take(cs.len() as int) =~= cs.deep_view());
        },
    }
    kept
}

/// The command word and its arguments, from the plain words and the quoted
/// arguments of a line.
pub fn gather_inputs(simple: &Vec<String>, quoted: &Vec<String>) -> (inputs: Vec<String>)
    ensures
        inputs.deep_view() == cli_inputs(simple.deep_view(), quoted.deep_view()),
{
    let mut inputs: Vec<String> = Vec::new();
    if simple.len() > 0 {
        inputs.push(simple[0].clone());
        if quoted.len() > 0 {
            inputs.push(quoted[0].clone());
            if quoted.len() > 1 {
                inputs.push(quoted[1].clone());
            }
        } else if simple.len() > 1 {
            inputs.push(simple[1].clone());
            if simple.len() > 2 {
                inputs.push(join_from(simple, 2, " "));
            }
        }
    }
    assert(inputs.deep_view() =~= cli_inputs(simple.deep_view(), quoted.deep_view()));
    inputs
}

/// The command that a command word and its arguments stand for.
pub fn command_of_inputs(inputs: &Vec<String>) -> (cmd: CliCommand)
    ensures
        cmd@ == cli_command_of(inputs.deep_view()),
{
    let n = inputs.len();
    if n == 3 {
        let c = inputs[0].as_str();
        let a = inputs[1].clone();
        let b = inputs[2].clone();
        if same_text(c, "add") {
            CliCommand::Edit(Edit::Add(a, b))
        } else if same_text(c, "rename") {
            CliCommand::Edit(Edit::Rename(a, b))
        } else if same_text(c, "update") {
            CliCommand::Edit(Edit::Update(a, b))
        } else {
            CliCommand::UnknownOrTooMany
        }
    } else if n == 2 {
        let c = inputs[0].as_str();
        let a = inputs[1].clone();
        if same_text(c, "promote") {
            CliCommand::Edit(Edit::Promote(a))
        } else if same_text(c, "demote") {
            CliCommand::Edit(Edit::Demote(a))
        } else if same_text(c, "remove") {
            CliCommand::Edit(Edit::Remove(a))
        } else {
            CliCommand::UnknownOrTooMany
        }
    } else if n == 1 {
        let c = inputs[0].as_str();
        if same_text(c, "exit") || same_text(c, "quit") {
            CliCommand::Exit
        } else if same_text(c, "list") {
            CliCommand::List
        } else if same_text(c, "help") {
            CliCommand::Help
        } else if same_text(c, "format") {
            CliCommand::Format
        } else {
            CliCommand::Unknown
        }
    } else {
        CliCommand::NoInput
    }
}

/// The command in a line, given its plain words and what the quoted-argument
/// regex found in it.
pub fn command_from_parts(simple: &Vec<String>, captures: &Option<Vec<Option<String>>>) -> (cmd:
    CliCommand)
    ensures
        cmd@ == cli_command_of(cli_inputs(simple.deep_view(), quoted_inputs(captures.deep_view()))),
{
    let quoted = keep_captures(captures);
    let inputs = gather_inputs(simple, &quoted);
    command_of_inputs(&inputs)
}

/// The command in a line typed at the terminal (without its line break).
pub fn parse_cli_line(line: &str) -> (cmd: CliCommand)
    ensures
        cmd@ == cli_command_of(
            cli_inputs(
                words(line@),
                quoted_inputs(regex_group_captures(QUOTED_INPUT_PATTERN@, line@, 1)),
            ),
        ),
{
    let simple = split_words(line);
    let captures = regex_captures(QUOTED_INPUT_PATTERN, line, 1);
    command_from_parts(&simple, &captures)
}

/// The command in a line as read from the terminal: its last character (the
/// line break) is dropped first.
pub fn parse_cli_input(raw: &str) -> (cmd: CliCommand)
    ensures
        cmd@ == cli_command_of(
            cli_inputs(
                words(if raw@.len() > 0 { raw@.drop_last() } else { raw@ }),
                quoted_inputs(
                    regex_group_captures(
                        QUOTED_INPUT_PATTERN@,
                        if raw@.len() > 0 { raw@.drop_last() } else { raw@ },
                        1,
                    ),
                ),
            ),
        ),
{
    let n = raw.unicode_len();
    if n > 0 {
        let line = raw.substring_char(0, n - 1);
        assert(line@ =~= raw@.drop_last());
        parse_cli_line(line)
    } else {
        parse_cli_line(raw)
    }
}

/// No kept quoted argument is blank, and when every capture took part and
/// none is blank, all of them are kept, in order.
pub proof fn lemma_kept_captures(caps: Seq<Option<Seq<char>>>)
    ensures
        forall|k: int|
            0 <= k < kept_captures(caps).len() ==> !is_blank(#[trigger] kept_captures(caps)[k]),
        kept_captures(caps).len() <= caps.len(),
        (forall|k: int| 0 <= k < caps.len() ==> (#[trigger] caps[k] matches Some(t) && !is_blank(t)))
            ==> kept_captures(caps).len() == caps.len() && forall|k: int|
            0 <= k < caps.len() ==> Some(#[trigger] kept_captures(caps)[k]) == caps[k],
    decreases caps.len(),
{
    if caps.len() > 0 {
        let c0 = caps.drop_last();
        lemma_kept_captures(c0);
        let rest = kept_captures(c0);
        if forall|k: int| 0 <= k < caps.len() ==> (#[trigger] caps[k] matches Some(t) && !is_blank(t)) {
            assert forall|k: int| 0 <= k < c0.len() implies (#[trigger] c0[k] matches Some(t) && !is_blank(t)) by {
                assert(c0[k] == caps[k]);
            }
            assert(caps[caps.len() - 1] matches Some(t) && !is_blank(t));
            assert forall|k: int| 0 <= k < caps.len() implies Some(#[trigger] kept_captures(caps)[k]) == caps[k] by {
                if k < c0.len() {
                    assert(c0[k] == caps[k]);
                }
            }
        }
    }
}

/// The command word is always the first plain word; quoted arguments, when
/// there are any, are the arguments (at most two); otherwise the second
/// plain word is the first argument and the remaining plain words, joined
/// by single spaces, form the second, which splits back into those words.
pub proof fn lemma_inputs_from_words(simple: Seq<Seq<char>>, quoted: Seq<Seq<char>>)
    ensures
        simple.len() == 0 ==> cli_inputs(simple, quoted).len() == 0,
        simple.len() > 0 ==> cli_inputs(simple, quoted)[0] == simple[0],
        simple.len() > 0 && quoted.len() > 0 ==> {
            let inputs = cli_inputs(simple, quoted);
            &&& inputs.len() == (if quoted.len() >= 2 { 3int } else { 2int })
            &&& inputs[1] == quoted[0]
            &&& quoted.len() >= 2 ==> inputs[2] == quoted[1]
        },
        simple.len() > 0 && quoted.len() == 0 ==> {
            let inputs = cli_inputs(simple, quoted);
            &&& inputs.len() == (if simple.len() >= 3 { 3int } else { simple.len() as int })
            &&& simple.len() >= 2 ==> inputs[1] == simple[1]
        },
        simple.len() >= 3 && quoted.len() == 0 && (forall|k: int|
            0 <= k < simple.len() ==> (#[trigger] simple[k]).len() > 0) && (forall|k: int, j: int|
            0 <= k < simple.len() && 0 <= j < simple[k].len() ==> !is_white_space(
                #[trigger] simple[k][j],
            )) ==> words(cli_inputs(simple, quoted)[2]) == simple.skip(2),
{
    if simple.len() >= 3 && quoted.len() == 0 && (forall|k: int|
        0 <= k < simple.len() ==> (#[trigger] simple[k]).len() > 0) && (forall|k: int, j: int|
        0 <= k < simple.len() && 0 <= j < simple[k].len() ==> !is_white_space(
            #[trigger] simple[k][j],
        )) {
        let rest = simple.skip(2);
        assert forall|k: int| 0 <= k < rest.len() implies (#[trigger] rest[k]).len() > 0 by {
            assert(rest[k] == simple[k + 2]);
        }
        assert forall|k: int, j: int|
            0 <= k < rest.len() && 0 <= j < rest[k].len() implies !is_white_space(
            #[trigger] rest[k][j],
        ) by {
            assert(rest[k] == simple[k + 2]);
        }
        lemma_split_joined_words(rest);
    }
}

} // verus!
