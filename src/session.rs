//! Evaluating one input line, and the decisions of the read-evaluate loop.
use vstd::prelude::*;
use vstd::string::*;
use crate::builtins::{builtin_echo, builtin_exit, builtin_type, exit_status, is_builtin, is_builtin_name, type_report};
use crate::parse::{is_space, lead_len, piece_len, trail_len, trim_start, name_of, parse_command, remainder_of, same_text, split_tokens, tokens, trim_line, trimmed, views};
use crate::resolve::{located, ExecutableLocation};

verus! {

/// The status that ends the session when standard input runs dry.
pub const FAILURE_STATUS: u8 = 1;

/// What evaluating one line asks for.
pub enum Outcome {
    /// Print this text, then prompt again.
    Print(String),
    /// Nothing to print; prompt again.
    Continue,
    /// Run the located program with these arguments and relay its output.
    Launch(ExecutableLocation, Vec<String>),
    /// End the session with this status.
    Exit(u8),
}

/// The mathematical value of an [`Outcome`].
pub enum OutcomeView {
    Print(Seq<char>),
    Continue,
    Launch((Seq<char>, Seq<char>), Seq<Seq<char>>),
    Exit(u8),
}

impl View for Outcome {
    type V = OutcomeView;

    open spec fn view(&self) -> OutcomeView {
        match self {
            Outcome::Print(s) => OutcomeView::Print(s@),
            Outcome::Continue => OutcomeView::Continue,
            Outcome::Launch(loc, args) => OutcomeView::Launch(loc@, views(args@)),
            Outcome::Exit(c) => OutcomeView::Exit(*c),
        }
    }
}

/// The diagnostic for a line that names neither a builtin nor a program found.
pub open spec fn not_found_line(t: Seq<char>) -> Seq<char> {
    t + ": command not found\n"@
}

/// The name that evaluating `line` needs looked up on the search path: the
/// argument of `type` when it is a single non-builtin token, or the command
/// name when it is no builtin. Builtin names are never looked up.
pub open spec fn lookup_name(line: Seq<char>) -> Option<Seq<char>> {
    let t = trimmed(line);
    let name = name_of(t);
    let args = tokens(remainder_of(t));
    if t.len() == 0 {
        None
    } else if name == "type"@ {
        if args.len() == 1 && !is_builtin(args[0]) {
            Some(args[0])
        } else {
            None
        }
    } else if is_builtin(name) {
        None
    } else {
        Some(name)
    }
}

/// The outcome of `line`, where `found` is what the search path gave for
/// `lookup_name(line)` (`None` when nothing was looked up or nothing found).
pub open spec fn evaluation(line: Seq<char>, found: Option<(Seq<char>, Seq<char>)>) -> OutcomeView {
    let t = trimmed(line);
    let name = name_of(t);
    let rest = remainder_of(t);
    if t.len() == 0 {
        OutcomeView::Print(not_found_line(t))
    } else if name == "echo"@ {
        OutcomeView::Print(rest.push('\n'))
    } else if name == "exit"@ {
        match exit_status(rest) {
            Some(c) => OutcomeView::Exit(c),
            None => OutcomeView::Continue,
        }
    } else if name == "type"@ {
        OutcomeView::Print(type_report(tokens(rest), found))
    } else {
        match found {
            Some(loc) => OutcomeView::Launch(loc, tokens(rest)),
            None => OutcomeView::Print(not_found_line(t)),
        }
    }
}

/// The name to resolve before `line` can be evaluated, if any.
pub fn lookup_target(line: &str) -> (r: Option<String>)
    ensures
        r matches Some(n) ==> lookup_name(line@) == Some(n@),
        r is None ==> lookup_name(line@) is None,
{
    match parse_command(line) {
        None => None,
        Some(p) => {
            if same_text(p.name.as_str(), "type") {
                let args = split_tokens(p.remainder.as_str());
                if args.len() == 1 && !is_builtin_name(args[0].as_str()) {
                    Some(args[0].clone())
                } else {
                    None
                }
            } else if is_builtin_name(p.name.as_str()) {
                None
            } else {
                Some(p.name)
            }
        }
    }
}

/// Evaluates one input line, given what the search path gave for its
/// `lookup_target`.
pub fn eval_input(line: &str, found: Option<ExecutableLocation>) -> (r: Outcome)
    ensures
        r@ == evaluation(line@, located(found)),
{
    match parse_command(line) {
        None => {
            let t = trim_line(line);
            Outcome::Print(String::from_str(t).concat(": command not found\n"))
        },
        Some(p) => {
            let name = p.name.as_str();
            let rest = p.remainder.as_str();
            if same_text(name, "echo") {
                Outcome::Print(builtin_echo(rest))
            } else if same_text(name, "exit") {
                match builtin_exit(rest) {
                    Some(c) => Outcome::Exit(c),
                    None => Outcome::Continue,
                }
            } else if same_text(name, "type") {
                let args = split_tokens(rest);
                Outcome::Print(builtin_type(&args, &found))
            } else {
                match found {
                    Some(loc) => Outcome::Launch(loc, split_tokens(rest)),
                    None => {
                        let t = trim_line(line);
                        Outcome::Print(String::from_str(t).concat(": command not found\n"))
                    },
                }
            }
        },
    }
}

/// What the surroundings of the loop report to it.
pub enum Event {
    /// The session has started, or the last action has been carried out.
    Ready,
    /// A line was read from standard input.
    Line(String),
    /// Standard input has no more data.
    EndOfInput,
    /// The answer to a [`Action::Locate`] for this line.
    Located(String, Option<ExecutableLocation>),
}

/// What the loop asks its surroundings to do next.
pub enum Action {
    /// Write the prompt `$ `, flush it, and read one line.
    Prompt,
    /// Resolve this name on the current search path.
    Locate(String),
    /// Write this text.
    Print(String),
    /// Run the located program with these arguments and relay its output.
    Launch(ExecutableLocation, Vec<String>),
    /// End the session with this status.
    Terminate(u8),
}

/// The mathematical value of an [`Event`].
pub enum EventView {
    Ready,
    Line(Seq<char>),
    EndOfInput,
    Located(Seq<char>, Option<(Seq<char>, Seq<char>)>),
}

/// The mathematical value of an [`Action`].
pub enum ActionView {
    Prompt,
    Locate(Seq<char>),
    Print(Seq<char>),
    Launch((Seq<char>, Seq<char>), Seq<Seq<char>>),
    Terminate(u8),
}

impl View for Event {
    type V = EventView;

    open spec fn view(&self) -> EventView {
        match self {
            Event::Ready => EventView::Ready,
            Event::Line(l) => EventView::Line(l@),
            Event::EndOfInput => EventView::EndOfInput,
            Event::Located(l, f) => EventView::Located(l@, located(*f)),
        }
    }
}

impl View for Action {
    type V = ActionView;

    open spec fn view(&self) -> ActionView {
        match self {
            Action::Prompt => ActionView::Prompt,
            Action::Locate(n) => ActionView::Locate(n@),
            Action::Print(s) => ActionView::Print(s@),
            Action::Launch(loc, args) => ActionView::Launch(loc@, views(args@)),
            Action::Terminate(c) => ActionView::Terminate(*c),
        }
    }
}

/// The action that carries out an outcome: prompt again after a no-op.
pub open spec fn action_of(o: OutcomeView) -> ActionView {
    match o {
        OutcomeView::Print(s) => ActionView::Print(s),
        OutcomeView::Continue => ActionView::Prompt,
        OutcomeView::Launch(loc, args) => ActionView::Launch(loc, args),
        OutcomeView::Exit(c) => ActionView::Terminate(c),
    }
}

/// The decision of the loop on one event.
pub open spec fn next_action(e: EventView) -> ActionView {
    match e {
        EventView::Ready => ActionView::Prompt,
        EventView::EndOfInput => ActionView::Terminate(FAILURE_STATUS),
        EventView::Line(l) => match lookup_name(l) {
            Some(n) => ActionView::Locate(n),
            None => action_of(evaluation(l, None)),
        },
        EventView::Located(l, f) => action_of(evaluation(l, f)),
    }
}

fn act(o: Outcome) -> (r: Action)
    ensures
        r@ == action_of(o@),
{
    match o {
        Outcome::Print(s) => Action::Print(s),
        Outcome::Continue => Action::Prompt,
        Outcome::Launch(loc, args) => Action::Launch(loc, args),
        Outcome::Exit(c) => Action::Terminate(c),
    }
}

/// One turn of the read-evaluate loop: from what just happened to what to
/// do next. A line that needs a lookup is evaluated once its answer comes back.
pub fn repl(event: Event) -> (r: Action)
    ensures
        r@ == next_action(event@),
{
    match event {
        Event::Ready => Action::Prompt,
        Event::EndOfInput => Action::Terminate(FAILURE_STATUS),
        Event::Line(l) => match lookup_target(l.as_str()) {
            Some(n) => Action::Locate(n),
            None => act(eval_input(l.as_str(), None)),
        },
        Event::Located(l, f) => act(eval_input(l.as_str(), f)),
    }
}

/// A line whose command is no builtin and was not found on the search path
/// is reported as its trimmed text followed by `: command not found`.
pub proof fn lemma_unknown_command(line: Seq<char>)
    requires
        !is_builtin(name_of(trimmed(line))),
    ensures
        evaluation(line, None) == OutcomeView::Print(trimmed(line) + ": command not found\n"@),
{
}

/// Only a successful `exit` ends the session from a line: every other line
/// leads to printing, running a program, a lookup, or a new prompt.
pub proof fn lemma_only_exit_terminates(line: Seq<char>, found: Option<(Seq<char>, Seq<char>)>)
    requires
        name_of(trimmed(line)) != "exit"@ || exit_status(remainder_of(trimmed(line))) is None,
    ensures
        !(next_action(EventView::Line(line)) is Terminate),
        !(next_action(EventView::Located(line, found)) is Terminate),
{
}

proof fn lemma_type_line_parts(name: Seq<char>)
    requires
        is_builtin(name),
    ensures
        trimmed("type "@ + name) == "type "@ + name,
        name_of("type "@ + name) == "type"@,
        remainder_of("type "@ + name) == name,
        tokens(name) == seq![name],
{
    reveal_strlit("type ");
    reveal_strlit("type");
    reveal_strlit("echo");
    reveal_strlit("exit");
    reveal_with_fuel(lead_len, 6);
    reveal_with_fuel(piece_len, 5);
    let line = "type "@ + name;
    assert(line.len() == 9);
    assert(line[0] == 't');
    assert(!is_space(line[0]));
    assert(lead_len(line, true) == 0);
    assert(!is_space(line.last()));
    assert(trail_len(line) == 0);
    assert(trim_start(line) =~= line);
    assert(trimmed(line) =~= line);
    assert(line.subrange(0, 4) =~= "type"@);
    assert(line.drop_first().drop_first().drop_first().drop_first()[0] == ' ');
    assert(lead_len(line, false) == 4);
    assert(name_of(line) =~= "type"@);
    let tail = line.subrange(4, 9);
    assert(tail[0] == ' ');
    assert(!is_space(tail[1]));
    assert(lead_len(tail, true) == 1);
    assert(remainder_of(line) =~= name);
    assert(piece_len(name) == 4);
}

/// `type` on a builtin name reports it as a builtin, whatever the search path
/// holds: the name is never looked up, and any lookup result is ignored.
pub proof fn lemma_builtin_precedence(name: Seq<char>, found: Option<(Seq<char>, Seq<char>)>)
    requires
        is_builtin(name),
    ensures
        lookup_name("type "@ + name) is None,
        evaluation("type "@ + name, found) == OutcomeView::Print(name + " is a shell builtin\n"@),
{
    lemma_type_line_parts(name);
    reveal_strlit("type");
    reveal_strlit("echo");
    reveal_strlit("exit");
    assert("type"@[0] != "echo"@[0]);
    assert("type"@[0] != "exit"@[0]);
    assert(("type "@ + name).len() > 0) by {
        reveal_strlit("type ");
    }
}

/// `echo` prints back its text, with inner whitespace kept, as one line, and
/// the loop goes on: for any text without whitespace at its ends.
pub proof fn lemma_echo_round_trip(text: Seq<char>)
    requires
        text.len() > 0,
        !is_space(text[0]),
        !is_space(text.last()),
    ensures
        lookup_name("echo "@ + text) is None,
        evaluation("echo "@ + text, None) == OutcomeView::Print(text.push('\n')),
        next_action(EventView::Line("echo "@ + text)) == ActionView::Print(text.push('\n')),
{
    reveal_strlit("echo ");
    reveal_strlit("echo");
    reveal_strlit("exit");
    reveal_strlit("type");
    reveal_with_fuel(lead_len, 6);
    let line = "echo "@ + text;
    assert(!is_space(line[0]));
    assert(lead_len(line, true) == 0);
    assert(line.last() == text.last());
    assert(trail_len(line) == 0);
    assert(trim_start(line) =~= line);
    assert(trimmed(line) =~= line);
    assert(line.drop_first().drop_first().drop_first().drop_first()[0] == ' ');
    assert(lead_len(line, false) == 4);
    assert(name_of(line) =~= "echo"@);
    let tail = line.subrange(4, line.len() as int);
    assert(tail[0] == ' ');
    assert(tail[1] == text[0]);
    assert(lead_len(tail, true) == 1);
    assert(remainder_of(line) =~= text);
    assert("echo"@[1] != "exit"@[1]);
    assert("echo"@[0] != "type"@[0]);
}

} // verus!
