//! The builtin commands `echo`, `exit` and `type`.
use vstd::prelude::*;
use vstd::string::*;
use crate::parse::{same_text, views};
use crate::resolve::{located, ExecutableLocation};

verus! {

/// The closed set of builtin names, compared case-sensitively.
pub open spec fn is_builtin(name: Seq<char>) -> bool {
    name == "echo"@ || name == "exit"@ || name == "type"@
}

/// Whether `name` is one of the builtins.
pub fn is_builtin_name(name: &str) -> (r: bool)
    ensures
        r == is_builtin(name@),
{
    same_text(name, "echo") || same_text(name, "exit") || same_text(name, "type")
}

/// What `echo` prints: its text and a newline.
pub fn builtin_echo(text: &str) -> (r: String)
    ensures
        r@ == text@.push('\n'),
{
    let r = String::from_str(text).concat("\n");
    proof {
        reveal_strlit("\n");
        assert(r@ =~= text@.push('\n'));
    }
    r
}

/// A decimal digit.
pub open spec fn is_digit(c: char) -> bool {
    '0' <= c && c <= '9'
}

/// The number that a run of decimal digits writes.
pub open spec fn digits_value(s: Seq<char>) -> int
    decreases s.len(),
{
    if s.len() == 0 {
        0
    } else {
        digits_value(s.drop_last()) * 10 + (s.last() as u32 - '0' as u32)
    }
}

/// The status that `exit` takes from its remainder: a non-empty run of decimal
/// digits whose value lies in [0, 255]; `None` for anything else.
pub open spec fn exit_status(r: Seq<char>) -> Option<u8> {
    if r.len() > 0 && (forall|i: int| 0 <= i < r.len() ==> is_digit(#[trigger] r[i]))
        && digits_value(r) <= 255 {
        Some(digits_value(r) as u8)
    } else {
        None
    }
}

proof fn lemma_digits_value_nonneg(s: Seq<char>)
    requires
        forall|i: int| 0 <= i < s.len() ==> is_digit(#[trigger] s[i]),
    ensures
        digits_value(s) >= 0,
    decreases s.len(),
{
    if s.len() > 0 {
        lemma_digits_value_nonneg(s.drop_last());
    }
}

/// Parses the argument of `exit`: the status to end the session with, or
/// `None` when the remainder is no status, and the command does nothing.
pub fn builtin_exit(remainder: &str) -> (r: Option<u8>)
    ensures
        r == exit_status(remainder@),
{
    let n = remainder.unicode_len();
    if n == 0 {
        return None;
    }
    let ghost s = remainder@;
    let mut v: u32 = 0;
    let mut i: usize = 0;
    while i < n
        invariant
            n == s.len(),
            s == remainder@,
            i <= n,
            forall|j: int| 0 <= j < i ==> is_digit(#[trigger] s[j]),
            v <= 256,
            v == if digits_value(s.subrange(0, i as int)) < 256 {
                digits_value(s.subrange(0, i as int))
            } else {
                256
            },
        decreases n - i,
    {
        let c = remainder.get_char(i);
        if !('0' <= c && c <= '9') {
            return None;
        }
        proof {
            assert(s.subrange(0, i + 1).drop_last() =~= s.subrange(0, i as int));
            lemma_digits_value_nonneg(s.subrange(0, i as int));
        }
        let w = v * 10 + (c as u32 - '0' as u32);
        v = if w > 256 {
            256
        } else {
            w
        };
        i = i + 1;
    }
    assert(s.subrange(0, n as int) =~= s);
    if v > 255 {
        None
    } else {
        Some(v as u8)
    }
}

/// The usage diagnostic of `type`.
pub open spec fn type_usage() -> Seq<char> {
    "type: invalid number of arguments\n"@
}

/// What `type` prints for its argument tokens, where `found` is what the
/// search path gave for the single argument.
pub open spec fn type_report(args: Seq<Seq<char>>, found: Option<(Seq<char>, Seq<char>)>) -> Seq<
    char,
> {
    if args.len() != 1 {
        type_usage()
    } else if is_builtin(args[0]) {
        args[0] + " is a shell builtin\n"@
    } else {
        match found {
            Some(loc) => args[0] + " is "@ + loc.1 + "\n"@,
            None => args[0] + ": not found\n"@,
        }
    }
}

/// What `type` prints: whether its one argument is a builtin, where it was
/// found, or that it was not; a usage diagnostic for any other count.
pub fn builtin_type(args: &Vec<String>, found: &Option<ExecutableLocation>) -> (r: String)
    ensures
        r@ == type_report(views(args@), located(*found)),
{
    if args.len() != 1 {
        return String::from_str("type: invalid number of arguments\n");
    }
    let arg = args[0].as_str();
    if is_builtin_name(arg) {
        String::from_str(arg).concat(" is a shell builtin\n")
    } else {
        match found {
            Some(loc) => String::from_str(arg).concat(" is ").concat(loc.full_path.as_str()).concat(
                "\n",
            ),
            None => String::from_str(arg).concat(": not found\n"),
        }
    }
}

/// A builtin name always reports as a builtin, whatever the search path holds.
pub proof fn lemma_type_builtin_precedence(name: Seq<char>, found: Option<(Seq<char>, Seq<char>)>)
    requires
        is_builtin(name),
    ensures
        type_report(seq![name], found) == name + " is a shell builtin\n"@,
{
}

} // verus!
