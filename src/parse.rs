//! Splitting an input line into a command name and the text that follows it.
use vstd::prelude::*;
use vstd::string::*;

verus! {

/// Unicode `White_Space`: the characters that `char::is_whitespace` accepts.
pub open spec fn is_space(c: char) -> bool {
    let v = c as u32;
    (0x9 <= v && v <= 0xd) || v == 0x20 || v == 0x85 || v == 0xa0 || v == 0x1680
        || (0x2000 <= v && v <= 0x200a) || v == 0x2028 || v == 0x2029 || v == 0x202f
        || v == 0x205f || v == 0x3000
}

/// Tests a character against [`is_space`].
pub fn is_space_char(c: char) -> (r: bool)
    ensures
        r == is_space(c),
{
    let v = c as u32;
    (0x9 <= v && v <= 0xd) || v == 0x20 || v == 0x85 || v == 0xa0 || v == 0x1680
        || (0x2000 <= v && v <= 0x200a) || v == 0x2028 || v == 0x2029 || v == 0x202f
        || v == 0x205f || v == 0x3000
}

/// The number of characters at the front of `s` that are whitespace
/// (`space == true`) or that are not (`space == false`).
pub open spec fn lead_len(s: Seq<char>, space: bool) -> nat
    decreases s.len(),
{
    if s.len() == 0 || is_space(s[0]) != space {
        0
    } else {
        1 + lead_len(s.drop_first(), space)
    }
}

/// The number of whitespace characters at the end of `s`.
pub open spec fn trail_len(s: Seq<char>) -> nat
    decreases s.len(),
{
    if s.len() == 0 || !is_space(s.last()) {
        0
    } else {
        1 + trail_len(s.drop_last())
    }
}

/// `s` without its leading whitespace.
pub open spec fn trim_start(s: Seq<char>) -> Seq<char> {
    s.subrange(lead_len(s, true) as int, s.len() as int)
}

/// `s` without its trailing whitespace.
pub open spec fn trim_end(s: Seq<char>) -> Seq<char> {
    s.subrange(0, s.len() - trail_len(s))
}

/// `s` without whitespace at either end (a line terminator included).
pub open spec fn trimmed(s: Seq<char>) -> Seq<char> {
    trim_end(trim_start(s))
}

/// The command name of a trimmed line: everything up to the first whitespace.
pub open spec fn name_of(t: Seq<char>) -> Seq<char> {
    t.subrange(0, lead_len(t, false) as int)
}

/// The remainder of a trimmed line: what follows the first run of whitespace,
/// inner whitespace kept as it is.
pub open spec fn remainder_of(t: Seq<char>) -> Seq<char> {
    trim_start(t.subrange(lead_len(t, false) as int, t.len() as int))
}

proof fn lemma_lead_len_bound(s: Seq<char>, space: bool)
    ensures
        lead_len(s, space) <= s.len(),
    decreases s.len(),
{
    if s.len() > 0 && is_space(s[0]) == space {
        lemma_lead_len_bound(s.drop_first(), space);
    }
}

proof fn lemma_trail_len_bound(s: Seq<char>)
    ensures
        trail_len(s) <= s.len(),
    decreases s.len(),
{
    if s.len() > 0 && is_space(s.last()) {
        lemma_trail_len_bound(s.drop_last());
    }
}

proof fn lemma_lead_step(s: Seq<char>, i: int, space: bool)
    requires
        0 <= i < s.len(),
    ensures
        is_space(s[i]) == space ==> lead_len(s.subrange(i, s.len() as int), space) == 1
            + lead_len(s.subrange(i + 1, s.len() as int), space),
        is_space(s[i]) != space ==> lead_len(s.subrange(i, s.len() as int), space) == 0,
{
    assert(s.subrange(i, s.len() as int).drop_first() =~= s.subrange(i + 1, s.len() as int));
}

proof fn lemma_trail_step(s: Seq<char>, a: int, b: int)
    requires
        0 <= a < b <= s.len(),
    ensures
        is_space(s[b - 1]) ==> trail_len(s.subrange(a, b)) == 1 + trail_len(s.subrange(a, b - 1)),
        !is_space(s[b - 1]) ==> trail_len(s.subrange(a, b)) == 0,
{
    assert(s.subrange(a, b).drop_last() =~= s.subrange(a, b - 1));
}

/// The index of the first character at or after `from` that is whitespace
/// (`space == true`) or that is not (`space == false`); the length if none is.
fn skip_while(s: &str, from: usize, space: bool) -> (r: usize)
    requires
        from <= s@.len(),
    ensures
        from <= r <= s@.len(),
        lead_len(s@.subrange(from as int, s@.len() as int), space) == r - from,
{
    let n = s.unicode_len();
    let mut i = from;
    while i < n && is_space_char(s.get_char(i)) == space
        invariant
            n == s@.len(),
            from <= i <= n,
            lead_len(s@.subrange(from as int, n as int), space) == (i - from) + lead_len(
                s@.subrange(i as int, n as int),
                space,
            ),
        decreases n - i,
    {
        proof {
            lemma_lead_step(s@, i as int, space);
        }
        i = i + 1;
    }
    proof {
        if i < n {
            lemma_lead_step(s@, i as int, space);
        }
    }
    i
}

/// Removes the whitespace, a line terminator included, at both ends of `line`.
pub fn trim_line(line: &str) -> (r: &str)
    ensures
        r@ == trimmed(line@),
{
    let n = line.unicode_len();
    let a = skip_while(line, 0, true);
    assert(line@.subrange(0, n as int) =~= line@);
    let mut b = n;
    while b > a && is_space_char(line.get_char(b - 1))
        invariant
            n == line@.len(),
            a <= b <= n,
            trail_len(line@.subrange(a as int, n as int)) == (n - b) + trail_len(
                line@.subrange(a as int, b as int),
            ),
        decreases b,
    {
        proof {
            lemma_trail_step(line@, a as int, b as int);
        }
        b = b - 1;
    }
    proof {
        if b > a {
            lemma_trail_step(line@, a as int, b as int);
        }
        let u = line@.subrange(a as int, n as int);
        assert(trim_start(line@) == u);
        assert(line@.subrange(a as int, b as int) =~= u.subrange(0, u.len() - trail_len(u)));
    }
    line.substring_char(a, b)
}

/// A line split into its command name and the text after it.
pub struct ParsedCommand {
    pub name: String,
    pub remainder: String,
}

/// Length of the first piece of `s` when it is cut at single spaces.
pub open spec fn piece_len(s: Seq<char>) -> nat
    decreases s.len(),
{
    if s.len() == 0 || s[0] == ' ' {
        0
    } else {
        1 + piece_len(s.drop_first())
    }
}

/// `s` cut at every single space; two spaces in a row give an empty piece.
pub open spec fn pieces(s: Seq<char>) -> Seq<Seq<char>>
    decreases s.len(),
{
    let k = piece_len(s) as int;
    if k >= s.len() {
        seq![s]
    } else {
        seq![s.subrange(0, k)] + pieces(s.subrange(k + 1, s.len() as int))
    }
}

/// The argument tokens of a remainder: none for an empty one, else its pieces.
pub open spec fn tokens(r: Seq<char>) -> Seq<Seq<char>> {
    if r.len() == 0 {
        seq![]
    } else {
        pieces(r)
    }
}

/// The texts held by a sequence of strings.
pub open spec fn views(v: Seq<String>) -> Seq<Seq<char>> {
    v.map_values(|x: String| x@)
}

proof fn lemma_lead_len_stops(s: Seq<char>, space: bool)
    ensures
        lead_len(s, space) < s.len() ==> is_space(s[lead_len(s, space) as int]) != space,
        forall|i: int| 0 <= i < lead_len(s, space) ==> is_space(#[trigger] s[i]) == space,
    decreases s.len(),
{
    if s.len() > 0 && is_space(s[0]) == space {
        lemma_lead_len_stops(s.drop_first(), space);
        lemma_lead_len_bound(s, space);
        assert forall|i: int| 0 <= i < lead_len(s, space) implies is_space(#[trigger] s[i])
            == space by {
            if i > 0 {
                assert(s[i] == s.drop_first()[i - 1]);
            }
        }
    }
}

/// A non-empty trimmed text starts with a character that is no whitespace.
proof fn lemma_trimmed_starts_solid(s: Seq<char>)
    ensures
        trimmed(s).len() > 0 ==> !is_space(trimmed(s)[0]) && lead_len(trimmed(s), false) > 0,
{
    lemma_lead_len_bound(s, true);
    lemma_lead_len_stops(s, true);
    lemma_trail_len_bound(trim_start(s));
}

/// Splits a line into its command name and remainder; `None` when the line
/// holds nothing but whitespace.
pub fn parse_command(line: &str) -> (r: Option<ParsedCommand>)
    ensures
        r is None <==> trimmed(line@).len() == 0,
        r matches Some(p) ==> p.name@ == name_of(trimmed(line@)) && p.remainder@ == remainder_of(
            trimmed(line@),
        ) && p.name@.len() > 0,
{
    let t = trim_line(line);
    let n = t.unicode_len();
    if n == 0 {
        return None;
    }
    proof {
        lemma_trimmed_starts_solid(line@);
        assert(t@.subrange(0, n as int) =~= t@);
    }
    let k = skip_while(t, 0, false);
    let j = skip_while(t, k, true);
    let name = String::from_str(t.substring_char(0, k));
    let remainder = String::from_str(t.substring_char(j, n));
    Some(ParsedCommand { name, remainder })
}

/// The index of the first space at or after `from`; the length if there is none.
fn find_space(s: &str, from: usize) -> (r: usize)
    requires
        from <= s@.len(),
    ensures
        from <= r <= s@.len(),
        piece_len(s@.subrange(from as int, s@.len() as int)) == r - from,
{
    let n = s.unicode_len();
    let mut i = from;
    while i < n && s.get_char(i) != ' '
        invariant
            n == s@.len(),
            from <= i <= n,
            piece_len(s@.subrange(from as int, n as int)) == (i - from) + piece_len(
                s@.subrange(i as int, n as int),
            ),
        decreases n - i,
    {
        assert(s@.subrange(i as int, n as int).drop_first() =~= s@.subrange(i + 1, n as int));
        i = i + 1;
    }
    i
}

/// Cuts a remainder into argument tokens at single spaces.
pub fn split_tokens(r: &str) -> (v: Vec<String>)
    ensures
        views(v@) == tokens(r@),
{
    let n = r.unicode_len();
    let mut out: Vec<String> = Vec::new();
    if n == 0 {
        assert(views(out@) =~= tokens(r@));
        return out;
    }
    assert(r@.subrange(0, n as int) =~= r@);
    let mut start: usize = 0;
    loop
        invariant
            n == r@.len(),
            n > 0,
            start <= n,
            views(out@) + pieces(r@.subrange(start as int, n as int)) == tokens(r@),
        decreases n - start,
    {
        let k = find_space(r, start);
        let piece = String::from_str(r.substring_char(start, k));
        let ghost rest = r@.subrange(start as int, n as int);
        let ghost before = out@;
        out.push(piece);
        assert(views(out@) =~= views(before).push(piece@));
        if k == n {
            assert(pieces(rest) == seq![rest]);
            assert(views(out@) + seq![] =~= views(before) + pieces(rest));
            assert(views(out@) =~= views(out@) + seq![]);
            return out;
        }
        assert(rest.subrange(k - start + 1, rest.len() as int) =~= r@.subrange(k + 1, n as int));
        assert(rest.subrange(0, k - start) =~= piece@);
        assert(views(out@) + pieces(r@.subrange(k + 1, n as int)) =~= views(before) + pieces(rest));
        start = k + 1;
    }
}

/// Whether two texts are the same, character for character.
pub fn same_text(a: &str, b: &str) -> (r: bool)
    ensures
        r == (a@ == b@),
{
    let n = a.unicode_len();
    if n != b.unicode_len() {
        return false;
    }
    let mut i: usize = 0;
    while i < n
        invariant
            n == a@.len() == b@.len(),
            i <= n,
            forall|j: int| 0 <= j < i ==> a@[j] == b@[j],
        decreases n - i,
    {
        if a.get_char(i) != b.get_char(i) {
            return false;
        }
        i = i + 1;
    }
    assert(a@ =~= b@);
    true
}

} // verus!
