//! Finding an executable by bare name along an ordered search path.
use vstd::prelude::*;
use vstd::string::*;
use crate::parse::views;

verus! {

/// Where a command name was found: the search-path directory and the joined path.
pub struct ExecutableLocation {
    pub directory: String,
    pub full_path: String,
}

impl View for ExecutableLocation {
    type V = (Seq<char>, Seq<char>);

    open spec fn view(&self) -> (Seq<char>, Seq<char>) {
        (self.directory@, self.full_path@)
    }
}

/// The view of an optional location.
pub open spec fn located(o: Option<ExecutableLocation>) -> Option<(Seq<char>, Seq<char>)> {
    match o {
        Some(l) => Some(l@),
        None => None,
    }
}

/// What the filesystem reports of one candidate path.
#[derive(Clone, Copy, Debug, PartialEq, Eq)]
pub enum Probe {
    /// No entry exists at the path.
    Missing,
    /// An entry exists, with these permission bits.
    Present(u32),
}

/// The owner, group and other execute bits.
pub const EXEC_BITS: u32 = 0o111;

/// An entry may be run when any of its three execute bits is set, whoever
/// the invoking user is.
pub open spec fn probe_runnable(p: Probe) -> bool {
    match p {
        Probe::Present(mode) => mode & EXEC_BITS != 0,
        Probe::Missing => false,
    }
}

/// Whether the permission bits `mode` carry at least one execute bit.
pub fn is_executable_mode(mode: u32) -> (r: bool)
    ensures
        r == (mode & EXEC_BITS != 0),
{
    mode & EXEC_BITS != 0
}

/// Whether a probed candidate can be run.
pub fn is_runnable(p: Probe) -> (r: bool)
    ensures
        r == probe_runnable(p),
{
    match p {
        Probe::Present(mode) => is_executable_mode(mode),
        Probe::Missing => false,
    }
}

/// The path at which `name` is looked for in `dir`.
pub open spec fn candidate(dir: Seq<char>, name: Seq<char>) -> Seq<char> {
    dir + "/"@ + name
}

/// Joins a directory and a command name with the path separator.
pub fn candidate_path(dir: &str, name: &str) -> (r: String)
    ensures
        r@ == candidate(dir@, name@),
{
    String::from_str(dir).concat("/").concat(name)
}

/// The first directory, in listed order, whose candidate probed runnable;
/// `probes[i]` is what the filesystem said of `candidate(dirs[i], name)`.
pub open spec fn resolution(name: Seq<char>, dirs: Seq<Seq<char>>, probes: Seq<Probe>) -> Option<
    (Seq<char>, Seq<char>),
>
    decreases dirs.len(),
{
    if dirs.len() == 0 || probes.len() == 0 {
        None
    } else if probe_runnable(probes[0]) {
        Some((dirs[0], candidate(dirs[0], name)))
    } else {
        resolution(name, dirs.drop_first(), probes.drop_first())
    }
}

proof fn lemma_resolution_step(name: Seq<char>, dirs: Seq<Seq<char>>, probes: Seq<Probe>, i: int)
    requires
        0 <= i < dirs.len(),
        i < probes.len(),
        !probe_runnable(probes[i]),
    ensures
        resolution(
            name,
            dirs.subrange(i, dirs.len() as int),
            probes.subrange(i, probes.len() as int),
        ) == resolution(
            name,
            dirs.subrange(i + 1, dirs.len() as int),
            probes.subrange(i + 1, probes.len() as int),
        ),
{
    assert(dirs.subrange(i, dirs.len() as int).drop_first() =~= dirs.subrange(
        i + 1,
        dirs.len() as int,
    ));
    assert(probes.subrange(i, probes.len() as int).drop_first() =~= probes.subrange(
        i + 1,
        probes.len() as int,
    ));
}

/// Searches the directories in order for the first whose candidate for `name`
/// probed runnable; `None` when none did, or when the search path is empty.
pub fn get_exec_path(name: &str, dirs: &Vec<String>, probes: &Vec<Probe>) -> (r: Option<
    ExecutableLocation,
>)
    ensures
        located(r) == resolution(name@, views(dirs@), probes@),
{
    let ghost d = views(dirs@);
    let mut i: usize = 0;
    assert(d.subrange(0, d.len() as int) =~= d);
    assert(probes@.subrange(0, probes@.len() as int) =~= probes@);
    while i < dirs.len() && i < probes.len()
        invariant
            d == views(dirs@),
            i <= dirs@.len(),
            i <= probes@.len(),
            resolution(name@, d, probes@) == resolution(
                name@,
                d.subrange(i as int, d.len() as int),
                probes@.subrange(i as int, probes@.len() as int),
            ),
        decreases dirs@.len() - i,
    {
        if is_runnable(probes[i]) {
            let full_path = candidate_path(dirs[i].as_str(), name);
            return Some(ExecutableLocation { directory: dirs[i].clone(), full_path });
        }
        proof {
            lemma_resolution_step(name@, d, probes@, i as int);
        }
        i = i + 1;
    }
    None
}

/// Search order decides: when two directories both hold a runnable entry of
/// the name, the one listed first is chosen.
pub proof fn lemma_earlier_directory_wins(
    name: Seq<char>,
    dirs: Seq<Seq<char>>,
    probes: Seq<Probe>,
)
    requires
        dirs.len() == 2,
        probes.len() == 2,
        probe_runnable(probes[0]),
        probe_runnable(probes[1]),
    ensures
        resolution(name, dirs, probes) == Some((dirs[0], candidate(dirs[0], name))),
{
}

/// Whatever follows in the search path, the first runnable candidate wins:
/// a directory listed before every other runnable one is the result.
pub proof fn lemma_first_runnable_wins(
    name: Seq<char>,
    dirs: Seq<Seq<char>>,
    probes: Seq<Probe>,
    i: int,
)
    requires
        0 <= i < dirs.len(),
        i < probes.len(),
        probe_runnable(probes[i]),
        forall|j: int| 0 <= j < i ==> !probe_runnable(#[trigger] probes[j]),
    ensures
        resolution(name, dirs, probes) == Some((dirs[i], candidate(dirs[i], name))),
    decreases i,
{
    if i > 0 {
        assert forall|j: int| 0 <= j < i - 1 implies !probe_runnable(
            #[trigger] probes.drop_first()[j],
        ) by {
            assert(probes.drop_first()[j] == probes[j + 1]);
        }
        assert(!probe_runnable(probes[0]));
        lemma_first_runnable_wins(name, dirs.drop_first(), probes.drop_first(), i - 1);
    }
}

} // verus!
