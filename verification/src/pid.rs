//! Which process is the game: the rule by which a list of processes is
//! searched for it.

use vstd::prelude::*;
use vstd::string::StringSliceAdditionalSpecFns;
use vstd::utf8::encode_utf8;

verus! {

/// What every path to the game's binary contains.
pub const GAME_BINARY: &'static str = "Celeste.bin.x86_64";

/// Why no process was found.
#[derive(Clone, Copy, Debug, PartialEq, Eq, Structural)]
pub enum PIDError {
    /// No process runs the game's binary.
    NotFound,
    /// The list of processes could not be read to its end.
    IOError,
}

/// One entry of the directory that lists the processes.
#[derive(Debug, PartialEq, Eq)]
pub enum ProcEntry {
    /// The entry, or what kind of file it is, could not be read.
    Failed,
    /// An entry that was read.
    Found {
        /// The name of the entry.
        name: String,
        /// Whether the entry is a directory.
        is_dir: bool,
        /// Where the link to the executable in it leads, if there is one and
        /// it can be read.
        exe: Option<String>,
    },
}

/// Whether `b` is a decimal digit in ASCII.
pub open spec fn is_digit(b: u8) -> bool {
    0x30 <= b <= 0x39
}

/// Whether `s` holds decimal digits only.
pub open spec fn all_digits(s: Seq<u8>) -> bool {
    forall|i: int| 0 <= i < s.len() ==> is_digit(#[trigger] s[i])
}

/// The number that the decimal digits `s` spell.
pub open spec fn digits_value(s: Seq<u8>) -> nat
    decreases s.len(),
{
    if s.len() == 0 {
        0
    } else {
        digits_value(s.drop_last()) * 10 + (s.last() - 0x30) as nat
    }
}

/// The process id that the name `name` stands for: `name` has at least one
/// byte, all its bytes are digits, and their number fits.
pub open spec fn pid_of(name: Seq<u8>) -> Option<i32> {
    if name.len() > 0 && all_digits(name) && digits_value(name) <= i32::MAX {
        Some(digits_value(name) as i32)
    } else {
        None
    }
}

/// Whether `part` occurs in `s`.
pub open spec fn has_part(s: Seq<u8>, part: Seq<u8>) -> bool {
    exists|i: int| 0 <= i <= s.len() - part.len() && #[trigger] s.subrange(i, i + part.len()) == part
}

/// Whether the executable at `path` is the game's.
pub open spec fn is_game_path(path: Seq<u8>) -> bool {
    has_part(path, GAME_BINARY.spec_bytes())
}

impl ProcEntry {
    /// The id of the process that this entry stands for, if that process runs
    /// the game: the entry is a directory, its executable is the game's, and
    /// its name is a process id.
    pub open spec fn game_pid(self) -> Option<i32> {
        match self {
            ProcEntry::Failed => None,
            ProcEntry::Found { name, is_dir, exe } => match exe {
                Some(path) => if is_dir && is_game_path(encode_utf8(path@)) {
                    pid_of(encode_utf8(name@))
                } else {
                    None
                },
                None => None,
            },
        }
    }
}

/// What a scan of `entries` gives: the process of the first entry that runs
/// the game; `IOError` where an entry before it could not be read; `NotFound`
/// where the entries end without either.
pub open spec fn scan(entries: Seq<ProcEntry>) -> Result<i32, PIDError>
    decreases entries.len(),
{
    if entries.len() == 0 {
        Err(PIDError::NotFound)
    } else if entries[0] is Failed {
        Err(PIDError::IOError)
    } else {
        match entries[0].game_pid() {
            Some(pid) => Ok(pid),
            None => scan(entries.drop_first()),
        }
    }
}

/// The process id that `name` stands for.
pub fn parse_pid(name: &str) -> (pid: Option<i32>)
    ensures
        pid == pid_of(name.spec_bytes()),
{
    let bytes = name.as_bytes();
    if bytes.len() == 0 {
        return None;
    }
    let mut value: u64 = 0;
    let mut fits: bool = true;
    let mut i: usize = 0;
    while i < bytes.len()
        invariant
            i <= bytes.len(),
            bytes@ == name.spec_bytes(),
            all_digits(bytes@.take(i as int)),
            fits ==> value == digits_value(bytes@.take(i as int)) && value <= i32::MAX,
            !fits ==> digits_value(bytes@.take(i as int)) > i32::MAX,
        decreases bytes.len() - i,
    {
        let b = bytes[i];
        if b < 0x30 || b > 0x39 {
            assert(!is_digit(bytes@[i as int]));
            return None;
        }
        proof {
            let next = bytes@.take(i + 1);
            assert(next.drop_last() =~= bytes@.take(i as int));
            assert(next.last() == b);
            assert forall|j: int| 0 <= j < next.len() implies is_digit(#[trigger] next[j]) by {
                if j < i {
                    assert(bytes@.take(i as int)[j] == next[j]);
                }
            }
        }
        if fits {
            let next: u64 = value * 10 + (b - 0x30) as u64;
            if next > i32::MAX as u64 {
                fits = false;
            } else {
                value = next;
            }
        }
        i += 1;
    }
    assert(bytes@.take(bytes@.len() as int) =~= bytes@);
    if fits {
        Some(value as i32)
    } else {
        None
    }
}

/// Whether `part` starts at place `i` of `s`.
fn part_at(s: &[u8], part: &[u8], i: usize) -> (found: bool)
    requires
        i + part@.len() <= s@.len(),
    ensures
        found == (s@.subrange(i as int, i + part@.len()) == part@),
{
    let n: usize = s.len();
    let mut j: usize = 0;
    while j < part.len()
        invariant
            j <= part.len(),
            n == s@.len(),
            i + part@.len() <= s@.len(),
            forall|k: int| 0 <= k < j ==> s@[i + k] == part@[k],
        decreases part.len() - j,
    {
        if s[i + j] != part[j] {
            assert(s@.subrange(i as int, i + part@.len())[j as int] != part@[j as int]);
            return false;
        }
        j += 1;
    }
    assert(s@.subrange(i as int, i + part@.len()) =~= part@);
    true
}

/// Whether `part` occurs in `s`.
pub fn contains_bytes(s: &[u8], part: &[u8]) -> (found: bool)
    ensures
        found == has_part(s@, part@),
{
    if part.len() > s.len() {
        return false;
    }
    let last: usize = s.len() - part.len();
    let mut i: usize = 0;
    loop
        invariant
            i <= last,
            last == s@.len() - part@.len(),
            forall|k: int| 0 <= k < i ==> #[trigger] s@.subrange(k, k + part@.len()) != part@,
        decreases last - i,
    {
        if part_at(s, part, i) {
            return true;
        }
        if i == last {
            return false;
        }
        i += 1;
    }
}

/// Tells whether the executable at `path` is the game's: whether `path`
/// contains `GAME_BINARY`.
pub fn is_celeste_exe(path: &str) -> (is_game: bool)
    ensures
        is_game == is_game_path(path.spec_bytes()),
{
    contains_bytes(path.as_bytes(), GAME_BINARY.as_bytes())
}

impl ProcEntry {
    /// The id of the process that this entry stands for, if that process runs
    /// the game.
    pub fn celeste_pid(&self) -> (pid: Option<i32>)
        ensures
            pid == self.game_pid(),
    {
        match self {
            ProcEntry::Failed => None,
            ProcEntry::Found { name, is_dir, exe } => match exe {
                Some(path) => {
                    if *is_dir && is_celeste_exe(path.as_str()) {
                        parse_pid(name.as_str())
                    } else {
                        None
                    }
                },
                None => None,
            },
        }
    }
}

/// Finds the game among the processes that `entries` list.
///
/// The entries are taken in order. The first that is a directory, is named by
/// a process id and has the game's binary as its executable gives the result.
/// An entry that could not be read ends the scan with `IOError`; one whose
/// executable could not be read is passed over. `NotFound` where no entry is
/// left.
pub fn find_celeste(entries: &Vec<ProcEntry>) -> (r: Result<i32, PIDError>)
    ensures
        r == scan(entries@),
{
    let mut i: usize = 0;
    assert(entries@.skip(0) =~= entries@);
    while i < entries.len()
        invariant
            i <= entries.len(),
            scan(entries@) == scan(entries@.skip(i as int)),
        decreases entries.len() - i,
    {
        let ghost rest = entries@.skip(i as int);
        assert(rest[0] == entries@[i as int]);
        assert(rest.drop_first() =~= entries@.skip(i + 1));
        match &entries[i] {
            ProcEntry::Failed => {
                return Err(PIDError::IOError);
            },
            _ => {},
        }
        match entries[i].celeste_pid() {
            Some(pid) => {
                return Ok(pid);
            },
            None => {},
        }
        i += 1;
    }
    assert(entries@.skip(entries@.len() as int).len() == 0);
    Err(PIDError::NotFound)
}

} // verus!
