//! The data that the compiler produces and the engine consumes.
use vstd::prelude::*;
use crate::pattern::{Pattern, regex_matches};

verus! {

/// The state of the address scanner between two characters.
pub enum Build {
    /// Between tokens.
    Idle,
    /// Inside a line number, with the value read so far.
    Num(usize),
    /// Inside `/.../`: the text read so far, and whether the closing `/`
    /// has been seen.
    Regex(String, bool),
}

/// What `Build` holds, with text as character sequences.
pub enum BuildState {
    Idle,
    Num(nat),
    Regex(Seq<char>, bool),
}

impl View for Build {
    type V = BuildState;

    open spec fn view(&self) -> BuildState {
        match self {
            Build::Idle => BuildState::Idle,
            Build::Num(n) => BuildState::Num(*n as nat),
            Build::Regex(s, f) => BuildState::Regex(s@, *f),
        }
    }
}

/// Which lines an instruction applies to. Line numbers are 1-based; `0`
/// stands for a regex address that matched no line.
#[derive(Clone, Copy, Debug, PartialEq, Eq, Structural)]
pub enum Matcher {
    Range(usize, usize),
    Single(usize),
    /// No address: every line.
    All,
}

/// An address: a matcher, and whether its result is negated.
#[derive(Clone, Copy, Debug, PartialEq, Eq, Structural)]
pub struct Options {
    pub matcher: Matcher,
    pub neg: bool,
}

/// One command of the language.
#[derive(Clone, Debug, PartialEq, Eq)]
pub enum Operation {
    /// `s`: pattern, replacement and flags.
    Subs(String, String, String),
    /// `w`: the path to append the current line to.
    Write(String),
    Delete,
    Print,
    Skip,
    PrintLineNumber,
    Quit,
    InsertBefore(String),
    InsertAfter(String),
}

/// What `Operation` holds, with text as character sequences.
pub enum Command {
    Subs(Seq<char>, Seq<char>, Seq<char>),
    Write(Seq<char>),
    Delete,
    Print,
    Skip,
    PrintLineNumber,
    Quit,
    InsertBefore(Seq<char>),
    InsertAfter(Seq<char>),
}

impl View for Operation {
    type V = Command;

    open spec fn view(&self) -> Command {
        match self {
            Operation::Subs(p, r, f) => Command::Subs(p@, r@, f@),
            Operation::Write(p) => Command::Write(p@),
            Operation::Delete => Command::Delete,
            Operation::Print => Command::Print,
            Operation::Skip => Command::Skip,
            Operation::PrintLineNumber => Command::PrintLineNumber,
            Operation::Quit => Command::Quit,
            Operation::InsertBefore(t) => Command::InsertBefore(t@),
            Operation::InsertAfter(t) => Command::InsertAfter(t@),
        }
    }
}

/// Why compiling or running a script failed.
#[derive(Clone, Copy, Debug, PartialEq, Eq, Structural)]
pub enum SedError {
    /// A character that starts no command nor address.
    InvalidCommand(char),
    /// A regular expression, of an address or of `s`, that does not compile.
    InvalidRegex,
    /// An `s` command without a delimiter, or with text after its fourth
    /// delimiter.
    InvalidSubstitution,
    /// A `w` command without a path.
    EmptyWritePath,
    /// An `s` command whose `w` flag names no file.
    MissingFileName,
    /// An `s` command whose occurrence number is `0`.
    ZeroOccurrence,
    /// A line number that does not fit in a `usize`.
    LineNumberTooLarge,
    /// `n` on the last line.
    SkipPastEnd,
}

/// Text to append to a file, in the order the engine produced it.
#[derive(Clone, Debug, PartialEq, Eq)]
pub struct FileAppend {
    pub path: String,
    pub text: String,
}

impl View for FileAppend {
    type V = (Seq<char>, Seq<char>);

    open spec fn view(&self) -> (Seq<char>, Seq<char>) {
        (self.path@, self.text@)
    }
}

/// An instruction with its text as character sequences.
pub open spec fn instr_view(i: (Options, Operation)) -> (Options, Command) {
    (i.0, i.1@)
}

/// A program with its text as character sequences.
pub open spec fn program_view(p: Seq<(Options, Operation)>) -> Seq<(Options, Command)> {
    p.map_values(|i: (Options, Operation)| instr_view(i))
}

/// A sequence of strings as a sequence of character sequences.
pub open spec fn texts(v: Seq<String>) -> Seq<Seq<char>> {
    v.map_values(|s: String| s@)
}

/// The 1-based number of the first line that the regex of pattern text `p`
/// matches, or `0` when it matches none.
pub open spec fn first_match_line(p: Seq<char>, lines: Seq<Seq<char>>) -> nat
    decreases lines.len(),
{
    if lines.len() == 0 {
        0
    } else if regex_matches(p, lines[0]) {
        1
    } else {
        let rest = first_match_line(p, lines.drop_first());
        if rest == 0 {
            0
        } else {
            rest + 1
        }
    }
}

/// The 1-based number of the first of `lines` that `re` matches, or `0`
/// when it matches none.
pub fn get_regex_position(re: &Pattern, lines: &[String]) -> (pos: usize)
    ensures
        pos == first_match_line(re@, texts(lines@)),
{
    let mut i: usize = 0;
    assert(texts(lines@).subrange(0, lines@.len() as int) =~= texts(lines@));
    while i < lines.len()
        invariant
            i <= lines@.len(),
            first_match_line(re@, texts(lines@)) == if first_match_line(
                re@,
                texts(lines@).subrange(i as int, lines@.len() as int),
            ) == 0 {
                0
            } else {
                first_match_line(re@, texts(lines@).subrange(i as int, lines@.len() as int)) + i
            },
        decreases lines.len() - i,
    {
        let ghost rest = texts(lines@).subrange(i as int, lines@.len() as int);
        assert(rest.drop_first() =~= texts(lines@).subrange(i + 1, lines@.len() as int));
        if re.is_match(lines[i].as_str()) {
            return i + 1;
        }
        i = i + 1;
    }
    assert(texts(lines@).subrange(i as int, lines@.len() as int).len() == 0);
    0
}

/// Relies on `String::push`, which appends one character.
pub assume_specification[ String::push ](s: &mut String, ch: char)
    ensures
        final(s)@ == old(s)@.push(ch),
;

} // verus!
