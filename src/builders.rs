//! Scanners for the parts of a script that span more than one character.
//!
//! Each builder starts with `*index` on the character that selects it and
//! leaves `*index` on the last character it consumed, so that the caller,
//! which steps past the current character, sees next what the builder left
//! unread (a `;`, or a command after an address).
use vstd::prelude::*;
use crate::helpers::{BuildState, Command, Matcher, Operation, Options, SedError, first_match_line, instr_view};
use crate::helpers::{Build, texts, get_regex_position};
use crate::pattern::{Pattern, regex_compiles};

verus! {

/// The three text fields of an `s` command.
pub type Fields = (Seq<char>, Seq<char>, Seq<char>);

/// `f` with `c` appended to its field number `pos` (1, 2, or 3 and above).
pub open spec fn push_field(f: Fields, pos: nat, c: char) -> Fields {
    if pos <= 1 {
        (f.0.push(c), f.1, f.2)
    } else if pos == 2 {
        (f.0, f.1.push(c), f.2)
    } else {
        (f.0, f.1, f.2.push(c))
    }
}

/// Reads the fields of an `s` command from position `i` on, with `pos`
/// delimiters seen so far: where the scan stops, and the fields.
pub open spec fn subs_fields(s: Seq<char>, i: int, sep: char, pos: nat, f: Fields) -> Result<
    (int, Fields),
    SedError,
>
    decreases s.len() - i,
{
    if i < 0 || i >= s.len() {
        Ok((s.len() as int, f))
    } else if s[i] == sep {
        subs_fields(s, i + 1, sep, pos + 1, f)
    } else if pos <= 3 && s[i] != ';' {
        subs_fields(s, i + 1, sep, pos, push_field(f, pos, s[i]))
    } else if s[i] == ';' {
        Ok((i - 1, f))
    } else {
        Err(SedError::InvalidSubstitution)
    }
}

/// The `s` command whose letter stands at `i`: the delimiter is the next
/// character, then come pattern, replacement and flags.
pub open spec fn subs_command(s: Seq<char>, i: int) -> Result<(int, Command), SedError> {
    if i + 1 >= s.len() {
        Err(SedError::InvalidSubstitution)
    } else {
        match subs_fields(s, i + 2, s[i + 1], 1, (seq![], seq![], seq![])) {
            Ok((j, f)) => Ok((j, Command::Subs(f.0, f.1, f.2))),
            Err(e) => Err(e),
        }
    }
}

/// The first position from `i` on that holds no space.
pub open spec fn skip_spaces(s: Seq<char>, i: int) -> int
    decreases s.len() - i,
{
    if 0 <= i < s.len() && s[i] == ' ' {
        skip_spaces(s, i + 1)
    } else {
        i
    }
}

/// The text from `i` up to the next `;` or the end: where the scan stops,
/// and the text.
pub open spec fn path_scan(s: Seq<char>, i: int, acc: Seq<char>) -> (int, Seq<char>)
    decreases s.len() - i,
{
    if i < 0 || i >= s.len() {
        (s.len() as int, acc)
    } else if s[i] == ';' {
        (i - 1, acc)
    } else {
        path_scan(s, i + 1, acc.push(s[i]))
    }
}

/// The `w` command whose letter stands at `i`.
pub open spec fn write_command(s: Seq<char>, i: int) -> Result<(int, Command), SedError> {
    let (j, path) = path_scan(s, skip_spaces(s, i + 1), seq![]);
    if path.len() == 0 {
        Err(SedError::EmptyWritePath)
    } else {
        Ok((j, Command::Write(path)))
    }
}

/// Which of the two insertion commands a text belongs to.
#[derive(Clone, Copy, Debug, PartialEq, Eq, Structural)]
pub enum InsertType {
    Before,
    After,
}

/// The `i` or `a` command whose letter stands at `i`: the rest of the
/// script after leading spaces, and a newline.
pub open spec fn insert_command(s: Seq<char>, i: int, t: InsertType) -> (int, Command) {
    let text = s.subrange(skip_spaces(s, i + 1), s.len() as int).push('\n');
    (s.len() as int, if t == InsertType::Before {
        Command::InsertBefore(text)
    } else {
        Command::InsertAfter(text)
    })
}

pub open spec fn is_digit(c: char) -> bool {
    '0' <= c <= '9'
}

pub open spec fn digit_value(c: char) -> nat {
    (c as int - '0' as int) as nat
}

/// Whether `c` starts an address.
pub open spec fn starts_address(c: char) -> bool {
    is_digit(c) || c == '$' || c == '/'
}

/// The address after one more value `v` has been read: the second end of a
/// range when a single line is pending, else a single line.
pub open spec fn complete_address(o: Options, v: nat, neg: bool) -> Options {
    match o.matcher {
        Matcher::Single(from) => Options { matcher: Matcher::Range(from, v as usize), neg },
        _ => Options { matcher: Matcher::Single(v as usize), neg },
    }
}

/// The address scanner from position `i` on, in state `b`, with the address
/// `o` built so far: where the scan stops, and the address.
pub open spec fn address_scan(
    s: Seq<char>,
    i: int,
    lines: Seq<Seq<char>>,
    b: BuildState,
    o: Options,
) -> Result<(int, Options), SedError>
    decreases s.len() - i, if b is Idle {
        0int
    } else {
        1int
    },
{
    if i < 0 || i >= s.len() {
        Ok((s.len() as int, o))
    } else {
        let c = s[i];
        match b {
            BuildState::Idle => {
                if is_digit(c) {
                    address_scan(s, i + 1, lines, BuildState::Num(digit_value(c)), o)
                } else if c == '/' {
                    address_scan(s, i + 1, lines, BuildState::Regex(seq![], false), o)
                } else if c == '$' {
                    address_scan(s, i + 1, lines, BuildState::Num(lines.len()), o)
                } else if c != ' ' && c != ',' {
                    Ok((i - 1, o))
                } else {
                    address_scan(s, i + 1, lines, BuildState::Idle, o)
                }
            },
            BuildState::Num(n) => {
                if is_digit(c) {
                    if n * 10 + digit_value(c) > usize::MAX {
                        Err(SedError::LineNumberTooLarge)
                    } else {
                        address_scan(s, i + 1, lines, BuildState::Num(n * 10 + digit_value(c)), o)
                    }
                } else {
                    address_scan(s, i, lines, BuildState::Idle, complete_address(o, n, c == '!'))
                }
            },
            BuildState::Regex(p, finished) => {
                if c != '/' && !finished {
                    address_scan(s, i + 1, lines, BuildState::Regex(p.push(c), finished), o)
                } else if c == '/' {
                    address_scan(s, i + 1, lines, BuildState::Regex(p, true), o)
                } else if !regex_compiles(p) {
                    Err(SedError::InvalidRegex)
                } else {
                    address_scan(
                        s,
                        i,
                        lines,
                        BuildState::Idle,
                        complete_address(o, first_match_line(p, lines), c == '!'),
                    )
                }
            },
        }
    }
}

/// The address that starts at `i`.
pub open spec fn address_command(s: Seq<char>, i: int, lines: Seq<Seq<char>>) -> Result<
    (int, Options),
    SedError,
> {
    address_scan(s, i, lines, BuildState::Idle, Options { matcher: Matcher::All, neg: false })
}

/// Reads an `s` command; `*index` is on its letter.
pub fn build_subs(index: &mut usize, characters: &[char], options: Options) -> (r: Result<
    (Options, Operation),
    SedError,
>)
    requires
        *old(index) < characters@.len(),
    ensures
        match subs_command(characters@, *old(index) as int) {
            Ok((j, cmd)) => r is Ok && instr_view(r->Ok_0) == (options, cmd) && *final(index) == j,
            Err(e) => r == Err::<(Options, Operation), SedError>(e),
        },
{
    let ghost s = characters@;
    let ghost start = *index as int;
    if *index >= characters.len() - 1 {
        return Err(SedError::InvalidSubstitution);
    }
    let sep = characters[*index + 1];
    let mut i: usize = *index + 2;
    let mut pos: usize = 1;
    let mut pattern = String::new();
    let mut replacement = String::new();
    let mut flags = String::new();
    while i < characters.len()
        invariant
            s == characters@,
            start + 2 <= i <= s.len(),
            start + 1 < s.len(),
            start == *old(index),
            1 <= pos <= i,
            sep == s[start + 1],
            subs_command(s, start) == match subs_fields(
                s,
                i as int,
                sep,
                pos as nat,
                (pattern@, replacement@, flags@),
            ) {
                Ok((j, f)) => Ok((j, Command::Subs(f.0, f.1, f.2))),
                Err(e) => Err(e),
            },
        decreases characters.len() - i,
    {
        let c = characters[i];
        if c == sep {
            pos = pos + 1;
        } else if pos <= 3 && c != ';' {
            if pos == 1 {
                pattern.push(c);
            } else if pos == 2 {
                replacement.push(c);
            } else {
                flags.push(c);
            }
        } else if c == ';' {
            *index = i - 1;
            return Ok((options, Operation::Subs(pattern, replacement, flags)));
        } else {
            return Err(SedError::InvalidSubstitution);
        }
        i = i + 1;
    }
    *index = i;
    Ok((options, Operation::Subs(pattern, replacement, flags)))
}

/// Reads a `w` command; `*index` is on its letter.
pub fn build_write(index: &mut usize, characters: &[char], options: Options) -> (r: Result<
    (Options, Operation),
    SedError,
>)
    requires
        *old(index) < characters@.len(),
    ensures
        match write_command(characters@, *old(index) as int) {
            Ok((j, cmd)) => r is Ok && instr_view(r->Ok_0) == (options, cmd) && *final(index) == j,
            Err(e) => r == Err::<(Options, Operation), SedError>(e),
        },
{
    let ghost s = characters@;
    let ghost start = *index as int;
    let len = characters.len();
    let mut i: usize = *index + 1;
    while i < characters.len() && characters[i] == ' '
        invariant
            s == characters@,
            start + 1 <= i <= s.len(),
            skip_spaces(s, start + 1) == skip_spaces(s, i as int),
        decreases characters.len() - i,
    {
        i = i + 1;
    }
    let ghost first = i as int;
    let mut file_name = String::new();
    while i < characters.len() && characters[i] != ';'
        invariant
            s == characters@,
            first <= i <= s.len(),
            0 <= start,
            start + 1 <= first,
            path_scan(s, first, seq![]) == path_scan(s, i as int, file_name@),
        decreases characters.len() - i,
    {
        file_name.push(characters[i]);
        i = i + 1;
    }
    let end = if i < characters.len() {
        i - 1
    } else {
        i
    };
    proof {
        assert(path_scan(s, first, seq![]) == (end as int, file_name@));
    }
    if file_name.as_str().is_empty() {
        return Err(SedError::EmptyWritePath);
    }
    *index = end;
    Ok((options, Operation::Write(file_name)))
}

/// Reads an `i` or `a` command; `*index` is on its letter. The text runs to
/// the end of the script.
pub fn build_insert(
    insert_type: InsertType,
    index: &mut usize,
    characters: &[char],
    options: Options,
) -> (r: (Options, Operation))
    requires
        *old(index) < characters@.len(),
    ensures
        instr_view(r) == (options, insert_command(characters@, *old(index) as int, insert_type).1),
        *final(index) == insert_command(characters@, *old(index) as int, insert_type).0,
{
    let ghost s = characters@;
    let ghost start = *index as int;
    let len = characters.len();
    let mut i: usize = *index + 1;
    while i < characters.len() && characters[i] == ' '
        invariant
            s == characters@,
            start + 1 <= i <= s.len(),
            skip_spaces(s, start + 1) == skip_spaces(s, i as int),
        decreases characters.len() - i,
    {
        i = i + 1;
    }
    let ghost first = i as int;
    let mut line = String::new();
    while i < characters.len()
        invariant
            s == characters@,
            0 <= first <= i <= s.len(),
            line@ == s.subrange(first, i as int),
        decreases characters.len() - i,
    {
        line.push(characters[i]);
        assert(line@ =~= s.subrange(first, i + 1));
        i = i + 1;
    }
    line.push('\n');
    *index = i;
    (
        options,
        match insert_type {
            InsertType::Before => Operation::InsertBefore(line),
            InsertType::After => Operation::InsertAfter(line),
        },
    )
}

/// Reads an address; `*index` is on its first character. Leaves `*index`
/// on the last character of the address.
pub fn build_options(index: &mut usize, characters: &[char], lines: &[String]) -> (r: Result<
    Options,
    SedError,
>)
    requires
        *old(index) < characters@.len(),
        starts_address(characters@[*old(index) as int]),
    ensures
        match address_command(characters@, *old(index) as int, texts(lines@)) {
            Ok((j, o)) => r == Ok::<Options, SedError>(o) && *final(index) == j,
            Err(e) => r == Err::<Options, SedError>(e),
        },
{
    let ghost s = characters@;
    let ghost start = *index as int;
    let ghost all_lines = texts(lines@);
    let mut i: usize = *index;
    let mut bld = Build::Idle;
    let mut options = Options { matcher: Matcher::All, neg: false };
    while i < characters.len()
        invariant
            s == characters@,
            all_lines == texts(lines@),
            start == *old(index),
            start <= i <= s.len(),
            starts_address(s[start]),
            i == start ==> bld@ is Idle,
            address_command(s, start, all_lines) == address_scan(s, i as int, all_lines, bld@, options),
        decreases characters.len() - i, if bld@ is Idle {
            0int
        } else {
            1int
        },
    {
        let c = characters[i];
        match bld {
            Build::Idle => {
                if '0' <= c && c <= '9' {
                    bld = Build::Num((c as u32 - '0' as u32) as usize);
                } else if c == '/' {
                    bld = Build::Regex(String::new(), false);
                } else if c == '$' {
                    bld = Build::Num(lines.len());
                } else if c != ' ' && c != ',' {
                    *index = i - 1;
                    return Ok(options);
                } else {
                    bld = Build::Idle;
                }
                i = i + 1;
            },
            Build::Num(n) => {
                if '0' <= c && c <= '9' {
                    let d = (c as u32 - '0' as u32) as usize;
                    match n.checked_mul(10) {
                        Some(m) => match m.checked_add(d) {
                            Some(v) => {
                                bld = Build::Num(v);
                            },
                            None => {
                                return Err(SedError::LineNumberTooLarge);
                            },
                        },
                        None => {
                            return Err(SedError::LineNumberTooLarge);
                        },
                    }
                    i = i + 1;
                } else {
                    options = complete(options, n, c == '!');
                    bld = Build::Idle;
                }
            },
            Build::Regex(mut search, finished) => {
                if c != '/' && !finished {
                    search.push(c);
                    bld = Build::Regex(search, finished);
                    i = i + 1;
                } else if c == '/' {
                    bld = Build::Regex(search, true);
                    i = i + 1;
                } else {
                    match Pattern::new(search.as_str()) {
                        Some(re) => {
                            let v = get_regex_position(&re, lines);
                            options = complete(options, v, c == '!');
                            bld = Build::Idle;
                        },
                        None => {
                            return Err(SedError::InvalidRegex);
                        },
                    }
                }
            },
        }
    }
    *index = i;
    Ok(options)
}

/// `o` after one more value `v` has been read.
fn complete(o: Options, v: usize, neg: bool) -> (r: Options)
    ensures
        r == complete_address(o, v as nat, neg),
{
    match o.matcher {
        Matcher::Single(from) => Options { matcher: Matcher::Range(from, v), neg },
        _ => Options { matcher: Matcher::Single(v), neg },
    }
}

} // verus!
