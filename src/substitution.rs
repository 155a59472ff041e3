//! Substitution on one line: the `s` command.
use vstd::prelude::*;
use vstd::utf8::*;
use vstd::string::*;
use crate::builders::{digit_value, is_digit};
use crate::helpers::{FileAppend, SedError, texts};
use crate::pattern::{
    Pattern, regex_compiles, regex_match_starts, regex_matches, regex_replace_all,
    regex_replace_first,
};

verus! {

broadcast use encode_utf8_decode_utf8;

/// The number of ASCII digits that `f` starts with.
pub open spec fn leading_digits(f: Seq<char>) -> nat
    decreases f.len(),
{
    if f.len() > 0 && is_digit(f[0]) {
        1 + leading_digits(f.drop_first())
    } else {
        0
    }
}

/// The number that the digits `d` write in decimal.
pub open spec fn digits_value(d: Seq<char>) -> nat
    decreases d.len(),
{
    if d.len() == 0 {
        0
    } else {
        digits_value(d.drop_last()) * 10 + digit_value(d.last())
    }
}

/// The occurrence number that the flags `f` start with, if any.
pub open spec fn occurrence(f: Seq<char>) -> Option<nat> {
    if leading_digits(f) == 0 {
        None
    } else {
        Some(digits_value(f.take(leading_digits(f) as int)))
    }
}

/// The text after the last space of `f`: all of `f` when it holds none.
pub open spec fn last_token(f: Seq<char>) -> Seq<char>
    decreases f.len(),
{
    if f.len() == 0 || f.last() == ' ' {
        seq![]
    } else {
        last_token(f.drop_last()).push(f.last())
    }
}

/// The characters of `line` before byte offset `k` of its UTF-8 encoding.
pub open spec fn byte_prefix(line: Seq<char>, k: int) -> Seq<char> {
    decode_utf8(encode_utf8(line).subrange(0, k))
}

/// The characters of `line` from byte offset `k` of its UTF-8 encoding on.
pub open spec fn byte_suffix(line: Seq<char>, k: int) -> Seq<char> {
    decode_utf8(encode_utf8(line).subrange(k, encode_utf8(line).len() as int))
}

/// The part of `line` left alone and the part that a substitution edits.
/// With an occurrence number `n`, the edited part starts at the `n`th match,
/// and is empty when there are fewer matches.
pub open spec fn edit_region(p: Seq<char>, line: Seq<char>, n: Option<nat>) -> (Seq<char>, Seq<char>) {
    match n {
        None => (seq![], line),
        Some(n) => {
            let starts = regex_match_starts(p, line);
            if 1 <= n <= starts.len() {
                (byte_prefix(line, starts[n - 1] as int), byte_suffix(line, starts[n - 1] as int))
            } else {
                (line, seq![])
            }
        },
    }
}

/// The edited part `rest` after replacement: every match with the `g`
/// flag, else the first.
pub open spec fn edited_part(p: Seq<char>, rep: Seq<char>, f: Seq<char>, rest: Seq<char>) -> Seq<char> {
    if f.contains('g') {
        regex_replace_all(p, rest, rep)
    } else {
        regex_replace_first(p, rest, rep)
    }
}

/// What a substitution with the flags `f` gives once the line is edited:
/// `hit` tells whether the edited part matched. The `p` flag doubles the
/// line and the `w` flag appends it to the file named last in `f`, both
/// only on a match.
pub open spec fn substitution_outcome(f: Seq<char>, edited: Seq<char>, hit: bool) -> Result<
    (Seq<Seq<char>>, Option<(Seq<char>, Seq<char>)>),
    SedError,
> {
    if f.contains('w') && hit && last_token(f).len() == 0 {
        Err(SedError::MissingFileName)
    } else {
        Ok(
            (
                if f.contains('p') && hit {
                    seq![edited, edited]
                } else {
                    seq![edited]
                },
                if f.contains('w') && hit {
                    Some((last_token(f), edited))
                } else {
                    None
                },
            ),
        )
    }
}

/// The lines that `s/p/rep/f` produces from `line` (the edited line, twice
/// with `p` in the flags and a match), and what it appends to a file.
pub open spec fn substitution(p: Seq<char>, rep: Seq<char>, f: Seq<char>, line: Seq<char>) -> Result<
    (Seq<Seq<char>>, Option<(Seq<char>, Seq<char>)>),
    SedError,
> {
    if !regex_compiles(p) {
        Err(SedError::InvalidRegex)
    } else if f.len() == 0 {
        Ok((seq![regex_replace_first(p, line, rep)], None))
    } else if occurrence(f) == Some(0nat) {
        Err(SedError::ZeroOccurrence)
    } else {
        let (kept, rest) = edit_region(p, line, occurrence(f));
        substitution_outcome(f, kept + edited_part(p, rep, f, rest), regex_matches(p, rest))
    }
}

/// What one `s` command produced from one line.
pub struct Substitution {
    /// The edited line, then the copies to print.
    pub lines: Vec<String>,
    /// The text to append to a file, for the `w` flag.
    pub append: Option<FileAppend>,
}

impl View for Substitution {
    type V = (Seq<Seq<char>>, Option<(Seq<char>, Seq<char>)>);

    open spec fn view(&self) -> (Seq<Seq<char>>, Option<(Seq<char>, Seq<char>)>) {
        (
            texts(self.lines@),
            match self.append {
                Some(a) => Some(a@),
                None => None,
            },
        )
    }
}

/// The characters of `s`.
pub fn chars_of(s: &str) -> (r: Vec<char>)
    ensures
        r@ == s@,
{
    let mut r: Vec<char> = Vec::new();
    for c in it: s.chars()
        invariant
            r@ == it.seq().take(it.index()),
    {
        r.push(c);
    }
    r
}

proof fn lemma_leading_digits(f: Seq<char>, i: int)
    requires
        0 <= i <= f.len(),
        forall|j: int| 0 <= j < i ==> is_digit(#[trigger] f[j]),
        i == f.len() || !is_digit(f[i]),
    ensures
        leading_digits(f) == i,
    decreases i,
{
    if i > 0 {
        lemma_leading_digits(f.drop_first(), i - 1);
    }
}

/// How many digits `f` starts with, and the number they write when it fits
/// in a `usize`.
fn leading_number(f: &Vec<char>) -> (r: (usize, Option<usize>))
    ensures
        r.0 == leading_digits(f@),
        r.1 == (if digits_value(f@.take(r.0 as int)) <= usize::MAX {
            Some(digits_value(f@.take(r.0 as int)) as usize)
        } else {
            None::<usize>
        }),
{
    let mut i: usize = 0;
    let mut value: Option<usize> = Some(0);
    while i < f.len() && '0' <= f[i] && f[i] <= '9'
        invariant
            i <= f@.len(),
            forall|j: int| 0 <= j < i ==> is_digit(#[trigger] f@[j]),
            value == (if digits_value(f@.take(i as int)) <= usize::MAX {
                Some(digits_value(f@.take(i as int)) as usize)
            } else {
                None::<usize>
            }),
        decreases f.len() - i,
    {
        let d = (f[i] as u32 - '0' as u32) as usize;
        proof {
            assert(f@.take(i + 1).drop_last() =~= f@.take(i as int));
            assert(digits_value(f@.take(i + 1)) == digits_value(f@.take(i as int)) * 10 + d);
        }
        value = match value {
            Some(v) => match v.checked_mul(10) {
                Some(m) => m.checked_add(d),
                None => None,
            },
            None => None,
        };
        i = i + 1;
    }
    proof {
        lemma_leading_digits(f@, i as int);
    }
    (i, value)
}

/// Whether `f` holds `c`.
fn has_char(f: &Vec<char>, c: char) -> (r: bool)
    ensures
        r == f@.contains(c),
{
    let mut i: usize = 0;
    while i < f.len()
        invariant
            i <= f@.len(),
            forall|j: int| 0 <= j < i ==> f@[j] != c,
        decreases f.len() - i,
    {
        if f[i] == c {
            return true;
        }
        i = i + 1;
    }
    false
}

/// The text after the last space of `f`.
fn last_token_of(f: &Vec<char>) -> (r: String)
    ensures
        r@ == last_token(f@),
{
    let mut token = String::new();
    let mut i: usize = 0;
    while i < f.len()
        invariant
            i <= f@.len(),
            token@ == last_token(f@.take(i as int)),
        decreases f.len() - i,
    {
        proof {
            assert(f@.take(i + 1).drop_last() =~= f@.take(i as int));
        }
        if f[i] == ' ' {
            token = String::new();
        } else {
            token.push(f[i]);
        }
        i = i + 1;
    }
    assert(f@.take(f@.len() as int) =~= f@);
    token
}

/// Splits `line` into the part a substitution leaves alone and the part it
/// edits, by the occurrence number that `flags` starts with.
fn line_to_edit(re: &Pattern, flags: &Vec<char>, line: &str) -> (r: Result<(String, String), SedError>)
    ensures
        occurrence(flags@) == Some(0nat) ==> r == Err::<(String, String), SedError>(SedError::ZeroOccurrence),
        occurrence(flags@) != Some(0nat) ==> r is Ok && (r->Ok_0.0@, r->Ok_0.1@) == edit_region(re@, line@, occurrence(flags@)),
        r is Ok ==> r->Ok_0.0@ + r->Ok_0.1@ == line@,
{
    let ghost n = occurrence(flags@);
    let (count, number) = leading_number(flags);
    if count == 0 {
        let whole = line.to_owned();
        assert(seq![] + whole@ =~= line@);
        return Ok((String::new(), whole));
    }
    if number == Some(0usize) {
        return Err(SedError::ZeroOccurrence);
    }
    let starts = re.match_starts(line);
    let n_starts = starts.len();
    match number {
        Some(k) if k <= n_starts => {
            let (a, b) = line.split_at(starts[k - 1]);
            proof {
                assert(decode_utf8(encode_utf8(a@)) == a@);
                assert(decode_utf8(encode_utf8(b@)) == b@);
                assert(a@ == byte_prefix(line@, starts@[k - 1] as int));
                assert(b@ == byte_suffix(line@, starts@[k - 1] as int));
                let bytes = encode_utf8(line@);
                encode_utf8_valid_utf8(line@);
                decode_utf8_split(bytes, starts@[k - 1] as int);
                assert(bytes.subrange(0, bytes.len() as int) =~= bytes);
                assert(a@ + b@ == line@);
            }
            Ok((a.to_owned(), b.to_owned()))
        },
        _ => {
            proof {
                assert(starts@.len() <= usize::MAX);
                assert(n->0 > starts@.len());
            }
            let kept = line.to_owned();
            assert(kept@ + seq![] =~= line@);
            Ok((kept, String::new()))
        },
    }
}

/// `line` with its matches replaced: all of them with the `g` flag, else
/// the first.
fn edit_line(re: &Pattern, replacement: &str, flags: &Vec<char>, line: &str) -> (r: String)
    ensures
        r@ == edited_part(re@, replacement@, flags@, line@),
{
    if has_char(flags, 'g') {
        re.replace_all(line, replacement)
    } else {
        re.replace_first(line, replacement)
    }
}

/// The result of a substitution with the flags `flags`, once the line is
/// `edited`; `hit` tells whether the edited part matched the pattern.
pub fn finish_substitution(flags: &str, edited: String, hit: bool) -> (r: Result<Substitution, SedError>)
    ensures
        match substitution_outcome(flags@, edited@, hit) {
            Ok(v) => r is Ok && r->Ok_0@ == v,
            Err(e) => r is Err && r->Err_0 == e,
        },
{
    let f = chars_of(flags);
    let append = if has_char(&f, 'w') && hit {
        let path = last_token_of(&f);
        if path.as_str().is_empty() {
            return Err(SedError::MissingFileName);
        }
        Some(FileAppend { path, text: edited.clone() })
    } else {
        None
    };
    let ghost e = edited@;
    let mut produced: Vec<String> = Vec::new();
    if has_char(&f, 'p') && hit {
        produced.push(edited.clone());
    }
    produced.push(edited);
    proof {
        if f@.contains('p') && hit {
            assert(texts(produced@) =~= seq![e, e]);
        } else {
            assert(texts(produced@) =~= seq![e]);
        }
    }
    Ok(Substitution { lines: produced, append })
}

/// Runs `s/pattern/replacement/flags` on `line`: the lines it produces,
/// first of them the edited line, and what it appends to a file.
pub fn substitute(pattern: &str, replacement: &str, flags: &str, line: &str) -> (r: Result<
    Substitution,
    SedError,
>)
    ensures
        match substitution(pattern@, replacement@, flags@, line@) {
            Ok(v) => r is Ok && r->Ok_0@ == v,
            Err(e) => r is Err && r->Err_0 == e,
        },
{
    let re = match Pattern::new(pattern) {
        Some(re) => re,
        None => return Err(SedError::InvalidRegex),
    };
    if flags.is_empty() {
        let edited = re.replace_first(line, replacement);
        let mut produced: Vec<String> = Vec::new();
        produced.push(edited);
        proof {
            assert(texts(produced@) =~= seq![regex_replace_first(pattern@, line@, replacement@)]);
        }
        return Ok(Substitution { lines: produced, append: None });
    }
    let f = chars_of(flags);
    let (kept, rest) = match line_to_edit(&re, &f, line) {
        Ok(parts) => parts,
        Err(e) => return Err(e),
    };
    let edited_rest = edit_line(&re, replacement, &f, rest.as_str());
    let mut edited = kept;
    edited.append(edited_rest.as_str());
    let hit = re.is_match(rest.as_str());
    finish_substitution(flags, edited, hit)
}

} // verus!
