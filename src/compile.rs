//! The compiler from script text to a program.
use vstd::prelude::*;
use crate::builders::{
    InsertType, address_command, address_scan, build_insert, build_options, build_subs,
    build_write, complete_address, digit_value, insert_command, is_digit, path_scan, push_field,
    skip_spaces, starts_address, subs_command, subs_fields, write_command, Fields,
};
use crate::helpers::{
    BuildState, Command, Matcher, Operation, Options, SedError, first_match_line, instr_view,
    program_view, texts,
};
use crate::pattern::regex_compiles;

verus! {

/// The script fragments joined into one text, with `;` between two
/// fragments.
pub open spec fn join_script(exprs: Seq<Seq<char>>) -> Seq<char>
    decreases exprs.len(),
{
    if exprs.len() == 0 {
        seq![]
    } else if exprs.len() == 1 {
        exprs[0]
    } else {
        join_script(exprs.drop_last()) + seq![';'] + exprs.last()
    }
}

/// The address that no address token has narrowed.
pub open spec fn no_address() -> Options {
    Options { matcher: Matcher::All, neg: false }
}

/// `r` with `x` put in front of its program.
pub open spec fn prepend(x: (Options, Command), r: Result<Seq<(Options, Command)>, SedError>) -> Result<
    Seq<(Options, Command)>,
    SedError,
> {
    match r {
        Ok(p) => Ok(seq![x] + p),
        Err(e) => Err(e),
    }
}

/// `r` with the program `p` put in front of its program.
pub open spec fn prepend_all(
    p: Seq<(Options, Command)>,
    r: Result<Seq<(Options, Command)>, SedError>,
) -> Result<Seq<(Options, Command)>, SedError> {
    match r {
        Ok(q) => Ok(p + q),
        Err(e) => Err(e),
    }
}

proof fn lemma_skip_spaces_ge(s: Seq<char>, i: int)
    requires
        0 <= i <= s.len(),
    ensures
        i <= skip_spaces(s, i) <= s.len(),
    decreases s.len() - i,
{
    if 0 <= i < s.len() && s[i] == ' ' {
        lemma_skip_spaces_ge(s, i + 1);
    }
}

proof fn lemma_path_scan_ge(s: Seq<char>, i: int, acc: Seq<char>)
    requires
        0 <= i <= s.len(),
    ensures
        i - 1 <= path_scan(s, i, acc).0 <= s.len(),
    decreases s.len() - i,
{
    if 0 <= i < s.len() && s[i] != ';' {
        lemma_path_scan_ge(s, i + 1, acc.push(s[i]));
    }
}

proof fn lemma_subs_fields_ge(s: Seq<char>, i: int, sep: char, pos: nat, f: Fields)
    requires
        0 <= i <= s.len(),
    ensures
        subs_fields(s, i, sep, pos, f) matches Ok((j, _)) ==> i - 1 <= j <= s.len(),
    decreases s.len() - i,
{
    if 0 <= i < s.len() {
        if s[i] == sep {
            lemma_subs_fields_ge(s, i + 1, sep, pos + 1, f);
        } else if pos <= 3 && s[i] != ';' {
            lemma_subs_fields_ge(s, i + 1, sep, pos, push_field(f, pos, s[i]));
        }
    }
}

proof fn lemma_address_scan_ge(
    s: Seq<char>,
    i: int,
    lines: Seq<Seq<char>>,
    b: BuildState,
    o: Options,
)
    requires
        0 <= i <= s.len(),
    ensures
        address_scan(s, i, lines, b, o) matches Ok((j, _)) ==> i - 1 <= j <= s.len(),
    decreases s.len() - i, if b is Idle {
        0int
    } else {
        1int
    },
{
    if 0 <= i < s.len() {
        let c = s[i];
        match b {
            BuildState::Idle => {
                if is_digit(c) {
                    lemma_address_scan_ge(s, i + 1, lines, BuildState::Num(digit_value(c)), o);
                } else if c == '/' {
                    lemma_address_scan_ge(s, i + 1, lines, BuildState::Regex(seq![], false), o);
                } else if c == '$' {
                    lemma_address_scan_ge(s, i + 1, lines, BuildState::Num(lines.len()), o);
                } else if c == ' ' || c == ',' {
                    lemma_address_scan_ge(s, i + 1, lines, BuildState::Idle, o);
                }
            },
            BuildState::Num(n) => {
                if is_digit(c) {
                    let v = n * 10 + digit_value(c);
                    if v <= usize::MAX {
                        lemma_address_scan_ge(s, i + 1, lines, BuildState::Num(v), o);
                    }
                } else {
                    lemma_address_scan_ge(
                        s,
                        i,
                        lines,
                        BuildState::Idle,
                        complete_address(o, n, c == '!'),
                    );
                }
            },
            BuildState::Regex(p, finished) => {
                if c != '/' && !finished {
                    lemma_address_scan_ge(s, i + 1, lines, BuildState::Regex(p.push(c), finished), o);
                } else if c == '/' {
                    lemma_address_scan_ge(s, i + 1, lines, BuildState::Regex(p, true), o);
                } else if regex_compiles(p) {
                    lemma_address_scan_ge(
                        s,
                        i,
                        lines,
                        BuildState::Idle,
                        complete_address(
                            o,
                            first_match_line(p, lines),
                            c == '!',
                        ),
                    );
                }
            },
        }
    }
}

/// Each builder leaves the cursor on or after the character it started on.
pub proof fn lemma_builders_advance(s: Seq<char>, i: int, lines: Seq<Seq<char>>)
    requires
        0 <= i < s.len(),
    ensures
        subs_command(s, i) matches Ok((j, _)) ==> i <= j <= s.len(),
        write_command(s, i) matches Ok((j, _)) ==> i <= j <= s.len(),
        starts_address(s[i]) ==> (address_command(s, i, lines) matches Ok((j, _)) ==> i <= j
            <= s.len()),
{
    if i + 1 < s.len() {
        lemma_subs_fields_ge(s, i + 2, s[i + 1], 1, (seq![], seq![], seq![]));
    }
    lemma_skip_spaces_ge(s, i + 1);
    lemma_path_scan_ge(s, skip_spaces(s, i + 1), seq![]);
    if starts_address(s[i]) {
        let o = no_address();
        let c = s[i];
        if is_digit(c) {
            lemma_address_scan_ge(s, i + 1, lines, BuildState::Num(digit_value(c)), o);
        } else if c == '/' {
            lemma_address_scan_ge(s, i + 1, lines, BuildState::Regex(seq![], false), o);
        } else {
            lemma_address_scan_ge(s, i + 1, lines, BuildState::Num(lines.len()), o);
        }
    }
}

/// The program that the script from position `i` on compiles to, with `o`
/// the pending address.
pub open spec fn compile_from(s: Seq<char>, i: int, lines: Seq<Seq<char>>, o: Options) -> Result<
    Seq<(Options, Command)>,
    SedError,
>
    decreases s.len() + 1 - i,
{
    if i < 0 || i >= s.len() {
        Ok(seq![])
    } else {
        proof {
            lemma_builders_advance(s, i, lines);
        }
        let c = s[i];
        if c == 'a' || c == 'i' {
            let t = if c == 'i' {
                InsertType::Before
            } else {
                InsertType::After
            };
            let (j, cmd) = insert_command(s, i, t);
            prepend((o, cmd), compile_from(s, j + 1, lines, o))
        } else if c == 'd' {
            prepend((o, Command::Delete), compile_from(s, i + 1, lines, o))
        } else if c == 'n' {
            prepend((o, Command::Skip), compile_from(s, i + 1, lines, o))
        } else if c == 'p' {
            prepend((o, Command::Print), compile_from(s, i + 1, lines, o))
        } else if c == 'q' {
            prepend((o, Command::Quit), compile_from(s, i + 1, lines, o))
        } else if c == '=' {
            prepend((o, Command::PrintLineNumber), compile_from(s, i + 1, lines, o))
        } else if c == 's' || c == 'w' {
            let r = if c == 's' {
                subs_command(s, i)
            } else {
                write_command(s, i)
            };
            match r {
                Ok((j, cmd)) => prepend((o, cmd), compile_from(s, j + 1, lines, o)),
                Err(e) => Err(e),
            }
        } else if c == '!' {
            compile_from(s, i + 1, lines, Options { neg: true, ..o })
        } else if c == ';' {
            compile_from(s, i + 1, lines, no_address())
        } else if c == ',' || c == ' ' {
            compile_from(s, i + 1, lines, o)
        } else if starts_address(c) {
            match address_command(s, i, lines) {
                Ok((j, o2)) => compile_from(s, j + 1, lines, o2),
                Err(e) => Err(e),
            }
        } else {
            Err(SedError::InvalidCommand(c))
        }
    }
}

/// The program that the script fragments `exprs` compile to, against the
/// buffer `lines`.
pub open spec fn compile(exprs: Seq<Seq<char>>, lines: Seq<Seq<char>>) -> Result<
    Seq<(Options, Command)>,
    SedError,
> {
    compile_from(join_script(exprs), 0, lines, no_address())
}

proof fn lemma_prepend_all_push(
    p: Seq<(Options, Command)>,
    x: (Options, Command),
    r: Result<Seq<(Options, Command)>, SedError>,
)
    ensures
        prepend_all(p, prepend(x, r)) == prepend_all(p.push(x), r),
{
    if let Ok(q) = r {
        assert(p + (seq![x] + q) =~= p.push(x) + q);
    }
}

/// Whether `r` is what compiling `exprs` against `lines` gives: the same
/// program, or the same error.
pub open spec fn compiles_to(
    r: Result<Vec<(Options, Operation)>, SedError>,
    exprs: Seq<Seq<char>>,
    lines: Seq<Seq<char>>,
) -> bool {
    match compile(exprs, lines) {
        Ok(p) => r is Ok && program_view(r->Ok_0@) == p,
        Err(e) => r == Err::<Vec<(Options, Operation)>, SedError>(e),
    }
}

/// The characters of the script fragments, joined by `;`.
fn script_chars(expressions: &[String]) -> (r: Vec<char>)
    ensures
        r@ == join_script(texts(expressions@)),
{
    let ghost ex = texts(expressions@);
    let mut chars: Vec<char> = Vec::new();
    let mut k: usize = 0;
    while k < expressions.len()
        invariant
            k <= expressions@.len(),
            ex == texts(expressions@),
            chars@ == join_script(ex.take(k as int)),
        decreases expressions.len() - k,
    {
        let ghost before = chars@;
        if k > 0 {
            chars.push(';');
        }
        let ghost mid = chars@;
        let e: &str = expressions[k].as_str();
        for c in it: e.chars()
            invariant
                chars@ == mid + it.seq().take(it.index()),
        {
            chars.push(c);
        }
        proof {
            let t = ex.take(k + 1);
            assert(t.drop_last() =~= ex.take(k as int));
            assert(t.last() == expressions@[k as int]@);
            if k == 0 {
                assert(before =~= seq![]);
            }
        }
        k = k + 1;
    }
    assert(ex.take(expressions@.len() as int) =~= ex);
    chars
}

/// Compiles the script fragments `expressions`, joined by `;`, into a
/// program. Regex addresses are resolved against `lines`, each to the first
/// line it matches.
pub fn build_ast(expressions: &[String], lines: &[String]) -> (r: Result<
    Vec<(Options, Operation)>,
    SedError,
>)
    ensures
        compiles_to(r, texts(expressions@), texts(lines@)),
{
    let characters = script_chars(expressions);
    let ghost s = characters@;
    let ghost ls = texts(lines@);
    let mut options = Options { matcher: Matcher::All, neg: false };
    let mut bldv: Vec<(Options, Operation)> = Vec::new();
    let mut index: usize = 0;
    while index < characters.len()
        invariant
            s == characters@,
            ls == texts(lines@),
            compile(texts(expressions@), ls) == prepend_all(
                program_view(bldv@),
                compile_from(s, index as int, ls, options),
            ),
        decreases characters.len() - index,
    {
        let ghost i = index as int;
        let ghost before = bldv@;
        let ghost o = options;
        proof {
            lemma_builders_advance(s, i, ls);
        }
        let c = characters[index];
        if c == 'a' || c == 'i' {
            let t = if c == 'i' {
                InsertType::Before
            } else {
                InsertType::After
            };
            let ins = build_insert(t, &mut index, characters.as_slice(), options);
            bldv.push(ins);
        } else if c == 'd' {
            bldv.push((options, Operation::Delete));
        } else if c == 'n' {
            bldv.push((options, Operation::Skip));
        } else if c == 'p' {
            bldv.push((options, Operation::Print));
        } else if c == 'q' {
            bldv.push((options, Operation::Quit));
        } else if c == '=' {
            bldv.push((options, Operation::PrintLineNumber));
        } else if c == 's' || c == 'w' {
            let built = if c == 's' {
                build_subs(&mut index, characters.as_slice(), options)
            } else {
                build_write(&mut index, characters.as_slice(), options)
            };
            match built {
                Ok(ins) => bldv.push(ins),
                Err(e) => return Err(e),
            }
        } else if c == '!' {
            options.neg = true;
        } else if c == ';' {
            options = Options { matcher: Matcher::All, neg: false };
        } else if c == ',' || c == ' ' {
        } else if '0' <= c && c <= '9' || c == '$' || c == '/' {
            match build_options(&mut index, characters.as_slice(), lines) {
                Ok(o) => options = o,
                Err(e) => return Err(e),
            }
        } else {
            return Err(SedError::InvalidCommand(c));
        }
        proof {
            if bldv@.len() > before.len() {
                assert(program_view(bldv@) =~= program_view(before).push(
                    instr_view(bldv@.last()),
                ));
                lemma_prepend_all_push(
                    program_view(before),
                    instr_view(bldv@.last()),
                    compile_from(s, index + 1, ls, options),
                );
            } else {
                assert(bldv@ == before);
            }
        }
        if index >= characters.len() {
            assert(program_view(bldv@) + seq![] =~= program_view(bldv@));
            return Ok(bldv);
        }
        index = index + 1;
    }
    Ok(bldv)
}

} // verus!
