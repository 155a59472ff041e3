//! The engine: a program run over a buffer of lines.
use vstd::prelude::*;
use crate::helpers::{Command, FileAppend, Matcher, Operation, Options, SedError, program_view, texts};
use crate::options::Opt;
use crate::substitution::{Substitution, substitute, substitution};

verus! {

/// Whether the address `o` selects the line of 0-based index `line`. A
/// bound of `0`, a regex address that matched nothing, selects every line.
pub open spec fn address_matches(o: Options, line: int) -> bool {
    let valid = match o.matcher {
        Matcher::All => true,
        Matcher::Range(from, to) => from == 0 || to == 0 || (line >= from - 1 && line < to),
        Matcher::Single(n) => n == 0 || line == n - 1,
    };
    if o.neg {
        !valid
    } else {
        valid
    }
}

/// Whether `options` selects the line of 0-based index `line_number`.
pub fn is_valid(options: &Options, line_number: usize) -> (r: bool)
    ensures
        r == address_matches(*options, line_number as int),
{
    let valid = match options.matcher {
        Matcher::All => true,
        Matcher::Range(from, to) => from == 0 || to == 0 || (line_number >= from - 1 && line_number
            < to),
        Matcher::Single(n) => n == 0 || line_number == n - 1,
    };
    if options.neg {
        !valid
    } else {
        valid
    }
}

/// The decimal digits of `n`.
pub open spec fn decimal(n: nat) -> Seq<char>
    decreases n,
{
    if n < 10 {
        seq![('0' as u32 + n) as char]
    } else {
        decimal(n / 10).push(('0' as u32 + n % 10) as char)
    }
}

/// The character of the decimal digit `d`.
fn digit_char(d: u8) -> (c: char)
    requires
        d < 10,
    ensures
        c == ('0' as u32 + d) as char,
{
    (48u8 + d) as char
}

/// `n` in decimal, then a newline.
fn line_number_text(n: usize) -> (r: String)
    ensures
        r@ == decimal(n as nat).push('\n'),
{
    let mut digits: Vec<char> = Vec::new();
    let mut m: usize = n;
    while m >= 10
        invariant
            decimal(n as nat) == decimal(m as nat) + digits@.reverse(),
        decreases m,
    {
        let d = (m % 10) as u8;
        let c = digit_char(d);
        assert(decimal(m as nat) == decimal((m / 10) as nat).push(c));
        digits.push(c);
        m = m / 10;
        assert(digits@.reverse() =~= seq![c] + digits@.drop_last().reverse());
    }
    let ghost target = decimal(n as nat);
    let mut r = String::new();
    r.push(digit_char(m as u8));
    let mut j: usize = digits.len();
    assert(digits@.take(j as int) =~= digits@);
    while j > 0
        invariant
            j <= digits@.len(),
            target == r@ + digits@.take(j as int).reverse(),
        decreases j,
    {
        j = j - 1;
        assert(digits@.take(j + 1).reverse() =~= seq![digits@[j as int]] + digits@.take(
            j as int,
        ).reverse());
        r.push(digits[j]);
        assert(r@ + digits@.take(j as int).reverse() =~= target);
    }
    assert(r@ =~= target);
    r.push('\n');
    r
}

/// The state of a run, between two instructions.
pub struct EngineState {
    /// The 0-based index of the current line.
    pub line: int,
    /// The current line's text.
    pub text: Seq<char>,
    /// What this pass prints after its insertions.
    pub printed: Seq<Seq<char>>,
    /// What this pass inserts before the line.
    pub before: Seq<Seq<char>>,
    /// What this pass inserts after the line.
    pub after: Seq<Seq<char>>,
    /// The output so far.
    pub output: Seq<Seq<char>>,
    /// The file appends so far: path and text.
    pub appends: Seq<(Seq<char>, Seq<char>)>,
    /// Whether `q` ran in this pass.
    pub quit: bool,
    /// The error that stopped the run, if any.
    pub failure: Option<SedError>,
}

/// The state at the start of a run.
pub open spec fn initial_state() -> EngineState {
    EngineState {
        line: 0,
        text: seq![],
        printed: seq![],
        before: seq![],
        after: seq![],
        output: seq![],
        appends: seq![],
        quit: false,
        failure: None,
    }
}

/// The effect of one command, whose address matched, on the state.
pub open spec fn apply(cmd: Command, lines: Seq<Seq<char>>, quiet: bool, st: EngineState) -> EngineState {
    match cmd {
        Command::Subs(p, r, f) => match substitution(p, r, f, st.text) {
            Err(e) => EngineState { failure: Some(e), ..st },
            Ok((produced, append)) => EngineState {
                text: produced[0],
                printed: st.printed + produced.drop_first(),
                appends: match append {
                    Some(a) => st.appends.push(a),
                    None => st.appends,
                },
                ..st
            },
        },
        Command::Write(path) => EngineState { appends: st.appends.push((path, st.text)), ..st },
        Command::Delete => EngineState { text: seq!['\n'], ..st },
        Command::Print => EngineState { printed: st.printed.push(st.text), ..st },
        Command::PrintLineNumber => EngineState {
            printed: st.printed.push(decimal((st.line + 1) as nat).push('\n')),
            ..st
        },
        Command::Skip => {
            let output = if quiet {
                st.output
            } else {
                st.output.push(st.text)
            };
            if st.line + 1 >= lines.len() {
                EngineState { output, failure: Some(SedError::SkipPastEnd), ..st }
            } else {
                EngineState { output, line: st.line + 1, text: lines[st.line + 1], ..st }
            }
        },
        Command::Quit => EngineState { quit: true, ..st },
        Command::InsertBefore(t) => EngineState { before: st.before.push(t), ..st },
        Command::InsertAfter(t) => EngineState { after: st.after.push(t), ..st },
    }
}

/// The instructions from number `k` on, run against the current line; a
/// pass ends early at `q` or at an error.
pub open spec fn run_pass(
    prog: Seq<(Options, Command)>,
    lines: Seq<Seq<char>>,
    quiet: bool,
    k: int,
    st: EngineState,
) -> EngineState
    decreases prog.len() - k,
{
    if k < 0 || k >= prog.len() || st.quit || st.failure is Some {
        st
    } else {
        let next = if address_matches(prog[k].0, st.line) {
            apply(prog[k].1, lines, quiet, st)
        } else {
            st
        };
        run_pass(prog, lines, quiet, k + 1, next)
    }
}

/// The state at the start of the pass over the current line.
pub open spec fn start_pass(st: EngineState, lines: Seq<Seq<char>>) -> EngineState {
    EngineState { text: lines[st.line], ..st }
}

/// The end of a pass: the insertions before, what was printed, the line
/// unless quiet, the insertions after; then on to the next line.
pub open spec fn finish_pass(st: EngineState, quiet: bool) -> EngineState {
    EngineState {
        line: st.line + 1,
        text: seq![],
        printed: seq![],
        before: seq![],
        after: seq![],
        output: st.output + st.before + st.printed + (if quiet {
            seq![]
        } else {
            seq![st.text]
        }) + st.after,
        ..st
    }
}

pub proof fn lemma_run_pass_line(
    prog: Seq<(Options, Command)>,
    lines: Seq<Seq<char>>,
    quiet: bool,
    k: int,
    st: EngineState,
)
    requires
        0 <= st.line < lines.len(),
    ensures
        st.line <= run_pass(prog, lines, quiet, k, st).line < lines.len(),
    decreases prog.len() - k,
{
    if !(k < 0 || k >= prog.len() || st.quit || st.failure is Some) {
        let next = if address_matches(prog[k].0, st.line) {
            apply(prog[k].1, lines, quiet, st)
        } else {
            st
        };
        lemma_run_pass_line(prog, lines, quiet, k + 1, next);
    }
}

/// The passes from the current line to the end of the buffer, or to `q` or
/// an error.
pub open spec fn run_from(
    prog: Seq<(Options, Command)>,
    lines: Seq<Seq<char>>,
    quiet: bool,
    st: EngineState,
) -> EngineState
    decreases lines.len() - st.line,
{
    if st.line < 0 || st.line >= lines.len() {
        st
    } else {
        let p = run_pass(prog, lines, quiet, 0, start_pass(st, lines));
        proof {
            lemma_run_pass_line(prog, lines, quiet, 0, start_pass(st, lines));
        }
        if p.failure is Some {
            p
        } else if p.quit {
            finish_pass(p, quiet)
        } else {
            run_from(prog, lines, quiet, finish_pass(p, quiet))
        }
    }
}

/// What a run produced: the output lines, the file appends in order, and
/// the error that stopped it, if any.
pub open spec fn run(prog: Seq<(Options, Command)>, lines: Seq<Seq<char>>, quiet: bool) -> (
    Seq<Seq<char>>,
    Seq<(Seq<char>, Seq<char>)>,
    Option<SedError>,
) {
    let st = run_from(prog, lines, quiet, initial_state());
    (st.output, st.appends, st.failure)
}

/// File appends as pairs of path and text.
pub open spec fn append_views(a: Seq<FileAppend>) -> Seq<(Seq<char>, Seq<char>)> {
    a.map_values(|x: FileAppend| x@)
}

/// The outcome of a run: the output lines, the file appends in the order
/// they were made, and the error that stopped the run, if any. The output
/// means nothing when there is an error; the appends made before it stand.
pub struct Run {
    pub output: Vec<String>,
    pub appends: Vec<FileAppend>,
    pub failure: Option<SedError>,
}

impl View for Run {
    type V = (Seq<Seq<char>>, Seq<(Seq<char>, Seq<char>)>, Option<SedError>);

    open spec fn view(&self) -> (Seq<Seq<char>>, Seq<(Seq<char>, Seq<char>)>, Option<SedError>) {
        (texts(self.output@), append_views(self.appends@), self.failure)
    }
}

/// The engine's state from its executable parts.
spec fn state_of(
    line: usize,
    text: Seq<char>,
    printed: Seq<String>,
    before: Seq<String>,
    after: Seq<String>,
    output: Seq<String>,
    appends: Seq<FileAppend>,
    quit: bool,
) -> EngineState {
    EngineState {
        line: line as int,
        text,
        printed: texts(printed),
        before: texts(before),
        after: texts(after),
        output: texts(output),
        appends: append_views(appends),
        quit,
        failure: None,
    }
}

proof fn lemma_texts_push(v: Seq<String>, s: String)
    ensures
        texts(v.push(s)) == texts(v).push(s@),
{
    assert(texts(v.push(s)) =~= texts(v).push(s@));
}

proof fn lemma_texts_concat(a: Seq<String>, b: Seq<String>)
    ensures
        texts(a + b) == texts(a) + texts(b),
{
    assert(texts(a + b) =~= texts(a) + texts(b));
}

proof fn lemma_appends_push(v: Seq<FileAppend>, a: FileAppend)
    ensures
        append_views(v.push(a)) == append_views(v).push(a@),
{
    assert(append_views(v.push(a)) =~= append_views(v).push(a@));
}

/// Runs the program `expressions` over `lines`.
pub fn execute(opt: &Opt, expressions: &[(Options, Operation)], lines: &[String]) -> (r: Run)
    ensures
        r@ == run(program_view(expressions@), texts(lines@), opt.quiet),
{
    let ghost prog = program_view(expressions@);
    let ghost ls = texts(lines@);
    let quiet = opt.quiet;
    let mut output: Vec<String> = Vec::new();
    let mut appends: Vec<FileAppend> = Vec::new();
    let mut line_number: usize = 0;
    let n_lines = lines.len();
    proof {
        assert(texts(output@) =~= seq![]);
        assert(append_views(appends@) =~= seq![]);
        assert(texts(seq![]) =~= seq![]);
        assert(state_of(0, seq![], seq![], seq![], seq![], output@, appends@, false) == initial_state());
    }
    while line_number < lines.len()
        invariant
            prog == program_view(expressions@),
            ls == texts(lines@),
            quiet == opt.quiet,
            n_lines == lines@.len(),
            run_from(prog, ls, quiet, initial_state()) == run_from(
                prog,
                ls,
                quiet,
                state_of(line_number, seq![], seq![], seq![], seq![], output@, appends@, false),
            ),
        decreases lines.len() - line_number,
    {
        let ghost st0 = state_of(line_number, seq![], seq![], seq![], seq![], output@, appends@, false);
        let mut text: String = lines[line_number].clone();
        let mut printed: Vec<String> = Vec::new();
        let mut before: Vec<String> = Vec::new();
        let mut after: Vec<String> = Vec::new();
        let mut quit = false;
        let mut k: usize = 0;
        proof {
            assert(state_of(line_number, text@, printed@, before@, after@, output@, appends@, quit)
                == start_pass(st0, ls));
        }
        while k < expressions.len() && !quit
            invariant
                prog == program_view(expressions@),
                ls == texts(lines@),
                quiet == opt.quiet,
                n_lines == lines@.len(),
                0 <= line_number < lines@.len(),
                run_from(prog, ls, quiet, initial_state()) == run_from(prog, ls, quiet, st0),
                0 <= st0.line < ls.len(),
                st0.failure is None,
                k <= expressions@.len(),
                run_pass(prog, ls, quiet, 0, start_pass(st0, ls)) == run_pass(
                    prog,
                    ls,
                    quiet,
                    k as int,
                    state_of(line_number, text@, printed@, before@, after@, output@, appends@, quit),
                ),
            decreases expressions.len() - k,
        {
            let ghost cur = state_of(line_number, text@, printed@, before@, after@, output@, appends@, quit);
            let ins = &expressions[k];
            if is_valid(&ins.0, line_number) {
                match &ins.1 {
                    Operation::Subs(p, rep, f) => {
                        match substitute(p.as_str(), rep.as_str(), f.as_str(), text.as_str()) {
                            Err(e) => {
                                proof {
                                    let fail = EngineState { failure: Some(e), ..cur };
                                    assert(run_pass(prog, ls, quiet, k + 1, fail) == fail);
                                    assert(run_pass(prog, ls, quiet, k as int, cur) == fail);
                                    assert(run_pass(prog, ls, quiet, 0, start_pass(st0, ls)) == fail);
                                    assert(run_from(prog, ls, quiet, st0) == fail);
                                }
                                return Run { output, appends, failure: Some(e) };
                            },
                            Ok(sub) => {
                                let Substitution { lines: produced, append } = sub;
                                text = produced[0].clone();
                                let mut t: usize = 1;
                                while t < produced.len()
                                    invariant
                                        1 <= t <= produced@.len(),
                                        texts(printed@) == cur.printed + texts(produced@).subrange(1, t as int),
                                    decreases produced.len() - t,
                                {
                                    proof {
                                        lemma_texts_push(printed@, produced@[t as int]);
                                    }
                                    printed.push(produced[t].clone());
                                    assert(texts(produced@).subrange(1, t + 1) =~= texts(produced@).subrange(1, t as int).push(produced@[t as int]@));
                                    t = t + 1;
                                }
                                assert(texts(produced@).subrange(1, produced@.len() as int) =~= texts(produced@).drop_first());
                                match append {
                                    Some(a) => {
                                        proof {
                                            lemma_appends_push(appends@, a);
                                        }
                                        appends.push(a);
                                    },
                                    None => {},
                                }
                            },
                        }
                    },
                    Operation::Write(path) => {
                        let a = FileAppend { path: path.clone(), text: text.clone() };
                        proof {
                            lemma_appends_push(appends@, a);
                        }
                        appends.push(a);
                    },
                    Operation::Delete => {
                        text = String::new();
                        text.push('\n');
                    },
                    Operation::Print => {
                        proof {
                            lemma_texts_push(printed@, text);
                        }
                        printed.push(text.clone());
                    },
                    Operation::PrintLineNumber => {
                        let number = line_number_text(line_number + 1);
                        proof {
                            lemma_texts_push(printed@, number);
                        }
                        printed.push(number);
                    },
                    Operation::Skip => {
                        if !quiet {
                            proof {
                                lemma_texts_push(output@, text);
                            }
                            output.push(text.clone());
                        }
                        if line_number + 1 >= lines.len() {
                            proof {
                                let fail = apply(Command::Skip, ls, quiet, cur);
                                assert(fail.failure == Some(SedError::SkipPastEnd));
                                assert(run_pass(prog, ls, quiet, k + 1, fail) == fail);
                                assert(run_pass(prog, ls, quiet, k as int, cur) == fail);
                                assert(run_pass(prog, ls, quiet, 0, start_pass(st0, ls)) == fail);
                                assert(run_from(prog, ls, quiet, st0) == fail);
                                assert(texts(output@) == fail.output);
                            }
                            return Run { output, appends, failure: Some(SedError::SkipPastEnd) };
                        }
                        line_number = line_number + 1;
                        text = lines[line_number].clone();
                    },
                    Operation::Quit => {
                        quit = true;
                    },
                    Operation::InsertBefore(t) => {
                        proof {
                            lemma_texts_push(before@, *t);
                        }
                        before.push(t.clone());
                    },
                    Operation::InsertAfter(t) => {
                        proof {
                            lemma_texts_push(after@, *t);
                        }
                        after.push(t.clone());
                    },
                }
            }
            k = k + 1;
        }
        let ghost p = state_of(line_number, text@, printed@, before@, after@, output@, appends@, quit);
        proof {
            lemma_run_pass_line(prog, ls, quiet, 0, start_pass(st0, ls));
            assert(run_pass(prog, ls, quiet, k as int, p) == p);
            assert(run_pass(prog, ls, quiet, 0, start_pass(st0, ls)) == p);
        }
        let ghost o0 = output@;
        output.append(&mut before);
        output.append(&mut printed);
        if !quiet {
            output.push(text.clone());
        }
        output.append(&mut after);
        proof {
            let extra = if quiet {
                seq![]
            } else {
                seq![text@]
            };
            assert(texts(output@) =~= p.output + p.before + p.printed + extra + p.after);
            assert(texts(seq![]) =~= seq![]);
            assert(finish_pass(p, quiet) == state_of(
                (line_number + 1) as usize,
                seq![],
                seq![],
                seq![],
                seq![],
                output@,
                appends@,
                quit,
            ));
        }
        if quit {
            proof {
                assert(run_from(prog, ls, quiet, st0) == finish_pass(p, quiet));
            }
            return Run { output, appends, failure: None };
        }
        line_number = line_number + 1;
    }
    proof {
        assert(state_of(line_number, seq![], seq![], seq![], seq![], output@, appends@, false).line >= ls.len());
    }
    Run { output, appends, failure: None }
}

} // verus!
