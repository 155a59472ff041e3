//! Properties that relate the compiler, the addresses and the engine.
use vstd::prelude::*;
use crate::compile::compiles_to;
use crate::engine::{
    EngineState, address_matches, finish_pass, initial_state, run, run_from, run_pass, start_pass,
};
use crate::substitution::{edit_region, last_token, occurrence, substitution};
use crate::helpers::{Matcher, Operation, Options, SedError, program_view};
use crate::pattern::{regex_compiles, regex_matches};

verus! {

/// Compiling is deterministic: two compilations of the same fragments
/// against the same buffer give the same program, with every regex address
/// resolved to the same line, or fail with the same error.
pub proof fn compile_is_deterministic(
    exprs: Seq<Seq<char>>,
    lines: Seq<Seq<char>>,
    r1: Result<Vec<(Options, Operation)>, SedError>,
    r2: Result<Vec<(Options, Operation)>, SedError>,
)
    requires
        compiles_to(r1, exprs, lines),
        compiles_to(r2, exprs, lines),
    ensures
        r1 is Ok <==> r2 is Ok,
        r1 is Ok ==> program_view(r1->Ok_0@) == program_view(r2->Ok_0@),
        r1 is Err ==> r1 == r2,
{
}

/// A range whose two ends are resolved selects exactly the lines between
/// them, both included (`line` is 0-based, the ends 1-based).
pub proof fn range_selects_between(from: usize, to: usize, line: int)
    requires
        from >= 1,
        to >= 1,
        line >= 0,
    ensures
        address_matches(Options { matcher: Matcher::Range(from, to), neg: false }, line) <==> from
            <= line + 1 <= to,
{
}

/// An address with an unresolved end (`0`) selects every line.
pub proof fn unresolved_address_selects_all(n: usize, line: int)
    ensures
        address_matches(Options { matcher: Matcher::Single(0), neg: false }, line),
        address_matches(Options { matcher: Matcher::Range(0, n), neg: false }, line),
        address_matches(Options { matcher: Matcher::Range(n, 0), neg: false }, line),
{
}

/// With the `p` flag, a substitution whose edited part matches produces the
/// edited line twice.
pub proof fn print_flag_doubles_line(p: Seq<char>, rep: Seq<char>, f: Seq<char>, line: Seq<char>)
    requires
        regex_compiles(p),
        f.contains('p'),
        occurrence(f) != Some(0nat),
        regex_matches(p, edit_region(p, line, occurrence(f)).1),
        !(f.contains('w') && last_token(f).len() == 0),
    ensures
        substitution(p, rep, f, line) matches Ok((produced, _)) && produced.len() == 2
            && produced[0] == produced[1],
{
    assert(f.len() > 0);
}

proof fn lemma_empty_program_echoes(lines: Seq<Seq<char>>, st: EngineState)
    requires
        0 <= st.line <= lines.len(),
        st.printed.len() == 0,
        st.before.len() == 0,
        st.after.len() == 0,
        !st.quit,
        st.failure is None,
    ensures
        run_from(seq![], lines, false, st).output == st.output + lines.subrange(
            st.line,
            lines.len() as int,
        ),
        run_from(seq![], lines, false, st).appends == st.appends,
        run_from(seq![], lines, false, st).failure is None,
    decreases lines.len() - st.line,
{
    if st.line >= lines.len() {
        assert(st.output + lines.subrange(st.line, lines.len() as int) =~= st.output);
    } else {
        let s = start_pass(st, lines);
        assert(run_pass(seq![], lines, false, 0, s) == s);
        let next = finish_pass(s, false);
        lemma_empty_program_echoes(lines, next);
        assert(next.output =~= st.output.push(lines[st.line]));
        assert(st.output.push(lines[st.line]) + lines.subrange(st.line + 1, lines.len() as int)
            =~= st.output + lines.subrange(st.line, lines.len() as int));
    }
}

/// The empty program, not quiet, echoes the buffer unchanged, one output
/// element per line, and appends to no file.
pub proof fn empty_program_echoes(lines: Seq<Seq<char>>)
    ensures
        run(seq![], lines, false) == (lines, Seq::<(Seq<char>, Seq<char>)>::empty(), None::<
            SedError,
        >),
{
    lemma_empty_program_echoes(lines, initial_state());
    assert(initial_state().output + lines.subrange(0, lines.len() as int) =~= lines);
}

} // verus!
