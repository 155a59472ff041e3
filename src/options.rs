//! The command-line options, as plain values, and what is decided from them.
use vstd::prelude::*;
use crate::substitution::chars_of;
use crate::helpers::texts;

verus! {

/// What the command line asked for.
pub struct Opt {
    /// Do not echo each line after its pass.
    pub quiet: bool,
    /// Script fragments given one by one.
    pub expression: Vec<String>,
    /// A script file, one fragment per line.
    pub file: Option<String>,
    /// Edit the input file in place, keeping a copy under this suffix when
    /// it is not empty.
    pub in_place: Option<String>,
    /// The positional arguments: the script first when no other source
    /// gives one, then the input files.
    pub args: Vec<String>,
}

/// `cur` without one trailing carriage return.
pub open spec fn strip_cr(cur: Seq<char>) -> Seq<char> {
    if cur.len() > 0 && cur.last() == '\r' {
        cur.drop_last()
    } else {
        cur
    }
}

/// The lines ended so far in `t`, and the text after the last newline.
pub open spec fn lines_acc(t: Seq<char>) -> (Seq<Seq<char>>, Seq<char>)
    decreases t.len(),
{
    if t.len() == 0 {
        (seq![], seq![])
    } else {
        let (ls, cur) = lines_acc(t.drop_last());
        if t.last() == '\n' {
            (ls.push(strip_cr(cur)), seq![])
        } else {
            (ls, cur.push(t.last()))
        }
    }
}

/// The lines of `t`, without their `\n` or `\r\n` terminators; the last
/// line need not be terminated.
pub open spec fn text_lines(t: Seq<char>) -> Seq<Seq<char>> {
    let (ls, cur) = lines_acc(t);
    if cur.len() == 0 {
        ls
    } else {
        ls.push(cur)
    }
}

/// The string of the characters `v`.
fn string_of(v: &Vec<char>) -> (r: String)
    ensures
        r@ == v@,
{
    let mut r = String::new();
    let mut i: usize = 0;
    while i < v.len()
        invariant
            i <= v@.len(),
            r@ == v@.take(i as int),
        decreases v.len() - i,
    {
        assert(v@.take(i + 1) =~= v@.take(i as int).push(v@[i as int]));
        r.push(v[i]);
        i = i + 1;
    }
    assert(v@.take(v@.len() as int) =~= v@);
    r
}

/// The lines of `text`, without their terminators.
pub fn split_lines(text: &str) -> (r: Vec<String>)
    ensures
        texts(r@) == text_lines(text@),
{
    let t = chars_of(text);
    let mut lines: Vec<String> = Vec::new();
    let mut cur: Vec<char> = Vec::new();
    let mut i: usize = 0;
    while i < t.len()
        invariant
            i <= t@.len(),
            (texts(lines@), cur@) == lines_acc(t@.take(i as int)),
        decreases t.len() - i,
    {
        assert(t@.take(i + 1).drop_last() =~= t@.take(i as int));
        if t[i] == '\n' {
            if cur.len() > 0 && cur[cur.len() - 1] == '\r' {
                cur.pop();
            }
            let line = string_of(&cur);
            assert(texts(lines@.push(line)) =~= texts(lines@).push(line@));
            lines.push(line);
            cur = Vec::new();
        } else {
            cur.push(t[i]);
        }
        i = i + 1;
    }
    assert(t@.take(t@.len() as int) =~= t@);
    if cur.len() > 0 {
        let line = string_of(&cur);
        assert(texts(lines@.push(line)) =~= texts(lines@).push(line@));
        lines.push(line);
    }
    lines
}

/// The lines of each text in turn, each with a newline at its end.
pub open spec fn buffer_of(files: Seq<Seq<char>>) -> Seq<Seq<char>>
    decreases files.len(),
{
    if files.len() == 0 {
        seq![]
    } else {
        buffer_of(files.drop_last()) + text_lines(files.last()).map_values(
            |l: Seq<char>| l.push('\n'),
        )
    }
}

/// The line buffer of the input files whose texts are `contents`, in order:
/// all their lines, each with a newline at its end.
pub fn buffer_lines(contents: &Vec<String>) -> (r: Vec<String>)
    ensures
        texts(r@) == buffer_of(texts(contents@)),
{
    let mut buffer: Vec<String> = Vec::new();
    let mut k: usize = 0;
    while k < contents.len()
        invariant
            k <= contents@.len(),
            texts(buffer@) == buffer_of(texts(contents@).take(k as int)),
        decreases contents.len() - k,
    {
        assert(texts(contents@).take(k + 1).drop_last() =~= texts(contents@).take(k as int));
        let ghost start = texts(buffer@);
        let lines = split_lines(contents[k].as_str());
        let mut j: usize = 0;
        while j < lines.len()
            invariant
                j <= lines@.len(),
                texts(buffer@) == start + texts(lines@).take(j as int).map_values(
                    |l: Seq<char>| l.push('\n'),
                ),
            decreases lines.len() - j,
        {
            let mut line = lines[j].clone();
            line.push('\n');
            assert(texts(buffer@.push(line)) =~= texts(buffer@).push(line@));
            assert(texts(lines@).take(j + 1).map_values(|l: Seq<char>| l.push('\n'))
                =~= texts(lines@).take(j as int).map_values(|l: Seq<char>| l.push('\n')).push(
                lines@[j as int]@.push('\n'),
            ));
            buffer.push(line);
            j = j + 1;
        }
        assert(texts(lines@).take(lines@.len() as int) =~= texts(lines@));
        k = k + 1;
    }
    assert(texts(contents@).take(contents@.len() as int) =~= texts(contents@));
    buffer
}

impl Opt {
    /// The script fragments. `script` is the text of the script file, read
    /// only when `self.file` names one; its lines are the fragments then.
    /// Else the `-e` fragments, else the first positional argument when
    /// files follow it; `None` when no source gives a script.
    pub fn get_expressions(&self, script: &str) -> (r: Option<Vec<String>>)
        ensures
            self.file is Some ==> r is Some && texts(r->0@) == text_lines(script@),
            self.file is None && self.expression@.len() > 0 ==> r is Some && texts(r->0@)
                == texts(self.expression@),
            self.file is None && self.expression@.len() == 0 && self.args@.len() >= 2 ==> r is Some
                && texts(r->0@) == seq![self.args@[0]@],
            self.file is None && self.expression@.len() == 0 && self.args@.len() < 2 ==> r is None,
    {
        if self.file.is_some() {
            Some(split_lines(script))
        } else if self.expression.len() > 0 {
            let mut all: Vec<String> = Vec::new();
            let mut i: usize = 0;
            while i < self.expression.len()
                invariant
                    i <= self.expression@.len(),
                    texts(all@) == texts(self.expression@.take(i as int)),
                decreases self.expression.len() - i,
            {
                assert(texts(self.expression@.take(i + 1)) =~= texts(self.expression@.take(i as int)).push(self.expression@[i as int]@));
                assert(texts(all@.push(self.expression[i as int])) =~= texts(all@).push(self.expression@[i as int]@));
                all.push(self.expression[i].clone());
                i = i + 1;
            }
            assert(self.expression@.take(self.expression@.len() as int) =~= self.expression@);
            Some(all)
        } else if self.args.len() >= 2 {
            let mut one: Vec<String> = Vec::new();
            one.push(self.args[0].clone());
            assert(texts(one@) =~= seq![self.args@[0]@]);
            Some(one)
        } else {
            None
        }
    }

    /// The input file named last on the command line.
    pub fn get_file_name(&self) -> (r: String)
        requires
            self.args@.len() > 0,
        ensures
            r@ == self.args@.last()@,
    {
        self.args[self.args.len() - 1].clone()
    }

    /// The input files: the positional arguments, less the first when it is
    /// the script.
    pub fn get_file_names(&self) -> (r: Vec<String>)
        ensures
            texts(r@) == if self.expression@.len() == 0 && self.file is None {
                if self.args@.len() == 0 {
                    seq![]
                } else {
                    texts(self.args@).drop_first()
                }
            } else {
                texts(self.args@)
            },
    {
        let first: usize = if self.expression.len() == 0 && self.file.is_none() {
            1
        } else {
            0
        };
        let mut names: Vec<String> = Vec::new();
        let mut i: usize = first;
        if i > self.args.len() {
            assert(texts(names@) =~= seq![]);
            return names;
        }
        while i < self.args.len()
            invariant
                first <= i <= self.args@.len(),
                texts(names@) == texts(self.args@).subrange(first as int, i as int),
            decreases self.args.len() - i,
        {
            assert(texts(names@.push(self.args[i as int])) =~= texts(names@).push(self.args@[i as int]@));
            assert(texts(self.args@).subrange(first as int, i + 1) =~= texts(self.args@).subrange(first as int, i as int).push(self.args@[i as int]@));
            names.push(self.args[i].clone());
            i = i + 1;
        }
        assert(texts(self.args@).subrange(0, self.args@.len() as int) =~= texts(self.args@));
        assert(self.args@.len() > 0 ==> texts(self.args@).subrange(1, self.args@.len() as int)
            =~= texts(self.args@).drop_first());
        names
    }
}

} // verus!
