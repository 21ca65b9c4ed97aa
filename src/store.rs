//! The store format: one record per line, `name{}path`, each line ended by a
//! line break. Reading splits the text into lines (a line break may be
//! `\n` or `\r\n`), skips blank lines and splits every other line at the
//! first `{}`; one malformed line fails the whole read.
use vstd::prelude::*;
use crate::project::{models, Project, ProjectModel};

verus! {

/// What reading a store gives: records in order, or a line number.
pub type ReadResult = Result<Seq<ProjectModel>, nat>;

/// The two characters that separate a record's name from its path.
pub open spec fn delimiter() -> Seq<char> {
    seq!['{', '}']
}

/// Whether the delimiter starts at index `i` of `l`.
pub open spec fn delimiter_at(l: Seq<char>, i: int) -> bool {
    0 <= i && i + 1 < l.len() && l[i] == '{' && l[i + 1] == '}'
}

/// Whether `l` holds the delimiter anywhere.
pub open spec fn has_delimiter(l: Seq<char>) -> bool {
    exists|i: int| delimiter_at(l, i)
}

/// Index of the first delimiter in `l`, or `l.len()` where there is none.
pub open spec fn first_delimiter(l: Seq<char>) -> nat
    decreases l.len(),
{
    if l.len() < 2 {
        l.len()
    } else if l[0] == '{' && l[1] == '}' {
        0
    } else {
        1 + first_delimiter(l.drop_first())
    }
}

/// Index of the first `\n` in `t`, or `t.len()` where there is none.
pub open spec fn first_newline(t: Seq<char>) -> nat
    decreases t.len(),
{
    if t.len() == 0 {
        0
    } else if t[0] == '\n' {
        0
    } else {
        1 + first_newline(t.drop_first())
    }
}

/// A line without the `\r` that preceded its `\n`, if there was one.
pub open spec fn strip_cr(l: Seq<char>) -> Seq<char> {
    if l.len() > 0 && l.last() == '\r' {
        l.drop_last()
    } else {
        l
    }
}

/// The lines of a text. A `\n` ends a line and is not part of it, nor is a
/// `\r` just before it; text after the last `\n` is one more line; a text
/// that ends with `\n` has no empty last line.
pub open spec fn lines(t: Seq<char>) -> Seq<Seq<char>>
    decreases t.len(),
{
    if t.len() == 0 {
        seq![]
    } else {
        let k = first_newline(t);
        if k < t.len() {
            seq![strip_cr(t.take(k as int))] + lines(t.skip(k + 1 as int))
        } else {
            seq![t]
        }
    }
}

/// A record read from one non-blank line: split at the first delimiter,
/// with a non-empty name before it and a non-empty path after it.
pub open spec fn parse_record(l: Seq<char>) -> Option<ProjectModel> {
    let d = first_delimiter(l);
    if 0 < d && d + 2 < l.len() {
        Some((l.take(d as int), l.skip(d + 2 as int)))
    } else {
        None
    }
}

/// The records of a sequence of lines whose first has number `first`:
/// blank lines are skipped, and the first malformed line gives its number.
pub open spec fn parse_lines(ls: Seq<Seq<char>>, first: nat) -> ReadResult
    decreases ls.len(),
{
    if ls.len() == 0 {
        Ok(seq![])
    } else if ls[0].len() == 0 {
        parse_lines(ls.drop_first(), first + 1)
    } else {
        match parse_record(ls[0]) {
            None => Err(first),
            Some(p) => prepend(seq![p], parse_lines(ls.drop_first(), first + 1)),
        }
    }
}

/// `ps` placed before the records of a successful read; an error is kept.
pub open spec fn prepend(ps: Seq<ProjectModel>, r: ReadResult) -> ReadResult {
    match r {
        Ok(qs) => Ok(ps + qs),
        Err(n) => Err(n),
    }
}

/// What reading a store text gives: its records in order, or the number
/// (counting from 1) of its first malformed line.
pub open spec fn read_store(t: Seq<char>) -> ReadResult {
    parse_lines(lines(t), 1)
}

/// The line that stores one record.
pub open spec fn record_text(p: ProjectModel) -> Seq<char> {
    p.0 + delimiter() + p.1 + seq!['\n']
}

/// The store text of a sequence of records.
pub open spec fn store_text(ps: Seq<ProjectModel>) -> Seq<char>
    decreases ps.len(),
{
    if ps.len() == 0 {
        seq![]
    } else {
        record_text(ps[0]) + store_text(ps.drop_first())
    }
}

/// A record that the store holds faithfully: a non-empty name free of the
/// delimiter and of line breaks, and a non-empty path free of line breaks
/// that does not end in `\r`.
pub open spec fn storable(p: ProjectModel) -> bool {
    &&& p.0.len() > 0
    &&& p.1.len() > 0
    &&& !has_delimiter(p.0)
    &&& !p.0.contains('\n')
    &&& !p.1.contains('\n')
    &&& p.1.last() != '\r'
}

/// Why a store text could not be read.
#[derive(Debug, Clone, Copy, PartialEq, Eq)]
pub enum StoreError {
    /// The line with this number (counting from 1) is not blank and lacks
    /// the delimiter, a name before it, or a path after it.
    MalformedLine { line: usize },
}

proof fn lemma_first_delimiter_found(l: Seq<char>, k: int)
    requires
        delimiter_at(l, k),
        forall|j: int| 0 <= j < k ==> !delimiter_at(l, j),
    ensures
        first_delimiter(l) == k,
    decreases k,
{
    if k > 0 {
        assert(!delimiter_at(l, 0));
        assert forall|j: int| 0 <= j < k - 1 implies !delimiter_at(l.drop_first(), j) by {
            assert(!delimiter_at(l, j + 1));
        }
        lemma_first_delimiter_found(l.drop_first(), k - 1);
    }
}

proof fn lemma_first_delimiter_none(l: Seq<char>)
    requires
        forall|j: int| 0 <= j ==> !delimiter_at(l, j),
    ensures
        first_delimiter(l) == l.len(),
    decreases l.len(),
{
    if l.len() >= 2 {
        assert(!delimiter_at(l, 0));
        assert forall|j: int| 0 <= j implies !delimiter_at(l.drop_first(), j) by {
            assert(!delimiter_at(l, j + 1));
        }
        lemma_first_delimiter_none(l.drop_first());
    }
}

proof fn lemma_first_newline(t: Seq<char>, k: int)
    requires
        0 <= k <= t.len(),
        k < t.len() ==> t[k] == '\n',
        forall|j: int| 0 <= j < k ==> t[j] != '\n',
    ensures
        first_newline(t) == k,
    decreases k,
{
    if k > 0 {
        lemma_first_newline(t.drop_first(), k - 1);
    }
}

/// The characters of `s`, in order.
fn chars_of(s: &str) -> (v: Vec<char>)
    ensures
        v@ == s@,
{
    let mut v: Vec<char> = Vec::new();
    for c in it: s.chars()
        invariant
            v@ == it.seq().take(it.index() as int),
    {
        v.push(c);
    }
    v
}

/// Index of the first delimiter in `c[from..to]`, relative to `from`, or
/// `to - from` where there is none.
fn find_delimiter(c: &Vec<char>, from: usize, to: usize) -> (d: usize)
    requires
        from <= to <= c@.len(),
    ensures
        d == first_delimiter(c@.subrange(from as int, to as int)),
        d <= to - from,
{
    let ghost l = c@.subrange(from as int, to as int);
    let mut i: usize = from;
    while to - i >= 2
        invariant
            from <= i <= to,
            to <= c@.len(),
            l == c@.subrange(from as int, to as int),
            forall|j: int| 0 <= j < i - from ==> !delimiter_at(l, j),
        decreases to - i,
    {
        if c[i] == '{' && c[i + 1] == '}' {
            proof {
                lemma_first_delimiter_found(l, i - from);
            }
            return i - from;
        }
        i = i + 1;
    }
    proof {
        assert forall|j: int| 0 <= j implies !delimiter_at(l, j) by {
            if j >= i - from {
                assert(j + 1 >= l.len());
            }
        }
        lemma_first_delimiter_none(l);
    }
    to - from
}

/// The record on the line `c[from..to]` of `s`, whose characters are `c`.
fn parse_segment(s: &str, c: &Vec<char>, from: usize, to: usize) -> (r: Option<Project>)
    requires
        c@ == s@,
        from <= to <= c@.len(),
    ensures
        r matches Some(p) ==> parse_record(c@.subrange(from as int, to as int)) == Some(p@),
        r is None ==> parse_record(c@.subrange(from as int, to as int)) is None,
{
    let ghost l = c@.subrange(from as int, to as int);
    let d = find_delimiter(c, from, to);
    if 0 < d && to - from - d > 2 {
        let name = s.substring_char(from, from + d).to_owned();
        let path = s.substring_char(from + d + 2, to).to_owned();
        assert(name@ == l.take(d as int));
        assert(path@ == l.skip(d + 2 as int));
        Some(Project::new(name, path))
    } else {
        None
    }
}

/// Reads one line of the store: the text before the first `{}` is the
/// name and the text after it the path. `None` where the line has no `{}`
/// or either side of it is empty.
pub fn parse_line(line: &str) -> (r: Option<Project>)
    ensures
        r matches Some(p) ==> parse_record(line@) == Some(p@),
        r is None ==> parse_record(line@) is None,
{
    let c = chars_of(line);
    let r = parse_segment(line, &c, 0, c.len());
    assert(c@.subrange(0, c@.len() as int) == line@);
    r
}

/// Reads a whole store text: the records of its non-blank lines, in order.
/// Fails with the number of the first malformed line; no line is dropped.
pub fn parse_store(text: &str) -> (r: Result<Vec<Project>, StoreError>)
    ensures
        r matches Ok(v) ==> read_store(text@) == ReadResult::Ok(models(v@)),
        r matches Err(StoreError::MalformedLine { line }) ==> read_store(text@) == ReadResult::Err(
            line as nat,
        ),
{
    let c = chars_of(text);
    let n = c.len();
    let mut out: Vec<Project> = Vec::new();
    let mut start: usize = 0;
    let mut index: usize = 0;
    proof {
        assert(c@.skip(0) =~= text@);
        assert(models(out@) =~= seq![]);
        assert(prepend(seq![], read_store(text@)) =~= read_store(text@));
    }
    while start < n
        invariant
            c@ == text@,
            n == c@.len(),
            start <= n,
            index <= start,
            read_store(text@) == prepend(
                models(out@),
                parse_lines(lines(c@.skip(start as int)), (index + 1) as nat),
            ),
        decreases n - start,
    {
        let mut end: usize = start;
        while end < n && c[end] != '\n'
            invariant
                start <= end <= n,
                n == c@.len(),
                forall|j: int| start <= j < end ==> c@[j] != '\n',
            decreases n - end,
        {
            end = end + 1;
        }
        let ghost t = c@.skip(start as int);
        proof {
            lemma_first_newline(t, end - start);
        }
        let mut stop: usize = end;
        if end < n && end > start && c[end - 1] == '\r' {
            stop = end - 1;
        }
        let next: usize = if end < n {
            end + 1
        } else {
            n
        };
        let ghost line = c@.subrange(start as int, stop as int);
        let ghost rest = lines(c@.skip(next as int));
        proof {
            if end < n {
                assert(t.take(end - start) =~= c@.subrange(start as int, end as int));
                assert(strip_cr(t.take(end - start)) =~= line);
                assert(t.skip(end - start + 1) =~= c@.skip(next as int));
            } else {
                assert(t =~= line);
                assert(c@.skip(next as int) =~= seq![]);
            }
            assert(lines(t) =~= seq![line] + rest);
            assert((seq![line] + rest).drop_first() =~= rest);
        }
        if stop > start {
            match parse_segment(text, &c, start, stop) {
                None => {
                    return Err(StoreError::MalformedLine { line: index + 1 });
                },
                Some(p) => {
                    let ghost before = models(out@);
                    out.push(p);
                    proof {
                        assert(models(out@) =~= before + seq![p@]);
                        let r = parse_lines(rest, (index + 2) as nat);
                        if r is Ok {
                            assert(before + (seq![p@] + r->Ok_0) =~= models(out@) + r->Ok_0);
                        }
                    }
                },
            }
        }
        start = next;
        index = index + 1;
    }
    proof {
        assert(c@.skip(start as int) =~= seq![]);
        assert(models(out@) + seq![] =~= models(out@));
    }
    Ok(out)
}

proof fn lemma_store_text_push(ps: Seq<ProjectModel>, p: ProjectModel)
    ensures
        store_text(ps.push(p)) == store_text(ps) + record_text(p),
    decreases ps.len(),
{
    if ps.len() == 0 {
        assert(ps.push(p).drop_first() =~= seq![]);
        assert(store_text(ps.push(p).drop_first()) == Seq::<char>::empty());
        assert(store_text(ps.push(p)) =~= record_text(p));
    } else {
        assert(ps.push(p).drop_first() =~= ps.drop_first().push(p));
        lemma_store_text_push(ps.drop_first(), p);
        assert(store_text(ps.push(p)) =~= store_text(ps) + record_text(p));
    }
}

/// The store text of `projects`: for each, in order, its name, `{}`, its
/// path and a line break.
pub fn render_store(projects: &Vec<Project>) -> (s: String)
    ensures
        s@ == store_text(models(projects@)),
{
    let mut s = String::new();
    let mut i: usize = 0;
    proof {
        assert(models(projects@).take(0) =~= seq![]);
    }
    while i < projects.len()
        invariant
            i <= projects@.len(),
            s@ == store_text(models(projects@).take(i as int)),
        decreases projects@.len() - i,
    {
        let ghost before = s@;
        s.append(projects[i].name.as_str());
        s.append("{}");
        s.append(projects[i].path.as_str());
        s.append("\n");
        proof {
            reveal_strlit("{}");
            reveal_strlit("\n");
            assert("{}"@ =~= delimiter());
            assert("\n"@ =~= seq!['\n']);
            let ms = models(projects@);
            assert(ms.take(i + 1) =~= ms.take(i as int).push(ms[i as int]));
            lemma_store_text_push(ms.take(i as int), ms[i as int]);
            assert(s@ =~= before + record_text(ms[i as int]));
        }
        i = i + 1;
    }
    proof {
        assert(models(projects@).take(i as int) =~= models(projects@));
    }
    s
}

proof fn lemma_parse_store_text(ps: Seq<ProjectModel>, first: nat)
    requires
        forall|i: int| 0 <= i < ps.len() ==> storable(#[trigger] ps[i]),
    ensures
        parse_lines(lines(store_text(ps)), first) == ReadResult::Ok(ps),
    decreases ps.len(),
{
    if ps.len() == 0 {
        assert(ps =~= seq![]);
    } else {
        let p = ps[0];
        assert(storable(p));
        let rest = store_text(ps.drop_first());
        let l = p.0 + delimiter() + p.1;
        let t = store_text(ps);
        let m = l.len() as int;
        assert(t =~= l + seq!['\n'] + rest);
        assert forall|j: int| 0 <= j < m implies t[j] != '\n' by {
            if j < p.0.len() {
                assert(t[j] == p.0[j]);
                if p.0[j] == '\n' {
                    assert(p.0.contains('\n'));
                }
            } else if j >= p.0.len() + 2 {
                let k = j - p.0.len() - 2;
                assert(t[j] == p.1[k]);
                if p.1[k] == '\n' {
                    assert(p.1.contains('\n'));
                }
            }
        }
        lemma_first_newline(t, m);
        assert(t.take(m) =~= l);
        assert(l.last() == p.1.last());
        assert(strip_cr(l) == l);
        assert(t.skip(m + 1) =~= rest);
        let n0 = p.0.len() as int;
        assert(delimiter_at(l, n0));
        assert forall|j: int| 0 <= j < n0 implies !delimiter_at(l, j) by {
            if j + 1 < n0 {
                if delimiter_at(l, j) {
                    assert(delimiter_at(p.0, j));
                }
            } else {
                assert(l[j + 1] == '{');
            }
        }
        lemma_first_delimiter_found(l, n0);
        assert(l.take(n0) =~= p.0);
        assert(l.skip(n0 + 2) =~= p.1);
        let ls = lines(t);
        assert(ls =~= seq![l] + lines(rest));
        assert(ls.drop_first() =~= lines(rest));
        assert forall|i: int| 0 <= i < ps.drop_first().len() implies storable(
            #[trigger] ps.drop_first()[i],
        ) by {
            assert(storable(ps[i + 1]));
        }
        lemma_parse_store_text(ps.drop_first(), first + 1);
        assert(seq![p] + ps.drop_first() =~= ps);
    }
}

/// Writing records that the store holds faithfully and reading the text
/// back gives the same records, in the same order.
pub proof fn lemma_store_round_trip(ps: Seq<ProjectModel>)
    requires
        forall|i: int| 0 <= i < ps.len() ==> storable(#[trigger] ps[i]),
    ensures
        read_store(store_text(ps)) == ReadResult::Ok(ps),
{
    lemma_parse_store_text(ps, 1);
}

proof fn lemma_bad_line_fails(ls: Seq<Seq<char>>, first: nat, i: int)
    requires
        0 <= i < ls.len(),
        ls[i].len() > 0,
        parse_record(ls[i]) is None,
    ensures
        parse_lines(ls, first) matches Err(n) && first <= n <= first + i,
    decreases i,
{
    if i > 0 && (ls[0].len() == 0 || parse_record(ls[0]) is Some) {
        assert(ls.drop_first()[i - 1] == ls[i]);
        lemma_bad_line_fails(ls.drop_first(), first + 1, i - 1);
    }
}

/// A non-blank line that lacks the delimiter, has nothing before its first
/// delimiter, or nothing after it, makes reading the whole store fail, at
/// that line or at an earlier malformed one.
pub proof fn lemma_malformed_line_fails(t: Seq<char>, i: int)
    requires
        0 <= i < lines(t).len(),
        lines(t)[i].len() > 0,
        !has_delimiter(lines(t)[i]) || delimiter_at(lines(t)[i], 0) || first_delimiter(
            lines(t)[i],
        ) + 2 == lines(t)[i].len(),
    ensures
        read_store(t) matches Err(n) && 1 <= n <= i + 1,
{
    let l = lines(t)[i];
    if !has_delimiter(l) {
        lemma_first_delimiter_none(l);
    } else if delimiter_at(l, 0) {
        lemma_first_delimiter_found(l, 0);
    }
    lemma_bad_line_fails(lines(t), 1, i);
}

} // verus!
