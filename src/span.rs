//! Source positions, spans, the set of spans that made it into the output,
//! and recovery of the source text a span covers.
use vstd::prelude::*;

verus! {

#[derive(Debug, Clone, Copy)]
pub struct Loc {
    pub line: usize,
    pub col: usize,
}

#[derive(Debug)]
pub enum RealFileName {
    LocalPath(String),
    Remapped { local_path: Option<String>, virtual_name: String },
}

impl Clone for RealFileName {
    fn clone(&self) -> (r: Self)
        ensures
            r == *self,
    {
        match self {
            RealFileName::LocalPath(p) => RealFileName::LocalPath(p.clone()),
            RealFileName::Remapped { local_path, virtual_name } => {
                let lp = match local_path {
                    Some(p) => Some(p.clone()),
                    None => None,
                };
                RealFileName::Remapped { local_path: lp, virtual_name: virtual_name.clone() }
            },
        }
    }
}

#[derive(Debug)]
pub enum FileName {
    Real(RealFileName),
    QuoteExpansion(u64),
    Anon(u64),
    MacroExpansion(u64),
    ProcMacroSourceCode(u64),
    CfgSpec(u64),
    CliCrateAttr(u64),
    Custom(String),
    DocTest(String),
    InlineAsm(u64),
}

impl Clone for FileName {
    fn clone(&self) -> (r: Self)
        ensures
            r == *self,
    {
        match self {
            FileName::Real(x) => FileName::Real(x.clone()),
            FileName::QuoteExpansion(h) => FileName::QuoteExpansion(*h),
            FileName::Anon(h) => FileName::Anon(*h),
            FileName::MacroExpansion(h) => FileName::MacroExpansion(*h),
            FileName::ProcMacroSourceCode(h) => FileName::ProcMacroSourceCode(*h),
            FileName::CfgSpec(h) => FileName::CfgSpec(*h),
            FileName::CliCrateAttr(h) => FileName::CliCrateAttr(*h),
            FileName::Custom(s) => FileName::Custom(s.clone()),
            FileName::DocTest(s) => FileName::DocTest(s.clone()),
            FileName::InlineAsm(h) => FileName::InlineAsm(*h),
        }
    }
}

/// A provenance record: where a node came from.
#[derive(Debug)]
pub struct Span {
    pub lo: Loc,
    pub hi: Loc,
    pub filename: FileName,
}

impl Clone for Span {
    fn clone(&self) -> (r: Self)
        ensures
            r == *self,
    {
        Span { lo: self.lo, hi: self.hi, filename: self.filename.clone() }
    }
}

#[derive(Debug, Clone)]
pub struct Spanned<T> {
    pub node: T,
    pub span: Span,
}

/// The spans attached to emitted nodes, in the order they were attached.
#[derive(Debug)]
pub struct ExportedSpans {
    pub spans: Vec<Span>,
}

impl ExportedSpans {
    pub open spec fn set(&self) -> Set<Span> {
        self.spans@.to_set()
    }

    pub fn new() -> (r: ExportedSpans)
        ensures
            r.spans@ == Seq::<Span>::empty(),
    {
        ExportedSpans { spans: Vec::new() }
    }

    /// Records that `s` is attached to an emitted node, and hands back the
    /// span to attach.
    pub fn export(&mut self, s: &Span) -> (r: Span)
        ensures
            r == *s,
            final(self).spans@ == old(self).spans@.push(*s),
    {
        self.spans.push(s.clone());
        s.clone()
    }
}

/// A source file as lines of text, as read by whoever drives the lowering.
#[derive(Debug)]
pub struct SourceFile {
    pub path: String,
    pub lines: Vec<String>,
}

#[derive(Debug)]
pub enum ReadSpanErr {
    /// The span does not point into a file on disk.
    NotRealFileName(FileName),
    /// The file the span points into is not available; holds its path.
    WhileReading(String),
    /// The file has no line in the span's range.
    NotEnoughLines { span: Span },
}

pub open spec fn clamp(x: int, len: int) -> int {
    if x < len {
        x
    } else {
        len
    }
}

/// Lines joined with a line break between each two.
pub open spec fn join_lines(ls: Seq<Seq<char>>) -> Seq<char>
    decreases ls.len(),
{
    if ls.len() == 0 {
        Seq::empty()
    } else if ls.len() == 1 {
        ls[0]
    } else {
        join_lines(ls.drop_last()) + seq!['\n'] + ls.last()
    }
}

/// The lines a span covers: from line `lo` to line `hi` (counted from one),
/// as far as the file goes.
pub open spec fn covered_lines(lines: Seq<Seq<char>>, lo: int, hi: int) -> Seq<Seq<char>> {
    if lo < 1 || hi < lo {
        Seq::empty()
    } else {
        lines.subrange(clamp(lo - 1, lines.len() as int), clamp(hi, lines.len() as int))
    }
}

/// The characters of one line at positions `lo` (included) to `hi` (excluded).
pub open spec fn cut_line(l: Seq<char>, lo: int, hi: int) -> Seq<char> {
    let a = clamp(lo, l.len() as int);
    let b = clamp(hi, l.len() as int);
    if a < b {
        l.subrange(a, b)
    } else {
        Seq::empty()
    }
}

/// The text of covered lines `sel`: on a single line the columns from `lo`
/// to `hi`; otherwise the first line from column `lo`, the middle lines
/// whole, and the last line up to column `hi`.
pub open spec fn span_text(sel: Seq<Seq<char>>, lo: int, hi: int) -> Seq<char> {
    if sel.len() == 1 {
        cut_line(sel[0], lo, hi)
    } else {
        let first = sel[0].subrange(clamp(lo, sel[0].len() as int), sel[0].len() as int);
        let last = sel.last().subrange(0, clamp(hi, sel.last().len() as int));
        join_lines(seq![first] + sel.subrange(1, sel.len() - 1) + seq![last])
    }
}

/// The lines of the file at `path`, if it is among `files`.
pub open spec fn file_lines(files: Seq<SourceFile>, path: Seq<char>) -> Option<Seq<Seq<char>>>
    decreases files.len(),
{
    if files.len() == 0 {
        None
    } else if files[0].path@ == path {
        Some(files[0].lines.deep_view())
    } else {
        file_lines(files.drop_first(), path)
    }
}

/// What reading the text of `span` out of `files` gives.
pub open spec fn read_span_spec(span: Span, files: Seq<SourceFile>) -> Result<Seq<char>, ReadSpanErr> {
    match span.filename {
        FileName::Real(RealFileName::LocalPath(p)) => match file_lines(files, p@) {
            None => Err(ReadSpanErr::WhileReading(p)),
            Some(lines) => {
                let sel = covered_lines(lines, span.lo.line as int, span.hi.line as int);
                if sel.len() == 0 {
                    Err(ReadSpanErr::NotEnoughLines { span })
                } else {
                    Ok(span_text(sel, span.lo.col as int, span.hi.col as int))
                }
            },
        },
        _ => Err(ReadSpanErr::NotRealFileName(span.filename)),
    }
}

fn find_file<'a>(files: &'a Vec<SourceFile>, path: &String) -> (r: Option<&'a Vec<String>>)
    ensures
        match r {
            Some(ls) => file_lines(files@, path@) == Some(ls.deep_view()),
            None => file_lines(files@, path@) is None,
        },
{
    let mut k: usize = 0;
    assert(files@.subrange(0, files.len() as int) =~= files@);
    while k < files.len()
        invariant
            k <= files.len(),
            file_lines(files@, path@) == file_lines(files@.subrange(k as int, files.len() as int), path@),
        decreases files.len() - k,
    {
        proof {
            let rest = files@.subrange(k as int, files.len() as int);
            assert(rest.drop_first() =~= files@.subrange(k + 1, files.len() as int));
            assert(rest[0] == files@[k as int]);
        }
        if files[k].path.eq(path) {
            return Some(&files[k].lines);
        }
        k = k + 1;
    }
    proof {
        assert(files@.subrange(k as int, files.len() as int).len() == 0);
    }
    None
}

fn cut(l: &String, lo: usize, hi: usize) -> (r: String)
    ensures
        r@ == cut_line(l@, lo as int, hi as int),
{
    let n = l.as_str().unicode_len();
    let a = if lo < n {
        lo
    } else {
        n
    };
    let b = if hi < n {
        hi
    } else {
        n
    };
    if a < b {
        String::from_str(l.as_str().substring_char(a, b))
    } else {
        proof {
            assert(l@.subrange(0, 0) =~= Seq::<char>::empty());
        }
        String::from_str(l.as_str().substring_char(0, 0))
    }
}

/// The source text that `span` covers, read out of `files`.
pub fn read_span_from_file(span: &Span, files: &Vec<SourceFile>) -> (r: Result<String, ReadSpanErr>)
    ensures
        match (r, read_span_spec(*span, files@)) {
            (Ok(t), Ok(u)) => t@ == u,
            (Err(e), Err(f)) => match (e, f) {
                (ReadSpanErr::WhileReading(a), ReadSpanErr::WhileReading(b)) => a@ == b@,
                _ => e == f,
            },
            _ => false,
        },
{
    let path = match &span.filename {
        FileName::Real(RealFileName::LocalPath(p)) => p,
        _ => {
            return Err(ReadSpanErr::NotRealFileName(span.filename.clone()));
        },
    };
    let lines = match find_file(files, path) {
        Some(ls) => ls,
        None => {
            return Err(ReadSpanErr::WhileReading(path.clone()));
        },
    };
    let lo = span.lo.line;
    let hi = span.hi.line;
    let n = lines.len();
    if lo < 1 || hi < lo {
        return Err(ReadSpanErr::NotEnoughLines { span: span.clone() });
    }
    let from = if lo - 1 < n {
        lo - 1
    } else {
        n
    };
    let to = if hi < n {
        hi
    } else {
        n
    };
    let ghost sel = covered_lines(lines.deep_view(), lo as int, hi as int);
    proof {
        assert(sel =~= lines.deep_view().subrange(from as int, to as int));
    }
    if from >= to {
        return Err(ReadSpanErr::NotEnoughLines { span: span.clone() });
    }
    if to - from == 1 {
        return Ok(cut(&lines[from], span.lo.col, span.hi.col));
    }
    let first_line = lines[from].as_str();
    let first_len = first_line.unicode_len();
    let c = if span.lo.col < first_len {
        span.lo.col
    } else {
        first_len
    };
    let mut text = String::from_str(first_line.substring_char(c, first_len));
    let ghost first = sel[0].subrange(clamp(span.lo.col as int, sel[0].len() as int), sel[0].len() as int);
    let ghost parts = seq![first] + sel.subrange(1, sel.len() - 1);
    proof {
        reveal_strlit("\n");
        assert(text@ == first);
        assert(seq![first] =~= parts.subrange(0, 1));
        assert(join_lines(parts.subrange(0, 1)) == first);
    }
    let mut k: usize = from + 1;
    while k < to - 1
        invariant
            from + 1 <= k <= to - 1,
            to <= lines.len(),
            sel == lines.deep_view().subrange(from as int, to as int),
            parts == seq![first] + sel.subrange(1, sel.len() - 1),
            text@ == join_lines(parts.subrange(0, (k - from) as int)),
            "\n"@ == seq!['\n'],
        decreases to - k,
    {
        text.append("\n");
        text.append(lines[k].as_str());
        proof {
            let q = parts.subrange(0, (k + 1 - from) as int);
            assert(q.drop_last() =~= parts.subrange(0, (k - from) as int));
            assert(q.last() == lines[k as int]@);
        }
        k = k + 1;
    }
    let last_line = lines[to - 1].as_str();
    let last_len = last_line.unicode_len();
    let d = if span.hi.col < last_len {
        span.hi.col
    } else {
        last_len
    };
    text.append("\n");
    text.append(last_line.substring_char(0, d));
    proof {
        let last = sel.last().subrange(0, clamp(span.hi.col as int, sel.last().len() as int));
        let all = seq![first] + sel.subrange(1, sel.len() - 1) + seq![last];
        assert(all.drop_last() =~= parts.subrange(0, (k - from) as int));
        assert(all.last() == last);
        assert(sel.last() == lines[to - 1]@);
    }
    Ok(text)
}

} // verus!

verus! {

pub open spec fn same_opt_text(a: Option<String>, b: Option<String>) -> bool {
    match (a, b) {
        (Some(x), Some(y)) => x@ == y@,
        (None, None) => true,
        _ => false,
    }
}

/// Two file names denote the same file: same variant, same text or hash.
pub open spec fn same_file(a: FileName, b: FileName) -> bool {
    match (a, b) {
        (FileName::Real(RealFileName::LocalPath(x)), FileName::Real(RealFileName::LocalPath(y))) => x@ == y@,
        (
            FileName::Real(RealFileName::Remapped { local_path: l1, virtual_name: v1 }),
            FileName::Real(RealFileName::Remapped { local_path: l2, virtual_name: v2 }),
        ) => same_opt_text(l1, l2) && v1@ == v2@,
        (FileName::QuoteExpansion(x), FileName::QuoteExpansion(y)) => x == y,
        (FileName::Anon(x), FileName::Anon(y)) => x == y,
        (FileName::MacroExpansion(x), FileName::MacroExpansion(y)) => x == y,
        (FileName::ProcMacroSourceCode(x), FileName::ProcMacroSourceCode(y)) => x == y,
        (FileName::CfgSpec(x), FileName::CfgSpec(y)) => x == y,
        (FileName::CliCrateAttr(x), FileName::CliCrateAttr(y)) => x == y,
        (FileName::Custom(x), FileName::Custom(y)) => x@ == y@,
        (FileName::DocTest(x), FileName::DocTest(y)) => x@ == y@,
        (FileName::InlineAsm(x), FileName::InlineAsm(y)) => x == y,
        _ => false,
    }
}

/// Two spans cover the same range of the same file.
pub open spec fn same_span(a: Span, b: Span) -> bool {
    a.lo == b.lo && a.hi == b.hi && same_file(a.filename, b.filename)
}

fn opt_text_eq(a: &Option<String>, b: &Option<String>) -> (r: bool)
    ensures
        r == same_opt_text(*a, *b),
{
    match (a, b) {
        (Some(x), Some(y)) => x.eq(y),
        (None, None) => true,
        _ => false,
    }
}

pub fn file_name_eq(a: &FileName, b: &FileName) -> (r: bool)
    ensures
        r == same_file(*a, *b),
{
    match (a, b) {
        (FileName::Real(RealFileName::LocalPath(x)), FileName::Real(RealFileName::LocalPath(y))) => x.eq(y),
        (
            FileName::Real(RealFileName::Remapped { local_path: l1, virtual_name: v1 }),
            FileName::Real(RealFileName::Remapped { local_path: l2, virtual_name: v2 }),
        ) => opt_text_eq(l1, l2) && v1.eq(v2),
        (FileName::QuoteExpansion(x), FileName::QuoteExpansion(y)) => *x == *y,
        (FileName::Anon(x), FileName::Anon(y)) => *x == *y,
        (FileName::MacroExpansion(x), FileName::MacroExpansion(y)) => *x == *y,
        (FileName::ProcMacroSourceCode(x), FileName::ProcMacroSourceCode(y)) => *x == *y,
        (FileName::CfgSpec(x), FileName::CfgSpec(y)) => *x == *y,
        (FileName::CliCrateAttr(x), FileName::CliCrateAttr(y)) => *x == *y,
        (FileName::Custom(x), FileName::Custom(y)) => x.eq(y),
        (FileName::DocTest(x), FileName::DocTest(y)) => x.eq(y),
        (FileName::InlineAsm(x), FileName::InlineAsm(y)) => *x == *y,
        _ => false,
    }
}

pub fn span_eq(a: &Span, b: &Span) -> (r: bool)
    ensures
        r == same_span(*a, *b),
{
    a.lo.line == b.lo.line && a.lo.col == b.lo.col && a.hi.line == b.hi.line && a.hi.col
        == b.hi.col && file_name_eq(&a.filename, &b.filename)
}

} // verus!
