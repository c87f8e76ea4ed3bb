//! Path patterns: `A::*::b` where `*` stands for one path segment and `**`
//! for zero or more segments.
use vstd::prelude::*;

verus! {

#[derive(Debug, Clone, Copy)]
pub enum Glob {
    /// `*`: exactly one segment.
    One,
    /// `**`: zero or more segments.
    Many,
}

#[derive(Debug)]
pub enum NamespaceChunk {
    Glob(Glob),
    Exact(String),
}

/// A path pattern, one chunk per `::`-separated part.
#[derive(Debug)]
pub struct Namespace {
    pub chunks: Vec<NamespaceChunk>,
}

/// What the lowering is configured with: the macro paths whose
/// invocations are kept folded.
#[derive(Debug)]
pub struct Options {
    pub inline_macro_calls: Vec<Namespace>,
}

/// Whether the pattern chunks `pat` match the whole of `path`.
pub open spec fn chunks_match(pat: Seq<NamespaceChunk>, path: Seq<Seq<char>>) -> bool
    decreases pat.len() + path.len(),
{
    if pat.len() == 0 {
        path.len() == 0
    } else {
        match pat[0] {
            NamespaceChunk::Exact(x) => path.len() > 0 && x@ == path[0] && chunks_match(
                pat.drop_first(),
                path.drop_first(),
            ),
            NamespaceChunk::Glob(Glob::One) => path.len() > 0 && chunks_match(
                pat.drop_first(),
                path.drop_first(),
            ),
            NamespaceChunk::Glob(Glob::Many) => chunks_match(pat.drop_first(), path) || (path.len()
                > 0 && chunks_match(pat, path.drop_first())),
        }
    }
}

/// Whether some pattern of `pats` matches `path`.
pub open spec fn any_pattern_matches(pats: Seq<Namespace>, path: Seq<Seq<char>>) -> bool {
    exists|k: int| 0 <= k < pats.len() && chunks_match(#[trigger] pats[k].chunks@, path)
}

fn matches_from(chunks: &Vec<NamespaceChunk>, i: usize, path: &Vec<String>, j: usize) -> (r: bool)
    requires
        i <= chunks.len(),
        j <= path.len(),
    ensures
        r == chunks_match(
            chunks@.subrange(i as int, chunks.len() as int),
            path.deep_view().subrange(j as int, path.len() as int),
        ),
    decreases (chunks.len() - i) + (path.len() - j),
{
    let ghost pat = chunks@.subrange(i as int, chunks.len() as int);
    let ghost p = path.deep_view().subrange(j as int, path.len() as int);
    proof {
        if i < chunks.len() {
            assert(pat.drop_first() =~= chunks@.subrange(i + 1, chunks.len() as int));
            assert(pat[0] == chunks@[i as int]);
        }
        if j < path.len() {
            assert(p.drop_first() =~= path.deep_view().subrange(j + 1, path.len() as int));
            assert(p[0] == path@[j as int]@);
        }
    }
    if i == chunks.len() {
        j == path.len()
    } else {
        match &chunks[i] {
            NamespaceChunk::Exact(x) => {
                j < path.len() && x.eq(&path[j]) && matches_from(chunks, i + 1, path, j + 1)
            },
            NamespaceChunk::Glob(Glob::One) => {
                j < path.len() && matches_from(chunks, i + 1, path, j + 1)
            },
            NamespaceChunk::Glob(Glob::Many) => {
                matches_from(chunks, i + 1, path, j) || (j < path.len() && matches_from(
                    chunks,
                    i,
                    path,
                    j + 1,
                ))
            },
        }
    }
}

impl Namespace {
    /// Whether this pattern matches `path` as a whole.
    pub fn matches(&self, path: &Path) -> (r: bool)
        ensures
            r == chunks_match(self.chunks@, path.deep_view()),
    {
        proof {
            assert(self.chunks@.subrange(0, self.chunks.len() as int) =~= self.chunks@);
            assert(path.deep_view().subrange(0, path.len() as int) =~= path.deep_view());
        }
        matches_from(&self.chunks, 0, path, 0)
    }
}

pub use crate::ids::Path;

/// Whether some pattern of `patterns` matches `path`.
pub fn any_matches(patterns: &Vec<Namespace>, path: &Path) -> (r: bool)
    ensures
        r == any_pattern_matches(patterns@, path.deep_view()),
{
    let mut k: usize = 0;
    while k < patterns.len()
        invariant
            k <= patterns.len(),
            forall|m: int|
                0 <= m < k ==> !chunks_match(#[trigger] patterns@[m].chunks@, path.deep_view()),
        decreases patterns.len() - k,
    {
        if patterns[k].matches(path) {
            return true;
        }
        k = k + 1;
    }
    false
}

/// The segment that ends at the end of input or at a `::`, if non-empty.
pub open spec fn flush(cur: Seq<char>) -> Seq<Seq<char>> {
    if cur.len() > 0 {
        seq![cur]
    } else {
        Seq::empty()
    }
}

/// `s` split on `::`, left to right, with empty parts dropped; `cur` is the
/// part read so far.
pub open spec fn split_segments(s: Seq<char>, cur: Seq<char>) -> Seq<Seq<char>>
    decreases s.len(),
{
    if s.len() == 0 {
        flush(cur)
    } else if s.len() >= 2 && s[0] == ':' && s[1] == ':' {
        flush(cur) + split_segments(s.subrange(2, s.len() as int), Seq::empty())
    } else {
        split_segments(s.drop_first(), cur.push(s[0]))
    }
}

/// How one segment of a pattern's text reads as a chunk.
pub open spec fn chunk_reads(c: NamespaceChunk, seg: Seq<char>) -> bool {
    match c {
        NamespaceChunk::Glob(Glob::One) => seg == seq!['*'],
        NamespaceChunk::Glob(Glob::Many) => seg == seq!['*', '*'],
        NamespaceChunk::Exact(x) => x@ == seg && seg != seq!['*'] && seg != seq!['*', '*'],
    }
}

fn chunk_of_segment(seg: &str) -> (r: NamespaceChunk)
    ensures
        chunk_reads(r, seg@),
{
    let n = seg.unicode_len();
    if n == 1 && seg.get_char(0) == '*' {
        assert(seg@ =~= seq!['*']);
        NamespaceChunk::Glob(Glob::One)
    } else if n == 2 && seg.get_char(0) == '*' && seg.get_char(1) == '*' {
        assert(seg@ =~= seq!['*', '*']);
        NamespaceChunk::Glob(Glob::Many)
    } else {
        assert(seg@ != seq!['*'] && seg@ != seq!['*', '*']) by {
            if seg@ == seq!['*'] {
                assert(seg@[0] == '*');
            }
            if seg@ == seq!['*', '*'] {
                assert(seg@[0] == '*' && seg@[1] == '*');
            }
        }
        NamespaceChunk::Exact(String::from_str(seg))
    }
}

proof fn lemma_split_step(s: Seq<char>, i: int, start: int)
    requires
        0 <= start <= i < s.len(),
        !(i + 1 < s.len() && s[i] == ':' && s[i + 1] == ':'),
    ensures
        split_segments(s.subrange(i, s.len() as int), s.subrange(start, i)) == split_segments(
            s.subrange(i + 1, s.len() as int),
            s.subrange(start, i + 1),
        ),
{
    let rest = s.subrange(i, s.len() as int);
    assert(rest.drop_first() =~= s.subrange(i + 1, s.len() as int));
    assert(s.subrange(start, i).push(rest[0]) =~= s.subrange(start, i + 1));
}

proof fn lemma_split_sep(s: Seq<char>, i: int, start: int)
    requires
        0 <= start <= i,
        i + 1 < s.len(),
        s[i] == ':',
        s[i + 1] == ':',
    ensures
        split_segments(s.subrange(i, s.len() as int), s.subrange(start, i)) == flush(
            s.subrange(start, i),
        ) + split_segments(s.subrange(i + 2, s.len() as int), s.subrange(i + 2, i + 2)),
{
    let rest = s.subrange(i, s.len() as int);
    assert(rest.subrange(2, rest.len() as int) =~= s.subrange(i + 2, s.len() as int));
    assert(s.subrange(i + 2, i + 2) =~= Seq::<char>::empty());
}

impl Namespace {
    /// Reads a pattern written as a path: parts separated by `::`, empty
    /// parts ignored, `*` and `**` read as globs.
    pub fn parse(s: &str) -> (r: Namespace)
        ensures
            r.chunks.len() == split_segments(s@, Seq::empty()).len(),
            forall|k: int|
                0 <= k < r.chunks.len() ==> chunk_reads(
                    #[trigger] r.chunks@[k],
                    split_segments(s@, Seq::empty())[k],
                ),
    {
        let n = s.unicode_len();
        let ghost all = split_segments(s@, Seq::empty());
        let mut chunks: Vec<NamespaceChunk> = Vec::new();
        let mut start: usize = 0;
        let mut i: usize = 0;
        proof {
            assert(s@.subrange(0, n as int) =~= s@);
            assert(s@.subrange(0, 0) =~= Seq::<char>::empty());
        }
        while i < n
            invariant
                n == s@.len(),
                start <= i <= n,
                chunks.len() <= all.len(),
                all == Seq::new(chunks.len() as nat, |k: int| all[k]) + split_segments(
                    s@.subrange(i as int, n as int),
                    s@.subrange(start as int, i as int),
                ),
                forall|k: int| 0 <= k < chunks.len() ==> chunk_reads(#[trigger] chunks@[k], all[k]),
            decreases n - i,
        {
            if i + 1 < n && s.get_char(i) == ':' && s.get_char(i + 1) == ':' {
                proof {
                    lemma_split_sep(s@, i as int, start as int);
                }
                let ghost before = chunks.len();
                if start < i {
                    let seg = s.substring_char(start, i);
                    let c = chunk_of_segment(seg);
                    chunks.push(c);
                    proof {
                        let pre = Seq::new(before as nat, |k: int| all[k]);
                        let tail = split_segments(
                            s@.subrange(i + 2, n as int),
                            s@.subrange(i + 2, i + 2),
                        );
                        assert(all == pre + (seq![s@.subrange(start as int, i as int)] + tail));
                        assert(all[before as int] == s@.subrange(start as int, i as int)) by {
                            assert((pre + (seq![s@.subrange(start as int, i as int)] + tail))[before as int]
                                == s@.subrange(start as int, i as int));
                        }
                        assert(all =~= Seq::new(chunks.len() as nat, |k: int| all[k]) + tail) by {
                            assert forall|k: int| 0 <= k < all.len() implies all[k] == (Seq::new(
                                chunks.len() as nat,
                                |k: int| all[k],
                            ) + tail)[k] by {
                                if k > before {
                                    assert(all[k] == (pre + (seq![s@.subrange(start as int, i as int)] + tail))[k]);
                                }
                            }
                        }
                    }
                } else {
                    proof {
                        assert(flush(s@.subrange(start as int, i as int)) =~= Seq::<Seq<char>>::empty());
                        let tail = split_segments(
                            s@.subrange(i + 2, n as int),
                            s@.subrange(i + 2, i + 2),
                        );
                        assert(Seq::<Seq<char>>::empty() + tail =~= tail);
                    }
                }
                i = i + 2;
                start = i;
            } else {
                proof {
                    lemma_split_step(s@, i as int, start as int);
                }
                i = i + 1;
            }
        }
        proof {
            assert(s@.subrange(n as int, n as int) =~= Seq::<char>::empty());
        }
        let ghost before = chunks.len();
        if start < n {
            let seg = s.substring_char(start, n);
            let c = chunk_of_segment(seg);
            chunks.push(c);
            proof {
                let pre = Seq::new(before as nat, |k: int| all[k]);
                assert(all == pre + seq![s@.subrange(start as int, n as int)]);
                assert(all[before as int] == s@.subrange(start as int, n as int));
            }
        } else {
            proof {
                let pre = Seq::new(before as nat, |k: int| all[k]);
                assert(all =~= pre + Seq::<Seq<char>>::empty());
            }
        }
        Namespace { chunks }
    }
}

} // verus!
