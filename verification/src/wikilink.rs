//! Wikilink extraction: scanning rendered markup for `[[...]]` spans.

use vstd::prelude::*;
use vstd::string::*;

verus! {

/// One wikilink occurrence in markup: the span `[start, end)` in
/// character positions, delimiters included, and the body between the
/// delimiters.
#[derive(Debug)]
pub struct LinkSpan {
    pub start: usize,
    pub end: usize,
    pub body: String,
}

impl LinkSpan {
    /// The span as plain values: start, end, and the body's characters.
    pub open spec fn span_view(&self) -> (int, int, Seq<char>) {
        (self.start as int, self.end as int, self.body@)
    }
}

/// A `[[` stands at position `i` of `s`.
pub open spec fn opens_at(s: Seq<char>, i: int) -> bool {
    0 <= i && i + 2 <= s.len() && s[i] == '[' && s[i + 1] == '['
}

/// Position of the first `]]` at or after `k`, provided no newline comes
/// first: a wikilink body never spans lines.
pub open spec fn find_close(s: Seq<char>, k: int) -> Option<int>
    decreases s.len() - k,
{
    if k < 0 || k + 2 > s.len() {
        None
    } else if s[k] == ']' && s[k + 1] == ']' {
        Some(k)
    } else if s[k] == '\n' {
        None
    } else {
        find_close(s, k + 1)
    }
}

/// A found `]]` lies between `k` and the end of `s`.
pub(crate) proof fn lemma_find_close_bounds(s: Seq<char>, k: int)
    ensures
        find_close(s, k) matches Some(j) ==> k <= j && j + 2 <= s.len(),
    decreases s.len() - k,
{
    if !(k < 0 || k + 2 > s.len()) && !(s[k] == ']' && s[k + 1] == ']') && s[k] != '\n' {
        lemma_find_close_bounds(s, k + 1);
    }
}

/// Every wikilink span of `s` from position `i` on, in order of
/// appearance. At each `[[` whose body closes on the same line, the
/// match runs to just past the first `]]`, and scanning resumes there;
/// everywhere else scanning advances one position.
pub open spec fn extract_from(s: Seq<char>, i: int) -> Seq<(int, int, Seq<char>)>
    decreases s.len() - i,
    via extract_from_decreases
{
    if i < 0 || i + 4 > s.len() {
        Seq::empty()
    } else if opens_at(s, i) {
        match find_close(s, i + 2) {
            Some(j) => seq![(i, j + 2, s.subrange(i + 2, j))] + extract_from(s, j + 2),
            None => extract_from(s, i + 1),
        }
    } else {
        extract_from(s, i + 1)
    }
}

#[via_fn]
proof fn extract_from_decreases(s: Seq<char>, i: int) {
    lemma_find_close_bounds(s, i + 2);
}

/// The spans a vector of extracted links describes.
pub open spec fn spans_of(v: Seq<LinkSpan>) -> Seq<(int, int, Seq<char>)> {
    v.map_values(|l: LinkSpan| l.span_view())
}

/// The bodies alone, in order of appearance.
pub open spec fn bodies_of(s: Seq<char>) -> Seq<Seq<char>> {
    extract_from(s, 0).map_values(|m: (int, int, Seq<char>)| m.2)
}

/// Plain text that cannot open a wikilink: no `[[` inside and, so that
/// none opens across its right edge either, not ending in `[`.
pub open spec fn never_opens(t: Seq<char>) -> bool {
    &&& forall|i: int|
        #![trigger t[i]]
        0 <= i && i + 1 < t.len() ==> !(t[i] == '[' && t[i + 1] == '[')
    &&& t.len() > 0 ==> t[t.len() - 1] != '['
}

/// A body whose bracket pair closes exactly at its right edge: one
/// line, no `]]` inside, and not ending in `]`.
pub open spec fn plain_body(b: Seq<char>) -> bool {
    &&& forall|i: int|
        #![trigger b[i]]
        0 <= i && i + 1 < b.len() ==> !(b[i] == ']' && b[i + 1] == ']')
    &&& forall|i: int| 0 <= i < b.len() ==> b[i] != '\n'
    &&& b.len() > 0 ==> b[b.len() - 1] != ']'
}

/// Markup assembled from bracket pairs: each part is a gap of plain
/// text followed by one `[[body]]`, and `tail` closes the markup.
pub open spec fn assemble(parts: Seq<(Seq<char>, Seq<char>)>, tail: Seq<char>) -> Seq<char>
    decreases parts.len(),
{
    if parts.len() == 0 {
        tail
    } else {
        parts[0].0 + seq!['[', '['] + parts[0].1 + seq![']', ']'] + assemble(
            parts.drop_first(),
            tail,
        )
    }
}

/// Scanning a stretch where nothing opens finds the same matches as
/// starting after it.
proof fn lemma_skip_region(s: Seq<char>, p: int, q: int)
    requires
        0 <= p <= q <= s.len(),
        forall|i: int| p <= i < q ==> !opens_at(s, i),
    ensures
        extract_from(s, p) == extract_from(s, q),
    decreases q - p,
{
    if p < q && p + 4 <= s.len() {
        lemma_skip_region(s, p + 1, q);
    }
}

/// The first `]]` after a plain stretch that `]]` closes is that one.
proof fn lemma_close_after_body(s: Seq<char>, k: int, j: int)
    requires
        0 <= k <= j,
        j + 2 <= s.len(),
        s[j] == ']',
        s[j + 1] == ']',
        forall|i: int| #![trigger s[i]] k <= i < j ==> s[i] != '\n' && !(s[i] == ']' && s[i + 1]
            == ']'),
    ensures
        find_close(s, k) == Some(j),
    decreases j - k,
{
    if k < j {
        lemma_close_after_body(s, k + 1, j);
    }
}

/// Extraction from position `p` of markup whose remainder is assembled
/// from `parts`: one match per part, in order, each carrying its body.
proof fn lemma_assembled_from(
    s: Seq<char>,
    p: int,
    parts: Seq<(Seq<char>, Seq<char>)>,
    tail: Seq<char>,
)
    requires
        0 <= p <= s.len(),
        s.skip(p) == assemble(parts, tail),
        forall|n: int|
            0 <= n < parts.len() ==> never_opens((#[trigger] parts[n]).0) && plain_body(
                parts[n].1,
            ),
        never_opens(tail),
    ensures
        extract_from(s, p).len() == parts.len(),
        forall|n: int|
            0 <= n < parts.len() ==> (#[trigger] extract_from(s, p)[n]).2 == parts[n].1,
    decreases parts.len(),
{
    if parts.len() == 0 {
        assert forall|i: int| p <= i < s.len() implies !opens_at(s, i) by {
            if i + 2 <= s.len() {
                assert(s[i] == s.skip(p)[i - p]);
                assert(s[i + 1] == s.skip(p)[i - p + 1]);
            }
        }
        lemma_skip_region(s, p, s.len() as int);
    } else {
        let g = parts[0].0;
        let b = parts[0].1;
        let rest = assemble(parts.drop_first(), tail);
        let p1 = p + g.len();
        let p2 = p1 + 2;
        let j = p2 + b.len();
        let p3 = j + 2;
        let u = s.skip(p);
        assert(u == g + seq!['[', '['] + b + seq![']', ']'] + rest);
        assert(u.len() == g.len() + 2 + b.len() + 2 + rest.len());
        assert(p3 <= s.len());
        assert forall|r: int| 0 <= r < u.len() implies s[p + r] == u[r] by {}
        assert forall|r: int| 0 <= r < u.len() implies u[r] == (if r < g.len() {
            g[r]
        } else if r < g.len() + 2 {
            '['
        } else if r < g.len() + 2 + b.len() {
            b[r - g.len() - 2]
        } else if r < g.len() + 4 + b.len() {
            ']'
        } else {
            rest[r - g.len() - b.len() - 4]
        }) by {
            assert((g + seq!['[', '['] + b + seq![']', ']'] + rest)[r] == (if r < (g + seq![
                '[',
                '[',
            ] + b + seq![']', ']']).len() {
                (g + seq!['[', '['] + b + seq![']', ']'])[r]
            } else {
                rest[r - (g + seq!['[', '['] + b + seq![']', ']']).len()]
            }));
        }
        assert(s[p1] == u[g.len() as int]);
        assert(s[p1 + 1] == u[g.len() as int + 1]);
        assert(s[j] == u[g.len() as int + 2 + b.len() as int]);
        assert(s[j + 1] == u[g.len() as int + 3 + b.len() as int]);
        assert forall|i: int| p <= i < p1 implies !opens_at(s, i) by {
            assert(s[i] == u[i - p]);
            if i < p1 - 1 {
                assert(s[i + 1] == u[i - p + 1]);
            } else {
                assert(u[i - p] == g[g.len() - 1]);
            }
        }
        lemma_skip_region(s, p, p1);
        assert(opens_at(s, p1));
        assert forall|i: int| #![trigger s[i]] p2 <= i < j implies s[i] != '\n' && !(s[i] == ']'
            && s[i + 1] == ']') by {
            assert(s[i] == u[i - p]);
            if i < j - 1 {
                assert(s[i + 1] == u[i - p + 1]);
            } else {
                assert(u[i - p] == b[b.len() - 1]);
            }
        }
        lemma_close_after_body(s, p2, j);
        assert(extract_from(s, p1) == seq![(p1, j + 2, s.subrange(p2, j))] + extract_from(s, p3));
        assert forall|x: int| 0 <= x < b.len() implies s.subrange(p2, j)[x] == b[x] by {
            assert(s[p2 + x] == u[g.len() + 2 + x]);
        }
        assert(s.subrange(p2, j) =~= b);
        assert forall|x: int| 0 <= x < rest.len() implies s.skip(p3)[x] == rest[x] by {
            assert(s.skip(p3)[x] == s[p3 + x]);
            assert(s[p3 + x] == u[g.len() + 4 + b.len() + x]);
        }
        assert(s.skip(p3) =~= rest);
        assert forall|n: int|
            0 <= n < parts.drop_first().len() implies never_opens(
            (#[trigger] parts.drop_first()[n]).0,
        ) && plain_body(parts.drop_first()[n].1) by {
            assert(parts.drop_first()[n] == parts[n + 1]);
        }
        lemma_assembled_from(s, p3, parts.drop_first(), tail);
        assert forall|n: int| 0 <= n < parts.len() implies (#[trigger] extract_from(s, p)[n]).2
            == parts[n].1 by {
            if n == 0 {
                assert(extract_from(s, p)[0] == (p1, j + 2, s.subrange(p2, j)));
            } else {
                assert(extract_from(s, p)[n] == extract_from(s, p3)[n - 1]);
                assert(extract_from(s, p3)[n - 1].2 == parts.drop_first()[n - 1].1);
                assert(parts.drop_first()[n - 1] == parts[n]);
            }
        }
    }
}

/// Markup assembled as a row of well-delimited, non-overlapping bracket
/// pairs with plain text between yields exactly one match per pair, in
/// left-to-right order of appearance: match `n` carries body `n`.
pub proof fn lemma_extract_assembled(parts: Seq<(Seq<char>, Seq<char>)>, tail: Seq<char>)
    requires
        forall|n: int|
            0 <= n < parts.len() ==> never_opens((#[trigger] parts[n]).0) && plain_body(
                parts[n].1,
            ),
        never_opens(tail),
    ensures
        extract_from(assemble(parts, tail), 0).len() == parts.len(),
        forall|n: int|
            0 <= n < parts.len() ==> (#[trigger] extract_from(assemble(parts, tail), 0)[n]).2
                == parts[n].1,
{
    let s = assemble(parts, tail);
    assert(s.skip(0) =~= s);
    lemma_assembled_from(s, 0, parts, tail);
}

/// Scan for the `]]` that closes a body starting at `k`, stopping at a
/// newline or the end of the markup.
fn find_close_in(s: &str, n: usize, k: usize) -> (r: Option<usize>)
    requires
        n == s@.len(),
        k <= n,
    ensures
        match r {
            Some(j) => find_close(s@, k as int) == Some(j as int) && k <= j && j + 2 <= n,
            None => find_close(s@, k as int) is None,
        },
{
    let mut m: usize = k;
    loop
        invariant
            k <= m <= n,
            n == s@.len(),
            find_close(s@, k as int) == find_close(s@, m as int),
        decreases n - m,
    {
        if n - m < 2 {
            return None;
        }
        let c0 = s.get_char(m);
        if c0 == ']' && s.get_char(m + 1) == ']' {
            return Some(m);
        }
        if c0 == '\n' {
            return None;
        }
        m += 1;
    }
}

/// Extract every wikilink span of `markup`, left to right and
/// non-overlapping, empty bodies allowed. Purely syntactic: nothing is
/// resolved or validated here.
pub fn extract(markup: &str) -> (out: Vec<LinkSpan>)
    ensures
        spans_of(out@) == extract_from(markup@, 0),
{
    let n = markup.unicode_len();
    let mut out: Vec<LinkSpan> = Vec::new();
    let mut i: usize = 0;
    while n - i >= 4
        invariant
            i <= n,
            n == markup@.len(),
            spans_of(out@) + extract_from(markup@, i as int) == extract_from(markup@, 0),
        decreases n - i,
    {
        if markup.get_char(i) == '[' && markup.get_char(i + 1) == '[' {
            match find_close_in(markup, n, i + 2) {
                Some(j) => {
                    let ghost prev = out@;
                    let body = markup.substring_char(i + 2, j).to_owned();
                    let span = LinkSpan { start: i, end: j + 2, body };
                    out.push(span);
                    proof {
                        assert(spans_of(out@) =~= spans_of(prev) + seq![span.span_view()]);
                        assert(extract_from(markup@, i as int) == seq![span.span_view()]
                            + extract_from(markup@, j as int + 2));
                    }
                    i = j + 2;
                },
                None => {
                    proof {
                        assert(extract_from(markup@, i as int) == extract_from(
                            markup@,
                            i as int + 1,
                        ));
                    }
                    i += 1;
                },
            }
        } else {
            proof {
                assert(!opens_at(markup@, i as int));
                assert(extract_from(markup@, i as int) == extract_from(markup@, i as int + 1));
            }
            i += 1;
        }
    }
    proof {
        assert(extract_from(markup@, i as int) =~= Seq::<(int, int, Seq<char>)>::empty());
        assert(spans_of(out@) =~= extract_from(markup@, 0));
    }
    out
}

} // verus!
