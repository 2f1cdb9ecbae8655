//! Rendering: the markdown conversion and the binder that turns markup
//! plus resolved links into the interactive surface.

use vstd::prelude::*;
use vstd::string::*;
use crate::link::{ContentAddress, ResolvedLink};
use crate::wikilink::{
    extract, extract_from, find_close, lemma_find_close_bounds, opens_at, spans_of, LinkSpan,
};

verus! {

/// The markup that the markdown converter produces for a given text.
pub uninterp spec fn html_of(s: Seq<char>) -> Seq<char>;

/// Relies on `markdown::to_html`: converts markdown text to html markup,
/// the result a function of the input text alone, with no options and no
/// failure path.
#[verifier::external_body]
pub(crate) fn render_markdown(content: &str) -> (r: String)
    ensures
        r@ == html_of(content@),
{
    markdown::to_html(content)
}

/// One piece of the interactive surface, in display order.
#[derive(Debug)]
pub enum Segment {
    /// Markup shown as it stands.
    Text { markup: String },
    /// The widget standing in for one wikilink: a label, and the address
    /// its activation navigates to. A widget without an address is
    /// disabled from the moment of rendering and never activates.
    Widget { label: String, target: Option<ContentAddress> },
}

impl Segment {
    /// Activation is possible exactly when the widget carries an address.
    pub open spec fn activatable(&self) -> bool {
        match *self {
            Segment::Widget { target: Some(_), .. } => true,
            _ => false,
        }
    }
}

/// Extracted spans are in bounds, at least four characters wide, ordered
/// left to right without overlap, and each body is the text between its
/// delimiters.
pub proof fn lemma_extract_wf(s: Seq<char>, i: int)
    requires
        0 <= i,
    ensures
        forall|k: int|
            0 <= k < extract_from(s, i).len() ==> {
                let m = #[trigger] extract_from(s, i)[k];
                i <= m.0 && m.0 + 4 <= m.1 && m.1 <= s.len() && m.2 == s.subrange(
                    m.0 + 2,
                    m.1 - 2,
                )
            },
        forall|k: int|
            0 <= k < extract_from(s, i).len() - 1 ==> (#[trigger] extract_from(s, i)[k]).1
                <= extract_from(s, i)[k + 1].0,
    decreases s.len() - i,
{
    if i + 4 > s.len() {
    } else if opens_at(s, i) && find_close(s, i + 2) is Some {
        let j = find_close(s, i + 2)->Some_0;
        lemma_find_close_bounds(s, i + 2);
        lemma_extract_wf(s, j + 2);
        assert(extract_from(s, i) == seq![(i, j + 2, s.subrange(i + 2, j))] + extract_from(
            s,
            j + 2,
        ));
        assert forall|k: int| 0 <= k < extract_from(s, i).len() implies {
            let m = #[trigger] extract_from(s, i)[k];
            i <= m.0 && m.0 + 4 <= m.1 && m.1 <= s.len() && m.2 == s.subrange(m.0 + 2, m.1 - 2)
        } by {
            if k > 0 {
                assert(extract_from(s, i)[k] == extract_from(s, j + 2)[k - 1]);
                assert(j + 2 <= extract_from(s, j + 2)[k - 1].0);
            }
        }
        assert forall|k: int| 0 <= k < extract_from(s, i).len() - 1 implies (
        #[trigger] extract_from(s, i)[k]).1 <= extract_from(s, i)[k + 1].0 by {
            assert(extract_from(s, i)[k + 1] == extract_from(s, j + 2)[k]);
            assert(j + 2 <= extract_from(s, j + 2)[k].0);
            if k > 0 {
                assert(extract_from(s, i)[k] == extract_from(s, j + 2)[k - 1]);
                assert(extract_from(s, j + 2)[k - 1].1 <= extract_from(s, j + 2)[k].0);
            }
        }
    } else {
        lemma_extract_wf(s, i + 1);
        assert(extract_from(s, i) == extract_from(s, i + 1));
        assert forall|k: int| 0 <= k < extract_from(s, i).len() implies {
            let m = #[trigger] extract_from(s, i)[k];
            i <= m.0 && m.0 + 4 <= m.1 && m.1 <= s.len() && m.2 == s.subrange(m.0 + 2, m.1 - 2)
        } by {
            assert(extract_from(s, i)[k] == extract_from(s, i + 1)[k]);
            assert(i + 1 <= extract_from(s, i + 1)[k].0);
        }
        assert forall|k: int| 0 <= k < extract_from(s, i).len() - 1 implies (
        #[trigger] extract_from(s, i)[k]).1 <= extract_from(s, i)[k + 1].0 by {
            assert(extract_from(s, i + 1)[k].1 <= extract_from(s, i + 1)[k + 1].0);
        }
    }
}

/// Replace each extracted wikilink span of `markup`, in order, with a
/// widget for the positionally corresponding resolved link, keeping the
/// text between spans as it stands. A widget's label is its link's
/// display text; its target is its link's address, so a link whose key
/// resolved to nothing yields a widget that can never activate.
pub fn bind(markup: &str, links: &Vec<ResolvedLink>) -> (out: Vec<Segment>)
    requires
        links@.len() == extract_from(markup@, 0).len(),
    ensures
        out@.len() == 2 * links@.len() + 1,
        forall|k: int|
            #![trigger out@[2 * k]]
            0 <= k < links@.len() ==> (out@[2 * k] matches Segment::Text { markup: t } && t@
                == markup@.subrange(
                if k == 0 {
                    0int
                } else {
                    extract_from(markup@, 0)[k - 1].1
                },
                extract_from(markup@, 0)[k].0,
            )),
        forall|k: int|
            #![trigger out@[2 * k + 1]]
            0 <= k < links@.len() ==> (out@[2 * k + 1] matches Segment::Widget { label, target }
                && label@ == links@[k].link.display_text@ && (match (target, links@[k].address) {
                (Some(a), Some(b)) => a@ == b@,
                (None, None) => true,
                _ => false,
            })),
        forall|k: int|
            #![trigger links@[k].address]
            0 <= k < links@.len() ==> (out@[2 * k + 1].activatable() <==> links@[k].address
                is Some),
        (out@[2 * links@.len() as int] matches Segment::Text { markup: t } && t@
            == markup@.subrange(
            if links@.len() == 0 {
                0int
            } else {
                extract_from(markup@, 0)[links@.len() - 1].1
            },
            markup@.len() as int,
        )),
{
    let spans = extract(markup);
    let n = markup.unicode_len();
    let mut out: Vec<Segment> = Vec::new();
    let mut pos: usize = 0;
    let mut k: usize = 0;
    while k < spans.len()
        invariant
            spans_of(spans@) == extract_from(markup@, 0),
            links@.len() == spans@.len(),
            k <= spans@.len(),
            n == markup@.len(),
            pos as int == if k == 0 {
                0int
            } else {
                extract_from(markup@, 0)[k as int - 1].1
            },
            pos <= n,
            out@.len() == 2 * k,
            forall|q: int|
                #![trigger out@[2 * q]]
                0 <= q < k ==> (out@[2 * q] matches Segment::Text { markup: t } && t@
                    == markup@.subrange(
                    if q == 0 {
                        0int
                    } else {
                        extract_from(markup@, 0)[q - 1].1
                    },
                    extract_from(markup@, 0)[q].0,
                )),
            forall|q: int|
                #![trigger out@[2 * q + 1]]
                0 <= q < k ==> (out@[2 * q + 1] matches Segment::Widget { label, target } && label@
                    == links@[q].link.display_text@ && (match (target, links@[q].address) {
                    (Some(a), Some(b)) => a@ == b@,
                    (None, None) => true,
                    _ => false,
                })),
        decreases spans@.len() - k,
    {
        proof {
            lemma_extract_wf(markup@, 0);
            assert(spans_of(spans@)[k as int] == spans@[k as int].span_view());
            assert(extract_from(markup@, 0)[k as int].0 + 4 <= extract_from(markup@, 0)[
                k as int].1);
            if k > 0 {
                assert(extract_from(markup@, 0)[k as int - 1].1 <= extract_from(markup@, 0)[
                    k as int].0);
            }
        }
        let sp_start = spans[k].start;
        let sp_end = spans[k].end;
        let gap = markup.substring_char(pos, sp_start).to_owned();
        out.push(Segment::Text { markup: gap });
        let rl = &links[k];
        let label = rl.link.display_text.clone();
        let target = match &rl.address {
            Some(a) => Some(a.duplicate()),
            None => None,
        };
        out.push(Segment::Widget { label, target });
        pos = sp_end;
        k += 1;
    }
    proof {
        lemma_extract_wf(markup@, 0);
    }
    let tail = markup.substring_char(pos, n).to_owned();
    out.push(Segment::Text { markup: tail });
    out
}

} // verus!
