//! Wikilink values: content addresses, parsed links, and the body splitter.

use vstd::prelude::*;
use vstd::string::*;

verus! {

/// An opaque content identifier used to fetch a note's raw text from a
/// content-addressed store. No validation happens at construction; an
/// invalid address can only fail at fetch time, outside this crate.
#[derive(Debug)]
pub struct ContentAddress {
    id: String,
}

impl View for ContentAddress {
    type V = Seq<char>;

    closed spec fn view(&self) -> Seq<char> {
        self.id@
    }
}

impl ContentAddress {
    pub fn new(id: String) -> (a: ContentAddress)
        ensures
            a@ == id@,
    {
        ContentAddress { id }
    }

    /// The identifier as text, for building a fetch request.
    pub fn as_text(&self) -> (s: &str)
        ensures
            s@ == self@,
    {
        self.id.as_str()
    }

    /// A copy with the same identifier.
    pub fn duplicate(&self) -> (a: ContentAddress)
        ensures
            a@ == self@,
    {
        ContentAddress { id: self.id.clone() }
    }
}

/// A wikilink body split into the text to show and the key to look up.
#[derive(Debug)]
pub struct ParsedLink {
    pub display_text: String,
    pub key: String,
}

/// A parsed link together with the outcome of looking its key up in the
/// vault's table: no address means the key has no entry there, and the
/// link must never become activatable.
#[derive(Debug)]
pub struct ResolvedLink {
    pub link: ParsedLink,
    pub address: Option<ContentAddress>,
}

impl ResolvedLink {
    /// The address as a character sequence, when there is one.
    pub open spec fn address_view(&self) -> Option<Seq<char>> {
        match self.address {
            Some(a) => Some(a@),
            None => None,
        }
    }
}

/// Index of the first `|` in `b`, scanning from position `i`.
pub open spec fn find_bar(b: Seq<char>, i: int) -> Option<int>
    decreases b.len() - i,
{
    if i < 0 || i >= b.len() {
        None
    } else if b[i] == '|' {
        Some(i)
    } else {
        find_bar(b, i + 1)
    }
}

/// The key part of a wikilink body: everything before the first `|`,
/// or the whole body when there is none.
pub open spec fn key_of(b: Seq<char>) -> Seq<char> {
    match find_bar(b, 0) {
        Some(i) => b.subrange(0, i),
        None => b,
    }
}

/// The display part of a wikilink body: everything after the first `|`,
/// or the whole body when there is none.
pub open spec fn display_of(b: Seq<char>) -> Seq<char> {
    match find_bar(b, 0) {
        Some(i) => b.subrange(i + 1, b.len() as int),
        None => b,
    }
}

proof fn lemma_find_bar_props(b: Seq<char>, i: int)
    requires
        0 <= i <= b.len(),
    ensures
        match find_bar(b, i) {
            Some(j) => i <= j < b.len() && b[j] == '|' && (forall|k: int|
                i <= k < j ==> b[k] != '|'),
            None => forall|k: int| i <= k < b.len() ==> b[k] != '|',
        },
    decreases b.len() - i,
{
    if i < b.len() && b[i] != '|' {
        lemma_find_bar_props(b, i + 1);
    }
}

/// Split a wikilink body on its first `|`. With no separator the display
/// text and the key are both the whole body; with one, the key is what
/// stands before it and the display text what stands after, further `|`
/// characters folding into the display text.
pub fn split(b: &str) -> (p: ParsedLink)
    ensures
        p.key@ == key_of(b@),
        p.display_text@ == display_of(b@),
        (forall|i: int| 0 <= i < b@.len() ==> b@[i] != '|') ==> p.key@ == b@
            && p.display_text@ == b@,
        forall|i: int|
            0 <= i < b@.len() && b@[i] == '|' && (forall|k: int| 0 <= k < i ==> b@[k] != '|')
                ==> p.key@ == b@.subrange(0, i) && p.display_text@ == b@.subrange(
                i + 1,
                b@.len() as int,
            ),
{
    let n = b.unicode_len();
    let mut i: usize = 0;
    while i < n
        invariant
            0 <= i <= n,
            n == b@.len(),
            forall|k: int| 0 <= k < i ==> b@[k] != '|',
        decreases n - i,
    {
        if b.get_char(i) == '|' {
            proof {
                lemma_find_bar_from(b@, 0, i as int);
            }
            let key = b.substring_char(0, i).to_owned();
            let display_text = b.substring_char(i + 1, n).to_owned();
            proof {
                lemma_find_bar_props(b@, 0);
            }
            return ParsedLink { display_text, key };
        }
        i += 1;
    }
    proof {
        lemma_find_bar_none(b@, 0);
        lemma_find_bar_props(b@, 0);
    }
    let key = b.to_owned();
    let display_text = b.to_owned();
    ParsedLink { display_text, key }
}

/// If everything before `j` is not `|` and `b[j]` is, the first `|` from
/// `i` is at `j`.
proof fn lemma_find_bar_from(b: Seq<char>, i: int, j: int)
    requires
        0 <= i <= j < b.len(),
        b[j] == '|',
        forall|k: int| i <= k < j ==> b[k] != '|',
    ensures
        find_bar(b, i) == Some(j),
    decreases j - i,
{
    if i < j {
        lemma_find_bar_from(b, i + 1, j);
    }
}

/// With no `|` anywhere from `i` on, there is no first `|`.
proof fn lemma_find_bar_none(b: Seq<char>, i: int)
    requires
        0 <= i,
        forall|k: int| i <= k < b.len() ==> b[k] != '|',
    ensures
        find_bar(b, i) is None,
    decreases b.len() - i,
{
    if i < b.len() {
        lemma_find_bar_none(b, i + 1);
    }
}

} // verus!
