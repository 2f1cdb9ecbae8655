//! The vault descriptor — a parsed manifest — and key resolution.

use vstd::prelude::*;
use crate::link::{ContentAddress, ParsedLink, ResolvedLink};

verus! {

/// A parsed manifest: the root note's key, the author, and the table
/// associating note keys with content addresses. Built once per
/// successful manifest fetch and immutable afterwards.
#[derive(Debug)]
pub struct VaultDescriptor {
    pub root: String,
    pub author: String,
    pub links: Vec<(String, ContentAddress)>,
}

/// The association table as a map, built left to right: on duplicate
/// keys the later entry wins.
pub open spec fn table_of(pairs: Seq<(String, ContentAddress)>) -> Map<Seq<char>, Seq<char>>
    decreases pairs.len(),
{
    if pairs.len() == 0 {
        Map::<Seq<char>, Seq<char>>::empty()
    } else {
        table_of(pairs.drop_last()).insert(pairs.last().0@, pairs.last().1@)
    }
}

/// An entry that no later entry shadows decides the table's value at
/// its key.
proof fn lemma_table_found(pairs: Seq<(String, ContentAddress)>, i: int, key: Seq<char>)
    requires
        0 <= i < pairs.len(),
        pairs[i].0@ == key,
        forall|j: int| i < j < pairs.len() ==> pairs[j].0@ != key,
    ensures
        table_of(pairs).contains_key(key),
        table_of(pairs)[key] == pairs[i].1@,
    decreases pairs.len(),
{
    if i < pairs.len() - 1 {
        lemma_table_found(pairs.drop_last(), i, key);
    }
}

/// A key on no entry at all is not in the table.
proof fn lemma_table_absent(pairs: Seq<(String, ContentAddress)>, key: Seq<char>)
    requires
        forall|j: int| 0 <= j < pairs.len() ==> pairs[j].0@ != key,
    ensures
        !table_of(pairs).contains_key(key),
    decreases pairs.len(),
{
    if pairs.len() > 0 {
        lemma_table_absent(pairs.drop_last(), key);
    }
}

impl VaultDescriptor {
    /// The association table this descriptor holds.
    pub open spec fn table(&self) -> Map<Seq<char>, Seq<char>> {
        table_of(self.links@)
    }

    pub fn new(root: String, author: String, links: Vec<(String, ContentAddress)>) -> (v:
        VaultDescriptor)
        ensures
            v.root@ == root@,
            v.author@ == author@,
            v.links@ == links@,
    {
        VaultDescriptor { root, author, links }
    }

    /// The address associated with `key`, the last entry winning on
    /// duplicate keys; nothing when the key has no entry.
    pub fn lookup(&self, key: &String) -> (r: Option<&ContentAddress>)
        ensures
            match r {
                Some(a) => self.table().contains_key(key@) && a@ == self.table()[key@],
                None => !self.table().contains_key(key@),
            },
    {
        let n = self.links.len();
        let mut i: usize = n;
        while i > 0
            invariant
                i <= n,
                n == self.links@.len(),
                forall|j: int| i <= j < n ==> self.links@[j].0@ != key@,
            decreases i,
        {
            i -= 1;
            if self.links[i].0 == *key {
                proof {
                    lemma_table_found(self.links@, i as int, key@);
                }
                return Some(&self.links[i].1);
            }
        }
        proof {
            lemma_table_absent(self.links@, key@);
        }
        None
    }
}

/// What resolving a key against a table yields: the table's address when
/// the key has an entry, nothing otherwise.
pub open spec fn resolution_of(table: Map<Seq<char>, Seq<char>>, key: Seq<char>) -> Option<
    Seq<char>,
> {
    if table.contains_key(key) {
        Some(table[key])
    } else {
        None
    }
}

/// Resolve a parsed link against the vault's table. Resolution never
/// fails: a key without an entry yields a link with no address, which
/// renders disabled rather than erroring.
pub fn resolve(link: ParsedLink, vault: &VaultDescriptor) -> (r: ResolvedLink)
    ensures
        r.link.key@ == link.key@,
        r.link.display_text@ == link.display_text@,
        r.address_view() == resolution_of(vault.table(), link.key@),
{
    let address = match vault.lookup(&link.key) {
        Some(a) => Some(a.duplicate()),
        None => None,
    };
    ResolvedLink { link, address }
}

} // verus!
