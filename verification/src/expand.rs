//! The expansion of the configured directories by their subdirectories.

use vstd::prelude::*;
use crate::config::{any_within, should_ignore};
use crate::text::texts;

verus! {

/// One entry of a directory, as found on disk.
#[derive(Debug, Clone)]
pub struct DirectoryEntry {
    /// The entry's path.
    pub path: String,
    /// Whether the entry is a directory.
    pub is_dir: bool,
}

/// One configured path, as found on disk.
#[derive(Debug, Clone)]
pub struct DirectoryListing {
    /// The configured path.
    pub path: String,
    /// Whether the path is a directory.
    pub is_dir: bool,
    /// The entries of the directory, in the order in which it was read.
    pub entries: Vec<DirectoryEntry>,
}

/// Whether a path is expanded or listed: it is a directory that nothing in
/// `ignore` rules out.
pub open spec fn admitted(path: Seq<char>, is_dir: bool, ignore: Seq<Seq<char>>) -> bool {
    is_dir && !any_within(path, ignore)
}

/// The admitted entries among `entries`, in their order.
pub open spec fn admitted_entries(entries: Seq<DirectoryEntry>, ignore: Seq<Seq<char>>) -> Seq<
    Seq<char>,
>
    decreases entries.len(),
{
    if entries.len() == 0 {
        Seq::empty()
    } else {
        let init = admitted_entries(entries.drop_last(), ignore);
        if admitted(entries.last().path@, entries.last().is_dir, ignore) {
            init.push(entries.last().path@)
        } else {
            init
        }
    }
}

/// What one configured path gives: itself and its admitted entries where
/// it is admitted, and nothing where it is not.
pub open spec fn expansion_of(listing: DirectoryListing, ignore: Seq<Seq<char>>) -> Seq<
    Seq<char>,
> {
    if admitted(listing.path@, listing.is_dir, ignore) {
        seq![listing.path@] + admitted_entries(listing.entries@, ignore)
    } else {
        Seq::empty()
    }
}

/// What the configured paths give, one after the other.
pub open spec fn expansion(listings: Seq<DirectoryListing>, ignore: Seq<Seq<char>>) -> Seq<
    Seq<char>,
>
    decreases listings.len(),
{
    if listings.len() == 0 {
        Seq::empty()
    } else {
        expansion(listings.drop_last(), ignore) + expansion_of(listings.last(), ignore)
    }
}

/// The directories of a run: each configured directory that is not ignored,
/// followed by its subdirectories that are not ignored. Deeper levels are
/// not entered.
pub fn expand_directories(listings: &Vec<DirectoryListing>, ignore: &[String]) -> (out: Vec<
    String,
>)
    ensures
        texts(out@) == expansion(listings@, texts(ignore@)),
{
    let mut out: Vec<String> = Vec::new();
    let mut i: usize = 0;
    assert(listings@.take(0) =~= Seq::empty());
    while i < listings.len()
        invariant
            i <= listings.len(),
            texts(out@) =~= expansion(listings@.take(i as int), texts(ignore@)),
        decreases listings.len() - i,
    {
        let listing = &listings[i];
        proof {
            let next = listings@.take(i + 1);
            assert(next.drop_last() =~= listings@.take(i as int));
            assert(next.last() == listings@[i as int]);
        }
        if listing.is_dir && !should_ignore(listing.path.as_str(), ignore) {
            let ghost base = texts(out@);
            out.push(listing.path.clone());
            assert(texts(out@) =~= base + seq![listing.path@]);
            let mut j: usize = 0;
            assert(listing.entries@.take(0) =~= Seq::empty());
            while j < listing.entries.len()
                invariant
                    j <= listing.entries.len(),
                    texts(out@) =~= base + seq![listing.path@] + admitted_entries(
                        listing.entries@.take(j as int),
                        texts(ignore@),
                    ),
                decreases listing.entries.len() - j,
            {
                let entry = &listing.entries[j];
                proof {
                    let next = listing.entries@.take(j + 1);
                    assert(next.drop_last() =~= listing.entries@.take(j as int));
                    assert(next.last() == listing.entries@[j as int]);
                }
                if entry.is_dir && !should_ignore(entry.path.as_str(), ignore) {
                    let ghost before = texts(out@);
                    out.push(entry.path.clone());
                    assert(texts(out@) =~= before.push(entry.path@));
                }
                j += 1;
            }
            assert(listing.entries@.take(listing.entries@.len() as int) =~= listing.entries@);
        }
        i += 1;
    }
    assert(listings@.take(listings@.len() as int) =~= listings@);
    out
}

} // verus!
