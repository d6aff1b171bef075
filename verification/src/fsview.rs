//! A snapshot of the kernel pseudo-files a sampling tick works on.
//!
//! Hardware exposure points vary across board revisions and kernel
//! versions, so every collector works against a plain-value view of the
//! relevant filesystem subtree: a list of (path, content) pairs plus
//! directory listings. The unverified shell fills one `FsView` from the
//! real `/proc` and `/sys`; tests fill synthetic ones. Absence of a path
//! is an expected outcome, never an error.

use vstd::prelude::*;

use crate::text::{all_dec_digits, chars_eq, chars_of, dec_value, parse_u64, trim_bounds, trimmed};

verus! {

/// One pseudo-file: its absolute path and its text content.
pub struct FsEntry {
    pub path: Vec<char>,
    pub content: String,
}

/// One directory listing: the directory's path and the names inside it.
pub struct FsListing {
    pub dir: Vec<char>,
    pub names: Vec<String>,
}

/// The filesystem snapshot a tick samples from.
pub struct FsView {
    pub files: Vec<FsEntry>,
    pub listings: Vec<FsListing>,
}

/// The content of the first entry whose path is `p`, if any.
pub open spec fn lookup_spec(es: Seq<FsEntry>, p: Seq<char>) -> Option<Seq<char>>
    decreases es.len(),
{
    if es.len() == 0 {
        None
    } else if es[0].path@ == p {
        Some(es[0].content@)
    } else {
        lookup_spec(es.drop_first(), p)
    }
}

/// The names of the first listing whose directory is `d`, if any.
pub open spec fn listing_spec(ls: Seq<FsListing>, d: Seq<char>) -> Option<Seq<Seq<char>>>
    decreases ls.len(),
{
    if ls.len() == 0 {
        None
    } else if ls[0].dir@ == d {
        Some(ls[0].names@.map_values(|n: String| n@))
    } else {
        listing_spec(ls.drop_first(), d)
    }
}

/// What a numeric pseudo-file field parses to: trim the content, then
/// read it as a decimal numeral.
pub open spec fn parse_u64_spec(s: Seq<char>) -> Option<u64> {
    let t = trimmed(s);
    if t.len() > 0 && all_dec_digits(t) && dec_value(t) <= u64::MAX {
        Some(dec_value(t) as u64)
    } else {
        None
    }
}

impl FsView {
    /// The view of this snapshot: a path is present iff a file entry
    /// carries it.
    pub open spec fn file_at(&self, p: Seq<char>) -> Option<Seq<char>> {
        lookup_spec(self.files@, p)
    }

    /// Presence of a path in the snapshot.
    pub open spec fn has(&self, p: Seq<char>) -> bool {
        self.file_at(p) is Some
    }

    /// The listing of a directory in the snapshot.
    pub open spec fn dir_at(&self, d: Seq<char>) -> Option<Seq<Seq<char>>> {
        listing_spec(self.listings@, d)
    }

    /// An empty snapshot: no file exists.
    pub fn new() -> (r: FsView)
        ensures
            r.files@.len() == 0,
            r.listings@.len() == 0,
    {
        FsView { files: Vec::new(), listings: Vec::new() }
    }

    /// Record one pseudo-file.
    pub fn add_file(&mut self, path: Vec<char>, content: String)
        ensures
            final(self).files@ == old(self).files@.push(FsEntry { path, content }),
            final(self).listings@ == old(self).listings@,
    {
        self.files.push(FsEntry { path, content });
    }

    /// Record one directory listing.
    pub fn add_listing(&mut self, dir: Vec<char>, names: Vec<String>)
        ensures
            final(self).listings@ == old(self).listings@.push(FsListing { dir, names }),
            final(self).files@ == old(self).files@,
    {
        self.listings.push(FsListing { dir, names });
    }

    /// Content of the file at `p`, if the snapshot holds one.
    pub fn read(&self, p: &[char]) -> (r: Option<&String>)
        ensures
            r matches Some(c) ==> self.file_at(p@) == Some(c@),
            r is None ==> self.file_at(p@) is None,
    {
        let n: usize = self.files.len();
        let mut i: usize = 0;
        proof {
            assert(self.files@.skip(0) =~= self.files@);
        }
        while i < n
            invariant
                n == self.files@.len(),
                i <= n,
                lookup_spec(self.files@, p@) == lookup_spec(self.files@.skip(i as int), p@),
            decreases n - i,
        {
            proof {
                assert(self.files@.skip(i as int).drop_first() =~= self.files@.skip(i as int + 1));
                assert(self.files@.skip(i as int)[0] == self.files@[i as int]);
            }
            if chars_eq(self.files[i].path.as_slice(), p) {
                return Some(&self.files[i].content);
            }
            i += 1;
        }
        proof {
            assert(self.files@.skip(n as int) =~= Seq::<FsEntry>::empty());
        }
        None
    }

    /// Does the snapshot hold a file at `p`?
    pub fn path_exists(&self, p: &[char]) -> (r: bool)
        ensures
            r == self.has(p@),
    {
        self.read(p).is_some()
    }

    /// Names inside the directory `d`, if the snapshot lists it.
    pub fn list(&self, d: &[char]) -> (r: Option<&Vec<String>>)
        ensures
            r matches Some(ns) ==> self.dir_at(d@) == Some(
                ns@.map_values(|n: String| n@),
            ),
            r is None ==> self.dir_at(d@) is None,
    {
        let n: usize = self.listings.len();
        let mut i: usize = 0;
        proof {
            assert(self.listings@.skip(0) =~= self.listings@);
        }
        while i < n
            invariant
                n == self.listings@.len(),
                i <= n,
                listing_spec(self.listings@, d@) == listing_spec(
                    self.listings@.skip(i as int),
                    d@,
                ),
            decreases n - i,
        {
            proof {
                assert(self.listings@.skip(i as int).drop_first() =~= self.listings@.skip(
                    i as int + 1,
                ));
                assert(self.listings@.skip(i as int)[0] == self.listings@[i as int]);
            }
            if chars_eq(self.listings[i].dir.as_slice(), d) {
                return Some(&self.listings[i].names);
            }
            i += 1;
        }
        proof {
            assert(self.listings@.skip(n as int) =~= Seq::<FsListing>::empty());
        }
        None
    }

    /// Read a numeric pseudo-file field: missing file, or an unparsable
    /// value, yields `None`.
    pub fn read_u64(&self, p: &[char]) -> (r: Option<u64>)
        ensures
            r == match self.file_at(p@) {
                Some(c) => parse_u64_spec(c),
                None => None,
            },
    {
        match self.read(p) {
            Some(c) => {
                let cv = chars_of(c.as_str());
                let (a, b) = trim_bounds(cv.as_slice());
                parse_u64(&cv.as_slice()[a..b])
            }
            None => None,
        }
    }

    /// The uniform best-effort read: a missing file or a malformed value
    /// degrades to the given default, never to an error.
    pub fn read_u64_or(&self, p: &[char], default: u64) -> (r: u64)
        ensures
            r == match self.file_at(p@) {
                Some(c) => match parse_u64_spec(c) {
                    Some(v) => v,
                    None => default,
                },
                None => default,
            },
    {
        match self.read_u64(p) {
            Some(v) => v,
            None => default,
        }
    }

    /// The first candidate path that exists in the snapshot: the
    /// resolution strategy for board-dependent hardware locations.
    /// Candidates are ordered most specific first; `None` means the
    /// feature is unavailable, which is an expected outcome.
    pub fn resolve_first(&self, candidates: &Vec<Vec<char>>) -> (r: Option<usize>)
        ensures
            r matches Some(i) ==> i < candidates@.len() && self.has(candidates@[i as int]@)
                && forall|j: int| 0 <= j < i ==> !self.has(#[trigger] candidates@[j]@),
            r is None ==> forall|j: int|
                0 <= j < candidates@.len() ==> !self.has(#[trigger] candidates@[j]@),
    {
        let n: usize = candidates.len();
        let mut i: usize = 0;
        while i < n
            invariant
                n == candidates@.len(),
                i <= n,
                forall|j: int| 0 <= j < i ==> !self.has(#[trigger] candidates@[j]@),
            decreases n - i,
        {
            if self.path_exists(candidates[i].as_slice()) {
                return Some(i);
            }
            i += 1;
        }
        None
    }
}

} // verus!
