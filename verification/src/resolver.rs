//! Ordered search over candidate locations.
//!
//! A caller inspects each candidate path in priority order and records what it
//! found as a [`Probe`]. The resolver picks the first probe whose entry has the
//! required kind.

use crate::text::optional_text;
use vstd::prelude::*;

verus! {

/// What was found at a path.
#[derive(Clone, Copy, Debug, PartialEq, Eq, Structural)]
pub enum EntryKind {
    /// Nothing exists at the path.
    Missing,
    /// A regular file.
    File,
    /// A directory.
    Directory,
    /// Something that exists but is neither a regular file nor a directory.
    Other,
}

/// The kind of entry a search is looking for.
#[derive(Clone, Copy, Debug, PartialEq, Eq, Structural)]
pub enum PathKind {
    File,
    Directory,
}

/// One inspected candidate: the path that was looked at and what was there.
#[derive(Clone, Debug, PartialEq, Eq)]
pub struct Probe {
    pub path: String,
    pub found: EntryKind,
}

impl EntryKind {
    /// Whether anything at all was found.
    pub open spec fn present(self) -> bool {
        self != EntryKind::Missing
    }

    /// Whether anything at all was found.
    pub fn is_present(self) -> (b: bool)
        ensures
            b == self.present(),
    {
        self != EntryKind::Missing
    }
}

impl PathKind {
    /// Whether an entry of kind `found` satisfies a search for `self`.
    pub open spec fn accepts(self, found: EntryKind) -> bool {
        match self {
            PathKind::File => found == EntryKind::File,
            PathKind::Directory => found == EntryKind::Directory,
        }
    }

    /// Whether an entry of kind `found` satisfies a search for `self`.
    pub fn admits(self, found: EntryKind) -> (b: bool)
        ensures
            b == self.accepts(found),
    {
        match self {
            PathKind::File => found == EntryKind::File,
            PathKind::Directory => found == EntryKind::Directory,
        }
    }
}

impl Probe {
    /// Records what was found at `path`.
    pub fn new(path: String, found: EntryKind) -> (p: Probe)
        ensures
            p.path == path,
            p.found == found,
    {
        Probe { path, found }
    }
}

/// The path to use for a candidate: its canonical form when one could be
/// computed, the path as given otherwise.
pub open spec fn normalized(given: Seq<char>, canonical: Option<Seq<char>>) -> Seq<char> {
    match canonical {
        Some(c) => c,
        None => given,
    }
}

/// Chooses between a candidate path and its canonical form. Failing to
/// canonicalize does not disqualify a candidate: the path is then used as given.
pub fn normalized_path(given: String, canonical: Option<String>) -> (path: String)
    ensures
        path@ == normalized(
            given@,
            optional_text(canonical),
        ),
{
    match canonical {
        Some(c) => c,
        None => given,
    }
}

/// `i` is the position of the first probe that `kind` accepts.
pub open spec fn is_first_match(probes: Seq<Probe>, kind: PathKind, i: int) -> bool {
    &&& 0 <= i < probes.len()
    &&& kind.accepts(probes[i].found)
    &&& forall|j: int| 0 <= j < i ==> !kind.accepts(#[trigger] probes[j].found)
}

/// No probe is accepted by `kind`.
pub open spec fn no_match(probes: Seq<Probe>, kind: PathKind) -> bool {
    forall|j: int| 0 <= j < probes.len() ==> !kind.accepts(#[trigger] probes[j].found)
}

/// The path of the first probe that `kind` accepts, if there is one.
pub open spec fn resolution(probes: Seq<Probe>, kind: PathKind) -> Option<Seq<char>>
    decreases probes.len(),
{
    if probes.len() == 0 {
        None
    } else if kind.accepts(probes[0].found) {
        Some(probes[0].path@)
    } else {
        resolution(probes.drop_first(), kind)
    }
}

/// Position of the first probe whose entry has the required kind.
pub fn first_match(probes: &Vec<Probe>, kind: PathKind) -> (found: Option<usize>)
    ensures
        match found {
            Some(i) => is_first_match(probes@, kind, i as int),
            None => no_match(probes@, kind),
        },
{
    let mut i: usize = 0;
    while i < probes.len()
        invariant
            i <= probes.len(),
            forall|j: int| 0 <= j < i ==> !kind.accepts(#[trigger] probes@[j].found),
        decreases probes.len() - i,
    {
        if kind.admits(probes[i].found) {
            return Some(i);
        }
        i += 1;
    }
    None
}

/// The first candidate that exists with the required kind wins, however many
/// earlier candidates are missing or of the wrong kind; a later one is never
/// preferred. When no candidate qualifies the search has no result.
pub proof fn lemma_resolution_is_first_match(probes: Seq<Probe>, kind: PathKind)
    ensures
        match resolution(probes, kind) {
            Some(path) => exists|i: int|
                is_first_match(probes, kind, i) && path == (#[trigger] probes[i]).path@,
            None => no_match(probes, kind),
        },
    decreases probes.len(),
{
    if probes.len() == 0 {
    } else if kind.accepts(probes[0].found) {
        assert(is_first_match(probes, kind, 0));
    } else {
        let rest = probes.drop_first();
        lemma_resolution_is_first_match(rest, kind);
        match resolution(rest, kind) {
            Some(path) => {
                let i = choose|i: int|
                    is_first_match(rest, kind, i) && path == (#[trigger] rest[i]).path@;
                assert(probes[i + 1] == rest[i]);
                assert forall|j: int| 0 <= j < i + 1 implies !kind.accepts(
                    #[trigger] probes[j].found,
                ) by {
                    if j > 0 {
                        assert(probes[j] == rest[j - 1]);
                    }
                }
                assert(is_first_match(probes, kind, i + 1));
            },
            None => {
                assert forall|j: int| 0 <= j < probes.len() implies !kind.accepts(
                    #[trigger] probes[j].found,
                ) by {
                    if j > 0 {
                        assert(probes[j] == rest[j - 1]);
                    }
                }
            },
        }
    }
}

/// A first match determines the resolution: it is that probe's path.
pub proof fn lemma_first_match_resolves(probes: Seq<Probe>, kind: PathKind, i: int)
    requires
        is_first_match(probes, kind, i),
    ensures
        resolution(probes, kind) == Some(probes[i].path@),
    decreases probes.len(),
{
    if i > 0 {
        let rest = probes.drop_first();
        assert(!kind.accepts(probes[0].found));
        assert(rest[i - 1] == probes[i]);
        assert forall|j: int| 0 <= j < i - 1 implies !kind.accepts(#[trigger] rest[j].found) by {
            assert(rest[j] == probes[j + 1]);
        }
        lemma_first_match_resolves(rest, kind, i - 1);
    }
}

/// Without any match there is no resolution.
pub proof fn lemma_no_match_unresolved(probes: Seq<Probe>, kind: PathKind)
    requires
        no_match(probes, kind),
    ensures
        resolution(probes, kind) is None,
    decreases probes.len(),
{
    if probes.len() > 0 {
        let rest = probes.drop_first();
        assert(!kind.accepts(probes[0].found));
        assert forall|j: int| 0 <= j < rest.len() implies !kind.accepts(#[trigger] rest[j].found) by {
            assert(rest[j] == probes[j + 1]);
        }
        lemma_no_match_unresolved(rest, kind);
    }
}

/// Searches the probes in order and returns the path of the first one whose
/// entry has the required kind. Finding nothing is not an error.
pub fn resolve(probes: &Vec<Probe>, kind: PathKind) -> (path: Option<String>)
    ensures
        optional_text(path) == resolution(probes@, kind),
        match path {
            Some(p) => exists|i: int|
                is_first_match(probes@, kind, i) && p@ == (#[trigger] probes@[i]).path@,
            None => no_match(probes@, kind),
        },
{
    match first_match(probes, kind) {
        Some(i) => {
            proof {
                lemma_first_match_resolves(probes@, kind, i as int);
            }
            Some(probes[i].path.clone())
        },
        None => {
            proof {
                lemma_no_match_unresolved(probes@, kind);
            }
            None
        },
    }
}

} // verus!
