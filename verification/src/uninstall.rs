//! Planning for the removal of managed interpreter installations.
//!
//! Removing directories, executables and registry entries is input/output
//! and lives with the caller. What is decided here: after a set of
//! installations has been uninstalled, each minor version keeps a link to
//! its highest remaining patch release, and the link of a minor version
//! with no remaining installation is removed.

use vstd::prelude::*;

verus! {

/// A managed interpreter installation, reduced to what link planning
/// reads: its version triple.
#[derive(Clone, Copy, PartialEq, Eq, Structural, Debug)]
pub struct PythonVersionKey {
    pub major: u32,
    pub minor: u32,
    pub patch: u32,
}

/// Both keys belong to the same minor version line.
pub open spec fn same_minor(a: PythonVersionKey, b: PythonVersionKey) -> bool {
    a.major == b.major && a.minor == b.minor
}

/// Some key in `s` belongs to the same minor version line as `k`.
pub open spec fn minor_present(s: Seq<PythonVersionKey>, k: PythonVersionKey) -> bool {
    exists|i: int| 0 <= i < s.len() && same_minor(#[trigger] s[i], k)
}

/// `b` is a highest-patch installation of its minor line within `s`.
pub open spec fn is_minor_maximum(s: Seq<PythonVersionKey>, b: PythonVersionKey) -> bool {
    s.contains(b) && forall|i: int|
        0 <= i < s.len() && same_minor(#[trigger] s[i], b) ==> s[i].patch <= b.patch
}

/// The directives produced by link planning.
#[derive(Clone, Copy, PartialEq, Eq, Structural, Debug)]
pub enum LinkDirective {
    /// Point the minor-version link at this remaining installation.
    Update(PythonVersionKey),
    /// Remove the link of this (major, minor) line entirely.
    Remove(u32, u32),
}

/// The directive owed for one uninstalled key, given the remaining
/// installations: an update to the highest remaining patch of its minor
/// line, or the removal of the line's link.
pub open spec fn directive_for(
    remaining: Seq<PythonVersionKey>,
    k: PythonVersionKey,
    d: LinkDirective,
) -> bool {
    match d {
        LinkDirective::Update(b) => same_minor(b, k) && is_minor_maximum(remaining, b),
        LinkDirective::Remove(major, minor) => major == k.major && minor == k.minor
            && !minor_present(remaining, k),
    }
}

fn best_remaining(remaining: &Vec<PythonVersionKey>, k: PythonVersionKey) -> (r: Option<
    PythonVersionKey,
>)
    ensures
        match r {
            Some(b) => same_minor(b, k) && is_minor_maximum(remaining@, b),
            None => !minor_present(remaining@, k),
        },
{
    let mut best: Option<PythonVersionKey> = None;
    let mut j: usize = 0;
    while j < remaining.len()
        invariant
            j <= remaining@.len(),
            match best {
                Some(b) => same_minor(b, k) && remaining@.contains(b) && forall|i: int|
                    0 <= i < j && same_minor(#[trigger] remaining@[i], k) ==> remaining@[i].patch
                        <= b.patch,
                None => forall|i: int| 0 <= i < j ==> !same_minor(#[trigger] remaining@[i], k),
            },
        decreases remaining@.len() - j,
    {
        let c = remaining[j];
        let take: bool = c.major == k.major && c.minor == k.minor && match &best {
            Some(b) => c.patch > b.patch,
            None => true,
        };
        if take {
            best = Some(c);
        }
        j = j + 1;
    }
    proof {
        match best {
            Some(b) => {
                assert forall|i: int|
                    0 <= i < remaining@.len() && same_minor(#[trigger] remaining@[i], b) implies
                    remaining@[i].patch <= b.patch by {
                    assert(same_minor(remaining@[i], k));
                }
            },
            None => {},
        }
    }
    best
}

/// Plan the minor-version link maintenance after an uninstallation: for
/// each uninstalled installation, point its minor line's link at the
/// highest remaining patch release, or remove the link when the line has no
/// installation left. One directive is produced per uninstalled key, in
/// order.
pub fn plan_minor_links(
    uninstalled: &Vec<PythonVersionKey>,
    remaining: &Vec<PythonVersionKey>,
) -> (r: Vec<LinkDirective>)
    ensures
        r@.len() == uninstalled@.len(),
        forall|i: int|
            0 <= i < uninstalled@.len() ==> directive_for(
                remaining@,
                uninstalled@[i],
                #[trigger] r@[i],
            ),
{
    let mut out: Vec<LinkDirective> = Vec::new();
    let mut i: usize = 0;
    while i < uninstalled.len()
        invariant
            i <= uninstalled@.len(),
            out@.len() == i,
            forall|j: int|
                0 <= j < i ==> directive_for(remaining@, uninstalled@[j], #[trigger] out@[j]),
        decreases uninstalled@.len() - i,
    {
        let k = uninstalled[i];
        match best_remaining(remaining, k) {
            Some(b) => {
                out.push(LinkDirective::Update(b));
            },
            None => {
                out.push(LinkDirective::Remove(k.major, k.minor));
            },
        }
        i = i + 1;
    }
    out
}

} // verus!
