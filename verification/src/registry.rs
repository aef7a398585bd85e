//! The version registry: a fixed catalog of known releases of the target
//! executable, each identified by its pristine and patched digests together
//! with its ordered list of byte changes.

use vstd::prelude::*;
use crate::digest::Digest;

verus! {

/// One atomic modification: overwrite `patch` (or, to revert, `original`)
/// at an absolute byte offset.  A change never alters the content's length.
#[derive(Debug)]
pub struct Change {
    pub offset: u64,
    pub original: Vec<u8>,
    pub patch: Vec<u8>,
}

impl Change {
    /// The recorded bytes before and after the change cover the same range.
    pub open spec fn wf(&self) -> bool {
        self.original@.len() == self.patch@.len()
    }

    /// One past the last byte position the change covers.
    pub open spec fn end(&self) -> int {
        self.offset + self.patch@.len()
    }
}

/// The two directions a change list can be run in: `Apply` writes each
/// change's `patch` bytes, `Undo` writes back its `original` bytes.
#[derive(Clone, Copy, Debug, PartialEq, Eq, Structural)]
pub enum Action {
    Apply,
    Undo,
}

/// Whether two changes cover non-overlapping byte ranges.
pub open spec fn ranges_disjoint(a: Change, b: Change) -> bool {
    a.end() <= b.offset || b.end() <= a.offset
}

/// Whether all changes in a list cover pairwise disjoint byte ranges.
pub open spec fn changes_disjoint(cs: Seq<Change>) -> bool {
    forall|i: int, j: int|
        0 <= i < j < cs.len() ==> ranges_disjoint(#[trigger] cs[i], #[trigger] cs[j])
}

/// A well-formed change list: every change well formed, all ranges disjoint.
pub open spec fn changes_wf(cs: Seq<Change>) -> bool {
    &&& forall|i: int| 0 <= i < cs.len() ==> (#[trigger] cs[i]).wf()
    &&& changes_disjoint(cs)
}

/// A known release of the target executable.
#[derive(Debug)]
pub struct Version {
    /// Digest of the pristine content.
    pub unpatched_hash: Digest,
    /// Digest of the content after all changes are applied.
    pub patched_hash: Digest,
    /// The ordered, pairwise disjoint changes that turn one into the other.
    pub changes: Vec<Change>,
}

impl Version {
    pub open spec fn wf(&self) -> bool {
        &&& self.unpatched_hash.wf()
        &&& self.patched_hash.wf()
        &&& changes_wf(self.changes@)
    }
}

/// Digest of the pristine win32 release the registry knows.
pub open spec fn bl2_win32_unpatched_digest() -> Seq<u8> {
    seq![
        0xbcu8, 0x1d, 0x69, 0x5c, 0x6f, 0xdb, 0x3d, 0xea, 0x49, 0x1b,
        0x36, 0x7f, 0x73, 0xbb, 0xb0, 0x45, 0xc3, 0x16, 0xb3, 0x2e,
    ]
}

/// Digest of that release after its changes are applied.
pub open spec fn bl2_win32_patched_digest() -> Seq<u8> {
    seq![
        0xfcu8, 0x8a, 0xfc, 0xe0, 0x47, 0x82, 0x53, 0x2b, 0x0f, 0xe7,
        0xa7, 0x0a, 0x80, 0xee, 0x10, 0x70, 0xda, 0x85, 0x8e, 0x32,
    ]
}

/// The compiled-in catalog: the win32 release, whose three one-byte changes
/// silence the console's "say" prefix, enable dev commands and enable 'set'.
pub fn builtin_versions() -> (r: Vec<Version>)
    ensures
        r@.len() == 1,
        r@[0].wf(),
        r@[0].unpatched_hash@ == bl2_win32_unpatched_digest(),
        r@[0].patched_hash@ == bl2_win32_patched_digest(),
        r@[0].changes@.len() == 3,
        r@[0].changes@[0].offset == 0x012f_8b90,
        r@[0].changes@[0].original@ == seq![0x73u8],
        r@[0].changes@[0].patch@ == seq![0x00u8],
        r@[0].changes@[1].offset == 0x0169_9cb2,
        r@[0].changes@[1].original@ == seq![0xb8u8],
        r@[0].changes@[1].patch@ == seq![0xb7u8],
        r@[0].changes@[2].offset == 0x0042_d740,
        r@[0].changes@[2].original@ == seq![0xc0u8],
        r@[0].changes@[2].patch@ == seq![0xffu8],
{
    let unpatched_bytes: Vec<u8> = vec![
        0xbc, 0x1d, 0x69, 0x5c, 0x6f, 0xdb, 0x3d, 0xea, 0x49, 0x1b,
        0x36, 0x7f, 0x73, 0xbb, 0xb0, 0x45, 0xc3, 0x16, 0xb3, 0x2e,
    ];
    let patched_bytes: Vec<u8> = vec![
        0xfc, 0x8a, 0xfc, 0xe0, 0x47, 0x82, 0x53, 0x2b, 0x0f, 0xe7,
        0xa7, 0x0a, 0x80, 0xee, 0x10, 0x70, 0xda, 0x85, 0x8e, 0x32,
    ];
    proof {
        assert(unpatched_bytes@ =~= bl2_win32_unpatched_digest());
        assert(patched_bytes@ =~= bl2_win32_patched_digest());
    }
    let mut changes: Vec<Change> = Vec::new();
    changes.push(Change { offset: 0x012f_8b90, original: vec![0x73], patch: vec![0x00] });
    changes.push(Change { offset: 0x0169_9cb2, original: vec![0xb8], patch: vec![0xb7] });
    changes.push(Change { offset: 0x0042_d740, original: vec![0xc0], patch: vec![0xff] });
    let version = Version {
        unpatched_hash: Digest::from_bytes(unpatched_bytes),
        patched_hash: Digest::from_bytes(patched_bytes),
        changes,
    };
    let mut r: Vec<Version> = Vec::new();
    r.push(version);
    r
}

} // verus!
