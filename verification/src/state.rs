//! The state resolver: classifies content against the version registry and
//! orchestrates the apply/revert toggle with post-patch verification.

use vstd::prelude::*;
use crate::digest::{Digest, fingerprint, sha1_of};
use crate::errors::PatcherError;
use crate::registry::{Action, Version};
use crate::engine::{apply_changes, apply_changes_spec, changes_fit, partial_write_failure};

verus! {

/// Whether a digest identifies a version, as either its pristine or its
/// patched content.
pub open spec fn version_matches(v: Version, d: Seq<u8>) -> bool {
    d == v.unpatched_hash@ || d == v.patched_hash@
}

/// The index of the first registry entry the digest matches, if any.
pub open spec fn first_match(versions: Seq<Version>, d: Seq<u8>) -> Option<int>
    decreases versions.len(),
{
    if versions.len() == 0 {
        None
    } else if version_matches(versions[0], d) {
        Some(0)
    } else {
        match first_match(versions.drop_first(), d) {
            Some(j) => Some(j + 1),
            None => None,
        }
    }
}

/// The classification of a digest: the matched entry together with whether
/// the content is the patched form; `None` means unrecognized.
pub open spec fn classification(versions: Seq<Version>, d: Seq<u8>) -> Option<(int, bool)> {
    match first_match(versions, d) {
        Some(i) => Some((i, d != versions[i].unpatched_hash@)),
        None => None,
    }
}

proof fn lemma_first_match_found(versions: Seq<Version>, d: Seq<u8>, i: int)
    requires
        0 <= i < versions.len(),
        forall|j: int| 0 <= j < i ==> !version_matches(#[trigger] versions[j], d),
        version_matches(versions[i], d),
    ensures
        first_match(versions, d) == Some(i),
    decreases i,
{
    if i == 0 {
    } else {
        let rest = versions.drop_first();
        assert(forall|j: int| 0 <= j < rest.len() ==> rest[j] == versions[j + 1]);
        lemma_first_match_found(rest, d, i - 1);
    }
}

proof fn lemma_first_match_none(versions: Seq<Version>, d: Seq<u8>)
    requires
        forall|j: int| 0 <= j < versions.len() ==> !version_matches(#[trigger] versions[j], d),
    ensures
        first_match(versions, d) is None,
    decreases versions.len(),
{
    if versions.len() > 0 {
        let rest = versions.drop_first();
        assert(forall|j: int| 0 <= j < rest.len() ==> rest[j] == versions[j + 1]);
        lemma_first_match_none(rest, d);
    }
}

/// What the first match means: its entry is in range and matches, and no
/// earlier entry does; with no match, no entry matches at all.
pub proof fn lemma_first_match_props(versions: Seq<Version>, d: Seq<u8>)
    ensures
        match first_match(versions, d) {
            Some(i) => 0 <= i < versions.len() && version_matches(versions[i], d) && forall|j: int|
                0 <= j < i ==> !version_matches(#[trigger] versions[j], d),
            None => forall|j: int|
                0 <= j < versions.len() ==> !version_matches(#[trigger] versions[j], d),
        },
    decreases versions.len(),
{
    if versions.len() > 0 && !version_matches(versions[0], d) {
        let rest = versions.drop_first();
        lemma_first_match_props(rest, d);
        match first_match(rest, d) {
            Some(k) => {
                assert(versions[k + 1] == rest[k]);
                assert(first_match(versions, d) == Some(k + 1));
                assert forall|j: int| 0 <= j < k + 1 implies !version_matches(
                    #[trigger] versions[j],
                    d,
                ) by {
                    if j > 0 {
                        assert(rest[j - 1] == versions[j]);
                        assert(!version_matches(rest[j - 1], d));
                    }
                }
            },
            None => {
                assert forall|j: int| 0 <= j < versions.len() implies !version_matches(
                    #[trigger] versions[j],
                    d,
                ) by {
                    if j > 0 {
                        assert(rest[j - 1] == versions[j]);
                        assert(!version_matches(rest[j - 1], d));
                    }
                }
            },
        }
    }
}

fn classify_index(digest: &Digest, versions: &Vec<Version>) -> (r: Option<(usize, bool)>)
    ensures
        match r {
            Some(pair) => {
                &&& pair.0 < versions@.len()
                &&& first_match(versions@, digest@) == Some(pair.0 as int)
                &&& pair.1 == (digest@ != versions@[pair.0 as int].unpatched_hash@)
            },
            None => first_match(versions@, digest@) is None,
        },
{
    let mut i: usize = 0;
    while i < versions.len()
        invariant
            i <= versions@.len(),
            forall|j: int| 0 <= j < i ==> !version_matches(#[trigger] versions@[j], digest@),
        decreases versions@.len() - i,
    {
        let v = &versions[i];
        if *digest == v.unpatched_hash {
            proof {
                lemma_first_match_found(versions@, digest@, i as int);
            }
            return Some((i, false));
        }
        if *digest == v.patched_hash {
            proof {
                lemma_first_match_found(versions@, digest@, i as int);
            }
            return Some((i, true));
        }
        i = i + 1;
    }
    proof {
        lemma_first_match_none(versions@, digest@);
    }
    None
}

/// The transient classification of one piece of content: the matched
/// version and whether the content currently carries its patched form.
#[derive(Debug)]
pub struct ExeState<'a> {
    pub version: &'a Version,
    pub patched: bool,
}

/// Classifies a digest against the registry.  Returns the first matching
/// entry, or reports the unknown version; no other outcome exists.
pub fn classify<'a>(digest: &Digest, versions: &'a Vec<Version>) -> (r: Result<
    ExeState<'a>,
    PatcherError,
>)
    ensures
        match r {
            Ok(st) => first_match(versions@, digest@) matches Some(i) && *st.version == versions@[i]
                && st.patched == (digest@ != versions@[i].unpatched_hash@),
            Err(e) => first_match(versions@, digest@) is None && (e matches
            PatcherError::UnknownVersion { hash } && hash@ == digest@),
        },
{
    match classify_index(digest, versions) {
        Some((i, patched)) => Ok(ExeState { version: &versions[i], patched }),
        None => Err(PatcherError::UnknownVersion { hash: digest.duplicate() }),
    }
}

/// Fingerprints in-memory content and classifies it against the registry.
pub fn get_exe_state<'a>(data: &Vec<u8>, versions: &'a Vec<Version>) -> (r: Result<
    ExeState<'a>,
    PatcherError,
>)
    ensures
        match r {
            Ok(st) => first_match(versions@, sha1_of(data@)) matches Some(i) && *st.version
                == versions@[i] && st.patched == (sha1_of(data@) != versions@[i].unpatched_hash@),
            Err(e) => first_match(versions@, sha1_of(data@)) is None && (e matches
            PatcherError::UnknownVersion { hash } && hash@ == sha1_of(data@)),
        },
{
    let d = fingerprint(data);
    classify(&d, versions)
}

/// The whole toggle operation over in-memory content: classify, run the
/// appropriate direction's changes, then classify again and verify that the
/// content landed in the opposite state of the same version.
///
/// On success the result says whether the content is now patched.  An
/// unrecognized fingerprint leaves the content untouched; a change that does
/// not fit leaves the earlier changes committed (a mixed state); content
/// whose re-fingerprint is not the expected digest is reported as failed
/// verification, exactly as severe as a failed write.
/// Exactly what `toggle_buffer` guarantees, relating the content before
/// (`pre`) and after (`post`) the call to its result.
pub open spec fn toggle_post(
    pre: Seq<u8>,
    post: Seq<u8>,
    versions: Seq<Version>,
    r: Result<bool, PatcherError>,
) -> bool {
    ({
        let d0 = sha1_of(pre);
        let m = first_match(versions, d0);
        match r {
            Ok(now_patched) => m matches Some(i) && ({
                    let v = versions[i];
                    let was = d0 != v.unpatched_hash@;
                    let dir = if was {
                        Action::Undo
                    } else {
                        Action::Apply
                    };
                    &&& changes_fit(v.changes@, pre.len() as int)
                    &&& post == apply_changes_spec(pre, v.changes@, dir)
                    &&& now_patched == !was
                    &&& sha1_of(post) == (if was {
                        v.unpatched_hash@
                    } else {
                        v.patched_hash@
                    })
                    &&& first_match(versions, sha1_of(post)) == Some(i)
                }),
                Err(e) => match e {
                    PatcherError::UnknownVersion { hash } => m is None && hash@ == d0
                        && post == pre,
                    PatcherError::WriteFailed { .. } => m matches Some(i) && ({
                        let v = versions[i];
                        let was = d0 != v.unpatched_hash@;
                        let dir = if was {
                            Action::Undo
                        } else {
                            Action::Apply
                        };
                        partial_write_failure(pre, post, v.changes@, dir, e)
                    }),
                    PatcherError::VerificationFailed => m matches Some(i) && ({
                        let v = versions[i];
                        let was = d0 != v.unpatched_hash@;
                        let dir = if was {
                            Action::Undo
                        } else {
                            Action::Apply
                        };
                        &&& changes_fit(v.changes@, pre.len() as int)
                        &&& post == apply_changes_spec(pre, v.changes@, dir)
                        &&& !(first_match(versions, sha1_of(post)) == Some(i)
                            && (sha1_of(post) != v.unpatched_hash@) == !was)
                    }),
                    _ => false,
                },
            }
        })
}

#[verifier::rlimit(60)]
pub fn toggle_buffer(data: &mut Vec<u8>, versions: &Vec<Version>) -> (r: Result<
    bool,
    PatcherError,
>)
    requires
        forall|i: int| 0 <= i < versions@.len() ==> (#[trigger] versions@[i]).wf(),
    ensures
        final(data)@.len() == old(data)@.len(),
        toggle_post(old(data)@, final(data)@, versions@, r),
{
    let d = fingerprint(&*data);
    match classify_index(&d, versions) {
        None => {
            let r: Result<bool, PatcherError> = Err(PatcherError::UnknownVersion { hash: d });
            proof {
                assert(toggle_post(old(data)@, data@, versions@, r));
            }
            r
        },
        Some((i, was)) => {
            let v = &versions[i];
            let action = if was {
                Action::Undo
            } else {
                Action::Apply
            };
            match apply_changes(data, &v.changes, action) {
                Err(e) => {
                    let r: Result<bool, PatcherError> = Err(e);
                    proof {
                        assert(toggle_post(old(data)@, data@, versions@, r));
                    }
                    r
                },
                Ok(_) => {
                    let d2 = fingerprint(&*data);
                    let verified = match classify_index(&d2, versions) {
                        Some((i2, p2)) => i2 == i && p2 == !was,
                        None => false,
                    };
                    if verified {
                        let r: Result<bool, PatcherError> = Ok(!was);
                        proof {
                            lemma_first_match_props(versions@, d2@);
                            assert(toggle_post(old(data)@, data@, versions@, r));
                        }
                        r
                    } else {
                        let r: Result<bool, PatcherError> = Err(
                            PatcherError::VerificationFailed,
                        );
                        proof {
                            assert(toggle_post(old(data)@, data@, versions@, r));
                        }
                        r
                    }
                },
            }
        },
    }
}

/// Idempotent toggle law: content that the registry recognizes, patched in
/// the direction its state calls for, classifies afterwards as the same
/// version in the opposite state — never as unrecognized — provided the
/// version's defining invariant holds: running its changes over content with
/// one of its digests yields content with the other, still first matched by
/// the same entry.
pub proof fn lemma_idempotent_toggle(versions: Seq<Version>, s: Seq<u8>, i: int)
    requires
        0 <= i < versions.len(),
        versions[i].wf(),
        versions[i].unpatched_hash@ != versions[i].patched_hash@,
        changes_fit(versions[i].changes@, s.len() as int),
        first_match(versions, sha1_of(s)) == Some(i),
        ({
            let v = versions[i];
            let was = sha1_of(s) != v.unpatched_hash@;
            let dir = if was {
                Action::Undo
            } else {
                Action::Apply
            };
            let t = apply_changes_spec(s, v.changes@, dir);
            &&& sha1_of(t) == (if was {
                v.unpatched_hash@
            } else {
                v.patched_hash@
            })
            &&& first_match(versions, sha1_of(t)) == Some(i)
        }),
    ensures
        ({
            let v = versions[i];
            let was = sha1_of(s) != v.unpatched_hash@;
            let dir = if was {
                Action::Undo
            } else {
                Action::Apply
            };
            let t = apply_changes_spec(s, v.changes@, dir);
            &&& classification(versions, sha1_of(s)) == Some((i, was))
            &&& classification(versions, sha1_of(t)) == Some((i, !was))
        }),
{
}

} // verus!
