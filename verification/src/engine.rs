//! The patch engine: runs a change list over byte content, in the order
//! given, writing each change's bytes at its absolute offset.

use vstd::prelude::*;
use crate::digest::sha1_of;
use crate::errors::PatcherError;
use crate::registry::{Action, Change, changes_disjoint, changes_wf};

verus! {

/// The bytes a change writes when run in the given direction.
pub open spec fn change_source(c: Change, a: Action) -> Seq<u8> {
    match a {
        Action::Apply => c.patch@,
        Action::Undo => c.original@,
    }
}

/// Content after one change is written over `s` in direction `a`.
pub open spec fn apply_change_spec(s: Seq<u8>, c: Change, a: Action) -> Seq<u8> {
    Seq::new(
        s.len(),
        |i: int|
            if c.offset <= i < c.end() {
                change_source(c, a)[i - c.offset]
            } else {
                s[i]
            },
    )
}

/// Content after a whole change list is written over `s`, first to last.
pub open spec fn apply_changes_spec(s: Seq<u8>, cs: Seq<Change>, a: Action) -> Seq<u8>
    decreases cs.len(),
{
    if cs.len() == 0 {
        s
    } else {
        apply_changes_spec(apply_change_spec(s, cs[0], a), cs.drop_first(), a)
    }
}

/// Whether a change's byte range lies inside content of length `len`.
pub open spec fn change_fits(c: Change, len: int) -> bool {
    c.end() <= len
}

/// Whether every change in the list fits inside content of length `len`.
pub open spec fn changes_fit(cs: Seq<Change>, len: int) -> bool {
    forall|i: int| 0 <= i < cs.len() ==> change_fits(#[trigger] cs[i], len)
}

/// Whether `s` holds each change's `original` bytes at that change's range.
pub open spec fn matches_originals(s: Seq<u8>, cs: Seq<Change>) -> bool {
    forall|k: int, p: int|
        0 <= k < cs.len() && cs[k].offset <= p < cs[k].end() ==> s[p] == #[trigger] cs[k].original@[p
            - cs[k].offset]
}

/// Running a change list never alters the content's length.
pub proof fn lemma_apply_preserves_len(s: Seq<u8>, cs: Seq<Change>, a: Action)
    ensures
        apply_changes_spec(s, cs, a).len() == s.len(),
    decreases cs.len(),
{
    if cs.len() > 0 {
        lemma_apply_preserves_len(apply_change_spec(s, cs[0], a), cs.drop_first(), a);
    }
}

/// A position no change covers keeps the byte it had.
pub proof fn lemma_apply_untouched(s: Seq<u8>, cs: Seq<Change>, a: Action, p: int)
    requires
        0 <= p < s.len(),
        forall|k: int| 0 <= k < cs.len() ==> !((#[trigger] cs[k]).offset <= p < cs[k].end()),
    ensures
        apply_changes_spec(s, cs, a)[p] == s[p],
    decreases cs.len(),
{
    if cs.len() > 0 {
        let s1 = apply_change_spec(s, cs[0], a);
        assert(s1[p] == s[p]);
        assert(forall|k: int|
            0 <= k < cs.drop_first().len() ==> !((#[trigger] cs.drop_first()[k]).offset <= p
                < cs.drop_first()[k].end())) by {
            assert(forall|k: int|
                0 <= k < cs.drop_first().len() ==> cs.drop_first()[k] == cs[k + 1]);
        }
        lemma_apply_untouched(s1, cs.drop_first(), a, p);
    }
}

/// A position inside change `k`'s range ends up holding that change's bytes,
/// provided the ranges are pairwise disjoint.
pub proof fn lemma_apply_written(s: Seq<u8>, cs: Seq<Change>, a: Action, k: int, p: int)
    requires
        changes_disjoint(cs),
        0 <= k < cs.len(),
        change_fits(cs[k], s.len() as int),
        cs[k].offset <= p < cs[k].end(),
    ensures
        apply_changes_spec(s, cs, a)[p] == change_source(cs[k], a)[p - cs[k].offset],
    decreases cs.len(),
{
    let s1 = apply_change_spec(s, cs[0], a);
    let rest = cs.drop_first();
    assert(forall|j: int| 0 <= j < rest.len() ==> rest[j] == cs[j + 1]);
    if k == 0 {
        assert(s1[p] == change_source(cs[0], a)[p - cs[0].offset]);
        assert(forall|j: int|
            0 <= j < rest.len() ==> !((#[trigger] rest[j]).offset <= p < rest[j].end())) by {
            assert(forall|j: int| 0 <= j < rest.len() ==> #[trigger] ranges_disjoint_fact(cs, 0, j + 1));
        }
        lemma_apply_untouched(s1, rest, a, p);
    } else {
        assert(changes_disjoint(rest)) by {
            assert(forall|i: int, j: int|
                0 <= i < j < rest.len() ==> #[trigger] ranges_disjoint_fact(cs, i + 1, j + 1));
        }
        assert(!(cs[0].offset <= p < cs[0].end())) by {
            assert(ranges_disjoint_fact(cs, 0, k));
        }
        assert(s1[p] == s[p]);
        lemma_apply_written(s1, rest, a, k - 1, p);
    }
}

/// Helper: names the disjointness of the pair `(i, j)` so it can be used as
/// a quantifier instantiation.
spec fn ranges_disjoint_fact(cs: Seq<Change>, i: int, j: int) -> bool {
    crate::registry::ranges_disjoint(cs[i], cs[j])
}

/// Appending one change to a list runs it last.
pub proof fn lemma_apply_changes_push(s: Seq<u8>, cs: Seq<Change>, c: Change, a: Action)
    ensures
        apply_changes_spec(s, cs.push(c), a) == apply_change_spec(
            apply_changes_spec(s, cs, a),
            c,
            a,
        ),
    decreases cs.len(),
{
    if cs.len() == 0 {
        assert(cs.push(c)[0] == c);
        assert(cs.push(c).drop_first() =~= Seq::<Change>::empty());
        assert(apply_changes_spec(s, cs.push(c), a) == apply_changes_spec(
            apply_change_spec(s, c, a),
            Seq::<Change>::empty(),
            a,
        ));
        assert(apply_changes_spec(apply_change_spec(s, c, a), Seq::<Change>::empty(), a)
            == apply_change_spec(s, c, a));
        assert(apply_changes_spec(s, cs, a) == s);
    } else {
        let s1 = apply_change_spec(s, cs[0], a);
        assert(cs.push(c)[0] == cs[0]);
        assert(cs.push(c).drop_first() =~= cs.drop_first().push(c));
        lemma_apply_changes_push(s1, cs.drop_first(), c, a);
        assert(apply_changes_spec(s, cs.push(c), a) == apply_changes_spec(
            s1,
            cs.drop_first().push(c),
            a,
        ));
        assert(apply_changes_spec(s, cs, a) == apply_changes_spec(s1, cs.drop_first(), a));
    }
}

/// Round trip: on content that holds the original bytes at every change's
/// range, applying the change list and then reverting it restores the
/// content exactly, so its fingerprint is restored as well.
pub proof fn lemma_round_trip(s: Seq<u8>, cs: Seq<Change>)
    requires
        changes_wf(cs),
        changes_fit(cs, s.len() as int),
        matches_originals(s, cs),
    ensures
        apply_changes_spec(apply_changes_spec(s, cs, Action::Apply), cs, Action::Undo) == s,
        sha1_of(apply_changes_spec(apply_changes_spec(s, cs, Action::Apply), cs, Action::Undo))
            == sha1_of(s),
{
    let t = apply_changes_spec(s, cs, Action::Apply);
    let u = apply_changes_spec(t, cs, Action::Undo);
    lemma_apply_preserves_len(s, cs, Action::Apply);
    lemma_apply_preserves_len(t, cs, Action::Undo);
    assert forall|p: int| 0 <= p < s.len() implies u[p] == s[p] by {
        if exists|k: int| 0 <= k < cs.len() && (#[trigger] cs[k]).offset <= p < cs[k].end() {
            let k = choose|k: int| 0 <= k < cs.len() && (#[trigger] cs[k]).offset <= p < cs[k].end();
            lemma_apply_written(t, cs, Action::Undo, k, p);
            assert(u[p] == cs[k].original@[p - cs[k].offset]);
        } else {
            assert(forall|k: int| 0 <= k < cs.len() ==> !((#[trigger] cs[k]).offset <= p < cs[k].end()));
            lemma_apply_untouched(s, cs, Action::Apply, p);
            lemma_apply_untouched(t, cs, Action::Undo, p);
        }
    }
    assert(u =~= s);
}

/// A failed partial run: some prefix of the change list was committed, then
/// the first change that does not fit inside the content stopped the run,
/// reported as a write failure at that change's offset.
pub open spec fn partial_write_failure(
    pre: Seq<u8>,
    post: Seq<u8>,
    cs: Seq<Change>,
    a: Action,
    e: PatcherError,
) -> bool {
    exists|k: int|
        #![auto]
        {
            &&& 0 <= k < cs.len()
            &&& !change_fits(cs[k], pre.len() as int)
            &&& forall|j: int| 0 <= j < k ==> change_fits(#[trigger] cs[j], pre.len() as int)
            &&& post == apply_changes_spec(pre, cs.take(k), a)
            &&& e == (PatcherError::WriteFailed { offset: cs[k].offset })
        }
}

/// Runs the change list over in-memory content, first to last, writing each
/// change at its offset.  If a change does not fit inside the content, the
/// changes before it have already been committed and the content is left in
/// that mixed state, reported as a write failure at the offending offset.
pub fn apply_changes(data: &mut Vec<u8>, changes: &Vec<Change>, action: Action) -> (r: Result<
    (),
    PatcherError,
>)
    requires
        forall|i: int| 0 <= i < changes@.len() ==> (#[trigger] changes@[i]).wf(),
    ensures
        final(data)@.len() == old(data)@.len(),
        match r {
            Ok(_) => changes_fit(changes@, old(data)@.len() as int) && final(data)@
                == apply_changes_spec(old(data)@, changes@, action),
            Err(e) => partial_write_failure(old(data)@, final(data)@, changes@, action, e),
        },
{
    let ghost orig = data@;
    let mut i: usize = 0;
    while i < changes.len()
        invariant
            i <= changes@.len(),
            orig == old(data)@,
            forall|n: int| 0 <= n < changes@.len() ==> (#[trigger] changes@[n]).wf(),
            forall|j: int| 0 <= j < i ==> change_fits(#[trigger] changes@[j], orig.len() as int),
            data@ == apply_changes_spec(orig, changes@.take(i as int), action),
            data@.len() == orig.len(),
        decreases changes@.len() - i,
    {
        let c = &changes[i];
        let total = data.len();
        if c.offset > total as u64 || c.patch.len() as u64 > total as u64 - c.offset {
            proof {
                lemma_apply_preserves_len(orig, changes@.take(i as int), action);
                assert(!change_fits(changes@[i as int], old(data)@.len() as int));
            }
            return Err(PatcherError::WriteFailed { offset: c.offset });
        }
        let off = c.offset as usize;
        let src: &Vec<u8> = match action {
            Action::Apply => &c.patch,
            Action::Undo => &c.original,
        };
        let ghost before = data@;
        let mut j: usize = 0;
        while j < src.len()
            invariant
                j <= src@.len(),
                i < changes@.len(),
                src@ == change_source(changes@[i as int], action),
                changes@[i as int].wf(),
                off == changes@[i as int].offset,
                off + src@.len() <= data@.len(),
                data@.len() <= usize::MAX,
                data@.len() == before.len(),
                forall|p: int|
                    0 <= p < data@.len() ==> #[trigger] data@[p] == (if off <= p < off + j {
                        src@[p - off]
                    } else {
                        before[p]
                    }),
            decreases src@.len() - j,
        {
            let b = src[j];
            data.set(off + j, b);
            j = j + 1;
        }
        proof {
            assert(data@ =~= apply_change_spec(before, changes@[i as int], action));
            assert(changes@.take(i as int + 1) =~= changes@.take(i as int).push(
                changes@[i as int],
            ));
            lemma_apply_changes_push(orig, changes@.take(i as int), changes@[i as int], action);
        }
        i = i + 1;
    }
    proof {
        assert(changes@.take(changes@.len() as int) =~= changes@);
    }
    Ok(())
}

} // verus!
