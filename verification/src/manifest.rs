//! The application manifest: line-oriented key/value extraction of the
//! `installdir` entry, and the manifest file's name for an application.
//!
//! A line yields the install directory when it holds, between optional
//! whitespace, the quoted key `installdir`, at least one whitespace byte,
//! and a quoted, non-empty value free of quote characters.

use vstd::prelude::*;
use vstd::string::StringSliceAdditionalSpecFns;
use crate::errors::push_bytes;
use crate::numbers::{decimal_of, to_decimal};

verus! {

/// Whitespace that may surround the tokens of a manifest line.  A carriage
/// return counts, so lines with Windows endings need no special handling.
pub open spec fn is_space(b: u8) -> bool {
    b == 32 || b == 9 || b == 11 || b == 12 || b == 13
}

/// The quoted key that introduces the install directory, as raw bytes.
pub open spec fn installdir_key() -> Seq<u8> {
    seq![34u8, 105, 110, 115, 116, 97, 108, 108, 100, 105, 114, 34]
}

/// The witness layout of a matching line: spaces up to `i`, the quoted key
/// at `i`, at least one space up to `j`, the quoted value between `j` and
/// `k`, and spaces after `k`.
pub open spec fn line_gives_at(line: Seq<u8>, val: Seq<u8>, i: int, j: int, k: int) -> bool {
    &&& 0 <= i
    &&& i + 12 < j
    &&& j + 1 < k < line.len()
    &&& forall|p: int| 0 <= p < i ==> is_space(#[trigger] line[p])
    &&& line.subrange(i, i + 12) == installdir_key()
    &&& forall|p: int| i + 12 <= p < j ==> is_space(#[trigger] line[p])
    &&& line[j] == 34
    &&& line[k] == 34
    &&& forall|p: int| j < p < k ==> #[trigger] line[p] != 34
    &&& forall|p: int| k < p < line.len() ==> is_space(#[trigger] line[p])
    &&& val == line.subrange(j + 1, k)
}

/// Whether the line yields `val` as the install directory.
pub open spec fn line_gives(line: Seq<u8>, val: Seq<u8>) -> bool {
    exists|i: int, j: int, k: int| line_gives_at(line, val, i, j, k)
}

/// Whether the line yields any install directory at all.
pub open spec fn line_has_value(line: Seq<u8>) -> bool {
    exists|v: Seq<u8>| line_gives(line, v)
}

fn is_space_exec(b: u8) -> (r: bool)
    ensures
        r == is_space(b),
{
    b == 32 || b == 9 || b == 11 || b == 12 || b == 13
}

/// In any witness layout, the key starts at the first non-space byte.
proof fn lemma_force_i(line: Seq<u8>, v: Seq<u8>, i: int, j: int, k: int, i0: int)
    requires
        line_gives_at(line, v, i, j, k),
        0 <= i0 <= line.len(),
        forall|p: int| 0 <= p < i0 ==> is_space(#[trigger] line[p]),
        i0 == line.len() || !is_space(line[i0]),
    ensures
        i == i0,
{
    assert(line.subrange(i, i + 12)[0] == line[i]);
    assert(installdir_key()[0] == 34);
    assert(line[i] == 34);
    assert(!is_space(line[i]));
    if i > i0 {
        assert(is_space(line[i0]));
    }
}

/// In any witness layout, the value's opening quote stands at the first
/// non-space byte after the key.
proof fn lemma_force_j(line: Seq<u8>, v: Seq<u8>, i: int, j: int, k: int, j0: int)
    requires
        line_gives_at(line, v, i, j, k),
        i + 12 <= j0 <= line.len(),
        forall|p: int| i + 12 <= p < j0 ==> is_space(#[trigger] line[p]),
        j0 == line.len() || !is_space(line[j0]),
    ensures
        j == j0,
{
    assert(!is_space(line[j]));
    if j > j0 {
        assert(is_space(line[j0]));
    }
}

/// In any witness layout, the value's closing quote is the first quote
/// after its opening one.
proof fn lemma_force_k(line: Seq<u8>, v: Seq<u8>, i: int, j: int, k: int, k0: int)
    requires
        line_gives_at(line, v, i, j, k),
        j + 1 <= k0 <= line.len(),
        forall|p: int| j + 1 <= p < k0 ==> #[trigger] line[p] != 34,
        k0 == line.len() || line[k0] == 34,
    ensures
        k == k0,
{
    if k > k0 {
        assert(line[k0] != 34);
    }
}

/// Whether the quoted key stands at position `i` of the line.
fn matches_key_at(line: &[u8], i: usize) -> (r: bool)
    requires
        i <= line@.len(),
    ensures
        r == (i + 12 <= line@.len() && line@.subrange(i as int, i as int + 12)
            == installdir_key()),
{
    let n = line.len();
    if n < 12 || i > n - 12 {
        return false;
    }
    let key: Vec<u8> = vec![34, 105, 110, 115, 116, 97, 108, 108, 100, 105, 114, 34];
    proof {
        assert(key@ =~= installdir_key());
    }
    let mut q: usize = 0;
    while q < 12
        invariant
            q <= 12,
            i + 12 <= line@.len(),
            line@.len() <= usize::MAX,
            key@ == installdir_key(),
            forall|p: int| 0 <= p < q ==> line@[i + p] == #[trigger] key@[p],
        decreases 12 - q,
    {
        if line[i + q] != key[q] {
            proof {
                assert(line@.subrange(i as int, i as int + 12)[q as int] == line@[i + q]);
            }
            return false;
        }
        q = q + 1;
    }
    proof {
        assert(line@.subrange(i as int, i as int + 12) =~= installdir_key());
    }
    true
}

/// Extracts the install directory from one line, exactly when the line has
/// the matching layout.
pub fn parse_installdir_line(line: &[u8]) -> (r: Option<Vec<u8>>)
    ensures
        match r {
            Some(v) => line_gives(line@, v@),
            None => !line_has_value(line@),
        },
{
    let n = line.len();
    let mut i0: usize = 0;
    while i0 < n && is_space_exec(line[i0])
        invariant
            i0 <= n,
            n == line@.len(),
            forall|p: int| 0 <= p < i0 ==> is_space(#[trigger] line@[p]),
        decreases n - i0,
    {
        i0 = i0 + 1;
    }
    if !matches_key_at(line, i0) {
        proof {
            assert forall|v: Seq<u8>| !line_gives(line@, v) by {
                if line_gives(line@, v) {
                    let (i, j, k) = choose|i: int, j: int, k: int|
                        line_gives_at(line@, v, i, j, k);
                    lemma_force_i(line@, v, i, j, k, i0 as int);
                }
            }
        }
        return None;
    }
    let mut j0: usize = i0 + 12;
    while j0 < n && is_space_exec(line[j0])
        invariant
            i0 + 12 <= j0 <= n,
            n == line@.len(),
            forall|p: int| i0 + 12 <= p < j0 ==> is_space(#[trigger] line@[p]),
        decreases n - j0,
    {
        j0 = j0 + 1;
    }
    if j0 == i0 + 12 || j0 == n || line[j0] != 34 {
        proof {
            assert forall|v: Seq<u8>| !line_gives(line@, v) by {
                if line_gives(line@, v) {
                    let (i, j, k) = choose|i: int, j: int, k: int|
                        line_gives_at(line@, v, i, j, k);
                    lemma_force_i(line@, v, i, j, k, i0 as int);
                    lemma_force_j(line@, v, i, j, k, j0 as int);
                }
            }
        }
        return None;
    }
    let mut k0: usize = j0 + 1;
    while k0 < n && line[k0] != 34
        invariant
            j0 + 1 <= k0 <= n,
            n == line@.len(),
            forall|p: int| j0 + 1 <= p < k0 ==> #[trigger] line@[p] != 34,
        decreases n - k0,
    {
        k0 = k0 + 1;
    }
    if k0 == n || k0 == j0 + 1 {
        proof {
            assert forall|v: Seq<u8>| !line_gives(line@, v) by {
                if line_gives(line@, v) {
                    let (i, j, k) = choose|i: int, j: int, k: int|
                        line_gives_at(line@, v, i, j, k);
                    lemma_force_i(line@, v, i, j, k, i0 as int);
                    lemma_force_j(line@, v, i, j, k, j0 as int);
                    lemma_force_k(line@, v, i, j, k, k0 as int);
                }
            }
        }
        return None;
    }
    let mut q0: usize = k0 + 1;
    while q0 < n && is_space_exec(line[q0])
        invariant
            k0 + 1 <= q0 <= n,
            n == line@.len(),
            forall|p: int| k0 + 1 <= p < q0 ==> is_space(#[trigger] line@[p]),
        decreases n - q0,
    {
        q0 = q0 + 1;
    }
    if q0 < n {
        proof {
            assert forall|v: Seq<u8>| !line_gives(line@, v) by {
                if line_gives(line@, v) {
                    let (i, j, k) = choose|i: int, j: int, k: int|
                        line_gives_at(line@, v, i, j, k);
                    lemma_force_i(line@, v, i, j, k, i0 as int);
                    lemma_force_j(line@, v, i, j, k, j0 as int);
                    lemma_force_k(line@, v, i, j, k, k0 as int);
                    assert(is_space(line@[q0 as int]));
                }
            }
        }
        return None;
    }
    let v = vstd::slice::slice_to_vec(vstd::slice::slice_subrange(line, j0 + 1, k0));
    proof {
        assert(line_gives_at(line@, v@, i0 as int, j0 as int, k0 as int));
    }
    Some(v)
}

/// Whether positions `a` to `b` delimit one full line of `s`: bounded by
/// newlines (or the ends of `s`), with no newline inside.
pub open spec fn is_line_at(s: Seq<u8>, a: int, b: int) -> bool {
    &&& 0 <= a <= b <= s.len()
    &&& (a == 0 || s[a - 1] == 10)
    &&& (b == s.len() || s[b] == 10)
    &&& forall|p: int| a <= p < b ==> #[trigger] s[p] != 10
}

/// Whether the manifest's first line with the matching layout yields `dir`.
pub open spec fn manifest_gives(m: Seq<u8>, dir: Seq<u8>) -> bool {
    exists|a: int, b: int|
        #![auto]
        {
            &&& is_line_at(m, a, b)
            &&& line_gives(m.subrange(a, b), dir)
            &&& forall|a2: int, b2: int|
                is_line_at(m, a2, b2) && b2 < b ==> !line_has_value(m.subrange(a2, b2))
        }
}

/// Whether any line of the manifest has the matching layout.
pub open spec fn manifest_has_value(m: Seq<u8>) -> bool {
    exists|a: int, b: int| #![auto] is_line_at(m, a, b) && line_has_value(m.subrange(a, b))
}

/// Extracts the `installdir` value from a whole manifest: the value of the
/// first line that has the matching layout, if any line does.
pub fn extract_install_dir(manifest: &Vec<u8>) -> (r: Option<Vec<u8>>)
    ensures
        match r {
            Some(v) => manifest_gives(manifest@, v@),
            None => !manifest_has_value(manifest@),
        },
{
    let n = manifest.len();
    let mut start: usize = 0;
    loop
        invariant
            start <= n + 1,
            n == manifest@.len(),
            start == 0 || start == n + 1 || manifest@[start as int - 1] == 10,
            forall|a2: int, b2: int|
                is_line_at(manifest@, a2, b2) && b2 < start ==> !line_has_value(
                    manifest@.subrange(a2, b2),
                ),
        decreases n + 1 - start,
    {
        if start > n {
            return None;
        }
        let mut end: usize = start;
        while end < n && manifest[end] != 10
            invariant
                start <= end <= n,
                n == manifest@.len(),
                forall|p: int| start <= p < end ==> #[trigger] manifest@[p] != 10,
            decreases n - end,
        {
            end = end + 1;
        }
        proof {
            assert(is_line_at(manifest@, start as int, end as int));
        }
        let line = vstd::slice::slice_subrange(manifest.as_slice(), start, end);
        let parsed = parse_installdir_line(line);
        proof {
            assert forall|a2: int, b2: int|
                is_line_at(manifest@, a2, b2) && start <= b2 <= end implies a2 == start && b2
                == end by {
                assert(b2 == end) by {
                    if b2 < end {
                        assert(manifest@[b2] != 10);
                    }
                }
                assert(a2 == start) by {
                    if a2 < start {
                        assert(manifest@[start as int - 1] == 10);
                        assert(manifest@[start as int - 1] != 10);
                    }
                    if a2 > start {
                        assert(manifest@[a2 - 1] != 10);
                    }
                }
            }
        }
        match parsed {
            Some(v) => {
                proof {
                    assert forall|a2: int, b2: int|
                        is_line_at(manifest@, a2, b2) && b2 < end as int implies !line_has_value(
                            manifest@.subrange(a2, b2),
                        ) by {
                        if b2 >= start {
                            assert(a2 == start && b2 == end as int);
                        }
                    }
                }
                return Some(v);
            },
            None => {
                proof {
                    assert forall|a2: int, b2: int|
                        is_line_at(manifest@, a2, b2) && b2 < end + 1 implies !line_has_value(
                            manifest@.subrange(a2, b2),
                        ) by {
                        if b2 >= start {
                            assert(a2 == start && b2 == end as int);
                            assert(manifest@.subrange(a2, b2) == line@);
                        }
                    }
                }
                if end == n {
                    return None;
                }
                start = end + 1;
            },
        }
    }
}

/// The manifest file's name for an application: `appmanifest_<id>.acf`.
pub fn manifest_file_name(appid: u32) -> (r: Vec<u8>)
    ensures
        r@ == "appmanifest_".spec_bytes() + decimal_of(appid as nat) + ".acf".spec_bytes(),
{
    let mut r = vstd::slice::slice_to_vec("appmanifest_".as_bytes());
    let num = to_decimal(appid as u64);
    push_bytes(&mut r, num.as_slice());
    push_bytes(&mut r, ".acf".as_bytes());
    r
}

} // verus!
