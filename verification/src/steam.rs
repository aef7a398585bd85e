//! The package-manager side: parsing the library-folder index through the
//! `steamy-vdf` crate, collecting candidate library roots, and resolving an
//! application's install path from per-root manifest lookups.

use vstd::prelude::*;
use vstd::string::StringSliceAdditionalSpecFns;
use crate::errors::{PatcherError, push_bytes};
use crate::manifest::{extract_install_dir, manifest_file_name, manifest_gives, manifest_has_value};
use crate::numbers::{decimal_of, is_u32_decimal, parse_u32};

verus! {

#[verifier::external_type_specification]
#[verifier::external_body]
pub struct ExVdfEntry(steamy_vdf::Entry);

/// One key/value pair of a parsed index table; `value` is `None` when the
/// entry is not a plain value (a nested table, array or statement).
pub struct VdfItem {
    pub key: Vec<u8>,
    pub value: Option<Vec<u8>>,
}

/// Relies on steamy_vdf::read and steamy_vdf::Table::load: parses VDF text
/// into an entry; `None` exactly when the crate reports a parse error.
/// Nothing is assumed about the resulting entry itself.
#[verifier::external_body]
fn vdf_parse(data: &[u8]) -> Option<steamy_vdf::Entry> {
    let mut reader = steamy_vdf::read(data).ok()?;
    let table = steamy_vdf::Table::load(&mut reader).ok()?;
    Some(table.into())
}

/// Relies on steamy_vdf::Entry::get: the named entry of a table (or the
/// indexed element of an array); `None` for other entries or a missing name.
#[verifier::external_body]
fn vdf_get<'a>(entry: &'a steamy_vdf::Entry, name: &str) -> Option<&'a steamy_vdf::Entry> {
    entry.get(name)
}

/// Relies on steamy_vdf::Entry::as_table and Entry::as_value: the table's
/// pairs as raw bytes, a plain value's text kept and any other entry marked
/// `None`; `None` when the entry is not a table.  The pairs come in the
/// table's own iteration order, which is arbitrary.
#[verifier::external_body]
fn vdf_table_items(entry: &steamy_vdf::Entry) -> Option<Vec<VdfItem>> {
    let table = entry.as_table()?;
    let items = table
        .iter()
        .map(
            |(k, v)|
                VdfItem {
                    key: k.clone().into_bytes(),
                    value: v.as_value().map(|s| s.to_string().into_bytes()),
                },
        )
        .collect();
    Some(items)
}

/// Whether an index item names a candidate root: a decimal key that fits
/// `u32`, carrying a plain value.
pub open spec fn is_root_item(it: VdfItem) -> bool {
    &&& it.value is Some
    &&& is_u32_decimal(it.key@)
}

/// The path bytes an index item carries.
pub open spec fn item_path(it: VdfItem) -> Seq<u8> {
    match it.value {
        Some(v) => v@,
        None => Seq::empty(),
    }
}

/// The candidate roots among the index items, in the items' order.
pub open spec fn root_paths(items: Seq<VdfItem>) -> Seq<Seq<u8>> {
    items.filter(|it: VdfItem| is_root_item(it)).map_values(|it: VdfItem| item_path(it))
}

proof fn lemma_root_paths_step(items: Seq<VdfItem>, i: int)
    requires
        0 <= i < items.len(),
    ensures
        root_paths(items.take(i + 1)) == (if is_root_item(items[i]) {
            root_paths(items.take(i)).push(item_path(items[i]))
        } else {
            root_paths(items.take(i))
        }),
{
    let t1 = items.take(i + 1);
    let t0 = items.take(i);
    assert(t1.drop_last() =~= t0);
    assert(t1.last() == items[i]);
    reveal_with_fuel(Seq::filter, 2);
    let pred = |it: VdfItem| is_root_item(it);
    if is_root_item(items[i]) {
        assert(t1.filter(pred) == t0.filter(pred).push(items[i]));
        assert(t1.filter(pred).map_values(|it: VdfItem| item_path(it)) =~= t0.filter(
            pred,
        ).map_values(|it: VdfItem| item_path(it)).push(item_path(items[i])));
    } else {
        assert(t1.filter(pred) == t0.filter(pred));
    }
}

/// Collects the candidate roots from the index items: the values of the
/// items whose key is a decimal number, in the order given.
pub fn library_roots(items: &Vec<VdfItem>) -> (r: Vec<Vec<u8>>)
    ensures
        r@.len() == root_paths(items@).len(),
        forall|t: int| 0 <= t < r@.len() ==> #[trigger] r@[t]@ == root_paths(items@)[t],
{
    let mut r: Vec<Vec<u8>> = Vec::new();
    let mut i: usize = 0;
    while i < items.len()
        invariant
            i <= items@.len(),
            r@.len() == root_paths(items@.take(i as int)).len(),
            forall|t: int|
                0 <= t < r@.len() ==> #[trigger] r@[t]@ == root_paths(items@.take(i as int))[t],
        decreases items@.len() - i,
    {
        let it = &items[i];
        let keep = match &it.value {
            Some(_) => parse_u32(it.key.as_slice()).is_some(),
            None => false,
        };
        proof {
            assert(keep == is_root_item(items@[i as int]));
            lemma_root_paths_step(items@, i as int);
        }
        if keep {
            match &it.value {
                Some(v) => {
                    r.push(vstd::slice::slice_to_vec(v.as_slice()));
                },
                None => {},
            }
        }
        i = i + 1;
    }
    proof {
        assert(items@.take(items@.len() as int) =~= items@);
    }
    r
}

/// Parses a library-folder index and collects its candidate roots: the
/// values under the `LibraryFolders` table whose keys are decimal numbers.
/// Any shape the index cannot have — unparseable text, no `LibraryFolders`
/// table — is a bad-VDF error carrying the index's path.
pub fn load_libraries_vdf(path: &Vec<u8>, data: &Vec<u8>) -> (r: Result<Vec<Vec<u8>>, PatcherError>)
    ensures
        r matches Err(e) ==> e matches PatcherError::BadVDF { path: p } && p@ == path@,
{
    let bad = |p: &Vec<u8>| -> (e: PatcherError)
        ensures
            e matches PatcherError::BadVDF { path: q } && q@ == p@,
        { PatcherError::BadVDF { path: vstd::slice::slice_to_vec(p.as_slice()) } };
    match vdf_parse(data.as_slice()) {
        None => Err(bad(path)),
        Some(root) => match vdf_get(&root, "LibraryFolders") {
            None => Err(bad(path)),
            Some(entry) => match vdf_table_items(entry) {
                None => Err(bad(path)),
                Some(items) => Ok(library_roots(&items)),
            },
        },
    }
}

/// One candidate library root together with the manifest text found under
/// it, if the manifest file existed and could be read.
pub struct LibraryCandidate {
    pub root: Vec<u8>,
    pub manifest: Option<Vec<u8>>,
}

/// Whether the candidate's manifest yields `dir` as the install directory.
pub open spec fn candidate_gives(c: LibraryCandidate, dir: Seq<u8>) -> bool {
    match c.manifest {
        Some(m) => manifest_gives(m@, dir),
        None => false,
    }
}

/// Whether the candidate's manifest yields any install directory.
pub open spec fn candidate_matches(c: LibraryCandidate) -> bool {
    match c.manifest {
        Some(m) => manifest_has_value(m@),
        None => false,
    }
}

/// The install path derived from a library root and an install directory:
/// the root's package area, the fixed common area, and the directory.
pub open spec fn install_path_of(root: Seq<u8>, dir: Seq<u8>) -> Seq<u8> {
    root + "/steamapps/common/".spec_bytes() + dir
}

/// Joins a library root and an install directory into an install path.
pub fn install_path(root: &Vec<u8>, dir: &Vec<u8>) -> (p: Vec<u8>)
    ensures
        p@ == install_path_of(root@, dir@),
{
    let mut p = vstd::slice::slice_to_vec(root.as_slice());
    push_bytes(&mut p, "/steamapps/common/".as_bytes());
    push_bytes(&mut p, dir.as_slice());
    p
}

/// Where a candidate root's manifest for an application lives: the root's
/// package area plus the manifest file's name.
pub fn manifest_path(root: &Vec<u8>, appid: u32) -> (p: Vec<u8>)
    ensures
        p@ == root@ + "/steamapps/".spec_bytes() + "appmanifest_".spec_bytes() + decimal_of(
            appid as nat,
        ) + ".acf".spec_bytes(),
{
    let mut p = vstd::slice::slice_to_vec(root.as_slice());
    push_bytes(&mut p, "/steamapps/".as_bytes());
    let name = manifest_file_name(appid);
    push_bytes(&mut p, name.as_slice());
    p
}

/// Resolves the application's install path: the first candidate whose
/// manifest yields an install directory wins; a candidate whose manifest is
/// missing or yields nothing is passed over, and only when every candidate
/// fails is the manifest reported unfindable.
pub fn resolve_install_path(appid: u32, candidates: &Vec<LibraryCandidate>) -> (r: Result<
    Vec<u8>,
    PatcherError,
>)
    ensures
        match r {
            Ok(p) => exists|i: int, dir: Seq<u8>|
                #![auto]
                {
                    &&& 0 <= i < candidates@.len()
                    &&& candidate_gives(candidates@[i], dir)
                    &&& forall|j: int|
                        0 <= j < i ==> !candidate_matches(#[trigger] candidates@[j])
                    &&& p@ == install_path_of(candidates@[i].root@, dir)
                },
            Err(e) => (forall|j: int|
                0 <= j < candidates@.len() ==> !candidate_matches(#[trigger] candidates@[j])) && e
                == (PatcherError::CantFindManifest { appid }),
        },
{
    let mut i: usize = 0;
    while i < candidates.len()
        invariant
            i <= candidates@.len(),
            forall|j: int| 0 <= j < i ==> !candidate_matches(#[trigger] candidates@[j]),
        decreases candidates@.len() - i,
    {
        let c = &candidates[i];
        match &c.manifest {
            None => {},
            Some(m) => {
                match extract_install_dir(m) {
                    Some(dir) => {
                        let p = install_path(&c.root, &dir);
                        proof {
                            assert(candidate_gives(candidates@[i as int], dir@));
                        }
                        return Ok(p);
                    },
                    None => {},
                }
            },
        }
        i = i + 1;
    }
    Err(PatcherError::CantFindManifest { appid })
}

} // verus!
