//! The error taxonomy: one variant per failure condition, each carrying the
//! minimal context its message needs.

use vstd::prelude::*;
use vstd::string::StringSliceAdditionalSpecFns;
use crate::digest::{Digest, hex_of};
use crate::numbers::{decimal_of, to_decimal};

verus! {

/// Everything that can go wrong while resolving, classifying or patching.
#[derive(Debug)]
pub enum PatcherError {
    /// The content fingerprint matched no registry entry; nothing is written.
    UnknownVersion { hash: Digest },
    /// A package-manager index or manifest exists but cannot be understood.
    BadVDF { path: Vec<u8> },
    /// No candidate library root yielded a manifest for the application.
    CantFindManifest { appid: u32 },
    /// A change does not fit inside the content; earlier changes in the list
    /// may already have been committed (a mixed, indeterminate state).
    WriteFailed { offset: u64 },
    /// All changes were written, but the resulting fingerprint is not the
    /// expected one; the content must be treated as suspect.
    VerificationFailed,
}

/// Wraps an error as the `Err` case of any result type.
pub fn err_box<T>(e: PatcherError) -> (r: Result<T, PatcherError>)
    ensures
        r == Result::<T, PatcherError>::Err(e),
{
    Err(e)
}

/// Copies `src` onto the end of `dst`.
pub fn push_bytes(dst: &mut Vec<u8>, src: &[u8])
    ensures
        final(dst)@ == old(dst)@ + src@,
{
    let mut i: usize = 0;
    while i < src.len()
        invariant
            i <= src@.len(),
            dst@ == old(dst)@ + src@.take(i as int),
        decreases src@.len() - i,
    {
        let b = src[i];
        dst.push(b);
        proof {
            assert(old(dst)@ + src@.take(i as int) + seq![src@[i as int]] =~= old(dst)@
                + src@.take(i as int + 1));
        }
        i = i + 1;
    }
    proof {
        assert(src@.take(src@.len() as int) =~= src@);
    }
}

impl PatcherError {
    /// The human-readable message for this error.
    pub open spec fn message_spec(&self) -> Seq<u8> {
        match self {
            PatcherError::UnknownVersion { hash } => "Unknown executable version: SHA1: ".spec_bytes()
                + hex_of(hash@),
            PatcherError::BadVDF { path } => "Invalid VDF file: ".spec_bytes() + path@,
            PatcherError::CantFindManifest { appid } => "Cannot find manifest for appid ".spec_bytes()
                + decimal_of(*appid as nat),
            PatcherError::WriteFailed { offset } => "Write failed at offset ".spec_bytes()
                + decimal_of(*offset as nat),
            PatcherError::VerificationFailed => "Executable did not verify after patching".spec_bytes(),
        }
    }

    /// Renders the error as message bytes for diagnostic output.
    pub fn message(&self) -> (m: Vec<u8>)
        ensures
            m@ == self.message_spec(),
    {
        match self {
            PatcherError::UnknownVersion { hash } => {
                let mut m = vstd::slice::slice_to_vec("Unknown executable version: SHA1: ".as_bytes());
                let hx = hash.to_hex();
                push_bytes(&mut m, hx.as_slice());
                m
            },
            PatcherError::BadVDF { path } => {
                let mut m = vstd::slice::slice_to_vec("Invalid VDF file: ".as_bytes());
                push_bytes(&mut m, path.as_slice());
                m
            },
            PatcherError::CantFindManifest { appid } => {
                let mut m = vstd::slice::slice_to_vec("Cannot find manifest for appid ".as_bytes());
                let num = to_decimal(*appid as u64);
                push_bytes(&mut m, num.as_slice());
                m
            },
            PatcherError::WriteFailed { offset } => {
                let mut m = vstd::slice::slice_to_vec("Write failed at offset ".as_bytes());
                let num = to_decimal(*offset);
                push_bytes(&mut m, num.as_slice());
                m
            },
            PatcherError::VerificationFailed => {
                vstd::slice::slice_to_vec("Executable did not verify after patching".as_bytes())
            },
        }
    }
}

} // verus!
