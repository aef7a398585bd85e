//! Content fingerprinting: SHA-1 digests used as opaque identity keys.

use vstd::prelude::*;

verus! {

/// The SHA-1 digest of a byte sequence, as the `sha1` crate computes it.
/// The digest is a function of the bytes alone; nothing in this crate states
/// which bytes map to which digest value.
pub uninterp spec fn sha1_of(data: Seq<u8>) -> Seq<u8>;

#[verifier::external_type_specification]
#[verifier::external_body]
pub struct ExSha1(sha1::Sha1);

/// A fixed-width content digest.  It is compared for equality and rendered
/// as hex, never interpreted structurally.
#[derive(Debug)]
pub struct Digest {
    bytes: Vec<u8>,
}

impl View for Digest {
    type V = Seq<u8>;

    closed spec fn view(&self) -> Seq<u8> {
        self.bytes@
    }
}

/// The ASCII code of the lower-case hex digit for a value below 16.
pub open spec fn hex_digit(v: u8) -> u8
    recommends
        v < 16,
{
    if v < 10 {
        (48 + v) as u8
    } else {
        (87 + v) as u8
    }
}

/// The lower-case hex rendering of a byte sequence, two digits per byte.
pub open spec fn hex_of(data: Seq<u8>) -> Seq<u8> {
    Seq::new(
        data.len() * 2,
        |i: int|
            if i % 2 == 0 {
                hex_digit((data[i / 2] / 16) as u8)
            } else {
                hex_digit((data[i / 2] % 16) as u8)
            },
    )
}

/// Whether a byte is an ASCII hex digit, in either case.
pub open spec fn is_hex_digit(b: u8) -> bool {
    (48 <= b <= 57) || (97 <= b <= 102) || (65 <= b <= 70)
}

/// The value of an ASCII hex digit.
pub open spec fn hex_val(b: u8) -> u8
    recommends
        is_hex_digit(b),
{
    if 48 <= b <= 57 {
        (b - 48) as u8
    } else if 97 <= b <= 102 {
        (b - 87) as u8
    } else {
        (b - 55) as u8
    }
}

/// The bytes denoted by a sequence of hex digits, two digits per byte.
pub open spec fn bytes_of_hex(s: Seq<u8>) -> Seq<u8>
    recommends
        s.len() % 2 == 0,
{
    Seq::new(s.len() / 2, |i: int| (hex_val(s[2 * i]) * 16 + hex_val(s[2 * i + 1])) as u8)
}

fn hex_digit_exec(v: u8) -> (r: u8)
    requires
        v < 16,
    ensures
        r == hex_digit(v),
{
    if v < 10 {
        48 + v
    } else {
        87 + v
    }
}

impl Digest {
    /// A digest is well formed when it is exactly 20 bytes (160 bits) wide.
    pub open spec fn wf(&self) -> bool {
        self@.len() == 20
    }

    /// Wraps 20 raw bytes as a digest.
    pub fn from_bytes(bytes: Vec<u8>) -> (d: Digest)
        requires
            bytes@.len() == 20,
        ensures
            d@ == bytes@,
            d.wf(),
    {
        Digest { bytes }
    }

    /// The digest's raw bytes.
    pub fn as_bytes(&self) -> (r: &Vec<u8>)
        ensures
            r@ == self@,
    {
        &self.bytes
    }

    /// An owned copy of the digest.
    pub fn duplicate(&self) -> (d: Digest)
        ensures
            d@ == self@,
    {
        Digest { bytes: vstd::slice::slice_to_vec(self.bytes.as_slice()) }
    }

    /// Parses 40 hex digits into a digest; rejects any other input.
    pub fn from_hex(hex: &Vec<u8>) -> (r: Option<Digest>)
        ensures
            match r {
                Some(d) => {
                    &&& hex@.len() == 40
                    &&& forall|i: int| 0 <= i < 40 ==> is_hex_digit(#[trigger] hex@[i])
                    &&& d@ == bytes_of_hex(hex@)
                    &&& d.wf()
                },
                None => !(hex@.len() == 40 && forall|i: int|
                    0 <= i < 40 ==> is_hex_digit(#[trigger] hex@[i])),
            },
    {
        if hex.len() != 40 {
            return None;
        }
        let mut bytes: Vec<u8> = Vec::new();
        let mut i: usize = 0;
        while i < 20
            invariant
                hex@.len() == 40,
                i <= 20,
                bytes@.len() == i,
                forall|j: int| 0 <= j < 2 * i ==> is_hex_digit(#[trigger] hex@[j]),
                forall|j: int| 0 <= j < i ==> #[trigger] bytes@[j] == bytes_of_hex(hex@)[j],
            decreases 20 - i,
        {
            let hi = hex[2 * i];
            let lo = hex[2 * i + 1];
            if !is_hex_digit_exec(hi) || !is_hex_digit_exec(lo) {
                return None;
            }
            bytes.push(hex_val_exec(hi) * 16 + hex_val_exec(lo));
            i = i + 1;
        }
        let d = Digest { bytes };
        proof {
            assert(d@ =~= bytes_of_hex(hex@));
        }
        Some(d)
    }

    /// The digest as 40 lower-case hex digits.
    pub fn to_hex(&self) -> (r: Vec<u8>)
        ensures
            r@ == hex_of(self@),
    {
        let mut r: Vec<u8> = Vec::new();
        let mut i: usize = 0;
        while i < self.bytes.len()
            invariant
                i <= self.bytes@.len(),
                r@.len() == 2 * i,
                forall|j: int| 0 <= j < r@.len() ==> #[trigger] r@[j] == hex_of(self@)[j],
            decreases self.bytes@.len() - i,
        {
            let b = self.bytes[i];
            r.push(hex_digit_exec(b / 16));
            r.push(hex_digit_exec(b % 16));
            i = i + 1;
        }
        proof {
            assert(r@ =~= hex_of(self@));
        }
        r
    }
}

fn is_hex_digit_exec(b: u8) -> (r: bool)
    ensures
        r == is_hex_digit(b),
{
    (48 <= b && b <= 57) || (97 <= b && b <= 102) || (65 <= b && b <= 70)
}

fn hex_val_exec(b: u8) -> (r: u8)
    requires
        is_hex_digit(b),
    ensures
        r == hex_val(b),
        r < 16,
{
    if 48 <= b && b <= 57 {
        b - 48
    } else if 97 <= b && b <= 102 {
        b - 87
    } else {
        b - 55
    }
}

impl PartialEq for Digest {
    fn eq(&self, other: &Digest) -> (r: bool) {
        let r = self.bytes == other.bytes;
        proof {
            if r {
                assert(self@ =~= other@);
            } else {
                assert(!(self.bytes@ =~= other.bytes@));
            }
        }
        r
    }
}

impl vstd::std_specs::cmp::PartialEqSpecImpl for Digest {
    open spec fn obeys_eq_spec() -> bool {
        true
    }

    open spec fn eq_spec(&self, other: &Digest) -> bool {
        self@ == other@
    }
}

/// A streaming content fingerprint: a SHA-1 accumulator together with the
/// sequence of bytes it has absorbed so far (its view).  Callers feed the
/// content in chunks of any size and finish with `digest`, so fingerprinting
/// a large stream needs only a bounded buffer.
pub struct Fingerprinter {
    inner: sha1::Sha1,
    fed: Ghost<Seq<u8>>,
}

impl View for Fingerprinter {
    type V = Seq<u8>;

    closed spec fn view(&self) -> Seq<u8> {
        self.fed@
    }
}

/// Relies on sha1::Sha1::new: a fresh accumulator that has absorbed nothing.
#[verifier::external_body]
fn new_sha1() -> sha1::Sha1 {
    sha1::Sha1::new()
}

impl Fingerprinter {
    /// A fingerprinter that has absorbed no bytes yet.
    pub fn new() -> (h: Fingerprinter)
        ensures
            h@ == Seq::<u8>::empty(),
    {
        Fingerprinter { inner: new_sha1(), fed: Ghost(Seq::empty()) }
    }

    /// Relies on sha1::Sha1::update: absorbs `data` after everything
    /// absorbed before it.
    #[verifier::external_body]
    fn absorb(&mut self, data: &[u8])
        ensures
            final(self)@ == old(self)@ + data@,
    {
        self.inner.update(data);
    }

    /// Relies on sha1::Sha1::digest and sha1::Digest::bytes: the 20-byte
    /// SHA-1 digest of all absorbed bytes, a function of those bytes alone.
    #[verifier::external_body]
    fn digest_bytes(&self) -> (d: Vec<u8>)
        ensures
            d@ == sha1_of(self@),
            d@.len() == 20,
    {
        self.inner.digest().bytes().to_vec()
    }

    /// Absorbs the next chunk of the content.
    pub fn update(&mut self, data: &[u8])
        ensures
            final(self)@ == old(self)@ + data@,
    {
        self.absorb(data);
    }

    /// The digest of everything absorbed so far.
    pub fn digest(&self) -> (d: Digest)
        ensures
            d@ == sha1_of(self@),
            d.wf(),
    {
        Digest::from_bytes(self.digest_bytes())
    }
}

/// The content fingerprint of an in-memory byte buffer.
pub fn fingerprint(data: &Vec<u8>) -> (d: Digest)
    ensures
        d@ == sha1_of(data@),
        d.wf(),
{
    let mut h = Fingerprinter::new();
    h.update(data.as_slice());
    proof {
        assert(Seq::<u8>::empty() + data@ =~= data@);
    }
    h.digest()
}

/// Fingerprinting is deterministic: the digest depends on the byte content
/// alone, so equal contents always fingerprint to equal digests.
pub proof fn lemma_digest_deterministic(a: Seq<u8>, b: Seq<u8>)
    requires
        a == b,
    ensures
        sha1_of(a) == sha1_of(b),
{
}

/// Hex round trip: rendering bytes as hex digits and parsing them back
/// restores the bytes exactly.
pub proof fn lemma_hex_round_trip(d: Seq<u8>)
    ensures
        hex_of(d).len() == 2 * d.len(),
        forall|i: int| 0 <= i < 2 * d.len() ==> is_hex_digit(#[trigger] hex_of(d)[i]),
        bytes_of_hex(hex_of(d)) == d,
{
    let h = hex_of(d);
    assert forall|i: int| 0 <= i < d.len() implies bytes_of_hex(h)[i] == d[i] by {
        assert(h[2 * i] == hex_digit((d[i] / 16) as u8));
        assert(h[2 * i + 1] == hex_digit((d[i] % 16) as u8));
        assert(hex_val(hex_digit((d[i] / 16) as u8)) == d[i] / 16);
        assert(hex_val(hex_digit((d[i] % 16) as u8)) == d[i] % 16);
        assert(d[i] == (d[i] / 16) * 16 + d[i] % 16) by (nonlinear_arith);
    }
    assert(bytes_of_hex(h) =~= d);
}

} // verus!
