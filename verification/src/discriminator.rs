//! Instruction-discriminator helpers.
//!
//! Instruction payloads are tagged with an 8-byte discriminator: the first
//! eight bytes of the SHA-256 digest of `"{namespace}:{name}"`. The digest
//! itself comes from an outside implementation and is only named here; all
//! framing around it is verified.

use vstd::prelude::*;
use vstd::string::StringSliceAdditionalSpecFns;

verus! {

/// The SHA-256 digest of a byte sequence. The digest is a function of the
/// input bytes alone; its value is not spelled out here.
pub uninterp spec fn sha256_of(data: Seq<u8>) -> Seq<u8>;

/// Relies on `sha2::Sha256::digest`: one SHA-256 digest of the input
/// bytes, 32 bytes long, depending on the input alone.
#[verifier::external_body]
fn sha256_digest(data: &[u8]) -> (r: [u8; 32])
    ensures
        r@ == sha256_of(data@),
{
    let d = <sha2::Sha256 as sha2::Digest>::digest(data);
    let mut out = [0u8; 32];
    out.copy_from_slice(&d);
    out
}

/// The concatenation of a sequence of byte sequences, in order.
pub open spec fn concat_bytes(vals: Seq<Seq<u8>>) -> Seq<u8>
    decreases vals.len(),
{
    if vals.len() == 0 {
        Seq::empty()
    } else {
        concat_bytes(vals.drop_last()) + vals.last()
    }
}

/// Append a byte slice to a byte vector.
fn extend_bytes(dst: &mut Vec<u8>, src: &[u8])
    ensures
        final(dst)@ == old(dst)@ + src@,
{
    let mut i: usize = 0;
    while i < src.len()
        invariant
            i <= src@.len(),
            dst@ == old(dst)@ + src@.subrange(0, i as int),
        decreases src@.len() - i,
    {
        dst.push(src[i]);
        proof {
            assert(old(dst)@ + src@.subrange(0, i as int + 1) =~= (old(dst)@ + src@.subrange(
                0,
                i as int,
            )).push(src@[i as int]));
        }
        i = i + 1;
    }
    proof {
        assert(src@.subrange(0, src@.len() as int) =~= src@);
    }
}

/// Incremental hasher: bytes fed to it accumulate, and the result is one
/// SHA-256 digest of everything fed, in order.
#[derive(Clone)]
pub struct Hasher {
    buf: Vec<u8>,
}

impl View for Hasher {
    type V = Seq<u8>;

    closed spec fn view(&self) -> Seq<u8> {
        self.buf@
    }
}

impl Hasher {
    /// A hasher that has seen no bytes yet.
    pub fn new() -> (r: Hasher)
        ensures
            r@ == Seq::<u8>::empty(),
    {
        Hasher { buf: Vec::new() }
    }

    /// Feed one byte slice.
    pub fn hash(&mut self, val: &[u8])
        ensures
            final(self)@ == old(self)@ + val@,
    {
        extend_bytes(&mut self.buf, val);
    }

    /// Feed several byte slices, in order.
    pub fn hashv(&mut self, vals: &[&[u8]])
        ensures
            final(self)@ == old(self)@ + concat_bytes(vals.deep_view()),
    {
        let mut i: usize = 0;
        proof {
            assert(concat_bytes(vals.deep_view().take(0)) =~= Seq::<u8>::empty());
        }
        while i < vals.len()
            invariant
                i <= vals@.len(),
                vals.deep_view().len() == vals@.len(),
                self@ == old(self)@ + concat_bytes(vals.deep_view().take(i as int)),
            decreases vals@.len() - i,
        {
            self.hash(vals[i]);
            proof {
                let dv = vals.deep_view();
                assert(dv.take(i as int + 1).drop_last() =~= dv.take(i as int));
                assert(dv.take(i as int + 1).last() == dv[i as int]);
                assert(dv[i as int] == vals@[i as int]@);
            }
            i = i + 1;
        }
        proof {
            assert(vals.deep_view().take(vals@.len() as int) =~= vals.deep_view());
        }
    }

    /// The digest of everything fed so far.
    pub fn result(self) -> (r: [u8; 32])
        ensures
            r@ == sha256_of(self@),
    {
        sha256_digest(self.buf.as_slice())
    }
}

impl Default for Hasher {
    fn default() -> (r: Hasher)
        ensures
            r@ == Seq::<u8>::empty(),
    {
        Hasher::new()
    }
}

/// The SHA-256 digest of the concatenation of the given byte slices.
pub fn hashv(vals: &[&[u8]]) -> (r: [u8; 32])
    ensures
        r@ == sha256_of(concat_bytes(vals.deep_view())),
{
    let mut hasher = Hasher::new();
    hasher.hashv(vals);
    hasher.result()
}

/// The SHA-256 digest of one byte slice.
pub fn hash(val: &[u8]) -> (r: [u8; 32])
    ensures
        r@ == sha256_of(val@),
{
    let mut hasher = Hasher::new();
    hasher.hash(val);
    hasher.result()
}

/// The 8-byte instruction discriminator: the first eight bytes of the
/// SHA-256 digest of `"{namespace}:{name}"`.
pub fn sighash(namespace: &str, name: &str) -> (r: [u8; 8])
    ensures
        r@ == sha256_of(namespace.spec_bytes() + seq![58u8] + name.spec_bytes()).subrange(0, 8),
{
    let mut preimage: Vec<u8> = Vec::new();
    extend_bytes(&mut preimage, namespace.as_bytes());
    preimage.push(58);  // the ':' separator
    extend_bytes(&mut preimage, name.as_bytes());
    proof {
        assert(preimage@ =~= namespace.spec_bytes() + seq![58u8] + name.spec_bytes());
    }
    let digest = sha256_digest(preimage.as_slice());
    let mut out: [u8; 8] = [0u8; 8];
    let mut i: usize = 0;
    while i < 8
        invariant
            i <= 8,
            digest@ == sha256_of(namespace.spec_bytes() + seq![58u8] + name.spec_bytes()),
            forall|k: int| 0 <= k < i ==> out@[k] == digest@[k],
        decreases 8 - i,
    {
        out[i] = digest[i];
        i = i + 1;
    }
    proof {
        assert(out@ =~= digest@.subrange(0, 8));
    }
    out
}

/// Instruction data: the discriminator for `name` in the `"global"`
/// namespace, followed by the given payload.
pub fn get_ix_data(name: &str, ix_data: Vec<u8>) -> (r: Vec<u8>)
    ensures
        r@ == sha256_of("global".spec_bytes() + seq![58u8] + name.spec_bytes()).subrange(0, 8)
            + ix_data@,
{
    let sh = sighash("global", name);
    let mut data: Vec<u8> = Vec::new();
    extend_bytes(&mut data, &sh);
    let mut payload = ix_data;
    data.append(&mut payload);
    data
}

} // verus!
