//! Transaction signatures.

use crate::table::{Key, RawKey};
use vstd::bytes::{u128_from_le_bytes, u128_to_le_bytes};
use vstd::prelude::*;
use vstd::slice::slice_subrange;

verus! {

/// The signature that identifies a transaction.
#[derive(Clone, Copy, PartialEq, Eq, Debug)]
pub struct Signature {
    pub bytes: [u8; 64],
}

/// The text that stands for the 64 bytes of a signature: what `solana_sdk` displays for them.
pub uninterp spec fn base58(bytes: Seq<u8>) -> Seq<char>;

/// Calls `solana_sdk::signature::Signature::from` on the bytes and displays the result with
/// `to_string`.  Trusted: the text depends on the bytes alone.  Which text it is, is left unsaid.
#[verifier::external_body]
fn display_signature(bytes: &[u8; 64]) -> (text: String)
    ensures
        text@ == base58(bytes@),
{
    solana_sdk::signature::Signature::from(*bytes).to_string()
}

impl Signature {
    /// The signature as log lines show it.
    pub fn text(&self) -> (text: String)
        ensures
            text@ == base58(self.bytes@),
    {
        display_signature(&self.bytes)
    }
}

/// Sixteen bytes of `bytes`, from `start` on, as an integer.
pub open spec fn word(bytes: Seq<u8>, start: int) -> u128 {
    vstd::bytes::spec_u128_from_le_bytes(bytes.subrange(start, start + 16))
}

/// Two signatures that pack into the same integers are the same signature.
proof fn lemma_raw_injective(a: Signature, b: Signature)
    requires
        a.raw() == b.raw(),
    ensures
        a == b,
{
    vstd::bytes::lemma_auto_spec_u128_to_from_le_bytes();
    let x = a.bytes@;
    let y = b.bytes@;
    assert(x.len() == 64 && y.len() == 64);
    let w = |s: Seq<u8>, i: int| s.subrange(i, i + 16);
    assert(vstd::bytes::spec_u128_to_le_bytes(word(x, 0)) == w(x, 0));
    assert(vstd::bytes::spec_u128_to_le_bytes(word(y, 0)) == w(y, 0));
    assert(vstd::bytes::spec_u128_to_le_bytes(word(x, 16)) == w(x, 16));
    assert(vstd::bytes::spec_u128_to_le_bytes(word(y, 16)) == w(y, 16));
    assert(vstd::bytes::spec_u128_to_le_bytes(word(x, 32)) == w(x, 32));
    assert(vstd::bytes::spec_u128_to_le_bytes(word(y, 32)) == w(y, 32));
    assert(vstd::bytes::spec_u128_to_le_bytes(word(x, 48)) == w(x, 48));
    assert(vstd::bytes::spec_u128_to_le_bytes(word(y, 48)) == w(y, 48));
    assert(x =~= w(x, 0) + w(x, 16) + w(x, 32) + w(x, 48));
    assert(y =~= w(y, 0) + w(y, 16) + w(y, 32) + w(y, 48));
    assert(a.bytes =~= b.bytes);
}

impl Key for Signature {
    open spec fn raw(self) -> RawKey {
        (
            word(self.bytes@, 0),
            word(self.bytes@, 16),
            word(self.bytes@, 32),
            word(self.bytes@, 48),
        )
    }

    open spec fn of_raw(raw: RawKey) -> Signature {
        choose|s: Signature| s.raw() == raw
    }

    proof fn lemma_raw_round_trip(self) {
        lemma_raw_injective(Self::of_raw(self.raw()), self);
    }

    fn to_raw(&self) -> (raw: RawKey) {
        let bytes = self.bytes.as_slice();
        (
            u128_from_le_bytes(slice_subrange(bytes, 0, 16)),
            u128_from_le_bytes(slice_subrange(bytes, 16, 32)),
            u128_from_le_bytes(slice_subrange(bytes, 32, 48)),
            u128_from_le_bytes(slice_subrange(bytes, 48, 64)),
        )
    }

    fn from_raw(raw: &RawKey) -> (key: Signature) {
        let a = u128_to_le_bytes(raw.0);
        let b = u128_to_le_bytes(raw.1);
        let c = u128_to_le_bytes(raw.2);
        let d = u128_to_le_bytes(raw.3);
        let mut bytes = [0u8;64];
        let mut i: usize = 0;
        while i < 16
            invariant
                i <= 16,
                a@.len() == b@.len() == c@.len() == d@.len() == 16,
                bytes@.len() == 64,
                bytes@.subrange(0, i as int) == a@.take(i as int),
                bytes@.subrange(16, 16 + i) == b@.take(i as int),
                bytes@.subrange(32, 32 + i) == c@.take(i as int),
                bytes@.subrange(48, 48 + i) == d@.take(i as int),
            decreases 16 - i,
        {
            let ghost before = bytes@;
            bytes[i] = a[i];
            bytes[16 + i] = b[i];
            bytes[32 + i] = c[i];
            bytes[48 + i] = d[i];
            assert(bytes@.subrange(0, i + 1) =~= before.subrange(0, i as int).push(a@[i as int]));
            assert(bytes@.subrange(16, 16 + i + 1) =~= before.subrange(16, 16 + i).push(b@[i as int]));
            assert(bytes@.subrange(32, 32 + i + 1) =~= before.subrange(32, 32 + i).push(c@[i as int]));
            assert(bytes@.subrange(48, 48 + i + 1) =~= before.subrange(48, 48 + i).push(d@[i as int]));
            i = i + 1;
        }
        let key = Signature { bytes };
        proof {
            vstd::bytes::lemma_auto_spec_u128_to_from_le_bytes();
            assert(a@.take(16) =~= a@ && b@.take(16) =~= b@ && c@.take(16) =~= c@ && d@.take(16)
                =~= d@);
            lemma_raw_injective(key, Self::of_raw(*raw));
        }
        key
    }
}

} // verus!
