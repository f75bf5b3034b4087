use vstd::prelude::*;

use crate::types::clone_bytes;

verus! {

/// The ghost mirrors of a sequence of byte strings.
pub open spec fn byte_views(s: Seq<Vec<u8>>) -> Seq<Seq<u8>> {
    Seq::new(s.len(), |i: int| s[i]@)
}

/// The threshold-signature backend the coordination core is built
/// over. Each operation is a pure function of its arguments: the spec
/// functions name the results, and every implementation must return
/// exactly what its own spec functions say. The core's guarantees
/// about aggregation determinism rest on that purity alone, not on
/// any particular scheme.
pub trait BLSCore: Sized {
    /// What signing a message with a share yields.
    spec fn partial_sign_spec(&self, share: Seq<u8>, message: Seq<u8>) -> Seq<u8>;

    /// Whether a partial passes the check against a member's partial
    /// public key.
    spec fn partial_verify_spec(
        &self,
        partial_public_key: Seq<u8>,
        message: Seq<u8>,
        partial: Seq<u8>,
    ) -> bool;

    /// What aggregating a quorum of partials yields.
    spec fn aggregate_spec(&self, threshold: usize, partials: Seq<Seq<u8>>) -> Seq<u8>;

    /// Whether a signature verifies under the group public key.
    spec fn verify_spec(&self, public_key: Seq<u8>, message: Seq<u8>, signature: Seq<u8>) -> bool;

    fn partial_sign(&self, share: &Vec<u8>, message: &Vec<u8>) -> (r: Vec<u8>)
        ensures
            r@ == self.partial_sign_spec(share@, message@),
    ;

    fn partial_verify(
        &self,
        partial_public_key: &Vec<u8>,
        message: &Vec<u8>,
        partial: &Vec<u8>,
    ) -> (r: bool)
        ensures
            r == self.partial_verify_spec(partial_public_key@, message@, partial@),
    ;

    fn aggregate(&self, threshold: usize, partials: &Vec<Vec<u8>>) -> (r: Vec<u8>)
        ensures
            r@ == self.aggregate_spec(threshold, byte_views(partials@)),
    ;

    fn verify(&self, public_key: &Vec<u8>, message: &Vec<u8>, signature: &Vec<u8>) -> (r: bool)
        ensures
            r == self.verify_spec(public_key@, message@, signature@),
    ;
}

/// A structural stand-in for a real threshold-BLS backend, kept
/// deterministic so that the coordination core around it can be
/// exercised end to end. A share signs by prefixing the message; the
/// partial check is a shape check (length, and the message as
/// suffix), so a garbled prefix still passes it but fails the final
/// verification, as a tampered partial would; aggregation takes the
/// first partial of the canonical quorum; a signature verifies when
/// it is the group key followed by the message. Under the mock's key
/// setup every share equals the group public key, so a quorum of
/// honest partials aggregates to a verifying signature.
pub struct MockBLSCore {}

impl BLSCore for MockBLSCore {
    open spec fn partial_sign_spec(&self, share: Seq<u8>, message: Seq<u8>) -> Seq<u8> {
        share + message
    }

    open spec fn partial_verify_spec(
        &self,
        partial_public_key: Seq<u8>,
        message: Seq<u8>,
        partial: Seq<u8>,
    ) -> bool {
        &&& partial.len() == partial_public_key.len() + message.len()
        &&& partial.subrange(partial_public_key.len() as int, partial.len() as int) == message
    }

    open spec fn aggregate_spec(&self, threshold: usize, partials: Seq<Seq<u8>>) -> Seq<u8> {
        if partials.len() == 0 {
            Seq::empty()
        } else {
            partials[0]
        }
    }

    open spec fn verify_spec(&self, public_key: Seq<u8>, message: Seq<u8>, signature: Seq<u8>) -> bool {
        signature == public_key + message
    }

    fn partial_sign(&self, share: &Vec<u8>, message: &Vec<u8>) -> (r: Vec<u8>)
        ensures
            r@ == self.partial_sign_spec(share@, message@),
    {
        concat_bytes(share, message)
    }

    fn partial_verify(
        &self,
        partial_public_key: &Vec<u8>,
        message: &Vec<u8>,
        partial: &Vec<u8>,
    ) -> (r: bool)
        ensures
            r == self.partial_verify_spec(partial_public_key@, message@, partial@),
    {
        let offset = partial_public_key.len();
        if partial.len() < offset {
            return false;
        }
        if partial.len() - offset != message.len() {
            return false;
        }
        let n = message.len();
        let mut i: usize = 0;
        while i < n
            invariant
                offset + n <= usize::MAX,
                partial@.len() == offset + n,
                offset == partial_public_key@.len(),
                n == message@.len(),
                i <= n,
                forall|j: int| 0 <= j < i ==> partial@[offset + j] == message@[j],
            decreases n - i,
        {
            if partial[offset + i] != message[i] {
                proof {
                    assert(partial@.subrange(offset as int, partial@.len() as int)[i as int]
                        != message@[i as int]);
                }
                return false;
            }
            i += 1;
        }
        proof {
            assert(partial@.subrange(offset as int, partial@.len() as int) =~= message@);
        }
        true
    }

    fn aggregate(&self, threshold: usize, partials: &Vec<Vec<u8>>) -> (r: Vec<u8>)
        ensures
            r@ == self.aggregate_spec(threshold, byte_views(partials@)),
    {
        if partials.len() == 0 {
            Vec::new()
        } else {
            clone_bytes(&partials[0])
        }
    }

    fn verify(&self, public_key: &Vec<u8>, message: &Vec<u8>, signature: &Vec<u8>) -> (r: bool)
        ensures
            r == self.verify_spec(public_key@, message@, signature@),
    {
        let expected = concat_bytes(public_key, message);
        bytes_equal(signature, &expected)
    }
}

/// One byte string followed by another.
pub fn concat_bytes(a: &Vec<u8>, b: &Vec<u8>) -> (r: Vec<u8>)
    ensures
        r@ == a@ + b@,
{
    let mut out = clone_bytes(a);
    let mut i: usize = 0;
    while i < b.len()
        invariant
            i <= b@.len(),
            out@ == a@ + b@.take(i as int),
        decreases b@.len() - i,
    {
        out.push(b[i]);
        proof {
            assert(out@ =~= a@ + b@.take(i + 1));
        }
        i += 1;
    }
    proof {
        assert(out@ =~= a@ + b@);
    }
    out
}

/// Byte-wise equality of two byte strings.
pub fn bytes_equal(a: &Vec<u8>, b: &Vec<u8>) -> (r: bool)
    ensures
        r == (a@ == b@),
{
    if a.len() != b.len() {
        proof {
            assert(a@ != b@);
        }
        return false;
    }
    let n = a.len();
    let mut i: usize = 0;
    while i < n
        invariant
            n == a@.len(),
            n == b@.len(),
            i <= n,
            forall|j: int| 0 <= j < i ==> a@[j] == b@[j],
        decreases n - i,
    {
        if a[i] != b[i] {
            proof {
                assert(a@[i as int] != b@[i as int]);
            }
            return false;
        }
        i += 1;
    }
    proof {
        assert(a@ =~= b@);
    }
    true
}

} // verus!
