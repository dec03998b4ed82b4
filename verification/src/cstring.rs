//! C strings as plain bytes: where a string ends in native memory, and
//! the form in which a string is handed to native code.

use vstd::prelude::*;

verus! {

/// How many bytes of `bytes` come before its first nul byte; all of
/// them where it holds none.
pub open spec fn nul_position(bytes: Seq<u8>) -> int
    decreases bytes.len(),
{
    if bytes.len() == 0 || bytes[0] == 0 {
        0
    } else {
        1 + nul_position(bytes.drop_first())
    }
}

/// The string that C code reads at the start of `mem`: the bytes before
/// the first nul byte.
pub open spec fn c_str(mem: Seq<u8>) -> Seq<u8> {
    mem.take(nul_position(mem))
}

/// `nul_position` lies within the sequence, no byte before it is nul,
/// and the byte at it, if there is one, is nul.
pub proof fn lemma_nul_position(bytes: Seq<u8>)
    ensures
        0 <= nul_position(bytes) <= bytes.len(),
        forall|i: int| 0 <= i < nul_position(bytes) ==> bytes[i] != 0,
        nul_position(bytes) < bytes.len() ==> bytes[nul_position(bytes)] == 0,
        nul_position(bytes) == bytes.len() <==> !bytes.contains(0),
    decreases bytes.len(),
{
    if bytes.len() == 0 || bytes[0] == 0 {
    } else {
        let rest = bytes.drop_first();
        lemma_nul_position(rest);
        assert forall|i: int| 0 <= i < nul_position(bytes) implies bytes[i] != 0 by {
            if i > 0 {
                assert(bytes[i] == rest[i - 1]);
            }
        }
        if rest.contains(0) {
            let j = choose|j: int| 0 <= j < rest.len() && rest[j] == 0;
            assert(bytes[j + 1] == 0);
        }
        if bytes.contains(0) {
            let j = choose|j: int| 0 <= j < bytes.len() && bytes[j] == 0;
            assert(rest[j - 1] == 0);
        }
    }
}

/// The place described by `lemma_nul_position` is the only one of its
/// kind.
pub proof fn lemma_nul_position_is(bytes: Seq<u8>, p: int)
    requires
        0 <= p <= bytes.len(),
        forall|i: int| 0 <= i < p ==> bytes[i] != 0,
        p < bytes.len() ==> bytes[p] == 0,
    ensures
        nul_position(bytes) == p,
{
    lemma_nul_position(bytes);
}

/// The error of [`CString::new`]: the bytes handed in held a nul byte.
#[derive(Debug)]
pub struct NulError {
    position: usize,
    bytes: Vec<u8>,
}

impl NulError {
    /// Where the first nul byte stood.
    pub closed spec fn position(self) -> usize {
        self.position
    }

    /// The bytes that were refused.
    pub closed spec fn bytes(self) -> Seq<u8> {
        self.bytes@
    }

    pub fn nul_position(&self) -> (r: usize)
        ensures
            r == self.position(),
    {
        self.position
    }

    pub fn into_vec(self) -> (r: Vec<u8>)
        ensures
            r@ == self.bytes(),
    {
        self.bytes
    }
}

/// A string in the form that native code takes: bytes without a nul
/// byte among them, followed by one nul byte.
#[derive(Debug)]
pub struct CString {
    inner: Vec<u8>,
}

impl View for CString {
    type V = Seq<u8>;

    /// The bytes held, the closing nul byte included.
    closed spec fn view(&self) -> Seq<u8> {
        self.inner@
    }
}

impl CString {
    #[verifier::type_invariant]
    spec fn well_formed(self) -> bool {
        &&& self.inner@.len() > 0
        &&& nul_position(self.inner@) == self.inner@.len() - 1
    }

    /// Closes `bytes` with a nul byte, unless one stands among them.
    pub fn new(bytes: Vec<u8>) -> (r: Result<CString, NulError>)
        ensures
            match r {
                Ok(s) => !bytes@.contains(0) && s@ == bytes@.push(0),
                Err(e) => bytes@.contains(0) && e.position() == nul_position(bytes@) && e.bytes()
                    == bytes@,
            },
    {
        let mut i: usize = 0;
        while i < bytes.len()
            invariant
                i <= bytes@.len(),
                forall|j: int| 0 <= j < i ==> bytes@[j] != 0,
            decreases bytes@.len() - i,
        {
            if bytes[i] == 0 {
                proof {
                    lemma_nul_position_is(bytes@, i as int);
                }
                return Err(NulError { position: i, bytes });
            }
            i += 1;
        }
        let ghost given = bytes@;
        let mut inner = bytes;
        inner.push(0);
        proof {
            lemma_nul_position_is(inner@, given.len() as int);
        }
        Ok(CString { inner })
    }

    /// The bytes held, the closing nul byte included.
    pub fn as_bytes_with_nul(&self) -> (r: &[u8])
        ensures
            r@ == self@,
            r@.len() > 0,
            nul_position(r@) == r@.len() - 1,
    {
        proof {
            use_type_invariant(self);
        }
        self.inner.as_slice()
    }
}

} // verus!
