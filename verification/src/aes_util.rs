//! The stream cipher adapter: AES-128 in 8-bit cipher feedback mode, keyed
//! and IV'd with the same 16-byte shared secret.
//!
//! Every byte crossing the wire after login encryption is switched on goes
//! through one of these transforms, strictly in arrival order.  The
//! keystream byte for a position depends only on the secret and on all
//! prior ciphertext bytes, which [`cfb8_pad`] names; both directions are
//! specified against it, so that decryption inverting encryption is a
//! proved fact ([`lemma_cipher_round_trip`]) rather than an assumption.

use vstd::prelude::*;

use cipher::{BlockCipher, BlockDecryptMut, BlockEncryptMut, KeyIvInit};

verus! {

/// The CFB-8 encryptor over AES-128, held opaquely: Verus sees nothing of
/// the cfb8 crate's `Encryptor<aes::Aes128>` inside.
#[verifier::external_body]
pub struct Aes128Cfb8Enc {
    inner: cfb8::Encryptor<aes::Aes128>,
}

/// The CFB-8 decryptor over AES-128, held opaquely: Verus sees nothing of
/// the cfb8 crate's `Decryptor<aes::Aes128>` inside.
#[verifier::external_body]
pub struct Aes128Cfb8Dec {
    inner: cfb8::Decryptor<aes::Aes128>,
}

/// The keystream byte that AES-128/CFB-8 produces when key and IV are both
/// `secret` and `prior` ciphertext bytes have passed through the feedback
/// register.  The cfb8 crate computes it from the secret and the last 16
/// ciphertext bytes alone, so it is a function of these arguments.
pub uninterp spec fn cfb8_pad(secret: Seq<u8>, prior: Seq<u8>) -> u8;

/// Ciphertext `ct` is what CFB-8 under `secret` makes of plaintext `plain`,
/// starting from feedback history `history`: byte for byte, an xor with the
/// keystream byte derived from everything sent before.
pub open spec fn cfb8_transcript(
    secret: Seq<u8>,
    history: Seq<u8>,
    plain: Seq<u8>,
    ct: Seq<u8>,
) -> bool {
    &&& ct.len() == plain.len()
    &&& forall|i: int|
        0 <= i < plain.len() ==> ct[i] == (plain[i] ^ cfb8_pad(secret, history + ct.take(i)))
}

/// An encrypting transform with its feedback state.
pub struct StreamEncryptor {
    inner: Aes128Cfb8Enc,
    secret: Ghost<Seq<u8>>,
    past: Ghost<Seq<u8>>,
}

/// A decrypting transform with its feedback state.
pub struct StreamDecryptor {
    inner: Aes128Cfb8Dec,
    secret: Ghost<Seq<u8>>,
    past: Ghost<Seq<u8>>,
}

/// An encrypting byte transform whose feedback state absorbs every
/// ciphertext byte it emits.
pub trait SimpleEncryptor {
    /// The secret keying the transform.
    spec fn key(&self) -> Seq<u8>;

    /// Every ciphertext byte emitted so far.
    spec fn processed(&self) -> Seq<u8>;

    /// Transform plaintext to ciphertext, advancing the feedback state.
    fn encrypt(&mut self, data: &Vec<u8>) -> (r: Vec<u8>)
        ensures
            final(self).key() == old(self).key(),
            final(self).processed() == old(self).processed() + r@,
            cfb8_transcript(old(self).key(), old(self).processed(), data@, r@),
    ;
}

/// A decrypting byte transform whose feedback state absorbs every
/// ciphertext byte it consumes.
pub trait SimpleDecryptor {
    /// The secret keying the transform.
    spec fn key(&self) -> Seq<u8>;

    /// Every ciphertext byte consumed so far.
    spec fn processed(&self) -> Seq<u8>;

    /// Transform ciphertext back to plaintext, advancing the feedback state.
    fn decrypt(&mut self, data: &Vec<u8>) -> (r: Vec<u8>)
        ensures
            final(self).key() == old(self).key(),
            final(self).processed() == old(self).processed() + data@,
            cfb8_transcript(old(self).key(), old(self).processed(), r@, data@),
    ;
}

impl StreamEncryptor {
    /// Relies on `cipher::BlockEncryptMut::encrypt_block_mut` of
    /// `cfb8::Encryptor<aes::Aes128>`: one byte becomes its xor with the
    /// keystream byte derived from the key and the ciphertext seen so far,
    /// and the feedback register then absorbs the new ciphertext byte.
    #[verifier::external_body]
    fn encrypt_byte(&mut self, b: u8) -> (c: u8)
        ensures
            c == (b ^ cfb8_pad(old(self).secret@, old(self).past@)),
            final(self).secret@ == old(self).secret@,
            final(self).past@ == old(self).past@.push(c),
    {
        let mut block = cipher::generic_array::GenericArray::clone_from_slice(&[b]);
        self.inner.inner.encrypt_block_mut(&mut block);
        block[0]
    }
}

impl StreamDecryptor {
    /// Relies on `cipher::BlockDecryptMut::decrypt_block_mut` of
    /// `cfb8::Decryptor<aes::Aes128>`: one ciphertext byte becomes its xor
    /// with the keystream byte derived from the key and the ciphertext seen
    /// so far, and the feedback register then absorbs the ciphertext byte.
    #[verifier::external_body]
    fn decrypt_byte(&mut self, c: u8) -> (m: u8)
        ensures
            m == (c ^ cfb8_pad(old(self).secret@, old(self).past@)),
            final(self).secret@ == old(self).secret@,
            final(self).past@ == old(self).past@.push(c),
    {
        let mut block = cipher::generic_array::GenericArray::clone_from_slice(&[c]);
        self.inner.inner.decrypt_block_mut(&mut block);
        block[0]
    }
}

/// Relies on `cfb8::Encryptor::new_from_slices` (`cipher::KeyIvInit`): it
/// builds the raw transform from a 16-byte key and a 16-byte IV, here both
/// the shared secret.  The ghost fields beside it record that key.
#[verifier::external_body]
fn raw_encryptor(shared_secret: &Vec<u8>) -> Aes128Cfb8Enc
    requires
        shared_secret@.len() == 16,
{
    Aes128Cfb8Enc {
        inner: cfb8::Encryptor::new_from_slices(
            shared_secret.as_slice(),
            shared_secret.as_slice(),
        ).unwrap(),
    }
}

/// Relies on `cfb8::Decryptor::new_from_slices` (`cipher::KeyIvInit`): it
/// builds the raw transform from a 16-byte key and a 16-byte IV, here both
/// the shared secret.  The ghost fields beside it record that key.
#[verifier::external_body]
fn raw_decryptor(shared_secret: &Vec<u8>) -> Aes128Cfb8Dec
    requires
        shared_secret@.len() == 16,
{
    Aes128Cfb8Dec {
        inner: cfb8::Decryptor::new_from_slices(
            shared_secret.as_slice(),
            shared_secret.as_slice(),
        ).unwrap(),
    }
}

fn new_encryptor(shared_secret: &Vec<u8>) -> (r: StreamEncryptor)
    requires
        shared_secret@.len() == 16,
    ensures
        r.secret@ == shared_secret@,
        r.past@ == Seq::<u8>::empty(),
{
    StreamEncryptor {
        inner: raw_encryptor(shared_secret),
        secret: Ghost(shared_secret@),
        past: Ghost(Seq::empty()),
    }
}

fn new_decryptor(shared_secret: &Vec<u8>) -> (r: StreamDecryptor)
    requires
        shared_secret@.len() == 16,
    ensures
        r.secret@ == shared_secret@,
        r.past@ == Seq::<u8>::empty(),
{
    StreamDecryptor {
        inner: raw_decryptor(shared_secret),
        secret: Ghost(shared_secret@),
        past: Ghost(Seq::empty()),
    }
}

/// Build the encrypt and decrypt transforms for one session, both keyed and
/// IV'd with the same 16-byte shared secret and starting from fresh state.
pub fn initialize(shared_secret: &Vec<u8>) -> (r: (StreamEncryptor, StreamDecryptor))
    requires
        shared_secret@.len() == 16,
    ensures
        r.0.key() == shared_secret@,
        r.0.processed() == Seq::<u8>::empty(),
        r.1.key() == shared_secret@,
        r.1.processed() == Seq::<u8>::empty(),
{
    (new_encryptor(shared_secret), new_decryptor(shared_secret))
}

impl SimpleEncryptor for StreamEncryptor {
    closed spec fn key(&self) -> Seq<u8> {
        self.secret@
    }

    closed spec fn processed(&self) -> Seq<u8> {
        self.past@
    }

    fn encrypt(&mut self, data: &Vec<u8>) -> (r: Vec<u8>) {
        let ghost okey = self.secret@;
        let ghost opast = self.past@;
        let mut out: Vec<u8> = Vec::new();
        let n: usize = data.len();
        let mut idx: usize = 0;
        proof {
            assert(self.past@ =~= opast + out@);
        }
        while idx < n
            invariant
                n == data@.len(),
                idx <= n,
                out@.len() == idx,
                self.secret@ == okey,
                self.past@ == opast + out@,
                forall|i: int|
                    0 <= i < idx ==> out@[i] == (data@[i] ^ cfb8_pad(okey, opast + out@.take(i))),
            decreases n - idx,
        {
            let ghost prev = out@;
            let c: u8 = self.encrypt_byte(data[idx]);
            out.push(c);
            proof {
                assert(out@.take(idx as int) =~= prev);
                assert(self.past@ =~= opast + out@);
                assert forall|i: int| 0 <= i < idx + 1 implies out@[i] == (data@[i] ^ cfb8_pad(
                    okey,
                    opast + out@.take(i),
                )) by {
                    if i < idx {
                        assert(out@.take(i) =~= prev.take(i));
                        assert(out@[i] == prev[i]);
                    }
                }
            }
            idx = idx + 1;
        }
        out
    }
}

impl SimpleDecryptor for StreamDecryptor {
    closed spec fn key(&self) -> Seq<u8> {
        self.secret@
    }

    closed spec fn processed(&self) -> Seq<u8> {
        self.past@
    }

    fn decrypt(&mut self, data: &Vec<u8>) -> (r: Vec<u8>) {
        let ghost okey = self.secret@;
        let ghost opast = self.past@;
        let mut out: Vec<u8> = Vec::new();
        let n: usize = data.len();
        let mut idx: usize = 0;
        proof {
            assert(self.past@ =~= opast + data@.take(0));
        }
        while idx < n
            invariant
                n == data@.len(),
                idx <= n,
                out@.len() == idx,
                self.secret@ == okey,
                self.past@ == opast + data@.take(idx as int),
                forall|i: int|
                    0 <= i < idx ==> out@[i] == (data@[i] ^ cfb8_pad(okey, opast + data@.take(i))),
            decreases n - idx,
        {
            let m: u8 = self.decrypt_byte(data[idx]);
            out.push(m);
            proof {
                assert(data@.take(idx as int).push(data@[idx as int]) =~= data@.take(idx + 1));
                assert(self.past@ =~= opast + data@.take(idx + 1));
            }
            idx = idx + 1;
        }
        proof {
            assert(data@.take(n as int) =~= data@);
            assert forall|i: int| 0 <= i < n implies data@[i] == (out@[i] ^ cfb8_pad(
                okey,
                opast + data@.take(i),
            )) by {
                let p = cfb8_pad(okey, opast + data@.take(i));
                let d = data@[i];
                assert((d ^ p) ^ p == d) by (bit_vector);
            }
        }
        out
    }
}

/// Law: a transform keyed with the same secret and fed the same ciphertext
/// feedback recovers the plaintext exactly; the xor with the keystream is
/// its own inverse.
pub proof fn lemma_cipher_round_trip(
    secret: Seq<u8>,
    history: Seq<u8>,
    plain: Seq<u8>,
    ct: Seq<u8>,
    recovered: Seq<u8>,
)
    requires
        cfb8_transcript(secret, history, plain, ct),
        cfb8_transcript(secret, history, recovered, ct),
    ensures
        recovered == plain,
{
    assert forall|i: int| 0 <= i < plain.len() implies recovered[i] == plain[i] by {
        let p = cfb8_pad(secret, history + ct.take(i));
        let a = plain[i];
        let b = recovered[i];
        let c = ct[i];
        assert(c == (a ^ p) && c == (b ^ p) ==> a == b) by (bit_vector);
    }
    assert(recovered =~= plain);
}

/// Law: encrypting two chunks one after the other is the same as encrypting
/// their concatenation in one call; the feedback state carries over.
pub proof fn lemma_cipher_chunking(
    secret: Seq<u8>,
    history: Seq<u8>,
    m1: Seq<u8>,
    c1: Seq<u8>,
    m2: Seq<u8>,
    c2: Seq<u8>,
)
    requires
        cfb8_transcript(secret, history, m1, c1),
        cfb8_transcript(secret, history + c1, m2, c2),
    ensures
        cfb8_transcript(secret, history, m1 + m2, c1 + c2),
{
    let m = m1 + m2;
    let c = c1 + c2;
    assert forall|i: int| 0 <= i < m.len() implies c[i] == (m[i] ^ cfb8_pad(
        secret,
        history + c.take(i),
    )) by {
        if i < m1.len() {
            assert(c.take(i) =~= c1.take(i));
            assert(c[i] == c1[i] && m[i] == m1[i]);
        } else {
            let j = i - m1.len();
            assert(c.take(i) =~= c1 + c2.take(j));
            assert(history + (c1 + c2.take(j)) =~= (history + c1) + c2.take(j));
            assert(c[i] == c2[j] && m[i] == m2[j]);
        }
    }
}

} // verus!
