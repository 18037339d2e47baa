//! PAN tokenization and authenticated encryption.
//!
//! The token store is the single source of truth for reversing
//! tokenization; it never leaves this module. Encryption is AES-256-GCM
//! with a fresh random nonce for every call; the nonce is transmitted in
//! front of the ciphertext, and the tag follows it.

use vstd::prelude::*;
use crate::errors::PayError;
use crate::ids::generate_id;
use vstd::string::StringExecFns;

verus! {

/// Ring's AEAD key type, opaque to the verifier.
#[verifier::external_type_specification]
#[verifier::external_body]
pub struct ExLessSafeKey(ring::aead::LessSafeKey);

/// Ring's system random source, opaque to the verifier.
#[verifier::external_type_specification]
#[verifier::external_body]
pub struct ExSystemRandom(ring::rand::SystemRandom);

/// Relies on `ring::rand::SystemRandom::new`: a handle on the
/// operating system's secure random source.
#[verifier::external_body]
fn new_system_random() -> ring::rand::SystemRandom {
    ring::rand::SystemRandom::new()
}

/// Relies on `ring::rand::SecureRandom::fill` for `SystemRandom`: fills
/// a buffer of length `n` with random bytes; on failure returns `None`.
/// The bytes are random, so only the length is stated.
#[verifier::external_body]
fn fill_random(rng: &ring::rand::SystemRandom, n: usize) -> (r: Option<Vec<u8>>)
    ensures
        (match r {
            Some(v) => v@.len() == n,
            None => true,
        }),
{
    let mut buf = vec![0u8; n];
    match ring::rand::SecureRandom::fill(rng, &mut buf) {
        Ok(()) => Some(buf),
        Err(_) => None,
    }
}

/// Relies on `ring::aead::UnboundKey::new` and `LessSafeKey::new` with
/// the AES-256-GCM algorithm: builds a key from 32 bytes of key
/// material, or returns `None` if the material is rejected.
#[verifier::external_body]
fn make_aes256_key(key_bytes: &Vec<u8>) -> (r: Option<ring::aead::LessSafeKey>)
    requires
        key_bytes@.len() == 32,
{
    match ring::aead::UnboundKey::new(&ring::aead::AES_256_GCM, key_bytes.as_slice()) {
        Ok(k) => Some(ring::aead::LessSafeKey::new(k)),
        Err(_) => None,
    }
}

/// Relies on `ring::aead::LessSafeKey::seal_in_place_append_tag` with a
/// 12-byte nonce: encrypts `data` in place and appends the 16-byte
/// authentication tag, so the result is exactly 16 bytes longer than
/// the input. The ciphertext depends on the key and nonce, so only the
/// length is stated.
#[verifier::external_body]
fn aead_seal(key: &ring::aead::LessSafeKey, nonce: &Vec<u8>, data: &Vec<u8>) -> (r: Option<
    Vec<u8>,
>)
    requires
        nonce@.len() == 12,
    ensures
        (match r {
            Some(v) => v@.len() == data@.len() + 16,
            None => true,
        }),
{
    let mut buf = data.clone();
    let n: [u8; 12] = match nonce.as_slice().try_into() {
        Ok(a) => a,
        Err(_) => return None,
    };
    let nonce = ring::aead::Nonce::assume_unique_for_key(n);
    match key.seal_in_place_append_tag(nonce, ring::aead::Aad::empty(), &mut buf) {
        Ok(()) => Some(buf),
        Err(_) => None,
    }
}

/// Relies on `ring::aead::LessSafeKey::open_in_place` with a 12-byte
/// nonce: authenticates and decrypts ciphertext-plus-tag, returning the
/// plaintext, which is exactly 16 bytes shorter than the input; any
/// tampering makes it return `None`.
#[verifier::external_body]
fn aead_open(key: &ring::aead::LessSafeKey, nonce: &Vec<u8>, data: &Vec<u8>) -> (r: Option<
    Vec<u8>,
>)
    requires
        nonce@.len() == 12,
    ensures
        (match r {
            Some(v) => v@.len() + 16 == data@.len(),
            None => true,
        }),
{
    let mut buf = data.clone();
    let n: [u8; 12] = match nonce.as_slice().try_into() {
        Ok(a) => a,
        Err(_) => return None,
    };
    let nonce = ring::aead::Nonce::assume_unique_for_key(n);
    match key.open_in_place(nonce, ring::aead::Aad::empty(), &mut buf) {
        Ok(pt) => Some(pt.to_vec()),
        Err(_) => None,
    }
}

/// One token-to-PAN mapping held by the security manager.
struct TokenRecord {
    token: String,
    pan: String,
}

/// The PAN that `tokens` maps `t` to: the first record whose token is
/// `t`, scanning from the front.
pub open spec fn spec_lookup_token(
    tokens: Seq<(Seq<char>, Seq<char>)>,
    t: Seq<char>,
) -> Option<Seq<char>>
    decreases tokens.len(),
{
    if tokens.len() == 0 {
        None
    } else if tokens[0].0 == t {
        Some(tokens[0].1)
    } else {
        spec_lookup_token(tokens.drop_first(), t)
    }
}

/// A token looks up to nothing exactly when it occurs in no record.
pub proof fn lemma_lookup_none(tokens: Seq<(Seq<char>, Seq<char>)>, t: Seq<char>)
    ensures
        spec_lookup_token(tokens, t) is None <==> (forall|i: int|
            0 <= i < tokens.len() ==> tokens[i].0 != t),
    decreases tokens.len(),
{
    if tokens.len() > 0 {
        lemma_lookup_none(tokens.drop_first(), t);
        if spec_lookup_token(tokens, t) is None {
            assert forall|i: int| 0 <= i < tokens.len() implies tokens[i].0 != t by {
                if i > 0 {
                    assert(tokens.drop_first()[i - 1] == tokens[i]);
                }
            }
        } else {
            if tokens[0].0 != t {
                let i = choose|i: int|
                    0 <= i < tokens.drop_first().len() && tokens.drop_first()[i].0 == t;
                assert(tokens[i + 1].0 == t);
            }
        }
    }
}

/// Looking a token up in a store extended by one record: the new record
/// answers only where the old store had no earlier record for the token.
pub proof fn lemma_lookup_push(
    tokens: Seq<(Seq<char>, Seq<char>)>,
    t: Seq<char>,
    pan: Seq<char>,
    q: Seq<char>,
)
    ensures
        spec_lookup_token(tokens.push((t, pan)), q) == (match spec_lookup_token(tokens, q) {
            Some(p) => Some(p),
            None => if q == t {
                Some(pan)
            } else {
                None
            },
        }),
    decreases tokens.len(),
{
    let pushed = tokens.push((t, pan));
    assert(pushed.len() == tokens.len() + 1);
    if tokens.len() == 0 {
        assert(pushed[0] == (t, pan));
        assert(pushed.drop_first() =~= Seq::<(Seq<char>, Seq<char>)>::empty());
        if q == t {
            assert(spec_lookup_token(pushed, q) == Some(pan));
        } else {
            assert(spec_lookup_token(pushed, q) == spec_lookup_token(pushed.drop_first(), q));
            assert(spec_lookup_token(pushed, q) is None);
        }
    } else {
        lemma_lookup_push(tokens.drop_first(), t, pan, q);
        assert(pushed[0] == tokens[0]);
        assert(pushed.drop_first() =~= tokens.drop_first().push((t, pan)));
        if tokens[0].0 == q {
            assert(spec_lookup_token(pushed, q) == Some(tokens[0].1));
            assert(spec_lookup_token(tokens, q) == Some(tokens[0].1));
        } else {
            assert(spec_lookup_token(pushed, q) == spec_lookup_token(
                tokens.drop_first().push((t, pan)),
                q,
            ));
            assert(spec_lookup_token(tokens, q) == spec_lookup_token(tokens.drop_first(), q));
        }
    }
}

/// Tokenization and authenticated encryption for the engine.
pub struct SecurityManager {
    rng: ring::rand::SystemRandom,
    key: Option<ring::aead::LessSafeKey>,
    tokens: Vec<TokenRecord>,
    fraud_threshold: u64,
}

impl SecurityManager {
    /// The token store as a sequence of (token, PAN) pairs, oldest
    /// first.
    pub closed spec fn tokens_view(&self) -> Seq<(Seq<char>, Seq<char>)> {
        self.tokens@.map_values(|rec: TokenRecord| (rec.token@, rec.pan@))
    }

    /// The amount above which the fraud screen flags a transaction.
    pub closed spec fn spec_fraud_threshold(&self) -> u64 {
        self.fraud_threshold
    }

    /// Whether key setup succeeded when the manager was built.
    pub closed spec fn has_key(&self) -> bool {
        self.key is Some
    }

    /// Builds a manager with an empty token store, a fraud threshold of
    /// 1000 units, and a fresh random AES-256-GCM key.
    pub fn new() -> (r: SecurityManager)
        ensures
            r.tokens_view() == Seq::<(Seq<char>, Seq<char>)>::empty(),
            r.spec_fraud_threshold() == 1000,
    {
        let rng = new_system_random();
        let key = match fill_random(&rng, 32) {
            Some(kb) => make_aes256_key(&kb),
            None => None,
        };
        let r = SecurityManager { rng, key, tokens: Vec::new(), fraud_threshold: 1000 };
        proof {
            assert(r.tokens_view() =~= Seq::<(Seq<char>, Seq<char>)>::empty());
        }
        r
    }

    /// Changes the fraud threshold; the screen is configurable because
    /// it compares amounts in the transaction's own currency.
    pub fn set_fraud_threshold(&mut self, threshold: u64)
        ensures
            final(self).spec_fraud_threshold() == threshold,
            final(self).tokens_view() == old(self).tokens_view(),
            final(self).has_key() == old(self).has_key(),
    {
        self.fraud_threshold = threshold;
    }

    /// The index of the first record holding `token`, if any.
    fn find_token(&self, token: &String) -> (r: Option<usize>)
        ensures
            r is None <==> spec_lookup_token(self.tokens_view(), token@) is None,
            (match r {
                Some(i) => i < self.tokens_view().len() && self.tokens_view()[i as int].0
                    == token@ && spec_lookup_token(self.tokens_view(), token@) == Some(
                    self.tokens_view()[i as int].1,
                ),
                None => true,
            }),
    {
        let n = self.tokens.len();
        let mut i: usize = 0;
        proof {
            assert(self.tokens_view().skip(0) =~= self.tokens_view());
        }
        while i < n
            invariant
                i <= n,
                n == self.tokens@.len(),
                n == self.tokens_view().len(),
                spec_lookup_token(self.tokens_view(), token@) == spec_lookup_token(
                    self.tokens_view().skip(i as int),
                    token@,
                ),
                forall|j: int| 0 <= j < i ==> self.tokens_view()[j].0 != token@,
            decreases n - i,
        {
            let ghost rest = self.tokens_view().skip(i as int);
            proof {
                assert(self.tokens_view()[i as int] == (
                    self.tokens@[i as int].token@,
                    self.tokens@[i as int].pan@,
                ));
                assert(rest[0] == self.tokens_view()[i as int]);
            }
            if self.tokens[i].token == *token {
                return Some(i);
            }
            proof {
                assert(rest.drop_first() =~= self.tokens_view().skip(i as int + 1));
            }
            i = i + 1;
        }
        proof {
            assert(self.tokens_view().skip(n as int) =~= Seq::<(Seq<char>, Seq<char>)>::empty());
        }
        None
    }

    /// Replaces `pan` with a fresh token and records the mapping. The
    /// returned token was not previously in the store (a colliding
    /// random draw is thrown away and redrawn), and the store grows by
    /// exactly that one record.
    pub fn tokenize_pan(&mut self, pan: &str) -> (r: String)
        ensures
            spec_lookup_token(old(self).tokens_view(), r@) is None,
            final(self).tokens_view() == old(self).tokens_view().push((r@, pan@)),
            final(self).spec_fraud_threshold() == old(self).spec_fraud_threshold(),
            final(self).has_key() == old(self).has_key(),
    {
        let mut attempts: u8 = 16;
        while attempts > 0
            invariant
                *self == *old(self),
            decreases attempts,
        {
            let t = generate_id();
            if self.find_token(&t).is_none() {
                proof {
                    lemma_lookup_none(self.tokens_view(), t@);
                }
                return self.record_token(t, pan);
            }
            attempts = attempts - 1;
        }
        // Every random draw collided, which a working random source
        // makes vanishingly unlikely. Fall back to a token built longer
        // than every stored one, which therefore cannot collide.
        let mut t = String::new();
        let n = self.tokens.len();
        let mut i: usize = 0;
        while i < n
            invariant
                *self == *old(self),
                i <= n,
                n == self.tokens_view().len(),
                forall|j: int| 0 <= j < i ==> t@.len() >= self.tokens_view()[j].0.len(),
        decreases n - i,
        {
            t.append(self.tokens[i].token.as_str());
            i = i + 1;
        }
        t.append("x");
        proof {
            reveal_strlit("x");
            assert forall|j: int|
                0 <= j < self.tokens_view().len() implies self.tokens_view()[j].0 != t@ by {
                assert(t@.len() > self.tokens_view()[j].0.len());
            }
            lemma_lookup_none(self.tokens_view(), t@);
        }
        self.record_token(t, pan)
    }

    /// Appends one token-to-PAN record, the token known to be absent.
    fn record_token(&mut self, token: String, pan: &str) -> (r: String)
        requires
            forall|i: int|
                0 <= i < old(self).tokens_view().len() ==> old(self).tokens_view()[i].0
                    != token@,
        ensures
            r@ == token@,
            spec_lookup_token(old(self).tokens_view(), r@) is None,
            final(self).tokens_view() == old(self).tokens_view().push((r@, pan@)),
            final(self).spec_fraud_threshold() == old(self).spec_fraud_threshold(),
            final(self).has_key() == old(self).has_key(),
    {
        proof {
            lemma_lookup_none(self.tokens_view(), token@);
        }
        let token_copy = token.clone();
        self.tokens.push(TokenRecord { token, pan: pan.to_owned() });
        proof {
            assert(self.tokens_view() =~= old(self).tokens_view().push((token_copy@, pan@)));
        }
        token_copy
    }

    /// Looks a token up, returning the PAN it was made from, or `None`
    /// for a token this manager never issued. The store is unchanged.
    pub fn detokenize_pan(&self, token: &str) -> (r: Option<String>)
        ensures
            (match spec_lookup_token(self.tokens_view(), token@) {
                Some(p) => r matches Some(s) && s@ == p,
                None => r is None,
            }),
    {
        let owned = token.to_owned();
        match self.find_token(&owned) {
            Some(i) => {
                proof {
                    assert(self.tokens_view()[i as int] == (
                        self.tokens@[i as int].token@,
                        self.tokens@[i as int].pan@,
                    ));
                }
                Some(self.tokens[i].pan.clone())
            },
            None => None,
        }
    }

    /// Whether the fraud screen flags an `amount`: exactly when it
    /// exceeds the configured threshold, compared in the transaction's
    /// own currency. The PAN is accepted for richer future rules and
    /// does not influence the result.
    pub fn check_fraud(&self, amount: u64, _card_pan: &str) -> (r: bool)
        ensures
            r == (amount > self.spec_fraud_threshold()),
    {
        amount > self.fraud_threshold
    }

    /// Encrypts `data` under this manager's key with a fresh random
    /// 12-byte nonce. The result is the nonce, then the ciphertext,
    /// then the 16-byte tag: 28 bytes longer than the input. Fails with
    /// `CryptoFailure` if key setup had failed or the random source or
    /// the cipher refuse.
    pub fn encrypt_data(&self, data: &[u8]) -> (r: Result<Vec<u8>, PayError>)
        ensures
            (match r {
                Ok(v) => v@.len() == data@.len() + 28,
                Err(e) => e == PayError::CryptoFailure,
            }),
    {
        let key = match &self.key {
            Some(k) => k,
            None => { return Err(PayError::CryptoFailure) },
        };
        let nonce = match fill_random(&self.rng, 12) {
            Some(n) => n,
            None => { return Err(PayError::CryptoFailure) },
        };
        let plain = vstd::slice::slice_to_vec(data);
        let mut sealed = match aead_seal(key, &nonce, &plain) {
            Some(c) => c,
            None => { return Err(PayError::CryptoFailure) },
        };
        let mut out = nonce;
        out.append(&mut sealed);
        Ok(out)
    }

    /// Decrypts a buffer produced by `encrypt_data`: splits off the
    /// 12-byte nonce, then authenticates and opens the rest. The
    /// plaintext is 28 bytes shorter than the input. Fails with
    /// `CryptoFailure` on a buffer too short to carry nonce and tag, on
    /// any tampering, and if key setup had failed.
    pub fn decrypt_data(&self, encrypted: &[u8]) -> (r: Result<Vec<u8>, PayError>)
        ensures
            (match r {
                Ok(v) => v@.len() + 28 == encrypted@.len(),
                Err(e) => e == PayError::CryptoFailure,
            }),
            encrypted@.len() < 28 ==> r is Err,
    {
        let key = match &self.key {
            Some(k) => k,
            None => { return Err(PayError::CryptoFailure) },
        };
        if encrypted.len() < 28 {
            return Err(PayError::CryptoFailure);
        }
        let nonce = vstd::slice::slice_to_vec(vstd::slice::slice_subrange(encrypted, 0, 12));
        let body = vstd::slice::slice_to_vec(
            vstd::slice::slice_subrange(encrypted, 12, encrypted.len()),
        );
        match aead_open(key, &nonce, &body) {
            Some(v) => Ok(v),
            None => Err(PayError::CryptoFailure),
        }
    }
}

/// Tokenizing twice never hands out the same token, and each token
/// leads back to the PAN it was made for: with `t1` fresh for a store,
/// and `t2` fresh for the store extended by `(t1, p1)`, the two tokens
/// differ, and after recording `(t2, p2)` as well, `t1` still looks up
/// to `p1` and `t2` to `p2`.
pub proof fn lemma_tokens_distinct_and_reversible(
    tokens: Seq<(Seq<char>, Seq<char>)>,
    t1: Seq<char>,
    p1: Seq<char>,
    t2: Seq<char>,
    p2: Seq<char>,
)
    requires
        spec_lookup_token(tokens, t1) is None,
        spec_lookup_token(tokens.push((t1, p1)), t2) is None,
    ensures
        t1 != t2,
        spec_lookup_token(tokens.push((t1, p1)).push((t2, p2)), t1) == Some(p1),
        spec_lookup_token(tokens.push((t1, p1)).push((t2, p2)), t2) == Some(p2),
{
    let s1 = tokens.push((t1, p1));
    let s2 = s1.push((t2, p2));
    lemma_lookup_push(tokens, t1, p1, t1);
    assert(spec_lookup_token(s1, t1) == Some(p1));
    lemma_lookup_push(s1, t2, p2, t1);
    lemma_lookup_push(s1, t2, p2, t2);
}

} // verus!
