use vstd::prelude::*;
use vstd::pervasive::unreached;

use super::{
    serpent_cbc_decrypt, serpent_cbc_encrypt, zero_unpadded, ElementView, Encryption, KvElement,
};

verus! {

#[verifier::external_type_specification]
#[verifier::external_body]
#[verifier::reject_recursive_types(K)]
#[verifier::reject_recursive_types(V)]
pub struct ExCHashMap<K, V>(chashmap::CHashMap<K, V>);

/// What the concurrent container holds: one record view per live key.
pub uninterp spec fn chashmap_contents(
    m: chashmap::CHashMap<String, KvElement>,
) -> Map<Seq<char>, ElementView>;

/// Relies on `chashmap::CHashMap::insert`: stores the value under the key
/// and hands back whatever the key held before.
#[verifier::external_body]
fn chashmap_insert(
    m: &mut chashmap::CHashMap<String, KvElement>,
    key: String,
    value: KvElement,
) -> (prev: Option<KvElement>)
    ensures
        chashmap_contents(*final(m)) == chashmap_contents(*old(m)).insert(key@, value@),
        match prev {
            Some(p) => chashmap_contents(*old(m)).contains_key(key@) && p@ == chashmap_contents(
                *old(m),
            )[key@],
            None => !chashmap_contents(*old(m)).contains_key(key@),
        },
{
    m.insert(key, value)
}

/// Relies on `chashmap::CHashMap::get`: a copy of the value under the key,
/// if the key is live.
#[verifier::external_body]
fn chashmap_get(m: &chashmap::CHashMap<String, KvElement>, key: &String) -> (r: Option<KvElement>)
    ensures
        match r {
            Some(e) => chashmap_contents(*m).contains_key(key@) && e@ == chashmap_contents(
                *m,
            )[key@],
            None => !chashmap_contents(*m).contains_key(key@),
        },
{
    m.get(key).map(|guard| (*guard).clone())
}

/// Relies on `chashmap::CHashMap::remove`: takes the key out of the map and
/// hands back what it held.
#[verifier::external_body]
fn chashmap_remove(m: &mut chashmap::CHashMap<String, KvElement>, key: &String) -> (r: Option<
    KvElement,
>)
    ensures
        chashmap_contents(*final(m)) == chashmap_contents(*old(m)).remove(key@),
        match r {
            Some(p) => chashmap_contents(*old(m)).contains_key(key@) && p@ == chashmap_contents(
                *old(m),
            )[key@],
            None => !chashmap_contents(*old(m)).contains_key(key@),
        },
{
    m.remove(key)
}

/// Relies on `rand::random`: a fresh initialization vector, one block long.
/// The value is random; nothing is promised of it.
#[verifier::external_body]
fn random_iv() -> (r: Vec<u8>)
    ensures
        r@.len() == 16,
{
    rand::random::<[u8; 16]>().to_vec()
}

/// Relies on `chrono::Utc::now`: the wall clock decides the value, so
/// nothing is promised of it.
#[verifier::external_body]
fn now_millis() -> i64 {
    chrono::Utc::now().timestamp_millis()
}

/// Relies on `tree_magic::from_u8`: a MIME label for the bytes. The crate
/// consults the machine's shared MIME database beside its built-in copy, so
/// the label depends on the machine and nothing is promised of it.
#[verifier::external_body]
fn sniff_mime(data: &[u8]) -> String {
    tree_magic::from_u8(data)
}

/// How a value stands in the container once written: encrypted under a fresh
/// one-block IV when a cipher is configured, verbatim and without IV when not.
///
/// Under a cipher this also records what decryption will recover: the
/// plaintext up to zero-unpadding.
pub open spec fn sealed(
    enc: Option<Encryption>,
    data: Seq<u8>,
    iv: Option<Seq<u8>>,
    plain: Seq<u8>,
) -> bool {
    match enc {
        Some(en) => {
            &&& iv matches Some(ivs) && ivs.len() == 16 && data == serpent_cbc_encrypt(
                en.spec_key(),
                ivs,
                plain,
            ) && serpent_cbc_decrypt(en.spec_key(), ivs, data) == zero_unpadded(plain)
        },
        None => data == plain && iv is None,
    }
}

/// The in-memory key-value store: a concurrent container of records, with an
/// optional cipher applied transparently on every write and read.
pub struct MemoryStore {
    container: chashmap::CHashMap<String, KvElement>,
    encryption: Option<Encryption>,
}

impl View for MemoryStore {
    type V = Map<Seq<char>, ElementView>;

    closed spec fn view(&self) -> Map<Seq<char>, ElementView> {
        chashmap_contents(self.container)
    }
}

impl MemoryStore {
    /// The cipher this store was built with.
    pub closed spec fn encryption_spec(&self) -> Option<Encryption> {
        self.encryption
    }

    pub open spec fn encryption_enabled(&self) -> bool {
        self.encryption_spec() is Some
    }

    /// Internal consistency of one stored record: the update counter has
    /// been bumped at least once, and the record carries a one-block IV and
    /// whole encrypted blocks exactly when the store encrypts.
    pub open spec fn element_wf(&self, e: ElementView) -> bool {
        &&& e.update_count >= 1
        &&& match self.encryption_spec() {
            Some(_) => {
                &&& e.iv matches Some(iv) && iv.len() == 16
                &&& e.data.len() % 16 == 0
                &&& e.data.len() > 0
            },
            None => e.iv is None,
        }
    }

    /// Well-formedness: the configured key is one the cipher accepts, and
    /// every stored record is internally consistent.
    pub open spec fn wf(&self) -> bool {
        &&& match self.encryption_spec() {
            Some(enc) => enc.key_ok(),
            None => true,
        }
        &&& forall|k: Seq<char>| #[trigger] self@.contains_key(k) ==> self.element_wf(self@[k])
    }

    /// A record holds this plaintext, as transformed on its way in.
    pub open spec fn written_value(&self, e: ElementView, plain: Seq<u8>) -> bool {
        sealed(self.encryption_spec(), e.data, e.iv, plain)
    }

    /// What `get` hands back for a stored record: the same record with its
    /// data run back through the cipher, verbatim when the store does not
    /// encrypt.
    pub open spec fn output_view(&self, stored: ElementView) -> ElementView {
        match self.encryption_spec() {
            Some(enc) => match stored.iv {
                Some(iv) => (ElementView {
                    data: serpent_cbc_decrypt(enc.spec_key(), iv, stored.data),
                    ..stored
                }),
                None => stored,
            },
            None => stored,
        }
    }

    /// Builds an empty store around the given cipher, if any.
    ///
    /// Relies on `chashmap::CHashMap::new`: the fresh container is empty.
    #[verifier::external_body]
    fn with_container(encryption: Option<Encryption>) -> (r: MemoryStore)
        ensures
            r@ == (Map::<Seq<char>, ElementView>::empty()),
            r.encryption_spec() == encryption,
    {
        MemoryStore { container: chashmap::CHashMap::new(), encryption }
    }

    pub fn new(encryption: Option<Encryption>) -> (r: Self)
        ensures
            r@ == (Map::<Seq<char>, ElementView>::empty()),
            r.encryption_spec() == encryption,
            r.wf() <==> (match encryption {
                Some(e) => e.key_ok(),
                None => true,
            }),
    {
        Self::with_container(encryption)
    }

    /// Runs a value through the configured cipher on its way into the
    /// container, drawing a fresh IV when one is needed.
    fn seal(encryption: &Option<Encryption>, value: Vec<u8>) -> (r: (Vec<u8>, Option<Vec<u8>>))
        requires
            match *encryption {
                Some(e) => e.key_ok() && value@.len() > 0,
                None => true,
            },
        ensures
            sealed(
                *encryption,
                r.0@,
                (match r.1 {
                    Some(v) => Some(v@),
                    None => None,
                }),
                value@,
            ),
            encryption is Some ==> r.0@.len() % 16 == 0 && r.0@.len() > 0,
    {
        match encryption {
            Some(enc) => {
                let iv = random_iv();
                let c = match enc.encrypt_vec(value.as_slice(), iv.as_slice()) {
                    Ok(c) => c,
                    Err(_) => unreached(),
                };
                proof {
                    super::lemma_padded_len_aligned(value@.len());
                }
                (c, Some(iv))
            },
            None => (value, None),
        }
    }

    /// Writes a value under a key.
    ///
    /// A fresh key gets a new record with counter 1 and hands back `None`; a
    /// live unlocked key has its data replaced; a live locked key keeps its
    /// data but is still touched: the timestamp is refreshed and the counter
    /// bumped either way, and the record is handed back.
    pub fn set(&mut self, key: String, value: Vec<u8>) -> (prev: Option<KvElement>)
        requires
            old(self).wf(),
            old(self).encryption_enabled() ==> value@.len() > 0,
            old(self)@.contains_key(key@) ==> old(self)@[key@].update_count < i32::MAX,
        ensures
            final(self).wf(),
            final(self).encryption_spec() == old(self).encryption_spec(),
            final(self)@.contains_key(key@),
            final(self)@ == old(self)@.insert(key@, final(self)@[key@]),
            old(self)@.contains_key(key@) ==> ({
                let o = old(self)@[key@];
                let e = final(self)@[key@];
                &&& prev matches Some(p) && p@ == e
                &&& e.update_count == o.update_count + 1
                &&& e.created_at == o.created_at
                &&& e.expire_at == o.expire_at
                &&& e.locked == o.locked
                &&& o.locked ==> e.data == o.data && e.mime_type == o.mime_type && e.iv == o.iv
                &&& !o.locked ==> final(self).written_value(e, value@)
            }),
            !old(self)@.contains_key(key@) ==> ({
                let e = final(self)@[key@];
                &&& prev is None
                &&& e.update_count == 1
                &&& !e.locked
                &&& e.created_at == e.updated_at && e.expire_at == e.created_at
                &&& final(self).written_value(e, value@)
            }),
    {
        let tag = sniff_mime(value.as_slice());
        let (stored, fresh_iv) = Self::seal(&self.encryption, value);
        match chashmap_get(&self.container, &key) {
            Some(element) => {
                let mut e = element;
                if !e.locked {
                    e.data = stored;
                    e.mime_type = tag;
                    e.iv = fresh_iv;
                }
                e.updated_at = now_millis();
                e.update_count = e.update_count + 1;
                let out = e.duplicate();
                let ghost prior = self@;
                chashmap_insert(&mut self.container, key, e);
                proof {
                    self.lemma_wf_after_insert(*old(self), prior, key@, e@);
                }
                Some(out)
            },
            None => {
                let now = now_millis();
                let e = KvElement {
                    data: stored,
                    mime_type: tag,
                    created_at: now,
                    updated_at: now,
                    expire_at: now,
                    update_count: 1,
                    locked: false,
                    iv: fresh_iv,
                };
                let ghost prior = self@;
                let prev = chashmap_insert(&mut self.container, key, e);
                proof {
                    self.lemma_wf_after_insert(*old(self), prior, key@, e@);
                }
                prev
            },
        }
    }

    /// The one step all mutations share: inserting a well-formed record into
    /// a well-formed store leaves the store well-formed.
    proof fn lemma_wf_after_insert(
        &self,
        prior_store: MemoryStore,
        prior: Map<Seq<char>, ElementView>,
        key: Seq<char>,
        e: ElementView,
    )
        requires
            prior_store.wf(),
            prior_store.encryption_spec() == self.encryption_spec(),
            prior_store@ == prior,
            self@ == prior.insert(key, e),
            self.element_wf(e),
        ensures
            self.wf(),
    {
        assert forall|k: Seq<char>| #[trigger] self@.contains_key(k) implies self.element_wf(
            self@[k],
        ) by {
            if k != key {
                assert(prior_store@.contains_key(k));
                assert(self@[k] == prior_store@[k]);
            }
        }
    }

    /// Reads the record under a key, running its data back through the
    /// cipher, or `None` for a key that holds nothing.
    pub fn get(&self, key: String) -> (r: Option<KvElement>)
        requires
            self.wf(),
        ensures
            match r {
                Some(e) => self@.contains_key(key@) && e@ == self.output_view(self@[key@]),
                None => !self@.contains_key(key@),
            },
    {
        match chashmap_get(&self.container, &key) {
            Some(element) => match &self.encryption {
                Some(enc) => {
                    proof {
                        assert(self@.contains_key(key@));
                    }
                    let iv = match &element.iv {
                        Some(v) => vstd::slice::slice_to_vec(v.as_slice()),
                        None => unreached(),
                    };
                    let plain = match enc.decrypt_vec(element.data.as_slice(), iv.as_slice()) {
                        Ok(p) => p,
                        Err(_) => unreached(),
                    };
                    let mut out = element;
                    out.data = plain;
                    Some(out)
                },
                None => Some(element),
            },
            None => None,
        }
    }

    /// Sets or clears the write lock of a live key; reports whether the key
    /// was live. Nothing else of the record moves, not even the counter.
    pub fn switch_lock(&mut self, key: String, to_lock: bool) -> (r: bool)
        requires
            old(self).wf(),
        ensures
            final(self).wf(),
            final(self).encryption_spec() == old(self).encryption_spec(),
            r == old(self)@.contains_key(key@),
            r ==> final(self)@ == old(self)@.insert(
                key@,
                (ElementView { locked: to_lock, ..old(self)@[key@] }),
            ),
            !r ==> final(self)@ == old(self)@,
    {
        match chashmap_get(&self.container, &key) {
            Some(element) => {
                let mut e = element;
                e.locked = to_lock;
                let ghost prior = self@;
                chashmap_insert(&mut self.container, key, e);
                proof {
                    self.lemma_wf_after_insert(*old(self), prior, key@, e@);
                }
                true
            },
            None => false,
        }
    }

    /// Stores the outcome of a numeric increment or decrement.
    ///
    /// The arithmetic itself — decoding the current data as text and adding
    /// the addend as a floating-point number — runs outside the store; this
    /// operation takes its outcome, `None` when the current data did not
    /// parse, and fails closed on it. A live key with a parsed outcome has
    /// its data replaced, its timestamp refreshed and its counter bumped;
    /// everything else, an absent key or a failed parse, leaves the store
    /// untouched and reports `false`.
    ///
    /// This write deliberately ignores the lock flag: the lock guards `set`
    /// alone. Whether a numeric update should honour it is a policy choice,
    /// recorded here so that nobody mistakes the asymmetry for an accident.
    pub fn increment_or_decrement(&mut self, key: String, new_value: Option<Vec<u8>>) -> (r: bool)
        requires
            old(self).wf(),
            old(self).encryption_enabled() ==> (new_value matches Some(v) ==> v@.len() > 0),
            old(self)@.contains_key(key@) && new_value is Some ==> old(
                self,
            )@[key@].update_count < i32::MAX,
        ensures
            final(self).wf(),
            final(self).encryption_spec() == old(self).encryption_spec(),
            r == (old(self)@.contains_key(key@) && new_value is Some),
            !r ==> final(self)@ == old(self)@,
            r ==> ({
                let o = old(self)@[key@];
                let e = final(self)@[key@];
                &&& final(self)@ == old(self)@.insert(key@, e)
                &&& e.update_count == o.update_count + 1
                &&& e.created_at == o.created_at
                &&& e.expire_at == o.expire_at
                &&& e.locked == o.locked
                &&& e.mime_type == o.mime_type
                &&& new_value matches Some(v) && final(self).written_value(e, v@)
            }),
    {
        match new_value {
            Some(v) => match chashmap_get(&self.container, &key) {
                Some(element) => {
                    let (stored, fresh_iv) = Self::seal(&self.encryption, v);
                    let mut e = element;
                    e.data = stored;
                    e.iv = fresh_iv;
                    e.updated_at = now_millis();
                    e.update_count = e.update_count + 1;
                    let ghost prior = self@;
                    chashmap_insert(&mut self.container, key, e);
                    proof {
                        self.lemma_wf_after_insert(*old(self), prior, key@, e@);
                    }
                    true
                },
                None => false,
            },
            None => false,
        }
    }

    /// Removes a key and whatever it holds, locked or not; absent keys are
    /// left as they are.
    pub fn drop(&mut self, key: String)
        requires
            old(self).wf(),
        ensures
            final(self).wf(),
            final(self).encryption_spec() == old(self).encryption_spec(),
            final(self)@ == old(self)@.remove(key@),
    {
        chashmap_remove(&mut self.container, &key);
        proof {
            assert forall|k: Seq<char>| #[trigger] self@.contains_key(k) implies self.element_wf(
                self@[k],
            ) by {
                assert(old(self)@.contains_key(k));
                assert(self@[k] == old(self)@[k]);
            }
        }
    }

    /// Reading back a freshly written record recovers the plaintext: exactly
    /// as written when the store does not encrypt, and up to zero-unpadding
    /// when it does.
    pub proof fn lemma_get_reads_written(&self, e: ElementView, plain: Seq<u8>)
        requires
            self.written_value(e, plain),
        ensures
            self.output_view(e).data == (match self.encryption_spec() {
                Some(_) => zero_unpadded(plain),
                None => plain,
            }),
            self.output_view(e).mime_type == e.mime_type,
            self.output_view(e).created_at == e.created_at,
            self.output_view(e).updated_at == e.updated_at,
            self.output_view(e).expire_at == e.expire_at,
            self.output_view(e).update_count == e.update_count,
            self.output_view(e).locked == e.locked,
            self.output_view(e).iv == e.iv,
    {
    }
}

} // verus!

