//! Encrypted credential and configuration records.
//!
//! The configuration holds one encrypted API key per service plus the
//! refresh interval. Encryption and base64 transport encoding come from
//! outside crates behind trusted wrappers; the record-keeping rules —
//! one key per service, first match wins — are verified here. Reading
//! and writing the file itself is the caller's business.

use vstd::prelude::*;

use crate::app::DEFAULT_REFRESH_INTERVAL;

verus! {

/// One encrypted API key at rest.
#[derive(Debug)]
pub struct EncryptedKey {
    /// Base64 of the encrypted key material.
    pub value: String,
    /// Base64 of the nonce the encryption used.
    pub nonce: String,
    /// The service the key belongs to.
    pub service: String,
    /// ISO-8601 timestamp of when the key was stored.
    pub created_at: String,
    /// ISO-8601 timestamp of the last use, if any.
    pub last_used: Option<String>,
}

/// Mathematical value of an `EncryptedKey`.
pub struct EncryptedKeyView {
    pub value: Seq<char>,
    pub nonce: Seq<char>,
    pub service: Seq<char>,
    pub created_at: Seq<char>,
    pub last_used: Option<Seq<char>>,
}

impl DeepView for EncryptedKey {
    type V = EncryptedKeyView;

    open spec fn deep_view(&self) -> EncryptedKeyView {
        EncryptedKeyView {
            value: self.value@,
            nonce: self.nonce@,
            service: self.service@,
            created_at: self.created_at@,
            last_used: self.last_used.deep_view(),
        }
    }
}

impl Clone for EncryptedKey {
    fn clone(&self) -> (r: Self)
        ensures
            r.deep_view() == self.deep_view(),
    {
        EncryptedKey {
            value: self.value.clone(),
            nonce: self.nonce.clone(),
            service: self.service.clone(),
            created_at: self.created_at.clone(),
            last_used: match &self.last_used {
                Some(s) => Some(s.clone()),
                None => None,
            },
        }
    }
}

/// The persisted configuration: the stored keys, a schema version, and
/// the refresh interval in seconds.
#[derive(Debug)]
pub struct Config {
    pub keys: Vec<EncryptedKey>,
    pub version: u8,
    pub refresh_interval: Option<u64>,
}

/// Mathematical value of a `Config`.
pub struct ConfigView {
    pub keys: Seq<EncryptedKeyView>,
    pub version: u8,
    pub refresh_interval: Option<u64>,
}

impl DeepView for Config {
    type V = ConfigView;

    open spec fn deep_view(&self) -> ConfigView {
        ConfigView {
            keys: self.keys.deep_view(),
            version: self.version,
            refresh_interval: self.refresh_interval,
        }
    }
}

/// Some stored key belongs to `service`.
pub open spec fn has_service(keys: Seq<EncryptedKeyView>, service: Seq<char>) -> bool {
    exists|j: int| 0 <= j < keys.len() && keys[j].service == service
}

/// `j` is the position of the first stored key for `service`.
pub open spec fn is_first_key_for(keys: Seq<EncryptedKeyView>, service: Seq<char>, j: int) -> bool {
    &&& 0 <= j < keys.len()
    &&& keys[j].service == service
    &&& forall|k: int| 0 <= k < j ==> keys[k].service != service
}

/// The position of the first stored key for `service`.
pub open spec fn first_key_for(keys: Seq<EncryptedKeyView>, service: Seq<char>) -> int {
    choose|j: int| is_first_key_for(keys, service, j)
}

/// The first-match position is unique, so any witness determines it.
pub proof fn lemma_first_key_for(keys: Seq<EncryptedKeyView>, service: Seq<char>, j: int)
    requires
        is_first_key_for(keys, service, j),
    ensures
        first_key_for(keys, service) == j,
{
    let j2 = first_key_for(keys, service);
    assert(is_first_key_for(keys, service, j2));
    if j < j2 {
        assert(keys[j].service != service);
    } else if j2 < j {
        assert(keys[j2].service != service);
    }
}

/// The stored keys that do not belong to `service`, in order.
pub open spec fn keys_without_service(keys: Seq<EncryptedKeyView>, service: Seq<char>) -> Seq<
    EncryptedKeyView,
> {
    keys.filter(|k: EncryptedKeyView| k.service != service)
}

/// Appending a key keeps it exactly when it belongs to another service.
pub proof fn lemma_keys_without_service_push(
    keys: Seq<EncryptedKeyView>,
    service: Seq<char>,
    k: EncryptedKeyView,
)
    ensures
        keys_without_service(keys.push(k), service) == if k.service != service {
            keys_without_service(keys, service).push(k)
        } else {
            keys_without_service(keys, service)
        },
{
    reveal(Seq::filter);
    assert(keys.push(k).drop_last() =~= keys);
    assert(keys.push(k).last() == k);
}

impl Config {
    /// An empty configuration at the current schema version, with no
    /// interval recorded.
    pub fn new() -> (r: Self)
        ensures
            r.deep_view() == (ConfigView {
                keys: Seq::empty(),
                version: 1u8,
                refresh_interval: None,
            }),
    {
        let r = Config { keys: Vec::new(), version: 1, refresh_interval: None };
        proof {
            assert(r.keys.deep_view() =~= Seq::<EncryptedKeyView>::empty());
        }
        r
    }

    /// The refresh interval the configuration supplies, or the default.
    pub fn refresh_interval(&self) -> (r: u64)
        ensures
            r == (match self.deep_view().refresh_interval {
                Some(x) => x,
                None => DEFAULT_REFRESH_INTERVAL,
            }),
    {
        match self.refresh_interval {
            Some(x) => x,
            None => DEFAULT_REFRESH_INTERVAL,
        }
    }

    /// Record the refresh interval.
    pub fn set_refresh_interval(&mut self, interval: u64)
        ensures
            final(self).deep_view() == (ConfigView {
                refresh_interval: Some(interval),
                ..old(self).deep_view()
            }),
    {
        self.refresh_interval = Some(interval);
    }

    /// Store `new_key` for its service, dropping any key previously held
    /// for the same service; every other key keeps its place.
    pub fn upsert_key(&mut self, new_key: EncryptedKey)
        ensures
            final(self).deep_view() == (ConfigView {
                keys: keys_without_service(
                    old(self).deep_view().keys,
                    new_key.deep_view().service,
                ).push(new_key.deep_view()),
                ..old(self).deep_view()
            }),
    {
        let ghost keys0 = self.keys.deep_view();
        let ghost service = new_key.deep_view().service;
        let mut kept: Vec<EncryptedKey> = Vec::new();
        let mut i: usize = 0;
        proof {
            reveal(Seq::filter);
            assert(keys0.take(0) =~= Seq::<EncryptedKeyView>::empty());
            assert(kept.deep_view() =~= keys_without_service(keys0.take(0), service));
        }
        while i < self.keys.len()
            invariant
                i <= self.keys@.len(),
                self.keys.deep_view() == keys0,
                kept.deep_view() == keys_without_service(keys0.take(i as int), service),
                new_key.deep_view().service == service,
            decreases self.keys@.len() - i,
        {
            let ghost pre = kept.deep_view();
            if !(self.keys[i].service == new_key.service) {
                kept.push(self.keys[i].clone());
                proof {
                    assert(kept.deep_view() =~= pre.push(keys0[i as int]));
                }
            }
            proof {
                assert(keys0.take(i + 1) =~= keys0.take(i as int).push(keys0[i as int]));
                lemma_keys_without_service_push(keys0.take(i as int), service, keys0[i as int]);
            }
            i += 1;
        }
        proof {
            assert(keys0.take(keys0.len() as int) =~= keys0);
        }
        let ghost kept_dv = kept.deep_view();
        kept.push(new_key);
        proof {
            assert(kept.deep_view() =~= kept_dv.push(new_key.deep_view()));
        }
        self.keys = kept;
    }

    /// The position of the first key stored for `service`, if any.
    pub fn find_key_index(&self, service: &String) -> (r: Option<usize>)
        ensures
            match r {
                Some(j) => is_first_key_for(self.deep_view().keys, service@, j as int),
                None => !has_service(self.deep_view().keys, service@),
            },
            r is Some <==> has_service(self.deep_view().keys, service@),
    {
        let mut j: usize = 0;
        while j < self.keys.len()
            invariant
                j <= self.keys@.len(),
                forall|k: int| 0 <= k < j ==> self.keys.deep_view()[k].service != service@,
            decreases self.keys@.len() - j,
        {
            if self.keys[j].service == *service {
                return Some(j);
            }
            j += 1;
        }
        None
    }
}

/// The AES-256-GCM ciphertext-with-tag for the given key, nonce and
/// plaintext. A function of its arguments alone; nothing here states
/// which bytes it is.
pub uninterp spec fn aes_gcm_seal(key: Seq<u8>, nonce: Seq<u8>, plain: Seq<char>) -> Seq<u8>;

/// The base64 standard-alphabet encoding of the given bytes.
pub uninterp spec fn b64_of(bytes: Seq<u8>) -> Seq<char>;

/// Relies on aes_gcm::Aes256Gcm through aead::Aead::encrypt: with a
/// 32-byte key and a 12-byte nonce the ciphertext is a function of key,
/// nonce and plaintext alone, and encryption fails only on a plaintext
/// beyond the AES-GCM length limit.
#[verifier::external_body]
fn aes_seal(key: &Vec<u8>, nonce: &Vec<u8>, plain: &String) -> (r: Result<Vec<u8>, String>)
    requires
        key@.len() == 32,
        nonce@.len() == 12,
    ensures
        r matches Ok(c) ==> c@ == aes_gcm_seal(key@, nonce@, plain@),
        plain@.len() < 17179869184 ==> r is Ok,
{
    let cipher = match aes_gcm::aead::KeyInit::new_from_slice(key.as_slice()) {
        Ok(c) => c,
        Err(e) => return Err(format!("Failed to create cipher: {}", e)),
    };
    let cipher: aes_gcm::Aes256Gcm = cipher;
    let nonce = aes_gcm::Nonce::from_slice(nonce.as_slice());
    match aes_gcm::aead::Aead::encrypt(&cipher, nonce, plain.as_bytes()) {
        Ok(v) => Ok(v),
        Err(e) => Err(format!("Encryption failed: {}", e)),
    }
}

/// Relies on aes_gcm::Aes256Gcm through aead::Aead::decrypt, and on
/// String::from_utf8: authenticated decryption under the same key and
/// nonce returns exactly the sealed plaintext, whose bytes spell the
/// characters the seal was given.
#[verifier::external_body]
fn aes_open(key: &Vec<u8>, nonce: &Vec<u8>, cipher_text: &Vec<u8>) -> (r: Result<String, String>)
    requires
        key@.len() == 32,
        nonce@.len() == 12,
    ensures
        r matches Ok(s) ==> forall|p: Seq<char>|
            p.len() < 17179869184 && cipher_text@ == aes_gcm_seal(key@, nonce@, p) ==> s@ == p,
        (exists|p: Seq<char>|
            p.len() < 17179869184 && cipher_text@ == aes_gcm_seal(key@, nonce@, p)) ==> r is Ok,
{
    let cipher = match aes_gcm::aead::KeyInit::new_from_slice(key.as_slice()) {
        Ok(c) => c,
        Err(e) => return Err(format!("Failed to create cipher: {}", e)),
    };
    let cipher: aes_gcm::Aes256Gcm = cipher;
    let nonce = aes_gcm::Nonce::from_slice(nonce.as_slice());
    let data = match aes_gcm::aead::Aead::decrypt(&cipher, nonce, cipher_text.as_slice()) {
        Ok(v) => v,
        Err(e) => return Err(format!("Decryption failed: {}", e)),
    };
    match String::from_utf8(data) {
        Ok(s) => Ok(s),
        Err(e) => Err(format!("Failed to convert to string: {}", e)),
    }
}

/// Relies on base64's standard engine through Engine::encode: the
/// encoding is a function of the input bytes alone.
#[verifier::external_body]
fn b64_encode(bytes: &Vec<u8>) -> (r: String)
    ensures
        r@ == b64_of(bytes@),
{
    base64::Engine::encode(&base64::engine::general_purpose::STANDARD, bytes.as_slice())
}

/// Relies on base64's standard engine through Engine::decode: decoding
/// the canonical encoding of any byte sequence returns those bytes.
#[verifier::external_body]
fn b64_decode(s: &String) -> (r: Result<Vec<u8>, String>)
    ensures
        r matches Ok(v) ==> forall|b: Seq<u8>| s@ == b64_of(b) ==> v@ == b,
        (exists|b: Seq<u8>| s@ == b64_of(b)) ==> r is Ok,
{
    match base64::Engine::decode(&base64::engine::general_purpose::STANDARD, s.as_str()) {
        Ok(v) => Ok(v),
        Err(e) => Err(format!("Failed to decode: {}", e)),
    }
}

/// The fixed at-rest encryption key the manager is created with.
pub open spec fn default_encryption_key() -> Seq<u8> {
    seq![
        48u8, 49u8, 50u8, 51u8, 52u8, 53u8, 54u8, 55u8, 56u8, 57u8, 97u8, 98u8, 99u8, 100u8,
        101u8, 102u8, 48u8, 49u8, 50u8, 51u8, 52u8, 53u8, 54u8, 55u8, 56u8, 57u8, 97u8, 98u8,
        99u8, 100u8, 101u8, 102u8,
    ]
}

/// The fixed nonce every save uses.
pub open spec fn default_nonce() -> Seq<u8> {
    seq![117u8, 110u8, 105u8, 113u8, 117u8, 101u8, 32u8, 110u8, 111u8, 110u8, 99u8, 101u8]
}

/// The nonce every save uses, as a list.
fn make_nonce() -> (r: Vec<u8>)
    ensures
        r@ == default_nonce(),
{
    let r: Vec<u8> = vec![117u8, 110u8, 105u8, 113u8, 117u8, 101u8, 32u8, 110u8, 111u8, 110u8, 99u8, 101u8];
    proof {
        assert(r@ =~= default_nonce());
    }
    r
}

/// Encrypts API keys at rest and recovers them.
///
/// The caller that owns the file system supplies `config_path` and moves
/// configurations in and out; this type only transforms them.
#[derive(Debug)]
pub struct ApiKeyManager {
    /// Where the configuration file lives, for the caller's I/O.
    pub config_path: String,
    encryption_key: Vec<u8>,
}

/// Mathematical value of an `ApiKeyManager`.
pub struct ApiKeyManagerView {
    pub config_path: Seq<char>,
    pub encryption_key: Seq<u8>,
}

impl DeepView for ApiKeyManager {
    type V = ApiKeyManagerView;

    closed spec fn deep_view(&self) -> ApiKeyManagerView {
        ApiKeyManagerView { config_path: self.config_path@, encryption_key: self.encryption_key@ }
    }
}

impl ApiKeyManager {
    /// The manager's encryption key has the length AES-256 demands.
    pub closed spec fn wf(&self) -> bool {
        self.deep_view().encryption_key.len() == 32
    }

    /// A manager holding the fixed at-rest key; the caller fills in the
    /// configuration path.
    pub fn new() -> (r: Self)
        ensures
            r.wf(),
            r.deep_view() == (ApiKeyManagerView {
                config_path: Seq::empty(),
                encryption_key: default_encryption_key(),
            }),
    {
        let key: Vec<u8> = vec![
            48u8, 49u8, 50u8, 51u8, 52u8, 53u8, 54u8, 55u8, 56u8, 57u8, 97u8, 98u8, 99u8, 100u8,
            101u8, 102u8, 48u8, 49u8, 50u8, 51u8, 52u8, 53u8, 54u8, 55u8, 56u8, 57u8, 97u8, 98u8,
            99u8, 100u8, 101u8, 102u8,
        ];
        proof {
            assert(key@ =~= default_encryption_key());
        }
        ApiKeyManager { config_path: String::new(), encryption_key: key }
    }

    /// Encrypt `api_key`, encode it for transport, and store it in
    /// `config` under `service` with the `created_at` timestamp,
    /// replacing any key the service had. On failure nothing changes;
    /// any key short enough for AES-GCM is accepted.
    pub fn save_api_key(
        &self,
        config: &mut Config,
        service: &String,
        api_key: &String,
        created_at: String,
    ) -> (r: Result<(), String>)
        requires
            self.wf(),
        ensures
            r is Ok ==> final(config).deep_view() == (ConfigView {
                keys: keys_without_service(old(config).deep_view().keys, service@).push(
                    (EncryptedKeyView {
                        value: b64_of(
                            aes_gcm_seal(
                                self.deep_view().encryption_key,
                                default_nonce(),
                                api_key@,
                            ),
                        ),
                        nonce: b64_of(default_nonce()),
                        service: service@,
                        created_at: created_at@,
                        last_used: None,
                    }),
                ),
                ..old(config).deep_view()
            }),
            r is Err ==> final(config).deep_view() == old(config).deep_view(),
            api_key@.len() < 17179869184 ==> r is Ok,
    {
        let nonce = make_nonce();
        match aes_seal(&self.encryption_key, &nonce, api_key) {
            Err(e) => Err(e),
            Ok(cipher_text) => {
                let new_key = EncryptedKey {
                    value: b64_encode(&cipher_text),
                    nonce: b64_encode(&nonce),
                    service: service.clone(),
                    created_at,
                    last_used: None,
                };
                config.upsert_key(new_key);
                Ok(())
            },
        }
    }

    /// Recover the API key stored for `service` in `config`.
    ///
    /// For a record holding the encoded seal of a plaintext under this
    /// manager's key and an encoded 12-byte nonce — as `save_api_key`
    /// writes — the result is that plaintext. A service with no record
    /// fails.
    pub fn load_api_key(&self, config: &Config, service: &String) -> (r: Result<String, String>)
        requires
            self.wf(),
        ensures
            !has_service(config.deep_view().keys, service@) ==> r is Err,
            ({
                let ks = config.deep_view().keys;
                has_service(ks, service@) ==> {
                    let k = ks[first_key_for(ks, service@)];
                    forall|p: Seq<char>, n: Seq<u8>|
                        (p.len() < 17179869184 && k.value == b64_of(
                            aes_gcm_seal(self.deep_view().encryption_key, n, p),
                        ) && k.nonce == b64_of(n) && n.len() == 12) ==> (r matches Ok(s) && s@
                            == p)
                }
            }),
    {
        let j = match config.find_key_index(service) {
            Some(j) => j,
            None => {
                return Err(String::from_str("No API key found for service"));
            },
        };
        proof {
            lemma_first_key_for(config.deep_view().keys, service@, j as int);
        }
        let key = &config.keys[j];
        let cipher_text = match b64_decode(&key.value) {
            Ok(v) => v,
            Err(e) => {
                return Err(e);
            },
        };
        let nonce = match b64_decode(&key.nonce) {
            Ok(v) => v,
            Err(e) => {
                return Err(e);
            },
        };
        if nonce.len() != 12 {
            return Err(String::from_str("Stored nonce has the wrong length"));
        }
        aes_open(&self.encryption_key, &nonce, &cipher_text)
    }
}

} // verus!
