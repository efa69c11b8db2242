//! Account credentials per provider, with passwords sealed by AES-256-GCM under
//! a key derived from the machine's identity.
//!
//! The store itself is read from and written to `credentials.json` by the
//! application; here every operation takes the loaded store and changes it.

use vstd::prelude::*;
use vstd::utf8::{decode_utf8, encode_utf8, valid_utf8};

use crate::crypto::{
    aes256gcm_decrypt, aes256gcm_encrypt, aes256gcm_opened, aes256gcm_sealed, aes_gcm_max_plaintext,
    base64_decode, base64_encode, base64_standard, base64_standard_decoded, now_rfc3339,
    random_nonce, sha256, sha256_digest, is_rfc3339_utc_text,
};
use crate::keyed::{find_key, keys_distinct, index_of_first, key_views, lemma_index_of_first_at, lemma_index_of_first_spec, is_first};
use crate::text::{clone_opt, concat, opt_view, owned, str_eq, string_from_utf8};

verus! {

/// Version of the store layout.
pub const CREDENTIALS_VERSION: u32 = 1;

/// One saved account.
#[derive(Debug)]
pub struct CredentialEntry {
    /// User name.
    pub username: String,
    /// Base64 of the sealed password.
    pub encrypted_password: String,
    /// Base64 of the nonce the password was sealed with.
    pub nonce: String,
    /// Optional name for display.
    pub display_name: Option<String>,
    /// When the entry was created.
    pub created_at: String,
    /// When the entry was last used.
    pub last_used_at: Option<String>,
}

/// A credential entry as plain text.
pub struct EntryView {
    pub username: Seq<char>,
    pub encrypted_password: Seq<char>,
    pub nonce: Seq<char>,
    pub display_name: Option<Seq<char>>,
    pub created_at: Seq<char>,
    pub last_used_at: Option<Seq<char>>,
}

impl View for CredentialEntry {
    type V = EntryView;

    open spec fn view(&self) -> EntryView {
        EntryView {
            username: self.username@,
            encrypted_password: self.encrypted_password@,
            nonce: self.nonce@,
            display_name: opt_view(self.display_name),
            created_at: self.created_at@,
            last_used_at: opt_view(self.last_used_at),
        }
    }
}

/// The credentials of one provider.
#[derive(Debug)]
pub struct ProviderCredentials {
    /// The entries, in the order they were added.
    pub entries: Vec<CredentialEntry>,
}

impl View for ProviderCredentials {
    type V = Seq<EntryView>;

    open spec fn view(&self) -> Seq<EntryView> {
        self.entries@.map_values(|e: CredentialEntry| e@)
    }
}

impl Default for ProviderCredentials {
    fn default() -> (r: Self)
        ensures
            r@ == Seq::<EntryView>::empty(),
    {
        ProviderCredentials { entries: Vec::new() }
    }
}

/// The whole store: credentials grouped by provider name. A provider name
/// occurs at most once (the store is a map from provider to credentials).
#[derive(Debug)]
pub struct CredentialsStore {
    /// Layout version.
    version: u32,
    /// `(provider, credentials)` pairs, no provider twice.
    providers: Vec<(String, ProviderCredentials)>,
}

/// The store as plain text.
pub struct StoreView {
    pub version: u32,
    pub providers: Seq<(Seq<char>, Seq<EntryView>)>,
}

/// The plain-text form of `(provider, credentials)` pairs.
pub open spec fn pairs_view(ps: Seq<(String, ProviderCredentials)>) -> Seq<(Seq<char>, Seq<EntryView>)> {
    ps.map_values(|p: (String, ProviderCredentials)| (p.0@, p.1@))
}

impl View for CredentialsStore {
    type V = StoreView;

    closed spec fn view(&self) -> StoreView {
        StoreView { version: self.version, providers: pairs_view(self.providers@) }
    }
}

impl CredentialsStore {
    /// No provider name occurs twice.
    #[verifier::type_invariant]
    closed spec fn keys_unique(self) -> bool {
        key_views(self.providers@).no_duplicates()
    }

    /// A store of the given version holding `providers`; `None` when a provider
    /// name occurs twice.
    pub fn from_providers(version: u32, providers: Vec<(String, ProviderCredentials)>) -> (r: Option<
        Self,
    >)
        ensures
            r is Some <==> provider_names(pairs_view(providers@)).no_duplicates(),
            r matches Some(st) ==> st@ == (StoreView { version, providers: pairs_view(providers@) }),
    {
        proof {
            lemma_names_are_keys(providers@);
        }
        if keys_distinct(&providers) {
            Some(CredentialsStore { version, providers })
        } else {
            None
        }
    }

    /// The layout version.
    pub fn version(&self) -> (r: u32)
        ensures
            r == self@.version,
    {
        self.version
    }

    /// The `(provider, credentials)` pairs, in order.
    pub fn providers(&self) -> (r: &Vec<(String, ProviderCredentials)>)
        ensures
            pairs_view(r@) == self@.providers,
            providers_unique(self@),
    {
        proof {
            use_type_invariant(self);
            lemma_names_are_keys(self.providers@);
        }
        &self.providers
    }

    /// The version and the `(provider, credentials)` pairs, in order.
    pub fn into_parts(self) -> (r: (u32, Vec<(String, ProviderCredentials)>))
        ensures
            r.0 == self@.version,
            pairs_view(r.1@) == self@.providers,
    {
        (self.version, self.providers)
    }
}

/// The provider names of pairs are the views of their keys.
proof fn lemma_names_are_keys(ps: Seq<(String, ProviderCredentials)>)
    ensures
        provider_names(pairs_view(ps)) == key_views(ps),
{
    assert(provider_names(pairs_view(ps)) =~= key_views(ps));
}

impl Default for CredentialsStore {
    fn default() -> (r: Self)
        ensures
            r@.version == CREDENTIALS_VERSION,
            r@.providers == Seq::<(Seq<char>, Seq<EntryView>)>::empty(),
    {
        let r = CredentialsStore { version: CREDENTIALS_VERSION, providers: Vec::new() };
        assert(r@.providers =~= Seq::<(Seq<char>, Seq<EntryView>)>::empty());
        r
    }
}

/// The provider names of a store, in order.
pub open spec fn provider_names(ps: Seq<(Seq<char>, Seq<EntryView>)>) -> Seq<Seq<char>> {
    ps.map_values(|p: (Seq<char>, Seq<EntryView>)| p.0)
}

/// The user names of a list of entries, in order.
pub open spec fn usernames(es: Seq<EntryView>) -> Seq<Seq<char>> {
    es.map_values(|e: EntryView| e.username)
}

/// Where `provider` stands in the store.
pub open spec fn provider_index(sv: StoreView, provider: Seq<char>) -> Option<int> {
    index_of_first(provider_names(sv.providers), provider)
}

/// The entries under `provider` in a list of providers (none when it lacks
/// the provider).
pub open spec fn entries_in(ps: Seq<(Seq<char>, Seq<EntryView>)>, provider: Seq<char>) -> Seq<EntryView> {
    match index_of_first(provider_names(ps), provider) {
        Some(i) => ps[i].1,
        None => Seq::empty(),
    }
}

/// The entries of `provider` (none when the store lacks it).
pub open spec fn entries_of(sv: StoreView, provider: Seq<char>) -> Seq<EntryView> {
    entries_in(sv.providers, provider)
}

/// The first entry with user name `username`.
pub open spec fn first_with(es: Seq<EntryView>, username: Seq<char>) -> Option<EntryView> {
    match index_of_first(usernames(es), username) {
        Some(j) => Some(es[j]),
        None => None,
    }
}

/// The entry that a lookup of `username` under `provider` finds: the first
/// one with that user name.
pub open spec fn find_entry(sv: StoreView, provider: Seq<char>, username: Seq<char>) -> Option<
    EntryView,
> {
    first_with(entries_of(sv, provider), username)
}

/// `old` with the sealed password, nonce and display name of `e`.
pub open spec fn with_secret_of(old: EntryView, e: EntryView) -> EntryView {
    EntryView {
        encrypted_password: e.encrypted_password,
        nonce: e.nonce,
        display_name: e.display_name,
        ..old
    }
}

/// Saving `e` into a list of entries: an entry with the same user name gets
/// the new password, nonce and display name; otherwise `e` is appended.
pub open spec fn upserted(es: Seq<EntryView>, e: EntryView) -> Seq<EntryView> {
    match index_of_first(usernames(es), e.username) {
        Some(j) => es.update(j, with_secret_of(es[j], e)),
        None => es.push(e),
    }
}

/// The store after saving `e` for `provider`; a provider that is new comes last.
pub open spec fn saved(sv: StoreView, provider: Seq<char>, e: EntryView) -> StoreView {
    StoreView {
        version: sv.version,
        providers: match provider_index(sv, provider) {
            Some(i) => sv.providers.update(i, (provider, upserted(sv.providers[i].1, e))),
            None => sv.providers.push((provider, seq![e])),
        },
    }
}

/// The entries without those of `username`.
pub open spec fn without_user(es: Seq<EntryView>, username: Seq<char>) -> Seq<EntryView>
    decreases es.len(),
{
    if es.len() == 0 {
        es
    } else if es.last().username == username {
        without_user(es.drop_last(), username)
    } else {
        without_user(es.drop_last(), username).push(es.last())
    }
}

/// The store after deleting the entries of `username` under `provider`.
pub open spec fn deleted_user(sv: StoreView, provider: Seq<char>, username: Seq<char>) -> StoreView {
    StoreView {
        version: sv.version,
        providers: match provider_index(sv, provider) {
            Some(i) => sv.providers.update(
                i,
                (provider, without_user(sv.providers[i].1, username)),
            ),
            None => sv.providers,
        },
    }
}

/// The providers without `provider`.
pub open spec fn without_provider(ps: Seq<(Seq<char>, Seq<EntryView>)>, provider: Seq<char>) -> Seq<
    (Seq<char>, Seq<EntryView>),
>
    decreases ps.len(),
{
    if ps.len() == 0 {
        ps
    } else if ps.last().0 == provider {
        without_provider(ps.drop_last(), provider)
    } else {
        without_provider(ps.drop_last(), provider).push(ps.last())
    }
}

/// The store after deleting every credential of `provider`.
pub open spec fn deleted_provider(sv: StoreView, provider: Seq<char>) -> StoreView {
    StoreView { version: sv.version, providers: without_provider(sv.providers, provider) }
}

/// The store after stamping the entry of `username` under `provider` as used
/// at `time`; unchanged when there is no such entry.
pub open spec fn touched(sv: StoreView, provider: Seq<char>, username: Seq<char>, time: Seq<char>) -> StoreView {
    match provider_index(sv, provider) {
        Some(i) => match index_of_first(usernames(sv.providers[i].1), username) {
            Some(j) => StoreView {
                version: sv.version,
                providers: sv.providers.update(
                    i,
                    (
                        provider,
                        sv.providers[i].1.update(
                            j,
                            EntryView { last_used_at: Some(time), ..sv.providers[i].1[j] },
                        ),
                    ),
                ),
            },
            None => sv,
        },
        None => sv,
    }
}

/// No provider name occurs twice.
pub open spec fn providers_unique(sv: StoreView) -> bool {
    provider_names(sv.providers).no_duplicates()
}

} // verus!

verus! {

/// Salt mixed into the key derivation.
pub const ENCRYPTION_SALT: &'static str = "cc-switch-credentials-v1";

/// Name of the store file in the application data directory.
pub const CREDENTIALS_FILE: &'static str = "credentials.json";

/// The key for a machine: SHA-256 of its identity followed by the salt.
pub open spec fn derived_key(machine_id: Seq<char>) -> Seq<u8> {
    sha256_digest(encode_utf8(machine_id) + encode_utf8(ENCRYPTION_SALT@))
}

/// `enc` and `nonce` are the stored texts of `password` sealed under `key`
/// with the 12-byte nonce `n`: the base64 texts of `n` and of the ciphertext
/// (the password's UTF-8 bytes encrypted, then the 16-byte tag), which decode
/// back to those bytes, and the ciphertext opens to the password's bytes.
pub open spec fn sealed_with(key: Seq<u8>, enc: Seq<char>, nonce: Seq<char>, password: Seq<char>, n: Seq<u8>) -> bool {
    let p = encode_utf8(password);
    let c = aes256gcm_sealed(key, n, p);
    &&& n.len() == 12
    &&& p.len() <= aes_gcm_max_plaintext()
    &&& nonce == base64_standard(n)
    &&& base64_standard_decoded(nonce) == Some(n)
    &&& enc == base64_standard(c)
    &&& base64_standard_decoded(enc) == Some(c)
    &&& c.len() == p.len() + 16
    &&& aes256gcm_opened(key, n, c) == Some(p)
}

/// `enc` and `nonce` are the stored texts of `password` sealed under `key`
/// with some 12-byte nonce.
pub open spec fn sealed_text(key: Seq<u8>, enc: Seq<char>, nonce: Seq<char>, password: Seq<char>) -> bool {
    exists|n: Seq<u8>| #[trigger] sealed_with(key, enc, nonce, password, n)
}

/// The entry holds `password` sealed under `key`.
pub open spec fn seals(key: Seq<u8>, e: EntryView, password: Seq<char>) -> bool {
    sealed_text(key, e.encrypted_password, e.nonce, password)
}

/// The entry that saving `username` with `password` makes under `key`, with
/// the nonce `n` and the creation time `created_at`.
pub open spec fn sealed_entry(
    key: Seq<u8>,
    username: Seq<char>,
    password: Seq<char>,
    display_name: Option<Seq<char>>,
    n: Seq<u8>,
    created_at: Seq<char>,
) -> EntryView {
    EntryView {
        username,
        encrypted_password: base64_standard(aes256gcm_sealed(key, n, encode_utf8(password))),
        nonce: base64_standard(n),
        display_name,
        created_at,
        last_used_at: None,
    }
}

/// What unsealing stored texts comes to.
pub enum Unsealed {
    /// The ciphertext text is not base64.
    CiphertextText,
    /// The nonce text is not base64.
    NonceText,
    /// AES-GCM rejects the ciphertext.
    Rejected,
    /// The plaintext is not UTF-8.
    NotUtf8,
    /// The password.
    Password(Seq<char>),
}

/// The outcome of unsealing `enc` with `nonce` under `key`.
pub open spec fn unsealed(key: Seq<u8>, enc: Seq<char>, nonce: Seq<char>) -> Unsealed {
    match base64_standard_decoded(enc) {
        None => Unsealed::CiphertextText,
        Some(ct) => match base64_standard_decoded(nonce) {
            None => Unsealed::NonceText,
            Some(n) => match aes256gcm_opened(key, n, ct) {
                None => Unsealed::Rejected,
                Some(pt) => if valid_utf8(pt) {
                    Unsealed::Password(decode_utf8(pt))
                } else {
                    Unsealed::NotUtf8
                },
            },
        },
    }
}

/// Unsealing these texts does not reach a nonce of the wrong length (on which
/// `aes_gcm::Nonce::from_slice` panics).
pub open spec fn nonce_fits(enc: Seq<char>, nonce: Seq<char>) -> bool {
    (base64_standard_decoded(enc) is Some && base64_standard_decoded(nonce) is Some) ==> base64_standard_decoded(nonce)->0.len() == 12
}

/// `m` begins with `p`.
pub open spec fn has_prefix(m: Seq<char>, p: Seq<char>) -> bool {
    p.len() <= m.len() && m.take(p.len() as int) == p
}

/// `r` reports the outcome `u`: the password, or an error whose message names
/// the failing step.
pub open spec fn reports(r: Result<String, String>, u: Unsealed) -> bool {
    match u {
        Unsealed::Password(p) => r matches Ok(s) && s@ == p,
        Unsealed::CiphertextText => r matches Err(m) && has_prefix(m@, "Base64 decode error: "@),
        Unsealed::NonceText => r matches Err(m) && has_prefix(m@, "Nonce decode error: "@),
        Unsealed::Rejected => r matches Err(m) && has_prefix(m@, "Decryption error: "@),
        Unsealed::NotUtf8 => r matches Err(m) && has_prefix(m@, "UTF-8 decode error: "@),
    }
}

/// `prefix` followed by `detail`, as an error message.
fn message(prefix: &str, detail: &str) -> (r: String)
    ensures
        r@ == prefix@ + detail@,
        has_prefix(r@, prefix@),
{
    let r = concat(prefix, detail);
    assert((prefix@ + detail@).take(prefix@.len() as int) =~= prefix@);
    r
}

/// Appends the bytes of `s` to `v`.
fn append_bytes(v: &mut Vec<u8>, s: &[u8])
    ensures
        final(v)@ == old(v)@ + s@,
{
    let mut i: usize = 0;
    while i < s.len()
        invariant
            i <= s@.len(),
            v@ == old(v)@ + s@.take(i as int),
        decreases s.len() - i,
    {
        v.push(s[i]);
        assert(s@.take(i + 1) =~= s@.take(i as int).push(s@[i as int]));
        i = i + 1;
    }
    assert(s@.take(s@.len() as int) =~= s@);
}

/// Keeps credentials in the store at `store_path`, sealing passwords with a key
/// derived from the machine's identity.
pub struct CredentialsManager {
    store_path: String,
    encryption_key: [u8; 32],
}

impl CredentialsManager {
    /// The key that passwords are sealed with.
    pub closed spec fn key(&self) -> Seq<u8> {
        self.encryption_key@
    }

    /// The path of the store file.
    pub closed spec fn path(&self) -> Seq<char> {
        self.store_path@
    }

    /// A manager for the store in `app_data_dir`, keyed from the machine
    /// identity that the application read (or the error it met reading it).
    pub fn new(app_data_dir: String, machine_id: Result<String, String>) -> (r: Result<Self, String>)
        ensures
            match machine_id {
                Ok(id) => r matches Ok(m) && m.key() == derived_key(id@) && m.path()
                    == crate::paths::joined_path(app_data_dir@, CREDENTIALS_FILE@),
                Err(e) => r == Err::<Self, String>(e),
            },
    {
        let store_path = crate::paths::join_path(app_data_dir.as_str(), CREDENTIALS_FILE);
        let encryption_key = match machine_id {
            Ok(id) => Self::derive_encryption_key(id.as_str()),
            Err(e) => {
                return Err(e);
            },
        };
        Ok(CredentialsManager { store_path, encryption_key })
    }

    /// SHA-256 of the machine identity followed by the salt.
    fn derive_encryption_key(machine_id: &str) -> (r: [u8; 32])
        ensures
            r@ == derived_key(machine_id@),
    {
        let mut data: Vec<u8> = Vec::new();
        append_bytes(&mut data, machine_id.as_bytes());
        append_bytes(&mut data, ENCRYPTION_SALT.as_bytes());
        sha256(data.as_slice())
    }

    /// The path of the store file.
    pub fn store_path(&self) -> (r: &String)
        ensures
            r@ == self.path(),
    {
        &self.store_path
    }

    /// Seals `password` under a fresh random nonce: the base64 texts of the
    /// ciphertext and of the nonce.
    fn encrypt_password(&self, password: &str) -> (r: Result<(String, String), String>)
        ensures
            r is Ok <==> encode_utf8(password@).len() <= aes_gcm_max_plaintext(),
            r matches Ok((enc, nonce)) ==> sealed_text(self.key(), enc@, nonce@, password@),
            r matches Err(m) ==> has_prefix(m@, "Encryption error: "@),
    {
        let nonce_bytes = random_nonce();
        self.seal_password(password, &nonce_bytes)
    }

    /// Seals `password` under the nonce `nonce_bytes`: the base64 texts of the
    /// ciphertext and of the nonce.
    fn seal_password(&self, password: &str, nonce_bytes: &[u8; 12]) -> (r: Result<(String, String), String>)
        ensures
            r is Ok <==> encode_utf8(password@).len() <= aes_gcm_max_plaintext(),
            r matches Ok((enc, nonce)) ==> enc@ == base64_standard(
                aes256gcm_sealed(self.key(), nonce_bytes@, encode_utf8(password@)),
            ) && nonce@ == base64_standard(nonce_bytes@) && sealed_with(
                self.key(),
                enc@,
                nonce@,
                password@,
                nonce_bytes@,
            ),
            r matches Ok((enc, nonce)) ==> sealed_text(self.key(), enc@, nonce@, password@),
            r matches Err(m) ==> has_prefix(m@, "Encryption error: "@),
    {
        let ciphertext = match aes256gcm_encrypt(
            &self.encryption_key,
            nonce_bytes,
            password.as_bytes(),
        ) {
            Ok(c) => c,
            Err(e) => {
                return Err(message("Encryption error: ", e.as_str()));
            },
        };
        let enc = base64_encode(ciphertext.as_slice());
        let nonce = base64_encode(nonce_bytes.as_slice());
        assert(sealed_with(self.key(), enc@, nonce@, password@, nonce_bytes@));
        Ok((enc, nonce))
    }

    /// Unseals the stored texts of a password.
    fn decrypt_password(&self, encrypted: &str, nonce_str: &str) -> (r: Result<String, String>)
        requires
            nonce_fits(encrypted@, nonce_str@),
        ensures
            reports(r, unsealed(self.key(), encrypted@, nonce_str@)),
            forall|pw: Seq<char>|
                sealed_text(self.key(), encrypted@, nonce_str@, pw) ==> unsealed(
                    self.key(),
                    encrypted@,
                    nonce_str@,
                ) == Unsealed::Password(pw),
            forall|pw: Seq<char>|
                sealed_text(self.key(), encrypted@, nonce_str@, pw) ==> (r matches Ok(s) && s@ == pw),
    {
        proof {
            assert forall|pw: Seq<char>|
                sealed_text(self.key(), encrypted@, nonce_str@, pw) implies unsealed(
                self.key(),
                encrypted@,
                nonce_str@,
            ) == Unsealed::Password(pw) by {
                crate::credential_laws::law_sealed_password_opens(self.key(), encrypted@, nonce_str@, pw);
            }
        }
        let ciphertext = match base64_decode(encrypted) {
            Ok(c) => c,
            Err(e) => {
                return Err(message("Base64 decode error: ", e.as_str()));
            },
        };
        let nonce_bytes = match base64_decode(nonce_str) {
            Ok(n) => n,
            Err(e) => {
                return Err(message("Nonce decode error: ", e.as_str()));
            },
        };
        let plaintext = match aes256gcm_decrypt(
            &self.encryption_key,
            nonce_bytes.as_slice(),
            ciphertext.as_slice(),
        ) {
            Ok(p) => p,
            Err(e) => {
                return Err(message("Decryption error: ", e.as_str()));
            },
        };
        match string_from_utf8(plaintext) {
            Ok(s) => Ok(s),
            Err(e) => Err(message("UTF-8 decode error: ", e.as_str())),
        }
    }
}

} // verus!

verus! {

/// An entry without its password, for listing.
#[derive(Debug)]
pub struct CredentialInfo {
    pub username: String,
    pub display_name: Option<String>,
    pub created_at: String,
    pub last_used_at: Option<String>,
}

/// A listed entry as plain text.
pub struct InfoView {
    pub username: Seq<char>,
    pub display_name: Option<Seq<char>>,
    pub created_at: Seq<char>,
    pub last_used_at: Option<Seq<char>>,
}

impl View for CredentialInfo {
    type V = InfoView;

    open spec fn view(&self) -> InfoView {
        InfoView {
            username: self.username@,
            display_name: opt_view(self.display_name),
            created_at: self.created_at@,
            last_used_at: opt_view(self.last_used_at),
        }
    }
}

/// What a listing shows of an entry.
pub open spec fn info_of(e: EntryView) -> InfoView {
    InfoView {
        username: e.username,
        display_name: e.display_name,
        created_at: e.created_at,
        last_used_at: e.last_used_at,
    }
}

/// An entry with its password unsealed, for filling in a login form.
#[derive(Debug)]
pub struct DecryptedCredential {
    pub username: String,
    pub password: String,
    pub display_name: Option<String>,
}

/// An unsealed entry as plain text.
pub struct DecryptedView {
    pub username: Seq<char>,
    pub password: Seq<char>,
    pub display_name: Option<Seq<char>>,
}

impl View for DecryptedCredential {
    type V = DecryptedView;

    open spec fn view(&self) -> DecryptedView {
        DecryptedView {
            username: self.username@,
            password: self.password@,
            display_name: opt_view(self.display_name),
        }
    }
}

/// `r` is what looking up and unsealing the entry of `username` under
/// `provider` gives: `Ok(None)` without such an entry, the entry with its
/// password, or the error of the step that failed.
pub open spec fn credential_result(
    key: Seq<u8>,
    sv: StoreView,
    provider: Seq<char>,
    username: Seq<char>,
    r: Result<Option<DecryptedCredential>, String>,
) -> bool {
    match find_entry(sv, provider, username) {
        None => r matches Ok(None),
        Some(e) => match unsealed(key, e.encrypted_password, e.nonce) {
            Unsealed::Password(p) => r matches Ok(Some(c)) && c@ == DecryptedView {
                username: e.username,
                password: p,
                display_name: e.display_name,
            },
            Unsealed::CiphertextText => r matches Err(m) && has_prefix(m@, "Base64 decode error: "@),
            Unsealed::NonceText => r matches Err(m) && has_prefix(m@, "Nonce decode error: "@),
            Unsealed::Rejected => r matches Err(m) && has_prefix(m@, "Decryption error: "@),
            Unsealed::NotUtf8 => r matches Err(m) && has_prefix(m@, "UTF-8 decode error: "@),
        },
    }
}

/// The entry that a lookup finds holds `password` sealed under `key`.
pub open spec fn found_seals(key: Seq<u8>, sv: StoreView, provider: Seq<char>, username: Seq<char>, password: Seq<char>) -> bool {
    find_entry(sv, provider, username) matches Some(e) && seals(key, e, password)
}

/// Unsealing the entry that a lookup finds does not reach a nonce of the wrong
/// length.
pub open spec fn lookup_nonce_fits(sv: StoreView, provider: Seq<char>, username: Seq<char>) -> bool {
    match find_entry(sv, provider, username) {
        Some(e) => nonce_fits(e.encrypted_password, e.nonce),
        None => true,
    }
}

/// Saves `entry` into `entries`: an entry with the same user name takes its
/// password, nonce and display name; otherwise it is appended.
fn upsert_entry(entries: &mut Vec<CredentialEntry>, entry: CredentialEntry)
    ensures
        final(entries)@.map_values(|e: CredentialEntry| e@) == upserted(
            old(entries)@.map_values(|e: CredentialEntry| e@),
            entry@,
        ),
{
    let ghost olds = old(entries)@.map_values(|e: CredentialEntry| e@);
    let mut i: usize = 0;
    while i < entries.len()
        invariant
            entries@ == old(entries)@,
            olds == old(entries)@.map_values(|e: CredentialEntry| e@),
            i <= entries@.len(),
            forall|j: int| 0 <= j < i ==> usernames(olds)[j] != entry@.username,
        decreases entries.len() - i,
    {
        if str_eq(entries[i].username.as_str(), entry.username.as_str()) {
            proof {
                assert(crate::keyed::is_first(usernames(olds), entry@.username, i as int));
                lemma_index_of_first_at(usernames(olds), entry@.username, i as int);
            }
            let mut existing = entries.remove(i);
            existing.encrypted_password = entry.encrypted_password;
            existing.nonce = entry.nonce;
            existing.display_name = entry.display_name;
            entries.insert(i, existing);
            proof {
                assert(entries@.map_values(|e: CredentialEntry| e@) =~= olds.update(
                    i as int,
                    with_secret_of(olds[i as int], entry@),
                ));
            }
            return;
        }
        i = i + 1;
    }
    proof {
        lemma_index_of_first_spec(usernames(olds), entry@.username);
        if usernames(olds).contains(entry@.username) {
            let w = choose|w: int| 0 <= w < usernames(olds).len() && usernames(olds)[w] == entry@.username;
            assert(usernames(olds)[w] != entry@.username);
        }
    }
    let ghost e = entry@;
    entries.push(entry);
    assert(entries@.map_values(|e: CredentialEntry| e@) =~= olds.push(e));
}

impl CredentialsManager {
    /// Saves the account `username` with `password` under `provider`: an
    /// existing entry for the user name gets the new password and display name,
    /// otherwise a new entry is added (and the provider, if new). The password
    /// is sealed under a fresh random nonce, and a new entry is stamped with the
    /// current time. Fails only when the password is too long to seal, leaving
    /// the store as it was.
    pub fn save_credential(
        &self,
        store: &mut CredentialsStore,
        provider: &str,
        username: &str,
        password: &str,
        display_name: Option<String>,
    ) -> (r: Result<(), String>)
        ensures
            r is Ok <==> encode_utf8(password@).len() <= aes_gcm_max_plaintext(),
            r is Err ==> final(store)@ == old(store)@,
            r matches Err(m) ==> has_prefix(m@, "Encryption error: "@),
            r is Ok ==> exists|n: Seq<u8>, t: Seq<char>|
                #![auto]
                n.len() == 12 && is_rfc3339_utc_text(t) && final(store)@ == saved(
                    old(store)@,
                    provider@,
                    sealed_entry(self.key(), username@, password@, opt_view(display_name), n, t),
                ),
            r is Ok ==> exists|e: EntryView|
                #![auto]
                e.username == username@ && e.display_name == opt_view(display_name)
                    && e.last_used_at is None && seals(self.key(), e, password@) && final(store)@
                    == saved(old(store)@, provider@, e),
    {
        let created_at = now_rfc3339();
        let nonce = random_nonce();
        let ghost t = created_at@;
        let r = self.save_credential_with(store, provider, username, password, display_name, &nonce, created_at);
        proof {
            if r is Ok {
                assert(nonce@.len() == 12 && is_rfc3339_utc_text(t));
            }
        }
        r
    }

    /// `save_credential` with the nonce and the creation time given: the entry
    /// saved is exactly `sealed_entry` of them.
    pub fn save_credential_with(
        &self,
        store: &mut CredentialsStore,
        provider: &str,
        username: &str,
        password: &str,
        display_name: Option<String>,
        nonce: &[u8; 12],
        created_at: String,
    ) -> (r: Result<(), String>)
        ensures
            r is Ok <==> encode_utf8(password@).len() <= aes_gcm_max_plaintext(),
            r is Err ==> final(store)@ == old(store)@,
            r matches Err(m) ==> has_prefix(m@, "Encryption error: "@),
            r is Ok ==> final(store)@ == saved(
                old(store)@,
                provider@,
                sealed_entry(self.key(), username@, password@, opt_view(display_name), nonce@, created_at@),
            ),
            r is Ok ==> seals(
                self.key(),
                sealed_entry(self.key(), username@, password@, opt_view(display_name), nonce@, created_at@),
                password@,
            ),
    {
        let ghost dn = opt_view(display_name);
        let (encrypted_password, nonce_text) = match self.seal_password(password, nonce) {
            Ok(pair) => pair,
            Err(e) => {
                return Err(e);
            },
        };
        let entry = CredentialEntry {
            username: owned(username),
            encrypted_password,
            nonce: nonce_text,
            display_name,
            created_at,
            last_used_at: None,
        };
        assert(entry@ == sealed_entry(self.key(), username@, password@, dn, nonce@, entry.created_at@));
        let ghost e = entry@;
        proof {
            use_type_invariant(&*store);
            lemma_names_are_keys(store.providers@);
        }
        let ghost old_view = store@;
        let mut ps: Vec<(String, ProviderCredentials)> = Vec::new();
        std::mem::swap(&mut ps, &mut store.providers);
        assert(key_views(ps@) =~= provider_names(old_view.providers));
        match find_key(&ps, provider) {
            Some(i) => {
                let (name, mut creds) = ps.remove(i);
                upsert_entry(&mut creds.entries, entry);
                ps.insert(i, (name, creds));
                proof {
                    assert(old_view.providers[i as int].0 == provider@);
                    assert(pairs_view(ps@) =~= old_view.providers.update(
                        i as int,
                        (provider@, upserted(old_view.providers[i as int].1, e)),
                    ));
                }
            },
            None => {
                let mut creds = ProviderCredentials::default();
                creds.entries.push(entry);
                assert(creds@ =~= seq![e]);
                ps.push((owned(provider), creds));
                assert(pairs_view(ps@) =~= old_view.providers.push((provider@, seq![e])));
            },
        }
        proof {
            crate::credential_laws::law_operations_keep_providers_unique(old_view, provider@, username@, e, Seq::empty());
            lemma_names_are_keys(ps@);
        }
        store.providers = ps;
        assert(store@ == saved(old_view, provider@, e));
        assert(seals(self.key(), e, password@));
        assert(e.username == username@ && e.last_used_at is None);
        Ok(())
    }

    /// The entries of `provider`, without passwords.
    pub fn get_credentials(&self, store: &CredentialsStore, provider: &str) -> (r: Vec<CredentialInfo>)
        ensures
            r@.map_values(|c: CredentialInfo| c@) == entries_of(store@, provider@).map_values(
                |e: EntryView| info_of(e),
            ),
    {
        let mut out: Vec<CredentialInfo> = Vec::new();
        assert(key_views(store.providers@) =~= provider_names(store@.providers));
        match find_key(&store.providers, provider) {
            Some(i) => {
                let entries = &store.providers[i].1.entries;
                let ghost es = store@.providers[i as int].1;
                let mut j: usize = 0;
                while j < entries.len()
                    invariant
                        es == entries@.map_values(|e: CredentialEntry| e@),
                        j <= entries@.len(),
                        out@.map_values(|c: CredentialInfo| c@) == es.take(j as int).map_values(
                            |e: EntryView| info_of(e),
                        ),
                    decreases entries.len() - j,
                {
                    let e = &entries[j];
                    assert(es[j as int] == entries@[j as int]@);
                    let info = CredentialInfo {
                        username: e.username.clone(),
                        display_name: clone_opt(&e.display_name),
                        created_at: e.created_at.clone(),
                        last_used_at: clone_opt(&e.last_used_at),
                    };
                    assert(info@ == info_of(es[j as int]));
                    let ghost before = out@;
                    out.push(info);
                    assert(out@ == before.push(info));
                    assert(es.take(j + 1) =~= es.take(j as int).push(es[j as int]));
                    assert(out@.map_values(|c: CredentialInfo| c@) =~= before.map_values(
                        |c: CredentialInfo| c@,
                    ).push(info@));
                    assert(es.take(j + 1).map_values(|e: EntryView| info_of(e)) =~= es.take(
                        j as int,
                    ).map_values(|e: EntryView| info_of(e)).push(info_of(es[j as int])));
                    assert(out@.map_values(|c: CredentialInfo| c@) =~= es.take(j as int + 1).map_values(
                        |e: EntryView| info_of(e),
                    ));
                    j = j + 1;
                }
                assert(es.take(entries@.len() as int) =~= es);
            },
            None => {
                assert(out@.map_values(|c: CredentialInfo| c@) =~= Seq::<InfoView>::empty());
            },
        }
        out
    }

    /// The position of the first entry of `username` under `provider`.
    fn find_entry_position(store: &CredentialsStore, provider: &str, username: &str) -> (r: Option<(usize, usize)>)
        ensures
            match r {
                Some((i, j)) => provider_index(store@, provider@) == Some(i as int) && i
                    < store@.providers.len() && j < store@.providers[i as int].1.len()
                    && index_of_first(usernames(store@.providers[i as int].1), username@) == Some(
                    j as int,
                ) && find_entry(store@, provider@, username@) == Some(
                    store@.providers[i as int].1[j as int],
                ),
                None => find_entry(store@, provider@, username@) is None,
            },
    {
        assert(key_views(store.providers@) =~= provider_names(store@.providers));
        match find_key(&store.providers, provider) {
            Some(i) => {
                let entries = &store.providers[i].1.entries;
                let ghost es = store@.providers[i as int].1;
                let mut j: usize = 0;
                while j < entries.len()
                    invariant
                        es == entries@.map_values(|e: CredentialEntry| e@),
                        j <= entries@.len(),
                        forall|k: int| 0 <= k < j ==> usernames(es)[k] != username@,
                        provider_index(store@, provider@) == Some(i as int),
                        i < store@.providers.len(),
                        es == store@.providers[i as int].1,
                    decreases entries.len() - j,
                {
                    if str_eq(entries[j].username.as_str(), username) {
                        proof {
                            assert(crate::keyed::is_first(usernames(es), username@, j as int));
                            lemma_index_of_first_at(usernames(es), username@, j as int);
                            assert(provider_index(store@, provider@) == Some(i as int));
                            assert(entries_of(store@, provider@) == es);
                        }
                        return Some((i, j));
                    }
                    j = j + 1;
                }
                proof {
                    lemma_index_of_first_spec(usernames(es), username@);
                    if usernames(es).contains(username@) {
                        let w = choose|w: int| 0 <= w < usernames(es).len() && usernames(es)[w] == username@;
                        assert(usernames(es)[w] != username@);
                    }
                }
                None
            },
            None => {
                proof {
                    lemma_index_of_first_spec(usernames(Seq::<EntryView>::empty()), username@);
                }
                None
            },
        }
    }

    /// The entry of `username` under `provider` with its password unsealed;
    /// `Ok(None)` when there is no such entry.
    pub fn get_credential(&self, store: &CredentialsStore, provider: &str, username: &str) -> (r: Result<
        Option<DecryptedCredential>,
        String,
    >)
        requires
            lookup_nonce_fits(store@, provider@, username@),
        ensures
            credential_result(self.key(), store@, provider@, username@, r),
            forall|pw: Seq<char>|
                #[trigger] found_seals(self.key(), store@, provider@, username@, pw) ==> (r matches Ok(
                    Some(c),
                ) && c.password@ == pw),
    {
        match Self::find_entry_position(store, provider, username) {
            Some((i, j)) => {
                let e = &store.providers[i].1.entries[j];
                let password = match self.decrypt_password(
                    e.encrypted_password.as_str(),
                    e.nonce.as_str(),
                ) {
                    Ok(p) => p,
                    Err(m) => {
                        return Err(m);
                    },
                };
                Ok(
                    Some(
                        DecryptedCredential {
                            username: e.username.clone(),
                            password,
                            display_name: clone_opt(&e.display_name),
                        },
                    ),
                )
            },
            None => Ok(None),
        }
    }

    /// `get_credential`, except where unsealing the entry would reach a nonce of
    /// the wrong length (a corrupt store): then `None`.
    pub fn try_get_credential(&self, store: &CredentialsStore, provider: &str, username: &str) -> (r:
        Option<Result<Option<DecryptedCredential>, String>>)
        ensures
            r is None <==> !lookup_nonce_fits(store@, provider@, username@),
            r matches Some(res) ==> credential_result(self.key(), store@, provider@, username@, res),
            forall|pw: Seq<char>|
                #[trigger] found_seals(self.key(), store@, provider@, username@, pw) ==> (r matches Some(
                    Ok(Some(c)),
                ) && c.password@ == pw),
    {
        match Self::find_entry_position(store, provider, username) {
            Some((i, j)) => {
                let e = &store.providers[i].1.entries[j];
                let enc = base64_decode(e.encrypted_password.as_str());
                let non = base64_decode(e.nonce.as_str());
                let fits = match (enc, non) {
                    (Ok(_), Ok(n)) => n.len() == 12,
                    _ => true,
                };
                proof {
                    let key = self.key();
                    let ev = e@;
                    assert forall|pw: Seq<char>|
                        #[trigger] found_seals(key, store@, provider@, username@, pw) implies fits by {
                        crate::credential_laws::law_sealed_password_opens(key, ev.encrypted_password, ev.nonce, pw);
                    }
                }
                if !fits {
                    return None;
                }
            },
            None => {},
        }
        Some(self.get_credential(store, provider, username))
    }

    /// Stamps the entry of `username` under `provider` with the current time.
    /// Returns whether there was such an entry (only then has the store
    /// changed and needs writing).
    pub fn update_last_used(&self, store: &mut CredentialsStore, provider: &str, username: &str) -> (r: bool)
        ensures
            r == find_entry(old(store)@, provider@, username@) is Some,
            !r ==> final(store)@ == old(store)@,
            r ==> exists|t: Seq<char>|
                #![auto]
                is_rfc3339_utc_text(t) && final(store)@ == touched(old(store)@, provider@, username@, t),
    {
        let now = now_rfc3339();
        let ghost t = now@;
        let r = self.update_last_used_at(store, provider, username, now);
        proof {
            if r {
                assert(is_rfc3339_utc_text(t));
            }
        }
        r
    }

    /// `update_last_used` with the time given: the entry is stamped with `now`.
    pub fn update_last_used_at(&self, store: &mut CredentialsStore, provider: &str, username: &str, now: String) -> (r: bool)
        ensures
            r == find_entry(old(store)@, provider@, username@) is Some,
            !r ==> final(store)@ == old(store)@,
            r ==> final(store)@ == touched(old(store)@, provider@, username@, now@),
    {
        match Self::find_entry_position(store, provider, username) {
            Some((i, j)) => {
                proof {
                    use_type_invariant(&*store);
                    lemma_names_are_keys(store.providers@);
                }
                let ghost old_view = store@;
                let mut ps: Vec<(String, ProviderCredentials)> = Vec::new();
                std::mem::swap(&mut ps, &mut store.providers);
                assert(pairs_view(ps@) == old_view.providers);
                let (name, mut creds) = ps.remove(i);
                let ghost es = creds@;
                let mut entry = creds.entries.remove(j);
                entry.last_used_at = Some(now);
                let ghost updated = entry@;
                creds.entries.insert(j, entry);
                assert(creds@ =~= es.update(j as int, updated));
                assert(updated == EntryView { last_used_at: Some(now@), ..es[j as int] });
                ps.insert(i, (name, creds));
                proof {
                    assert(old_view.providers[i as int].0 == provider@) by {
                        lemma_index_of_first_spec(provider_names(old_view.providers), provider@);
                    }
                    assert(pairs_view(ps@) =~= old_view.providers.update(
                        i as int,
                        (provider@, es.update(j as int, EntryView { last_used_at: Some(now@), ..es[j as int] })),
                    ));
                    crate::credential_laws::law_operations_keep_providers_unique(
                        old_view,
                        provider@,
                        username@,
                        updated,
                        now@,
                    );
                    lemma_names_are_keys(ps@);
                }
                store.providers = ps;
                assert(store@ == touched(old_view, provider@, username@, now@));
                true
            },
            None => false,
        }
    }

    /// Deletes every entry of `username` under `provider`.
    pub fn delete_credential(&self, store: &mut CredentialsStore, provider: &str, username: &str)
        ensures
            final(store)@ == deleted_user(old(store)@, provider@, username@),
    {
        proof {
            use_type_invariant(&*store);
            lemma_names_are_keys(store.providers@);
        }
        let ghost old_view = store@;
        let mut ps: Vec<(String, ProviderCredentials)> = Vec::new();
        std::mem::swap(&mut ps, &mut store.providers);
        assert(key_views(ps@) =~= provider_names(old_view.providers));
        match find_key(&ps, provider) {
            Some(i) => {
                let (name, creds) = ps.remove(i);
                let kept = retain_other_users(creds.entries, username);
                ps.insert(i, (name, ProviderCredentials { entries: kept }));
                proof {
                    lemma_index_of_first_spec(provider_names(old_view.providers), provider@);
                    assert(pairs_view(ps@) =~= old_view.providers.update(
                        i as int,
                        (provider@, without_user(old_view.providers[i as int].1, username@)),
                    ));
                }
            },
            None => {},
        }
        proof {
            crate::credential_laws::law_operations_keep_providers_unique(
                old_view,
                provider@,
                username@,
                arbitrary(),
                Seq::empty(),
            );
            lemma_names_are_keys(ps@);
        }
        store.providers = ps;
    }

    /// Deletes every credential of `provider`.
    pub fn delete_all_credentials(&self, store: &mut CredentialsStore, provider: &str)
        ensures
            final(store)@ == deleted_provider(old(store)@, provider@),
    {
        proof {
            use_type_invariant(&*store);
            lemma_names_are_keys(store.providers@);
        }
        let ghost old_view = store@;
        let mut old_providers: Vec<(String, ProviderCredentials)> = Vec::new();
        std::mem::swap(&mut old_providers, &mut store.providers);
        let ghost ps = old_view.providers;
        let mut kept: Vec<(String, ProviderCredentials)> = Vec::new();
        let mut rest = old_providers;
        let ghost n = ps.len();
        assert(rest@.len() == n);
        while rest.len() > 0
            invariant
                rest@.len() <= n,
                n == ps.len(),
                forall|k: int| #![auto] 0 <= k < rest@.len() ==> (rest@[k].0@, rest@[k].1@) == ps[n - rest@.len() + k],
                kept@.map_values(|p: (String, ProviderCredentials)| (p.0@, p.1@)) == without_provider(
                    ps.take(n - rest@.len()),
                    provider@,
                ),
            decreases rest.len(),
        {
            let ghost before = n - rest@.len();
            let item = rest.remove(0);
            assert(ps.take(before + 1).drop_last() =~= ps.take(before));
            assert(ps.take(before + 1).last() == (item.0@, item.1@));
            if !str_eq(item.0.as_str(), provider) {
                kept.push(item);
                assert(kept@.map_values(|p: (String, ProviderCredentials)| (p.0@, p.1@)) =~= without_provider(
                    ps.take(before + 1),
                    provider@,
                ));
            }
        }
        assert(ps.take(n as int) =~= ps);
        proof {
            crate::credential_laws::law_operations_keep_providers_unique(
                old_view,
                provider@,
                Seq::empty(),
                arbitrary(),
                Seq::empty(),
            );
            assert(kept@.map_values(|p: (String, ProviderCredentials)| (p.0@, p.1@)) == pairs_view(kept@));
            lemma_names_are_keys(kept@);
        }
        store.providers = kept;
    }
}

/// The entries whose user name is not `username`, in order.
fn retain_other_users(entries: Vec<CredentialEntry>, username: &str) -> (r: Vec<CredentialEntry>)
    ensures
        r@.map_values(|e: CredentialEntry| e@) == without_user(
            entries@.map_values(|e: CredentialEntry| e@),
            username@,
        ),
{
    let ghost es = entries@.map_values(|e: CredentialEntry| e@);
    let ghost n = es.len();
    let mut rest = entries;
    let mut kept: Vec<CredentialEntry> = Vec::new();
    while rest.len() > 0
        invariant
            rest@.len() <= n,
            n == es.len(),
            forall|k: int| #![auto] 0 <= k < rest@.len() ==> rest@[k]@ == es[n - rest@.len() + k],
            kept@.map_values(|e: CredentialEntry| e@) == without_user(es.take(n - rest@.len()), username@),
        decreases rest.len(),
    {
        let ghost before = n - rest@.len();
        let item = rest.remove(0);
        assert(es.take(before + 1).drop_last() =~= es.take(before));
        assert(es.take(before + 1).last() == item@);
        if !str_eq(item.username.as_str(), username) {
            kept.push(item);
            assert(kept@.map_values(|e: CredentialEntry| e@) =~= without_user(es.take(before + 1), username@));
        }
    }
    assert(es.take(n as int) =~= es);
    kept
}

} // verus!
