//! Application settings: preferences, file organization, brand settings,
//! usage statistics, and API keys stored encrypted under AES-256-GCM. The
//! service keeps the settings in memory and edits them; loading and saving
//! the settings file is the host's work.

use vstd::prelude::*;

use crate::clock::now_rfc3339;
use crate::crypto::{
    aes256_encrypt, aes256_decrypt, aes256_opened, aes256_sealed, b64_std_decode, b64_std_decoded,
    b64_std_encode, b64_std_of, bytes_to_string, random_bytes_os,
};
use crate::text::str_eq;
use vstd::string::StringSliceAdditionalSpecFns;

verus! {

/// One stored API key: the service it belongs to and the sealed key text.
#[derive(Debug)]
pub struct ApiKey {
    pub service: String,
    pub encrypted_key: String,
    pub created_at: String,
    pub last_used: Option<String>,
}

impl Clone for ApiKey {
    fn clone(&self) -> (r: Self)
        ensures
            r == *self,
    {
        ApiKey {
            service: self.service.clone(),
            encrypted_key: self.encrypted_key.clone(),
            created_at: self.created_at.clone(),
            last_used: match &self.last_used {
                Some(s) => Some(s.clone()),
                None => None,
            },
        }
    }
}

/// User interface preferences.
#[derive(Debug)]
pub struct Preferences {
    pub theme: String,
    pub auto_save_interval: u32,
    pub default_export_format: String,
    pub show_tips: bool,
}

impl Clone for Preferences {
    fn clone(&self) -> (r: Self)
        ensures
            r == *self,
    {
        Preferences {
            theme: self.theme.clone(),
            auto_save_interval: self.auto_save_interval,
            default_export_format: self.default_export_format.clone(),
            show_tips: self.show_tips,
        }
    }
}

/// How imported files are watched and organized.
#[derive(Debug)]
pub struct FileOrganization {
    pub watch_folder: Option<String>,
    pub auto_organize: bool,
    pub folder_pattern: String,
    pub cleanup_after_days: u32,
}

impl Clone for FileOrganization {
    fn clone(&self) -> (r: Self)
        ensures
            r == *self,
    {
        FileOrganization {
            watch_folder: match &self.watch_folder {
                Some(s) => Some(s.clone()),
                None => None,
            },
            auto_organize: self.auto_organize,
            folder_pattern: self.folder_pattern.clone(),
            cleanup_after_days: self.cleanup_after_days,
        }
    }
}

/// Brand colors and typography applied to generated content.
#[derive(Debug)]
pub struct BrandSettings {
    pub primary_color: String,
    pub secondary_color: String,
    pub font_family: String,
    pub logo_path: Option<String>,
}

impl Clone for BrandSettings {
    fn clone(&self) -> (r: Self)
        ensures
            r == *self,
    {
        BrandSettings {
            primary_color: self.primary_color.clone(),
            secondary_color: self.secondary_color.clone(),
            font_family: self.font_family.clone(),
            logo_path: match &self.logo_path {
                Some(s) => Some(s.clone()),
                None => None,
            },
        }
    }
}

/// Usage counters, with storage accounted in whole megabytes.
#[derive(Debug)]
pub struct UsageStats {
    pub descript_api_calls: u32,
    pub openai_tokens_used: u32,
    pub claude_tokens_used: u32,
    pub storage_used_mb: u64,
    pub last_updated: String,
}

impl Clone for UsageStats {
    fn clone(&self) -> (r: Self)
        ensures
            r == *self,
    {
        UsageStats {
            descript_api_calls: self.descript_api_calls,
            openai_tokens_used: self.openai_tokens_used,
            claude_tokens_used: self.claude_tokens_used,
            storage_used_mb: self.storage_used_mb,
            last_updated: self.last_updated.clone(),
        }
    }
}

/// The whole settings document.
#[derive(Debug)]
pub struct Settings {
    pub api_keys: Vec<ApiKey>,
    pub preferences: Preferences,
    pub file_organization: FileOrganization,
    pub brand_settings: BrandSettings,
    pub usage_stats: UsageStats,
}

/// No two stored keys belong to the same service.
pub open spec fn services_unique(s: Seq<ApiKey>) -> bool {
    forall|i: int, j: int| 0 <= i < j < s.len() ==> s[i].service@ != s[j].service@
}

impl Settings {
    /// The settings a fresh installation starts with, timestamped `now`.
    pub fn default_at(now: String) -> (r: Settings)
        ensures
            r.api_keys@ == Seq::<ApiKey>::empty(),
            r.preferences.theme@ == "light"@,
            r.preferences.auto_save_interval == 30,
            r.preferences.default_export_format@ == "png"@,
            r.preferences.show_tips == true,
            r.file_organization.watch_folder is None,
            r.file_organization.auto_organize == true,
            r.file_organization.folder_pattern@ == "{year}/{month}/{orientation}"@,
            r.file_organization.cleanup_after_days == 30,
            r.brand_settings.primary_color@ == "#0066FF"@,
            r.brand_settings.secondary_color@ == "#6B46C1"@,
            r.brand_settings.font_family@ == "Inter"@,
            r.brand_settings.logo_path is None,
            r.usage_stats.descript_api_calls == 0,
            r.usage_stats.openai_tokens_used == 0,
            r.usage_stats.claude_tokens_used == 0,
            r.usage_stats.storage_used_mb == 0,
            r.usage_stats.last_updated == now,
            services_unique(r.api_keys@),
    {
        Settings {
            api_keys: Vec::new(),
            preferences: Preferences {
                theme: "light".to_owned(),
                auto_save_interval: 30,
                default_export_format: "png".to_owned(),
                show_tips: true,
            },
            file_organization: FileOrganization {
                watch_folder: None,
                auto_organize: true,
                folder_pattern: "{year}/{month}/{orientation}".to_owned(),
                cleanup_after_days: 30,
            },
            brand_settings: BrandSettings {
                primary_color: "#0066FF".to_owned(),
                secondary_color: "#6B46C1".to_owned(),
                font_family: "Inter".to_owned(),
                logo_path: None,
            },
            usage_stats: UsageStats {
                descript_api_calls: 0,
                openai_tokens_used: 0,
                claude_tokens_used: 0,
                storage_used_mb: 0,
                last_updated: now,
            },
        }
    }
}

impl Default for Settings {
    /// The fresh-installation settings, timestamped with the clock.
    fn default() -> (r: Settings)
        ensures
            r.api_keys@ == Seq::<ApiKey>::empty(),
            r.preferences.theme@ == "light"@,
            r.preferences.auto_save_interval == 30,
            r.preferences.default_export_format@ == "png"@,
            r.preferences.show_tips == true,
            r.file_organization.watch_folder is None,
            r.file_organization.auto_organize == true,
            r.file_organization.folder_pattern@ == "{year}/{month}/{orientation}"@,
            r.file_organization.cleanup_after_days == 30,
            r.brand_settings.primary_color@ == "#0066FF"@,
            r.brand_settings.secondary_color@ == "#6B46C1"@,
            r.brand_settings.font_family@ == "Inter"@,
            r.brand_settings.logo_path is None,
            r.usage_stats.descript_api_calls == 0,
            r.usage_stats.openai_tokens_used == 0,
            r.usage_stats.claude_tokens_used == 0,
            r.usage_stats.storage_used_mb == 0,
            services_unique(r.api_keys@),
    {
        Settings::default_at(now_rfc3339())
    }
}

/// Caller's request to store an API key.
#[derive(Debug)]
pub struct ApiKeyUpdate {
    pub service: String,
    pub key: String,
}

/// What listings reveal of a stored key: everything but the key itself.
#[derive(Debug)]
pub struct ApiKeyInfo {
    pub service: String,
    pub is_set: bool,
    pub created_at: String,
    pub last_used: Option<String>,
}

/// Index of the entry for `svc`, or `-1` when there is none.
pub open spec fn index_of_service(s: Seq<ApiKey>, svc: Seq<char>) -> int
    decreases s.len(),
{
    if s.len() == 0 {
        -1
    } else if s[0].service@ == svc {
        0
    } else if index_of_service(s.drop_first(), svc) == -1 {
        -1
    } else {
        1 + index_of_service(s.drop_first(), svc)
    }
}

pub proof fn lemma_index_of_service(s: Seq<ApiKey>, svc: Seq<char>)
    ensures
        -1 <= index_of_service(s, svc) < s.len(),
        index_of_service(s, svc) >= 0 ==> s[index_of_service(s, svc)].service@ == svc,
        index_of_service(s, svc) >= 0 ==> forall|k: int|
            0 <= k < index_of_service(s, svc) ==> s[k].service@ != svc,
        index_of_service(s, svc) == -1 ==> forall|k: int|
            0 <= k < s.len() ==> s[k].service@ != svc,
    decreases s.len(),
{
    if s.len() > 0 && s[0].service@ != svc {
        lemma_index_of_service(s.drop_first(), svc);
        assert forall|k: int| 1 <= k < s.len() implies s.drop_first()[k - 1] == s[k] by {}
    }
}

/// The stored keys that do not belong to `svc`, in order.
pub open spec fn retained_keys(s: Seq<ApiKey>, svc: Seq<char>) -> Seq<ApiKey>
    decreases s.len(),
{
    if s.len() == 0 {
        Seq::empty()
    } else if s.last().service@ == svc {
        retained_keys(s.drop_last(), svc)
    } else {
        retained_keys(s.drop_last(), svc).push(s.last())
    }
}

pub proof fn lemma_retained_keys(s: Seq<ApiKey>, svc: Seq<char>)
    requires
        services_unique(s),
    ensures
        services_unique(retained_keys(s, svc)),
        forall|k: int|
            0 <= k < retained_keys(s, svc).len() ==> (#[trigger] retained_keys(s, svc)[k]).service@
                != svc,
    decreases s.len(),
{
    if s.len() > 0 {
        assert forall|i: int, j: int| 0 <= i < j < s.drop_last().len() implies s.drop_last()[i].service@
            != s.drop_last()[j].service@ by {
            assert(s.drop_last()[i] == s[i]);
            assert(s.drop_last()[j] == s[j]);
        }
        lemma_retained_keys(s.drop_last(), svc);
        if s.last().service@ != svc {
            let r = retained_keys(s, svc);
            let rp = retained_keys(s.drop_last(), svc);
            lemma_retained_subset(s.drop_last(), svc);
            assert forall|i: int, j: int| 0 <= i < j < r.len() implies r[i].service@ != r[j].service@
                by {
                if j < rp.len() {
                } else {
                    assert(r[j] == s.last());
                }
            }
        }
    }
}

/// Every retained key is one of the stored keys, at or before its old
/// position.
pub proof fn lemma_retained_subset(s: Seq<ApiKey>, svc: Seq<char>)
    ensures
        retained_keys(s, svc).len() <= s.len(),
        forall|k: int|
            0 <= k < retained_keys(s, svc).len() ==> exists|m: int|
                0 <= m < s.len() && s[m] == #[trigger] retained_keys(s, svc)[k],
    decreases s.len(),
{
    if s.len() > 0 {
        lemma_retained_subset(s.drop_last(), svc);
        assert forall|k: int| 0 <= k < retained_keys(s, svc).len() implies exists|m: int|
            0 <= m < s.len() && s[m] == #[trigger] retained_keys(s, svc)[k] by {
            let rp = retained_keys(s.drop_last(), svc);
            if k < rp.len() {
                let m = choose|m: int| 0 <= m < s.drop_last().len() && s.drop_last()[m] == rp[k];
                assert(s[m] == s.drop_last()[m]);
            } else {
                assert(retained_keys(s, svc)[k] == s.last());
                assert(s[s.len() - 1] == s.last());
            }
        }
    }
}

/// The decryption pipeline applied to a stored key text: base64-decode,
/// split off the 12-byte nonce, and open the rest under the key.
pub open spec fn opened_key_blob(ek: Seq<u8>, encrypted: Seq<char>) -> Option<Seq<u8>> {
    match b64_std_decoded(encrypted) {
        None => None,
        Some(comb) => if comb.len() < 12 {
            None
        } else {
            aes256_opened(ek, comb.take(12), comb.skip(12))
        },
    }
}

/// `out` is a possible sealing of `plaintext` under `ek`: some 12-byte
/// nonce, followed by the ciphertext, base64-encoded — and, by the cipher
/// and encoding inverses, a text that opens back to `plaintext`.
pub open spec fn sealed_key_text(ek: Seq<u8>, plaintext: Seq<u8>, out: Seq<char>) -> bool {
    exists|nonce: Seq<u8>, ct: Seq<u8>|
        {
            &&& nonce.len() == 12
            &&& aes256_sealed(ek, nonce, plaintext) == Some(ct)
            &&& aes256_opened(ek, nonce, ct) == Some(plaintext)
            &&& b64_std_decoded(out) == Some(nonce + ct)
            &&& out == #[trigger] b64_std_of(nonce + ct)
        }
}

/// A sealed key text opens back to the plaintext it sealed: the
/// store-then-retrieve round trip, down to UTF-8 decoding.
pub proof fn lemma_sealed_key_opens(ek: Seq<u8>, plaintext: Seq<u8>, out: Seq<char>)
    requires
        sealed_key_text(ek, plaintext, out),
    ensures
        opened_key_blob(ek, out) == Some(plaintext),
{
    let (nonce, ct) = choose|nonce: Seq<u8>, ct: Seq<u8>|
        {
            &&& nonce.len() == 12
            &&& aes256_sealed(ek, nonce, plaintext) == Some(ct)
            &&& aes256_opened(ek, nonce, ct) == Some(plaintext)
            &&& b64_std_decoded(out) == Some(nonce + ct)
            &&& out == #[trigger] b64_std_of(nonce + ct)
        };
    assert((nonce + ct).take(12) =~= nonce);
    assert((nonce + ct).skip(12) =~= ct);
}

/// A key stored by `update_api_key` is recovered by
/// `get_decrypted_api_key`: opening the sealed text yields the key's UTF-8
/// bytes, which decode to the key itself.
pub proof fn lemma_stored_key_round_trips(ek: Seq<u8>, key: Seq<char>, out: Seq<char>)
    requires
        sealed_key_text(ek, vstd::utf8::encode_utf8(key), out),
    ensures
        opened_key_blob(ek, out) == Some(vstd::utf8::encode_utf8(key)),
        vstd::utf8::valid_utf8(opened_key_blob(ek, out)->0),
        vstd::utf8::decode_utf8(opened_key_blob(ek, out)->0) == key,
{
    lemma_sealed_key_opens(ek, vstd::utf8::encode_utf8(key), out);
    vstd::utf8::encode_utf8_valid_utf8(key);
    vstd::utf8::encode_utf8_decode_utf8(key);
}

/// Keeps the settings and the key that seals stored API keys. The settings
/// file itself is read and written by the host, which hands the loaded
/// document in and writes the edited one back out.
pub struct SettingsService {
    settings: Settings,
    encryption_key: Vec<u8>,
}

impl SettingsService {
    /// The settings document held.
    pub closed spec fn spec_settings(&self) -> Settings {
        self.settings
    }

    /// The sealing key.
    pub closed spec fn spec_key(&self) -> Seq<u8> {
        self.encryption_key@
    }

    pub open spec fn wf(&self) -> bool {
        &&& self.spec_key().len() == 32
        &&& services_unique(self.spec_settings().api_keys@)
    }

    /// Take charge of a loaded settings document. The key must be the
    /// 32-byte AES-256 key; a document with two keys for one service is
    /// rejected.
    pub fn new(encryption_key: Vec<u8>, settings: Settings) -> (r: Result<SettingsService, String>)
        ensures
            r is Ok <==> (encryption_key@.len() == 32 && services_unique(settings.api_keys@)),
            r matches Ok(s) ==> s.wf() && s.spec_settings() == settings && s.spec_key()
                == encryption_key@,
    {
        if encryption_key.len() != 32 {
            return Err("Encryption key must be 32 bytes".to_owned());
        }
        let n = settings.api_keys.len();
        let mut i: usize = 0;
        while i < n
            invariant
                n == settings.api_keys@.len(),
                i <= n,
                forall|a: int, b: int|
                    0 <= a < b < n && a < i ==> settings.api_keys@[a].service@
                        != settings.api_keys@[b].service@,
            decreases n - i,
        {
            let mut j: usize = i + 1;
            while j < n
                invariant
                    n == settings.api_keys@.len(),
                    i < j <= n,
                    forall|b: int|
                        i < b < j ==> settings.api_keys@[i as int].service@
                            != settings.api_keys@[b].service@,
                decreases n - j,
            {
                if str_eq(settings.api_keys[i].service.as_str(), settings.api_keys[j].service.as_str()) {
                    return Err("Duplicate API key service".to_owned());
                }
                j = j + 1;
            }
            i = i + 1;
        }
        Ok(SettingsService { settings, encryption_key })
    }

    /// Read access for the host, which persists the document.
    pub fn settings(&self) -> (r: &Settings)
        ensures
            *r == self.spec_settings(),
    {
        &self.settings
    }

    /// Seal an API key for storage: a fresh random 12-byte nonce, the
    /// AES-256-GCM ciphertext, and base64 over both.
    pub fn encrypt_api_key(&self, key: &str) -> (r: Result<String, String>)
        requires
            self.wf(),
        ensures
            r matches Ok(s) ==> sealed_key_text(self.spec_key(), key.spec_bytes(), s@),
            r matches Err(e) ==> e@ == "Encryption failed"@,
            r is Err ==> exists|nonce: Seq<u8>|
                nonce.len() == 12 && (#[trigger] aes256_sealed(
                    self.spec_key(),
                    nonce,
                    key.spec_bytes(),
                )) is None,
    {
        let nonce = random_bytes_os(12);
        let key_bytes = key.as_bytes_vec();
        match aes256_encrypt(&self.encryption_key, &nonce, &key_bytes) {
            None => Err("Encryption failed".to_owned()),
            Some(mut ct) => {
                let ghost nonce_view = nonce@;
                let ghost ct_view = ct@;
                let mut combined = nonce;
                combined.append(&mut ct);
                let out = b64_std_encode(&combined);
                proof {
                    assert(combined@ == nonce_view + ct_view);
                    assert(aes256_sealed(self.spec_key(), nonce_view, key.spec_bytes())
                        == Some(ct_view));
                    assert(out@ == b64_std_of(nonce_view + ct_view));
                }
                Ok(out)
            },
        }
    }

    /// Open a stored key text: base64-decode, split off the nonce, open the
    /// ciphertext, and decode the UTF-8 plaintext.
    pub fn decrypt_api_key(&self, encrypted: &str) -> (r: Result<String, String>)
        requires
            self.wf(),
        ensures
            r matches Ok(s) ==> (opened_key_blob(self.spec_key(), encrypted@) matches Some(pt)
                && vstd::utf8::valid_utf8(pt) && s@ == vstd::utf8::decode_utf8(pt)),
            r is Err ==> (opened_key_blob(self.spec_key(), encrypted@) is None || !vstd::utf8::valid_utf8(
                opened_key_blob(self.spec_key(), encrypted@)->0,
            )),
    {
        let combined = match b64_std_decode(encrypted) {
            None => {
                return Err("Invalid encrypted data".to_owned());
            },
            Some(v) => v,
        };
        if combined.len() < 12 {
            return Err("Invalid encrypted data".to_owned());
        }
        let n = combined.len();
        let mut nonce: Vec<u8> = Vec::new();
        let mut k: usize = 0;
        while k < 12
            invariant
                n == combined@.len(),
                12 <= n,
                k <= 12,
                nonce@ =~= combined@.take(k as int),
            decreases 12 - k,
        {
            nonce.push(combined[k]);
            k = k + 1;
        }
        let mut ciphertext: Vec<u8> = Vec::new();
        let mut m: usize = 12;
        while m < n
            invariant
                n == combined@.len(),
                12 <= m <= n,
                ciphertext@ =~= combined@.subrange(12, m as int),
            decreases n - m,
        {
            ciphertext.push(combined[m]);
            m = m + 1;
        }
        proof {
            assert(nonce@ =~= combined@.take(12));
            assert(ciphertext@ =~= combined@.skip(12));
        }
        let plaintext = match aes256_decrypt(&self.encryption_key, &nonce, &ciphertext) {
            None => {
                return Err("Decryption failed".to_owned());
            },
            Some(p) => p,
        };
        match bytes_to_string(&plaintext) {
            None => Err("Invalid key data".to_owned()),
            Some(s) => Ok(s),
        }
    }

    /// Store a key for a service: the sealed key replaces any key the
    /// service had, under a fresh creation timestamp.
    pub fn update_api_key(&mut self, service: &str, key: &str) -> (r: Result<(), String>)
        requires
            old(self).wf(),
        ensures
            final(self).wf(),
            final(self).spec_key() == old(self).spec_key(),
            final(self).spec_settings().preferences == old(self).spec_settings().preferences,
            final(self).spec_settings().file_organization == old(
                self,
            ).spec_settings().file_organization,
            final(self).spec_settings().brand_settings == old(self).spec_settings().brand_settings,
            final(self).spec_settings().usage_stats == old(self).spec_settings().usage_stats,
            r is Err ==> final(self).spec_settings() == old(self).spec_settings(),
            r is Ok ==> {
                let ks = final(self).spec_settings().api_keys@;
                &&& ks.len() == retained_keys(old(self).spec_settings().api_keys@, service@).len()
                    + 1
                &&& ks.drop_last() == retained_keys(old(self).spec_settings().api_keys@, service@)
                &&& ks.last().service@ == service@
                &&& ks.last().last_used is None
                &&& sealed_key_text(old(self).spec_key(), key.spec_bytes(), ks.last().encrypted_key@)
            },
    {
        let encrypted_key = match self.encrypt_api_key(key) {
            Err(e) => {
                return Err(e);
            },
            Ok(s) => s,
        };
        let created_at = now_rfc3339();
        self.remove_api_key(service);
        let entry = ApiKey {
            service: service.to_owned(),
            encrypted_key,
            created_at,
            last_used: None,
        };
        proof {
            lemma_retained_keys(old(self).spec_settings().api_keys@, service@);
        }
        self.settings.api_keys.push(entry);
        proof {
            let ks = self.settings.api_keys@;
            let rp = retained_keys(old(self).spec_settings().api_keys@, service@);
            assert(ks.drop_last() =~= rp);
            assert forall|i: int, j: int| 0 <= i < j < ks.len() implies ks[i].service@
                != ks[j].service@ by {
                if j < ks.len() - 1 {
                    assert(ks[i] == rp[i] && ks[j] == rp[j]);
                } else {
                    assert(ks[i] == rp[i]);
                }
            }
        }
        Ok(())
    }

    /// Forget the key stored for a service; other services keep theirs.
    pub fn remove_api_key(&mut self, service: &str)
        requires
            old(self).wf(),
        ensures
            final(self).wf(),
            final(self).spec_key() == old(self).spec_key(),
            final(self).spec_settings().preferences == old(self).spec_settings().preferences,
            final(self).spec_settings().file_organization == old(
                self,
            ).spec_settings().file_organization,
            final(self).spec_settings().brand_settings == old(self).spec_settings().brand_settings,
            final(self).spec_settings().usage_stats == old(self).spec_settings().usage_stats,
            final(self).spec_settings().api_keys@ == retained_keys(
                old(self).spec_settings().api_keys@,
                service@,
            ),
    {
        let n = self.settings.api_keys.len();
        let mut kept: Vec<ApiKey> = Vec::new();
        let ghost old_keys = self.settings.api_keys@;
        proof {
            assert(old_keys.take(0) =~= Seq::<ApiKey>::empty());
        }
        let mut i: usize = 0;
        while i < n
            invariant
                n == self.settings.api_keys@.len(),
                self.settings.api_keys@ == old_keys,
                i <= n,
                kept@ =~= retained_keys(old_keys.take(i as int), service@),
            decreases n - i,
        {
            proof {
                assert(old_keys.take(i + 1).drop_last() =~= old_keys.take(i as int));
                assert(old_keys.take(i + 1).last() == old_keys[i as int]);
            }
            if !str_eq(self.settings.api_keys[i].service.as_str(), service) {
                kept.push(self.settings.api_keys[i].clone());
            }
            i = i + 1;
        }
        proof {
            assert(old_keys.take(n as int) =~= old_keys);
            lemma_retained_keys(old_keys, service@);
        }
        self.settings.api_keys = kept;
    }

    /// Replace the user preferences.
    pub fn update_preferences(&mut self, preferences: Preferences)
        requires
            old(self).wf(),
        ensures
            final(self).wf(),
            final(self).spec_key() == old(self).spec_key(),
            final(self).spec_settings().preferences == preferences,
            final(self).spec_settings().api_keys == old(self).spec_settings().api_keys,
            final(self).spec_settings().file_organization == old(
                self,
            ).spec_settings().file_organization,
            final(self).spec_settings().brand_settings == old(self).spec_settings().brand_settings,
            final(self).spec_settings().usage_stats == old(self).spec_settings().usage_stats,
    {
        self.settings.preferences = preferences;
    }

    /// Replace the file organization settings.
    pub fn update_file_organization(&mut self, file_org: FileOrganization)
        requires
            old(self).wf(),
        ensures
            final(self).wf(),
            final(self).spec_key() == old(self).spec_key(),
            final(self).spec_settings().file_organization == file_org,
            final(self).spec_settings().api_keys == old(self).spec_settings().api_keys,
            final(self).spec_settings().preferences == old(self).spec_settings().preferences,
            final(self).spec_settings().brand_settings == old(self).spec_settings().brand_settings,
            final(self).spec_settings().usage_stats == old(self).spec_settings().usage_stats,
    {
        self.settings.file_organization = file_org;
    }

    /// Replace the brand settings.
    pub fn update_brand_settings(&mut self, brand: BrandSettings)
        requires
            old(self).wf(),
        ensures
            final(self).wf(),
            final(self).spec_key() == old(self).spec_key(),
            final(self).spec_settings().brand_settings == brand,
            final(self).spec_settings().api_keys == old(self).spec_settings().api_keys,
            final(self).spec_settings().preferences == old(self).spec_settings().preferences,
            final(self).spec_settings().file_organization == old(
                self,
            ).spec_settings().file_organization,
            final(self).spec_settings().usage_stats == old(self).spec_settings().usage_stats,
    {
        self.settings.brand_settings = brand;
    }

    /// Replace the usage statistics; the update itself sets the freshness
    /// timestamp.
    pub fn update_usage_stats(&mut self, stats: UsageStats)
        requires
            old(self).wf(),
        ensures
            final(self).wf(),
            final(self).spec_key() == old(self).spec_key(),
            final(self).spec_settings().usage_stats.descript_api_calls
                == stats.descript_api_calls,
            final(self).spec_settings().usage_stats.openai_tokens_used
                == stats.openai_tokens_used,
            final(self).spec_settings().usage_stats.claude_tokens_used
                == stats.claude_tokens_used,
            final(self).spec_settings().usage_stats.storage_used_mb == stats.storage_used_mb,
            final(self).spec_settings().api_keys == old(self).spec_settings().api_keys,
            final(self).spec_settings().preferences == old(self).spec_settings().preferences,
            final(self).spec_settings().file_organization == old(
                self,
            ).spec_settings().file_organization,
            final(self).spec_settings().brand_settings == old(self).spec_settings().brand_settings,
    {
        self.settings.usage_stats = stats;
        self.settings.usage_stats.last_updated = now_rfc3339();
    }

    /// The stored key for a service, unsealed: `None` when the service has
    /// none, the decrypted key when opening its stored text succeeds.
    pub fn get_decrypted_api_key(&self, service: &str) -> (r: Result<Option<String>, String>)
        requires
            self.wf(),
        ensures
            index_of_service(self.spec_settings().api_keys@, service@) == -1 ==> (r matches Ok(o)
                && o is None),
            index_of_service(self.spec_settings().api_keys@, service@) >= 0 ==> {
                let stored = self.spec_settings().api_keys@[index_of_service(
                    self.spec_settings().api_keys@,
                    service@,
                )].encrypted_key@;
                match r {
                    Ok(o) => (o matches Some(s) && opened_key_blob(self.spec_key(), stored)
                        matches Some(pt) && vstd::utf8::valid_utf8(pt) && s@
                        == vstd::utf8::decode_utf8(pt)),
                    Err(_) => (opened_key_blob(self.spec_key(), stored) is None
                        || !vstd::utf8::valid_utf8(opened_key_blob(self.spec_key(), stored)->0)),
                }
            },
    {
        let n = self.settings.api_keys.len();
        let ghost keys = self.settings.api_keys@;
        proof {
            lemma_index_of_service(keys, service@);
        }
        let mut i: usize = 0;
        while i < n
            invariant
                self.wf(),
                n == self.settings.api_keys@.len(),
                keys == self.settings.api_keys@,
                i <= n,
                forall|k: int| 0 <= k < i ==> keys[k].service@ != service@,
            decreases n - i,
        {
            if str_eq(self.settings.api_keys[i].service.as_str(), service) {
                proof {
                    lemma_index_of_service(keys, service@);
                    assert(index_of_service(keys, service@) == i);
                }
                let encrypted = self.settings.api_keys[i].encrypted_key.clone();
                return match self.decrypt_api_key(encrypted.as_str()) {
                    Ok(s) => Ok(Some(s)),
                    Err(e) => Err(e),
                };
            }
            i = i + 1;
        }
        proof {
            lemma_index_of_service(keys, service@);
            if index_of_service(keys, service@) >= 0 {
                assert(keys[index_of_service(keys, service@)].service@ == service@);
            }
        }
        Ok(None)
    }

    /// What listings reveal of the stored keys, in storage order.
    pub fn api_key_infos(&self) -> (r: Vec<ApiKeyInfo>)
        ensures
            r@.len() == self.spec_settings().api_keys@.len(),
            forall|k: int|
                0 <= k < r@.len() ==> {
                    &&& (#[trigger] r@[k]).service == self.spec_settings().api_keys@[k].service
                    &&& r@[k].is_set == true
                    &&& r@[k].created_at == self.spec_settings().api_keys@[k].created_at
                    &&& r@[k].last_used == self.spec_settings().api_keys@[k].last_used
                },
    {
        let n = self.settings.api_keys.len();
        let mut infos: Vec<ApiKeyInfo> = Vec::new();
        let mut i: usize = 0;
        while i < n
            invariant
                n == self.settings.api_keys@.len(),
                i <= n,
                infos@.len() == i,
                forall|k: int|
                    0 <= k < i ==> {
                        &&& (#[trigger] infos@[k]).service
                            == self.spec_settings().api_keys@[k].service
                        &&& infos@[k].is_set == true
                        &&& infos@[k].created_at == self.spec_settings().api_keys@[k].created_at
                        &&& infos@[k].last_used == self.spec_settings().api_keys@[k].last_used
                    },
            decreases n - i,
        {
            let entry = &self.settings.api_keys[i];
            infos.push(
                ApiKeyInfo {
                    service: entry.service.clone(),
                    is_set: true,
                    created_at: entry.created_at.clone(),
                    last_used: match &entry.last_used {
                        Some(s) => Some(s.clone()),
                        None => None,
                    },
                },
            );
            i = i + 1;
        }
        infos
    }
}

} // verus!
