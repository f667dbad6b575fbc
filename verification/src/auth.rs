//! OAuth helpers for the hosting service: the PKCE challenge, the
//! authorization URL, token freshness and state decisions, token assembly
//! from a token-endpoint response, and the sealed token blob kept on disk.
//! The HTTP exchanges themselves, and reading and writing the blob, are the
//! host's work.

use vstd::prelude::*;

use crate::crypto::{
    aes256_decrypt, aes256_encrypt, aes256_opened, aes256_sealed, b64_url_decode, b64_url_decoded,
    b64_url_encode, b64_url_of, random_bytes_thread, sha256, sha256_of,
};
use vstd::string::StringSliceAdditionalSpecFns;

verus! {

/// The tokens granted by the service.
#[derive(Debug)]
pub struct AuthTokens {
    pub access_token: String,
    pub refresh_token: Option<String>,
    pub expires_at: i64,
    pub token_type: String,
}

impl Clone for AuthTokens {
    fn clone(&self) -> (r: Self)
        ensures
            r == *self,
    {
        AuthTokens {
            access_token: self.access_token.clone(),
            refresh_token: match &self.refresh_token {
                Some(s) => Some(s.clone()),
                None => None,
            },
            expires_at: self.expires_at,
            token_type: self.token_type.clone(),
        }
    }
}

/// What the interface shows of the session.
#[derive(Debug)]
pub struct AuthState {
    pub is_authenticated: bool,
    pub user_email: Option<String>,
    pub expires_at: Option<i64>,
}

/// Error surfaced by the authorization flow.
#[derive(Debug)]
pub struct AuthError {
    pub message: String,
    pub code: String,
}

/// The authorization URL handed to the interface, with the state that
/// protects the callback.
#[derive(Debug)]
pub struct AuthUrlResponse {
    pub auth_url: String,
    pub state: String,
}

/// What the authorization callback delivers.
#[derive(Debug)]
pub struct AuthCallbackRequest {
    pub code: String,
    pub state: String,
}

/// A token within five minutes of expiry is due for a refresh.
pub fn needs_refresh(tokens: &AuthTokens, now: i64) -> (r: bool)
    ensures
        r == (tokens.expires_at - now < 300),
{
    (tokens.expires_at as i128) - (now as i128) < 300
}

/// The session state shown for the stored tokens, if any could be read and
/// opened: authenticated until the expiry instant passes.
pub fn auth_state_of(tokens: Option<&AuthTokens>, now: i64) -> (r: AuthState)
    ensures
        match tokens {
            Some(t) => r.is_authenticated == !(now > t.expires_at) && r.expires_at == Some(
                t.expires_at,
            ),
            None => r.is_authenticated == false && r.expires_at is None,
        },
        r.user_email is None,
{
    match tokens {
        Some(t) => AuthState {
            is_authenticated: !(now > t.expires_at),
            user_email: None,
            expires_at: Some(t.expires_at),
        },
        None => AuthState { is_authenticated: false, user_email: None, expires_at: None },
    }
}

/// `a + b` on `i64`, held at the ends of the range.
pub open spec fn sat_add_i64(a: int, b: int) -> int {
    if a + b > i64::MAX {
        i64::MAX as int
    } else if a + b < i64::MIN {
        i64::MIN as int
    } else {
        a + b
    }
}

/// Assemble the granted tokens from the fields of a token-endpoint
/// response. A response without an access token is an error; a missing
/// expiry defaults to an hour; a missing token type defaults to `Bearer`;
/// a missing refresh token falls back to the one the caller already held.
pub fn tokens_from_response(
    access_token: Option<String>,
    refresh_token: Option<String>,
    expires_in: Option<i64>,
    token_type: Option<String>,
    now: i64,
    fallback_refresh: Option<String>,
) -> (r: Result<AuthTokens, AuthError>)
    ensures
        r is Err <==> access_token is None,
        r matches Err(e) ==> e.message@ == "Missing access token"@ && e.code@ == "MISSING_TOKEN"@,
        r matches Ok(t) ==> {
            &&& t.access_token == access_token->0
            &&& t.refresh_token == if refresh_token is Some {
                refresh_token
            } else {
                fallback_refresh
            }
            &&& t.expires_at as int == sat_add_i64(
                now as int,
                if expires_in is Some {
                    expires_in->0 as int
                } else {
                    3600int
                },
            )
            &&& t.token_type@ == if token_type is Some {
                token_type->0@
            } else {
                "Bearer"@
            }
        },
{
    let access = match access_token {
        None => {
            return Err(
                AuthError {
                    message: "Missing access token".to_owned(),
                    code: "MISSING_TOKEN".to_owned(),
                },
            );
        },
        Some(a) => a,
    };
    let expires: i64 = match expires_in {
        Some(e) => e,
        None => 3600,
    };
    let wide: i128 = (now as i128) + (expires as i128);
    let expires_at: i64 = if wide > i64::MAX as i128 {
        i64::MAX
    } else if wide < i64::MIN as i128 {
        i64::MIN
    } else {
        wide as i64
    };
    let refresh = match refresh_token {
        Some(rt) => Some(rt),
        None => fallback_refresh,
    };
    let ttype = match token_type {
        Some(t) => t,
        None => "Bearer".to_owned(),
    };
    Ok(
        AuthTokens {
            access_token: access,
            refresh_token: refresh,
            expires_at,
            token_type: ttype,
        },
    )
}

/// The UTF-8 bytes of an ASCII string, character for character.
pub open spec fn ascii_bytes_of(s: Seq<char>) -> Seq<u8> {
    Seq::new(s.len(), |i: int| s[i] as u8)
}

/// A PKCE verifier with the challenge derived from it.
#[derive(Debug)]
pub struct PkcePair {
    pub verifier: String,
    pub challenge: String,
}

/// What `urlencoding::encode` percent-encodes the text to.
pub uninterp spec fn url_enc_of(s: Seq<char>) -> Seq<char>;

/// Relies on `urlencoding::encode`: percent-encoding is a function of the
/// text alone.
#[verifier::external_body]
fn url_encode(s: &str) -> (r: String)
    ensures
        r@ == url_enc_of(s@),
{
    urlencoding::encode(s).into_owned()
}

/// Generate a PKCE pair: a random 32-byte verifier in URL-safe base64, and
/// its S256 challenge, the URL-safe base64 of the SHA-256 digest of the
/// verifier's text.
pub fn generate_pkce_challenge() -> (r: PkcePair)
    ensures
        r.challenge@ == b64_url_of(sha256_of(ascii_bytes_of(r.verifier@))),
{
    let verifier_bytes = random_bytes_thread(32);
    let verifier = b64_url_encode(&verifier_bytes);
    let verifier_str = verifier.as_str();
    let verifier_text_bytes = verifier_str.as_bytes_vec();
    proof {
        vstd::string::is_ascii_spec_bytes(verifier_str);
        assert(vstd::string::is_ascii(verifier_str));
        assert(verifier_text_bytes@ =~= ascii_bytes_of(verifier@));
    }
    let digest = sha256(&verifier_text_bytes);
    let challenge = b64_url_encode(&digest);
    PkcePair { verifier, challenge }
}

/// The decryption pipeline applied to a stored token blob: URL-safe
/// base64-decode, split off the 12-byte nonce, and open the rest.
pub open spec fn opened_token_blob(ek: Seq<u8>, encrypted: Seq<char>) -> Option<Seq<u8>> {
    match b64_url_decoded(encrypted) {
        None => None,
        Some(comb) => if comb.len() < 12 {
            None
        } else {
            aes256_opened(ek, comb.take(12), comb.skip(12))
        },
    }
}

/// `out` is a possible sealing of `plaintext`: some 12-byte nonce, the
/// ciphertext after it, in URL-safe base64 — and, by the cipher and
/// encoding inverses, a blob that opens back to `plaintext`.
pub open spec fn sealed_token_text(ek: Seq<u8>, plaintext: Seq<u8>, out: Seq<char>) -> bool {
    exists|nonce: Seq<u8>, ct: Seq<u8>|
        {
            &&& nonce.len() == 12
            &&& aes256_sealed(ek, nonce, plaintext) == Some(ct)
            &&& aes256_opened(ek, nonce, ct) == Some(plaintext)
            &&& b64_url_decoded(out) == Some(nonce + ct)
            &&& out == #[trigger] b64_url_of(nonce + ct)
        }
}

/// A sealed token blob opens back to the bytes it sealed: the
/// store-then-load round trip of the token file.
pub proof fn lemma_sealed_tokens_open(ek: Seq<u8>, plaintext: Seq<u8>, out: Seq<char>)
    requires
        sealed_token_text(ek, plaintext, out),
    ensures
        opened_token_blob(ek, out) == Some(plaintext),
{
    let (nonce, ct) = choose|nonce: Seq<u8>, ct: Seq<u8>|
        {
            &&& nonce.len() == 12
            &&& aes256_sealed(ek, nonce, plaintext) == Some(ct)
            &&& aes256_opened(ek, nonce, ct) == Some(plaintext)
            &&& b64_url_decoded(out) == Some(nonce + ct)
            &&& out == #[trigger] b64_url_of(nonce + ct)
        };
    assert((nonce + ct).take(12) =~= nonce);
    assert((nonce + ct).skip(12) =~= ct);
}

/// The authorization URL for a client, state and PKCE challenge: the fixed
/// endpoint with each parameter percent-encoded.
pub open spec fn auth_url_of(client_id: Seq<char>, state: Seq<char>, challenge: Seq<char>) -> Seq<
    char,
> {
    "https://api.descript.com/oauth/authorize?client_id="@ + url_enc_of(client_id)
        + "&redirect_uri="@ + url_enc_of("contentflow://auth/callback"@) + "&response_type="@
        + url_enc_of("code"@) + "&scope="@ + url_enc_of("read write"@) + "&state="@ + url_enc_of(
        state,
    ) + "&code_challenge="@ + url_enc_of(challenge) + "&code_challenge_method="@ + url_enc_of(
        "S256"@,
    )
}

/// The OAuth client: its registration and the key that seals stored
/// tokens.
#[derive(Debug)]
pub struct DescriptAuth {
    client_id: String,
    client_secret: String,
    encryption_key: Vec<u8>,
}

impl DescriptAuth {
    /// The registered client id.
    pub closed spec fn spec_client_id(&self) -> Seq<char> {
        self.client_id@
    }

    /// The registered client secret.
    pub closed spec fn spec_client_secret(&self) -> Seq<char> {
        self.client_secret@
    }

    /// The token-sealing key.
    pub closed spec fn spec_key(&self) -> Seq<u8> {
        self.encryption_key@
    }

    pub open spec fn wf(&self) -> bool {
        self.spec_key().len() == 32
    }

    /// Set up the client with a fresh random token-sealing key.
    pub fn new(client_id: String, client_secret: String) -> (r: Self)
        ensures
            r.wf(),
            r.spec_client_id() == client_id@,
            r.spec_client_secret() == client_secret@,
    {
        let encryption_key = random_bytes_thread(32);
        DescriptAuth { client_id, client_secret, encryption_key }
    }

    /// The client id, for the host's token-endpoint form.
    pub fn client_id(&self) -> (r: &String)
        ensures
            r@ == self.spec_client_id(),
    {
        &self.client_id
    }

    /// The client secret, for the host's token-endpoint form.
    pub fn client_secret(&self) -> (r: &String)
        ensures
            r@ == self.spec_client_secret(),
    {
        &self.client_secret
    }

    /// The authorization URL for a state nonce, paired with the PKCE
    /// verifier whose challenge the URL carries.
    pub fn get_auth_url(&self, state: &str) -> (r: (String, String))
        ensures
            r.0@ == auth_url_of(
                self.spec_client_id(),
                state@,
                b64_url_of(sha256_of(ascii_bytes_of(r.1@))),
            ),
    {
        let pkce = generate_pkce_challenge();
        let mut url = ("https://api.descript.com/oauth/authorize?client_id=").to_owned();
        let enc_client = url_encode(self.client_id.as_str());
        url.append(enc_client.as_str());
        url.append("&redirect_uri=");
        let enc_redirect = url_encode("contentflow://auth/callback");
        url.append(enc_redirect.as_str());
        url.append("&response_type=");
        let enc_rt = url_encode("code");
        url.append(enc_rt.as_str());
        url.append("&scope=");
        let enc_scope = url_encode("read write");
        url.append(enc_scope.as_str());
        url.append("&state=");
        let enc_state = url_encode(state);
        url.append(enc_state.as_str());
        url.append("&code_challenge=");
        let enc_challenge = url_encode(pkce.challenge.as_str());
        url.append(enc_challenge.as_str());
        url.append("&code_challenge_method=");
        let enc_method = url_encode("S256");
        url.append(enc_method.as_str());
        (url, pkce.verifier)
    }

    /// Seal serialized tokens for storage: a fresh random 12-byte nonce,
    /// the AES-256-GCM ciphertext, and URL-safe base64 over both.
    pub fn encrypt_tokens(&self, token_bytes: &Vec<u8>) -> (r: Result<String, AuthError>)
        requires
            self.wf(),
        ensures
            r matches Ok(s) ==> sealed_token_text(self.spec_key(), token_bytes@, s@),
            r matches Err(e) ==> e.code@ == "ENCRYPT_ERROR"@,
            r is Err ==> exists|nonce: Seq<u8>|
                nonce.len() == 12 && (#[trigger] aes256_sealed(
                    self.spec_key(),
                    nonce,
                    token_bytes@,
                )) is None,
    {
        let nonce = random_bytes_thread(12);
        match aes256_encrypt(&self.encryption_key, &nonce, token_bytes) {
            None => Err(
                AuthError {
                    message: "Failed to encrypt tokens".to_owned(),
                    code: "ENCRYPT_ERROR".to_owned(),
                },
            ),
            Some(mut ct) => {
                let ghost nonce_view = nonce@;
                let ghost ct_view = ct@;
                let mut combined = nonce;
                combined.append(&mut ct);
                let out = b64_url_encode(&combined);
                proof {
                    assert(combined@ == nonce_view + ct_view);
                    assert(out@ == b64_url_of(nonce_view + ct_view));
                }
                Ok(out)
            },
        }
    }

    /// Open a stored token blob back into the serialized token bytes.
    pub fn decrypt_tokens(&self, encrypted: &str) -> (r: Result<Vec<u8>, AuthError>)
        requires
            self.wf(),
        ensures
            r matches Ok(v) ==> opened_token_blob(self.spec_key(), encrypted@) == Some(v@),
            r is Err ==> opened_token_blob(self.spec_key(), encrypted@) is None,
            b64_url_decoded(encrypted@) is None ==> (r matches Err(e) && e.code@
                == "DECODE_ERROR"@),
            b64_url_decoded(encrypted@) is Some && b64_url_decoded(encrypted@)->0.len() < 12 ==> (
            r matches Err(e) && e.code@ == "INVALID_FORMAT"@),
            b64_url_decoded(encrypted@) is Some && b64_url_decoded(encrypted@)->0.len() >= 12
                && aes256_opened(
                self.spec_key(),
                b64_url_decoded(encrypted@)->0.take(12),
                b64_url_decoded(encrypted@)->0.skip(12),
            ) is None ==> (r matches Err(e) && e.code@ == "DECRYPT_ERROR"@),
    {
        let combined = match b64_url_decode(encrypted) {
            None => {
                return Err(
                    AuthError {
                        message: "Failed to decode encrypted tokens".to_owned(),
                        code: "DECODE_ERROR".to_owned(),
                    },
                );
            },
            Some(v) => v,
        };
        if combined.len() < 12 {
            return Err(
                AuthError {
                    message: "Invalid encrypted token format".to_owned(),
                    code: "INVALID_FORMAT".to_owned(),
                },
            );
        }
        let n = combined.len();
        let mut nonce: Vec<u8> = Vec::new();
        let mut k: usize = 0;
        while k < 12
            invariant
                n == combined@.len(),
                12 <= n,
                k <= 12,
                nonce@ =~= combined@.take(k as int),
            decreases 12 - k,
        {
            nonce.push(combined[k]);
            k = k + 1;
        }
        let mut ciphertext: Vec<u8> = Vec::new();
        let mut m: usize = 12;
        while m < n
            invariant
                n == combined@.len(),
                12 <= m <= n,
                ciphertext@ =~= combined@.subrange(12, m as int),
            decreases n - m,
        {
            ciphertext.push(combined[m]);
            m = m + 1;
        }
        proof {
            assert(nonce@ =~= combined@.take(12));
            assert(ciphertext@ =~= combined@.skip(12));
        }
        match aes256_decrypt(&self.encryption_key, &nonce, &ciphertext) {
            None => Err(
                AuthError {
                    message: "Failed to decrypt tokens".to_owned(),
                    code: "DECRYPT_ERROR".to_owned(),
                },
            ),
            Some(p) => Ok(p),
        }
    }
}

} // verus!
