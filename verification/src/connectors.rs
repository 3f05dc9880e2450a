//! Connectors: what a contract's source needs before its data can be
//! fetched, and the parts of the Google Cloud Storage connector that work on
//! plain values (service account credentials, REST API addresses, token
//! claims and the token endpoint's answer).
//!
//! Reading files and talking to the providers is left to the caller, which
//! follows the plan made here.

use crate::contracts::Source;
use crate::error::ValidationError;
use crate::profiles::{find_profile, Profile, Profiles};
use crate::text::{chars_of, push_str, remove_all, remove_all_chars, string_of};
use vstd::utf8::encode_utf8;
use crate::verify::chars_eq;
use vstd::prelude::*;

verus! {

/// Whether `url::Url::parse` accepts the text.
pub uninterp spec fn url_parses(text: Seq<char>) -> bool;

/// The path of the URL that `url::Url::parse` makes of the text.
pub uninterp spec fn url_path_of(text: Seq<char>) -> Seq<char>;

/// The host of the URL that `url::Url::parse` makes of the text
/// (`Url::host_str`), if it has one.
pub uninterp spec fn url_host_of(text: Seq<char>) -> Option<Seq<char>>;

/// The message of the error that `url::Url::parse` gives for the text
/// (`ParseError`'s `Display`).
pub uninterp spec fn url_error_text(text: Seq<char>) -> Seq<char>;

/// Parses `text` with `url::Url::parse` and gives the parsed URL's host
/// (`Url::host_str`) and path (`Url::path`), or the parser's error message.
/// The contract claims that the outcome, the message included, depends on
/// the text alone.
#[verifier::external_body]
pub(crate) fn parse_url_path(text: &str) -> (r: Result<(Option<String>, String), String>)
    ensures
        r is Ok <==> url_parses(text@),
        r matches Err(e) ==> e@ == url_error_text(text@),
        r matches Ok((h, p)) ==> opt_text(h) == url_host_of(text@) && p@ == url_path_of(text@),
{
    match url::Url::parse(text) {
        Ok(u) => Ok((u.host_str().map(str::to_string), u.path().to_string())),
        Err(e) => Err(e.to_string()),
    }
}

/// A reader of local files.
pub struct LocalConnector;

impl LocalConnector {
    /// A connector for the local filesystem.
    pub fn new() -> (c: Self)
        ensures
            c == LocalConnector,
    {
        LocalConnector
    }
}

/// The cloud providers a source may name.
#[derive(Debug, Clone, Copy, PartialEq, Eq, Structural)]
pub enum RemoteKind {
    S3,
    Azure,
    Gcs,
}

/// The provider a source type names, if it is a cloud provider.
pub open spec fn remote_kind_of(kind: Seq<char>) -> Option<RemoteKind> {
    if kind == "s3"@ {
        Some(RemoteKind::S3)
    } else if kind == "azure"@ {
        Some(RemoteKind::Azure)
    } else if kind == "gcs"@ {
        Some(RemoteKind::Gcs)
    } else {
        None
    }
}

/// The error for a cloud source without a profile.
pub open spec fn profile_required_message(k: RemoteKind) -> Seq<char> {
    match k {
        RemoteKind::S3 => "S3 source requires profile"@,
        RemoteKind::Azure => "Azure source requires profile"@,
        RemoteKind::Gcs => "GCS source requires profile"@,
    }
}

/// How a source's data is to be fetched.
pub enum FetchPlan<'a> {
    /// Read the local file at this path.
    Local(&'a String),
    /// Fetch `location` from a cloud provider, authenticating with `profile`.
    Remote { kind: RemoteKind, location: &'a String, profile: &'a Profile },
}

/// The error `e` is `Other` with message `m`.
pub open spec fn is_other(e: ValidationError, m: Seq<char>) -> bool {
    e matches ValidationError::Other(s) && s@ == m
}

/// What fetching the data of `source` needs, as the connectors check it
/// before any I/O: a location; a known type; for a cloud provider a profile
/// that `profiles` defines and a location that parses as a URL.
pub fn plan_fetch<'a>(source: &'a Source, profiles: &'a Profiles) -> (r: Result<FetchPlan<'a>, ValidationError>)
    ensures
        match source.location {
            None => r matches Err(e) && is_other(e, "Source missing location"@),
            Some(loc) => if source.kind@ == "local"@ {
                r matches Ok(FetchPlan::Local(l)) && *l == loc
            } else {
                match remote_kind_of(source.kind@) {
                    None => r matches Err(e) && is_other(e, "Unsupported source type: "@ + source.kind@),
                    Some(k) => match source.profile {
                        None => r matches Err(e) && is_other(e, profile_required_message(k)),
                        Some(name) => match find_profile(profiles.spec_entries(), name@) {
                            None => r matches Err(ValidationError::ProfileNotFound(n)) && n@ == name@,
                            Some(p) => if url_parses(loc@) {
                                r matches Ok(FetchPlan::Remote { kind, location, profile })
                                    && kind == k && *location == loc && *profile == p
                            } else {
                                r matches Err(e) && is_other(e, "Invalid URL"@)
                            },
                        },
                    },
                }
            },
        },
{
    let location = match &source.location {
        Some(l) => l,
        None => {
            return Err(ValidationError::Other("Source missing location".to_owned()));
        },
    };
    let kind = chars_of(source.kind.as_str());
    let local = chars_of("local");
    let s3 = chars_of("s3");
    let azure = chars_of("azure");
    let gcs = chars_of("gcs");
    if chars_eq(&kind, &local) {
        return Ok(FetchPlan::Local(location));
    }
    let (k, required) = if chars_eq(&kind, &s3) {
        (RemoteKind::S3, "S3 source requires profile")
    } else if chars_eq(&kind, &azure) {
        (RemoteKind::Azure, "Azure source requires profile")
    } else if chars_eq(&kind, &gcs) {
        (RemoteKind::Gcs, "GCS source requires profile")
    } else {
        let mut m = String::new();
        push_str(&mut m, "Unsupported source type: ");
        push_str(&mut m, source.kind.as_str());
        return Err(ValidationError::Other(m));
    };
    assert(required@ == profile_required_message(k));
    let name = match &source.profile {
        Some(n) => n,
        None => {
            return Err(ValidationError::Other(required.to_owned()));
        },
    };
    let profile = match profiles.get(name.as_str()) {
        Some(p) => p,
        None => {
            return Err(ValidationError::ProfileNotFound(name.clone()));
        },
    };
    match parse_url_path(location.as_str()) {
        Ok(_) => Ok(FetchPlan::Remote { kind: k, location, profile }),
        Err(_) => Err(ValidationError::Other("Invalid URL".to_owned())),
    }
}

/// Whether `serde_json::from_str` accepts the text as a JSON value.
pub uninterp spec fn json_parses(text: Seq<char>) -> bool;

/// The string that the JSON text holds under `key`, as `value[key].as_str()`
/// gives it: `None` where the text is not an object with a string there.
pub uninterp spec fn json_text_field(text: Seq<char>, key: Seq<char>) -> Option<Seq<char>>;

/// Text of an optional string.
pub open spec fn opt_text(o: Option<String>) -> Option<Seq<char>> {
    match o {
        Some(s) => Some(s@),
        None => None,
    }
}

/// The message of the error that `serde_json::from_str` gives for the text
/// (`serde_json::Error`'s `Display`, with line and column).
pub uninterp spec fn json_error_text(text: Seq<char>) -> Seq<char>;

/// Parses `text` with `serde_json::from_str` into a `serde_json::Value` and
/// reads the string under `key` (`Index` by key, then `Value::as_str`). The
/// contract claims that all of it, the error message included, depends on
/// the text and the key alone.
#[verifier::external_body]
fn json_string_field(text: &str, key: &str) -> (r: Result<Option<String>, String>)
    ensures
        r is Ok <==> json_parses(text@),
        r matches Err(e) ==> e@ == json_error_text(text@),
        r matches Ok(o) ==> opt_text(o) == json_text_field(text@, key@),
{
    match serde_json::from_str::<serde_json::Value>(text) {
        Ok(v) => Ok(v[key].as_str().map(str::to_string)),
        Err(e) => Err(e.to_string()),
    }
}

/// A byte that URL encoding keeps: ASCII letters and digits, `-`, `.`, `_`
/// and `~`.
pub open spec fn url_unreserved(b: u8) -> bool {
    (48 <= b <= 57) || (65 <= b <= 90) || (97 <= b <= 122) || b == 45 || b == 46 || b == 95
        || b == 126
}

/// Upper-case hexadecimal digit of a value below 16.
pub open spec fn hex_upper(d: u8) -> char {
    if d < 10 {
        (48 + d) as char
    } else {
        (55 + d) as char
    }
}

/// Percent-encoding of bytes: kept bytes as they are, any other byte as `%`
/// and two upper-case hexadecimal digits.
pub open spec fn percent_encode(bytes: Seq<u8>) -> Seq<char>
    decreases bytes.len(),
{
    if bytes.len() == 0 {
        seq![]
    } else {
        let b = bytes[0];
        (if url_unreserved(b) {
            seq![b as char]
        } else {
            seq!['%', hex_upper(b / 16), hex_upper(b % 16)]
        }) + percent_encode(bytes.drop_first())
    }
}

/// `urlencoding::encode`: the percent-encoding of the text's UTF-8 bytes.
pub open spec fn url_encode_spec(s: Seq<char>) -> Seq<char> {
    percent_encode(encode_utf8(s))
}

/// `urlencoding::encode`, which percent-encodes every UTF-8 byte of the text
/// but ASCII letters, digits, `-`, `.`, `_` and `~`, with upper-case hex
/// digits (as its source shows).
#[verifier::external_body]
fn url_encode(s: &str) -> (r: String)
    ensures
        r@ == url_encode_spec(s@),
{
    urlencoding::encode(s).into_owned()
}

/// Why a GCS operation failed.
pub enum GcsError {
    /// The profile has no `service_account_json`.
    MissingServiceAccountJson,
    /// The service account or token response is not JSON; the parser's message.
    Json(String),
    /// The service account JSON has no `client_email` string.
    MissingClientEmail,
    /// The service account JSON has no `private_key` string.
    MissingPrivateKey,
    /// The address does not parse as a URL; the parser's message.
    Url(String),
    /// The URL's path is not `bucket/object`.
    InvalidUrlFormat,
    /// The token could not be signed; the signer's message.
    Jwt(String),
    /// The token endpoint's answer has no `access_token` string.
    MissingAccessToken,
}

impl GcsError {
    /// The error's message.
    pub fn message(&self) -> (m: String)
        ensures
            m@ == match *self {
                GcsError::MissingServiceAccountJson => "GCS profile missing service_account_json"@,
                GcsError::Json(e) => e@,
                GcsError::MissingClientEmail => "Missing client_email in service account JSON"@,
                GcsError::MissingPrivateKey => "Missing private_key in service account JSON"@,
                GcsError::Url(e) => e@,
                GcsError::InvalidUrlFormat => "Invalid GCS URL format"@,
                GcsError::Jwt(e) => e@,
                GcsError::MissingAccessToken => "access_token not found in response"@,
            },
    {
        match self {
            GcsError::MissingServiceAccountJson => "GCS profile missing service_account_json".to_owned(),
            GcsError::Json(e) => e.clone(),
            GcsError::MissingClientEmail => "Missing client_email in service account JSON".to_owned(),
            GcsError::MissingPrivateKey => "Missing private_key in service account JSON".to_owned(),
            GcsError::Url(e) => e.clone(),
            GcsError::InvalidUrlFormat => "Invalid GCS URL format".to_owned(),
            GcsError::Jwt(e) => e.clone(),
            GcsError::MissingAccessToken => "access_token not found in response".to_owned(),
        }
    }
}

/// Credentials of a Google Cloud service account; the HTTP client that
/// uses them is the caller's.
pub struct GCSConnector {
    pub client_email: String,
    pub private_key: String,
}

/// What parsing a service account JSON text gives.
pub open spec fn service_account_result(text: Seq<char>, r: Result<(String, String), GcsError>) -> bool {
    if !json_parses(text) {
        r matches Err(GcsError::Json(e)) && e@ == json_error_text(text)
    } else {
        match json_text_field(text, "client_email"@) {
            None => r matches Err(GcsError::MissingClientEmail),
            Some(email) => match json_text_field(text, "private_key"@) {
                None => r matches Err(GcsError::MissingPrivateKey),
                Some(key) => r matches Ok((e, k)) && e@ == email && k@ == key,
            },
        }
    }
}

/// Leading `/` characters removed, as `trim_start_matches('/')` does.
pub open spec fn trim_leading_slashes(s: Seq<char>) -> Seq<char>
    decreases s.len(),
{
    if s.len() > 0 && s[0] == '/' {
        trim_leading_slashes(s.drop_first())
    } else {
        s
    }
}

/// The JSON API download address of the object `path` (leading slashes
/// dropped) in the bucket `host`: the object name is URL-encoded whole, its
/// inner `/` included. `None` without a bucket or an object name.
pub open spec fn rest_api_url_spec(host: Option<Seq<char>>, path: Seq<char>) -> Option<Seq<char>> {
    let o = trim_leading_slashes(path);
    match host {
        Some(b) => if b.len() > 0 && o.len() > 0 {
            Some(
                "https://storage.googleapis.com/storage/v1/b/"@ + b + "/o/"@ + url_encode_spec(o)
                    + "?alt=media"@,
            )
        } else {
            None
        },
        None => None,
    }
}

/// What converting a `gs://` address gives.
pub open spec fn rest_api_result(text: Seq<char>, r: Result<String, GcsError>) -> bool {
    if !url_parses(text) {
        r matches Err(GcsError::Url(e)) && e@ == url_error_text(text)
    } else {
        match rest_api_url_spec(url_host_of(text), url_path_of(text)) {
            None => r matches Err(GcsError::InvalidUrlFormat),
            Some(u) => r matches Ok(s) && s@ == u,
        }
    }
}

/// Number of leading `/` characters.
fn leading_slashes(v: &Vec<char>) -> (k: usize)
    ensures
        k <= v@.len(),
        trim_leading_slashes(v@) == v@.skip(k as int),
        k < v@.len() ==> v@[k as int] != '/',
{
    let mut k: usize = 0;
    let n = v.len();
    assert(v@.skip(0) =~= v@);
    while k < n && v[k] == '/'
        invariant
            k <= n,
            n == v@.len(),
            trim_leading_slashes(v@) == trim_leading_slashes(v@.skip(k as int)),
        decreases n - k,
    {
        assert(v@.skip(k as int).drop_first() =~= v@.skip(k + 1));
        k = k + 1;
    }
    k
}

/// Characters `from..to` of `v` as a string.
fn string_of_range(v: &Vec<char>, from: usize, to: usize) -> (s: String)
    requires
        from <= to <= v@.len(),
    ensures
        s@ == v@.subrange(from as int, to as int),
{
    let mut out: Vec<char> = Vec::new();
    let mut i = from;
    while i < to
        invariant
            from <= i <= to,
            to <= v@.len(),
            out@ == v@.subrange(from as int, i as int),
        decreases to - i,
    {
        out.push(v[i]);
        i = i + 1;
        assert(out@ =~= v@.subrange(from as int, i as int));
    }
    string_of(&out)
}

impl GCSConnector {
    /// Reads `client_email` and `private_key` from a service account JSON
    /// text.
    pub fn parse_service_account(service_account_json: &str) -> (r: Result<(String, String), GcsError>)
        ensures
            service_account_result(service_account_json@, r),
    {
        let email = match json_string_field(service_account_json, "client_email") {
            Err(e) => {
                return Err(GcsError::Json(e));
            },
            Ok(None) => {
                return Err(GcsError::MissingClientEmail);
            },
            Ok(Some(x)) => x,
        };
        match json_string_field(service_account_json, "private_key") {
            Err(e) => Err(GcsError::Json(e)),
            Ok(None) => Err(GcsError::MissingPrivateKey),
            Ok(Some(key)) => Ok((email, key)),
        }
    }

    /// A connector with the credentials of the profile's service account
    /// JSON. The URL is not consulted.
    pub fn from_profile_and_url(profile: &Profile, _url: &str) -> (r: Result<GCSConnector, GcsError>)
        ensures
            match profile.service_account_json {
                None => r matches Err(GcsError::MissingServiceAccountJson),
                Some(j) => match r {
                    Ok(c) => service_account_result(
                        j@,
                        Ok::<(String, String), GcsError>((c.client_email, c.private_key)),
                    ),
                    Err(e) => service_account_result(j@, Err::<(String, String), GcsError>(e)),
                },
            },
    {
        match &profile.service_account_json {
            None => Err(GcsError::MissingServiceAccountJson),
            Some(j) => match GCSConnector::parse_service_account(j.as_str()) {
                Ok((client_email, private_key)) => Ok(GCSConnector { client_email, private_key }),
                Err(e) => Err(e),
            },
        }
    }

    /// The JSON API download address of a `gs://` address.
    pub fn convert_to_rest_api_url(&self, source_url: &str) -> (r: Result<String, GcsError>)
        ensures
            rest_api_result(source_url@, r),
    {
        let (host, path) = match parse_url_path(source_url) {
            Ok(x) => x,
            Err(e) => {
                return Err(GcsError::Url(e));
            },
        };
        let bucket = match host {
            Some(b) => b,
            None => {
                return Err(GcsError::InvalidUrlFormat);
            },
        };
        let v = chars_of(path.as_str());
        let k = leading_slashes(&v);
        if bucket.as_str().unicode_len() == 0 || k == v.len() {
            return Err(GcsError::InvalidUrlFormat);
        }
        let object = string_of_range(&v, k, v.len());
        assert(object@ =~= v@.skip(k as int));
        let encoded = url_encode(object.as_str());
        let mut s = String::new();
        push_str(&mut s, "https://storage.googleapis.com/storage/v1/b/");
        push_str(&mut s, bucket.as_str());
        push_str(&mut s, "/o/");
        push_str(&mut s, encoded.as_str());
        push_str(&mut s, "?alt=media");
        assert(s@ =~= "https://storage.googleapis.com/storage/v1/b/"@ + bucket@ + "/o/"@ + encoded@
            + "?alt=media"@);
        Ok(s)
    }

    /// The JSON API upload address of a `gs://` address: the download
    /// address with every `?alt=media` removed.
    pub fn upload_url(&self, gcs_url: &str) -> (r: Result<String, GcsError>)
        ensures
            match r {
                Ok(s) => exists|d: String|
                    rest_api_result(gcs_url@, Ok::<String, GcsError>(d)) && s@ == remove_all(
                        d@,
                        "?alt=media"@,
                    ),
                Err(e) => rest_api_result(gcs_url@, Err::<String, GcsError>(e)),
            },
    {
        match self.convert_to_rest_api_url(gcs_url) {
            Ok(d) => {
                let v = chars_of(d.as_str());
                let pat = chars_of("?alt=media");
                proof {
                    reveal_strlit("?alt=media");
                }
                let out = remove_all_chars(&v, &pat);
                Ok(string_of(&out))
            },
            Err(e) => Err(e),
        }
    }
}

/// Claims of the JWT that asks Google's token endpoint for an access token.
pub struct TokenClaims {
    pub iss: String,
    pub scope: String,
    pub aud: String,
    pub exp: i64,
    pub iat: i64,
}

/// The RS256 JWT that `jsonwebtoken::encode` makes of these claims with the
/// RSA key of the PEM text.
pub uninterp spec fn jwt_rs256(
    iss: Seq<char>,
    scope: Seq<char>,
    aud: Seq<char>,
    exp: i64,
    iat: i64,
    pem: Seq<char>,
) -> Seq<char>;

/// Whether `jsonwebtoken::encode` makes an RS256 JWT of these claims with
/// the RSA key that `EncodingKey::from_rsa_pem` reads from the PEM text
/// (it does not when the text holds no RSA private key it accepts).
pub uninterp spec fn jwt_rs256_signs(
    iss: Seq<char>,
    scope: Seq<char>,
    aud: Seq<char>,
    exp: i64,
    iat: i64,
    pem: Seq<char>,
) -> bool;

/// Signs the claims, as a JSON object with keys `iss`, `scope`, `aud`, `exp`
/// and `iat`, with `jsonwebtoken::encode` under an RS256 header and the key
/// that `EncodingKey::from_rsa_pem` reads from the PEM text. The contract
/// claims that a token, when one is made, depends on the claims and the key
/// alone (RS256 signatures are deterministic), and that whether one is made
/// depends on them alone too (the random source that `ring` uses to blind
/// the RSA operation does not change the outcome); the error message is left
/// unsaid.
#[verifier::external_body]
fn sign_rs256(claims: &TokenClaims, private_key_pem: &str) -> (r: Result<String, String>)
    ensures
        r is Ok <==> jwt_rs256_signs(
            claims.iss@,
            claims.scope@,
            claims.aud@,
            claims.exp,
            claims.iat,
            private_key_pem@,
        ),
        r matches Ok(t) ==> t@ == jwt_rs256(
            claims.iss@,
            claims.scope@,
            claims.aud@,
            claims.exp,
            claims.iat,
            private_key_pem@,
        ),
{
    let mut m = serde_json::Map::new();
    m.insert("iss".to_string(), claims.iss.clone().into());
    m.insert("scope".to_string(), claims.scope.clone().into());
    m.insert("aud".to_string(), claims.aud.clone().into());
    m.insert("exp".to_string(), claims.exp.into());
    m.insert("iat".to_string(), claims.iat.into());
    let key = jsonwebtoken::EncodingKey::from_rsa_pem(private_key_pem.as_bytes()).map_err(|e| e.to_string())?;
    let header = jsonwebtoken::Header::new(jsonwebtoken::Algorithm::RS256);
    jsonwebtoken::encode(&header, &m, &key).map_err(|e| e.to_string())
}

impl GCSConnector {
    /// The claims of a token asked for at `now` (seconds since the epoch):
    /// issued by the service account for the cloud-platform scope, to
    /// Google's token endpoint, valid for an hour.
    pub fn token_claims(&self, now: i64) -> (c: TokenClaims)
        requires
            now + 3600 <= i64::MAX,
        ensures
            c.iss@ == self.client_email@,
            c.scope@ == "https://www.googleapis.com/auth/cloud-platform"@,
            c.aud@ == "https://oauth2.googleapis.com/token"@,
            c.exp == now + 3600,
            c.iat == now,
    {
        TokenClaims {
            iss: self.client_email.clone(),
            scope: "https://www.googleapis.com/auth/cloud-platform".to_owned(),
            aud: "https://oauth2.googleapis.com/token".to_owned(),
            exp: now + 3600,
            iat: now,
        }
    }

    /// The signed JWT to exchange for an access token at `now`.
    pub fn signed_assertion(&self, now: i64) -> (r: Result<String, GcsError>)
        requires
            now + 3600 <= i64::MAX,
        ensures
            r matches Ok(t) ==> t@ == jwt_rs256(
                self.client_email@,
                "https://www.googleapis.com/auth/cloud-platform"@,
                "https://oauth2.googleapis.com/token"@,
                (now + 3600) as i64,
                now,
                self.private_key@,
            ),
            r matches Err(e) ==> e is Jwt,
            r is Ok <==> jwt_rs256_signs(
                self.client_email@,
                "https://www.googleapis.com/auth/cloud-platform"@,
                "https://oauth2.googleapis.com/token"@,
                (now + 3600) as i64,
                now,
                self.private_key@,
            ),
    {
        let claims = self.token_claims(now);
        match sign_rs256(&claims, self.private_key.as_str()) {
            Ok(t) => Ok(t),
            Err(e) => Err(GcsError::Jwt(e)),
        }
    }

    /// The access token in the token endpoint's JSON answer.
    pub fn access_token_from_response(body: &str) -> (r: Result<String, GcsError>)
        ensures
            if !json_parses(body@) {
                r matches Err(GcsError::Json(e)) && e@ == json_error_text(body@)
            } else {
                match json_text_field(body@, "access_token"@) {
                    None => r matches Err(GcsError::MissingAccessToken),
                    Some(t) => r matches Ok(s) && s@ == t,
                }
            },
    {
        match json_string_field(body, "access_token") {
            Err(e) => Err(GcsError::Json(e)),
            Ok(None) => Err(GcsError::MissingAccessToken),
            Ok(Some(t)) => Ok(t),
        }
    }
}

} // verus!
