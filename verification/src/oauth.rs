//! Service account credentials of the `goauth` crate and the tokens that `smpl_jwt` signs.

use goauth::auth::JwtClaims;
use goauth::credentials::Credentials;
use goauth::error::GOErr;
use goauth::scopes::Scope;
use smpl_jwt::Jwt;
use smpl_jwt::RSAKey;
use vstd::prelude::*;
use vstd::utf8::encode_utf8;

verus! {

/// The credentials of a service account. What they hold are their [`credentials_fields`].
#[verifier::external_type_specification]
#[verifier::external_body]
pub struct ExCredentials(Credentials);

/// The claims of a token request. What they hold are their [`claims_fields`].
#[verifier::external_type_specification]
#[verifier::external_body]
pub struct ExJwtClaims(JwtClaims);

/// A private RSA key. What it holds is its [`key_pem`].
#[verifier::external_type_specification]
#[verifier::external_body]
pub struct ExRSAKey(RSAKey);

/// A token request that can be signed. What it holds are its [`jwt_fields`].
#[verifier::external_type_specification]
#[verifier::external_body]
#[verifier::reject_recursive_types(T)]
pub struct ExJwt<T>(Jwt<T>);

/// An error of `goauth`.
#[verifier::external_type_specification]
#[verifier::external_body]
pub struct ExGOErr(GOErr);

/// What a token gives access to.
#[verifier::external_type_specification]
pub struct ExScope(Scope);

/// The texts of a service account file, by their names in that file.
pub uninterp spec fn credentials_fields(creds: Credentials) -> Map<Seq<char>, Seq<char>>;

/// The texts that claims hold, by their names: `iss`, `scope` and `aud`.
pub uninterp spec fn claims_fields(claims: JwtClaims) -> Map<Seq<char>, Seq<char>>;

/// The times in claims: that of issue, then that of expiry, in seconds since the epoch.
pub uninterp spec fn claims_times(claims: JwtClaims) -> Seq<int>;

/// The PEM text that a key was read from.
pub uninterp spec fn key_pem(key: RSAKey) -> Seq<char>;

/// The texts that a token request holds, by their names: those of its claims, `key` for the PEM
/// text of the key that signs it and `alg` for the signature algorithm.
pub uninterp spec fn jwt_fields(jwt: Jwt<JwtClaims>) -> Map<Seq<char>, Seq<char>>;

/// The times in a token request: those of its claims.
pub uninterp spec fn jwt_times(jwt: Jwt<JwtClaims>) -> Seq<int>;

/// `times` are a time of issue and a time of expiry an hour later.
pub open spec fn is_one_hour(times: Seq<int>) -> bool {
    times.len() == 2 && times[1] == times[0] + 3600
}

/// `Credentials::iss`: the account's e-mail address.
#[verifier::external_body]
pub(crate) fn credentials_iss(creds: &Credentials) -> (r: String)
    ensures
        r@ == credentials_fields(*creds)["client_email"@],
{
    creds.iss()
}

/// `Credentials::token_uri`: the address that hands out tokens.
#[verifier::external_body]
pub(crate) fn credentials_token_uri(creds: &Credentials) -> (r: String)
    ensures
        r@ == credentials_fields(*creds)["token_uri"@],
{
    creds.token_uri()
}

/// The private key of the credentials is short enough to be handed to OpenSSL, which counts bytes
/// in 32 bits with a sign.
pub open spec fn key_fits(creds: Credentials) -> bool {
    encode_utf8(credentials_fields(creds)["private_key"@]).len() <= i32::MAX
}

/// A private key is short enough exactly where it is shorter than two gibibytes.
pub proof fn law_key_below_two_gibibytes_fits(creds: Credentials)
    ensures
        key_fits(creds) <==> encode_utf8(credentials_fields(creds)["private_key"@]).len() < 2 * 1024
            * 1024 * 1024,
{
}

/// `serde_json::to_value` on [`Credentials`], at `private_key`: the PEM text of the account's
/// private key.
///
/// There always is one: serialising credentials writes each of their fields, all texts, under the
/// name that it has in a service account file.
#[verifier::external_body]
pub(crate) fn credentials_private_key(creds: &Credentials) -> (r: Option<String>)
    ensures
        r is Some,
        r->Some_0@ == credentials_fields(*creds)["private_key"@],
{
    serde_json::to_value(creds).ok()?.get("private_key")?.as_str().map(str::to_owned)
}

/// `Credentials::rsa_key`: the account's private key.
///
/// The call panics where the PEM text is too long for OpenSSL. Whether the text is read as a key is
/// left unsaid: OpenSSL decides that, and asks at the terminal for the passphrase of an encrypted
/// key.
#[verifier::external_body]
pub(crate) fn credentials_rsa_key(creds: &Credentials) -> (r: Result<RSAKey, GOErr>)
    requires
        key_fits(*creds),
    ensures
        r is Ok ==> key_pem(r->Ok_0) == credentials_fields(*creds)["private_key"@],
{
    creds.rsa_key()
}

/// `JwtClaims::new` without times: the claim of `iss` to access Pub/Sub, addressed to `aud`, which
/// holds for one hour.
///
/// The hour starts when the call is made; what time that is, is left unsaid.
#[verifier::external_body]
pub(crate) fn claims_new(iss: String, scope: &Scope, aud: String) -> (r: JwtClaims)
    requires
        *scope == Scope::PubSub,
    ensures
        claims_fields(r) == map![
            "iss"@ => iss@,
            "scope"@ => "https://www.googleapis.com/auth/pubsub"@,
            "aud"@ => aud@,
        ],
        is_one_hour(claims_times(r)),
{
    JwtClaims::new(iss, scope, aud, None, None)
}

/// `Jwt::new` without an algorithm: a request with these claims, to be signed with `key` in the
/// default algorithm, RS256.
#[verifier::external_body]
pub(crate) fn jwt_new(claims: JwtClaims, key: RSAKey) -> (r: Jwt<JwtClaims>)
    ensures
        jwt_fields(r) == claims_fields(claims).insert("key"@, key_pem(key)).insert(
            "alg"@,
            "RS256"@,
        ),
        jwt_times(r) == claims_times(claims),
{
    Jwt::new(claims, key, None)
}

} // verus!
