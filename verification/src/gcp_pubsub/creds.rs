//! Credentials for Pub/Sub and the tokens that they buy.

use goauth::auth::JwtClaims;
use goauth::credentials::Credentials;
use goauth::error::GOErr;
use goauth::scopes::Scope;
use http::header::HeaderValue;
use http::header::InvalidHeaderValue;
use smpl_jwt::Jwt;
use smpl_jwt::RSAKey;
use vstd::prelude::*;
use vstd::string::StringExecFns;
use vstd::utf8::encode_utf8;
use vstd::utf8::is_ascii_chars;
use vstd::utf8::is_ascii_chars_encode_utf8;

use super::request::PubsubRequest;
use super::BuildError;
use crate::http_types::has_room;
use crate::http_types::header_bytes;
use crate::http_types::header_lines;
use crate::http_types::header_value;
use crate::http_types::headers_insert;
use crate::http_types::is_header_text;
use crate::oauth::claims_new;
use crate::oauth::credentials_fields;
use crate::oauth::credentials_iss;
use crate::oauth::credentials_private_key;
use crate::oauth::credentials_rsa_key;
use crate::oauth::credentials_token_uri;
use crate::oauth::is_one_hour;
use crate::oauth::jwt_fields;
use crate::oauth::jwt_new;
use crate::oauth::jwt_times;
use crate::oauth::key_fits;
use crate::oauth::key_pem;
use crate::text::lemma_ascii_char_is_byte;
use crate::text::lemma_encode_utf8_injective;

verus! {

/// An access token, as the token service hands it out.
#[derive(Debug)]
pub struct Token {
    pub access_token: String,
    pub token_type: String,
    /// The lifetime of the token, in seconds.
    pub expires_in: u32,
}

impl Token {
    /// The text that authorizes a request: the type of the token, a space and the token.
    pub open spec fn authorization(self) -> Seq<char> {
        self.token_type@ + " "@ + self.access_token@
    }

    /// The token can stand in a header.
    pub open spec fn is_sendable(self) -> bool {
        is_header_text(encode_utf8(self.authorization()))
    }

    /// The value of the header that authorizes a request, or an error where the token holds a
    /// character that no header can hold.
    pub fn header(&self) -> (r: Result<HeaderValue, InvalidHeaderValue>)
        ensures
            r is Ok <==> self.is_sendable(),
            r is Ok <==> is_header_text(
                encode_utf8(self.token_type@ + " "@ + self.access_token@),
            ),
            r is Ok ==> header_bytes(r->Ok_0) == encode_utf8(self.authorization()),
            r is Ok ==> header_bytes(r->Ok_0) == encode_utf8(
                self.token_type@ + " "@ + self.access_token@,
            ),
    {
        let value = self.token_type.as_str().to_owned().concat(" ").concat(
            self.access_token.as_str(),
        );
        header_value(value.as_str())
    }
}

/// The texts of the token request for an account with these credentials, to be signed with the
/// key `pem`.
pub open spec fn request_fields(
    creds: Map<Seq<char>, Seq<char>>,
    pem: Seq<char>,
) -> Map<Seq<char>, Seq<char>> {
    map![
        "iss"@ => creds["client_email"@],
        "scope"@ => "https://www.googleapis.com/auth/pubsub"@,
        "aud"@ => creds["token_uri"@],
    ].insert("key"@, pem).insert("alg"@, "RS256"@)
}

/// `jwt` asks for a token to access Pub/Sub, for the account with these credentials and for one
/// hour, and is to be signed with the key `pem`.
pub open spec fn is_token_request(jwt: Jwt<JwtClaims>, creds: Credentials, pem: Seq<char>) -> bool {
    &&& jwt_fields(jwt) == request_fields(credentials_fields(creds), pem)
    &&& is_one_hour(jwt_times(jwt))
}

/// The request for a token to access Pub/Sub, to be signed with `key`, or the error that no key
/// could be read.
pub fn jwt_with_key(creds: &Credentials, key: Result<RSAKey, GOErr>) -> (r: Result<
    Jwt<JwtClaims>,
    BuildError,
>)
    ensures
        match key {
            Ok(k) => r is Ok && is_token_request(r->Ok_0, *creds, key_pem(k)),
            Err(source) => r == Err::<Jwt<JwtClaims>, _>(BuildError::InvalidRsaKey { source }),
        },
{
    let claims = claims_new(credentials_iss(creds), &Scope::PubSub, credentials_token_uri(creds));
    match key {
        Ok(rsa_key) => Ok(jwt_new(claims, rsa_key)),
        Err(source) => Err(BuildError::InvalidRsaKey { source }),
    }
}

/// The request for a token to access Pub/Sub, to be signed with the key of the credentials.
///
/// Whether that key can be read is left to OpenSSL; [`jwt_with_key`] says what follows either way.
/// A key that is too long for OpenSSL is left out (see [`try_make_jwt`]).
pub fn make_jwt(creds: &Credentials) -> (r: Result<Jwt<JwtClaims>, BuildError>)
    requires
        key_fits(*creds),
    ensures
        match r {
            Ok(jwt) => is_token_request(
                jwt,
                *creds,
                credentials_fields(*creds)["private_key"@],
            ),
            Err(error) => error is InvalidRsaKey,
        },
{
    let key = credentials_rsa_key(creds);
    jwt_with_key(creds, key)
}

/// Whether the key of the credentials is short enough for OpenSSL.
fn check_key(creds: &Credentials) -> (r: bool)
    ensures
        r == key_fits(*creds),
{
    match credentials_private_key(creds) {
        Some(pem) => pem.as_str().as_bytes().len() <= i32::MAX as usize,
        None => false,
    }
}

/// The request for a token to access Pub/Sub, as [`make_jwt`] makes it, or `None` where the key of
/// the credentials is too long for OpenSSL.
pub fn try_make_jwt(creds: &Credentials) -> (r: Option<Result<Jwt<JwtClaims>, BuildError>>)
    ensures
        match r {
            Some(Ok(jwt)) => {
                &&& key_fits(*creds)
                &&& is_token_request(jwt, *creds, credentials_fields(*creds)["private_key"@])
            },
            Some(Err(error)) => key_fits(*creds) && error is InvalidRsaKey,
            None => !key_fits(*creds),
        },
{
    if check_key(creds) {
        Some(make_jwt(creds))
    } else {
        None
    }
}

/// Credentials with the token that they bought last.
pub struct PubsubCreds {
    pub creds: Credentials,
    pub token: Token,
}

impl PubsubCreds {
    /// What to ask the token service for, given what came of loading the credentials.
    ///
    /// Credentials that loaded are passed on with the request. Those with a key that is too long
    /// for OpenSSL are left out (see [`PubsubCreds::try_prepare`]).
    pub fn prepare(loaded: Result<Credentials, GOErr>) -> (r: Result<
        (Credentials, Jwt<JwtClaims>),
        BuildError,
    >)
        requires
            loaded is Ok ==> key_fits(loaded->Ok_0),
        ensures
            match loaded {
                Ok(creds) => match r {
                    Ok((kept, jwt)) => {
                        &&& kept == creds
                        &&& is_token_request(
                            jwt,
                            creds,
                            credentials_fields(creds)["private_key"@],
                        )
                    },
                    Err(error) => error is InvalidRsaKey,
                },
                Err(source) => r == Err::<(Credentials, Jwt<JwtClaims>), _>(
                    BuildError::InvalidCredentials { source },
                ),
            },
    {
        match loaded {
            Ok(creds) => match make_jwt(&creds) {
                Ok(jwt) => Ok((creds, jwt)),
                Err(error) => Err(error),
            },
            Err(source) => Err(BuildError::InvalidCredentials { source }),
        }
    }

    /// What to ask the token service for, as [`PubsubCreds::prepare`] says it, or `None` where the
    /// key of the credentials is too long for OpenSSL.
    pub fn try_prepare(loaded: Result<Credentials, GOErr>) -> (r: Option<
        Result<(Credentials, Jwt<JwtClaims>), BuildError>,
    >)
        ensures
            match loaded {
                Ok(creds) => match r {
                    Some(Ok((kept, jwt))) => {
                        &&& key_fits(creds)
                        &&& kept == creds
                        &&& is_token_request(
                            jwt,
                            creds,
                            credentials_fields(creds)["private_key"@],
                        )
                    },
                    Some(Err(error)) => key_fits(creds) && error is InvalidRsaKey,
                    None => !key_fits(creds),
                },
                Err(source) => r == Some(
                    Err::<(Credentials, Jwt<JwtClaims>), _>(
                        BuildError::InvalidCredentials { source },
                    ),
                ),
            },
    {
        match loaded {
            Ok(creds) => if check_key(&creds) {
                Some(Self::prepare(Ok(creds)))
            } else {
                None
            },
            Err(source) => Some(Self::prepare(Err(source))),
        }
    }

    /// Credentials with their first token, given what came of asking for it.
    pub fn new(creds: Credentials, fetched: Result<Token, GOErr>) -> (r: Result<Self, BuildError>)
        ensures
            match fetched {
                Ok(token) => r == Ok::<_, BuildError>(PubsubCreds { creds, token }),
                Err(source) => r == Err::<PubsubCreds, _>(BuildError::GetTokenFailed { source }),
            },
    {
        match fetched {
            Ok(token) => Ok(PubsubCreds { creds, token }),
            Err(source) => Err(BuildError::GetTokenFailed { source }),
        }
    }

    /// Authorizes a request with the current token. A token that it carried before is replaced.
    pub fn apply(&self, request: &mut PubsubRequest)
        requires
            self.token.is_sendable(),
            has_room(header_lines(old(request).headers), "authorization"@),
        ensures
            header_lines(final(request).headers) == self.applied(
                header_lines(old(request).headers),
            ),
            header_lines(final(request).headers) == header_lines(old(request).headers).insert(
                "authorization"@,
                seq![encode_utf8(self.token.token_type@ + " "@ + self.token.access_token@)],
            ),
            final(request).method == old(request).method,
            final(request).uri == old(request).uri,
            final(request).body == old(request).body,
    {
        let value = self.token.header();
        match value {
            Ok(header) => {
                proof {
                    reveal_strlit("authorization");
                }
                let _ = headers_insert(&mut request.headers, "authorization", header);
            },
            Err(_) => {
                assert(false);
            },
        }
    }

    /// The lines of a request once the token is applied to it.
    pub open spec fn applied(self, lines: Map<Seq<char>, Seq<Seq<u8>>>) -> Map<
        Seq<char>,
        Seq<Seq<u8>>,
    > {
        lines.insert("authorization"@, seq![encode_utf8(self.token.authorization())])
    }

    /// The credentials after one attempt to renew their token.
    pub open spec fn renewed(self, fetched: Result<Token, GOErr>) -> Self {
        match fetched {
            Ok(token) => PubsubCreds { token, ..self },
            Err(_) => self,
        }
    }

    /// The credentials after these attempts to renew their token, one after the other.
    pub open spec fn after(self, attempts: Seq<Result<Token, GOErr>>) -> Self
        decreases attempts.len(),
    {
        if attempts.len() == 0 {
            self
        } else {
            self.after(attempts.drop_last()).renewed(attempts.last())
        }
    }

    /// Takes a renewed token, given what came of asking for it. The old one stays where there is
    /// none.
    pub fn regenerate_token(&mut self, fetched: Result<Token, GOErr>) -> (r: Result<(), GOErr>)
        ensures
            *final(self) == old(self).renewed(fetched),
            final(self).creds == old(self).creds,
            match fetched {
                Ok(token) => r is Ok && final(self).token == token,
                Err(error) => r == Err::<(), _>(error) && final(self).token == old(self).token,
            },
    {
        match fetched {
            Ok(token) => {
                self.token = token;
                Ok(())
            },
            Err(error) => Err(error),
        }
    }

    /// How often the token is renewed, in seconds: twice in its lifetime.
    pub fn renewal_interval(&self) -> (r: u64)
        ensures
            r == self.token.expires_in as int / 2,
            2 * r <= self.token.expires_in,
    {
        self.token.expires_in as u64 / 2
    }
}

/// The text that authorizes a request holds the whole type of the token, one space and the whole
/// access token, however long they are, and nothing else.
pub proof fn law_authorization_holds_whole_token(token: Token)
    ensures
        ({
            let text = token.authorization();
            let space = token.token_type@.len() as int;
            &&& text.len() == token.token_type@.len() + 1 + token.access_token@.len()
            &&& text.subrange(0, space) == token.token_type@
            &&& text[space] == ' '
            &&& text.skip(space + 1) == token.access_token@
        }),
{
    reveal_strlit(" ");
    let text = token.authorization();
    let space = token.token_type@.len() as int;
    assert(text.subrange(0, space) =~= token.token_type@);
    assert(text.skip(space + 1) =~= token.access_token@);
}

/// Tokens of one type that authorize a request with the same bytes are the same.
pub proof fn law_authorization_tells_token(a: Token, b: Token)
    requires
        a.token_type@ == b.token_type@,
        encode_utf8(a.authorization()) == encode_utf8(b.authorization()),
    ensures
        a.access_token@ == b.access_token@,
{
    lemma_encode_utf8_injective(a.authorization(), b.authorization());
    law_authorization_holds_whole_token(a);
    law_authorization_holds_whole_token(b);
}

/// A token of printable ASCII characters, however long, can stand in a header.
pub proof fn law_printable_token_is_sendable(token: Token)
    requires
        forall|i: int|
            0 <= i < token.token_type@.len() ==> ' ' <= #[trigger] token.token_type@[i] <= '~',
        forall|i: int|
            0 <= i < token.access_token@.len() ==> ' ' <= #[trigger] token.access_token@[i] <= '~',
    ensures
        token.is_sendable(),
{
    reveal_strlit(" ");
    let text = token.token_type@ + " "@ + token.access_token@;
    assert forall|i: int| 0 <= i < text.len() implies ' ' <= #[trigger] text[i] <= '~' by {
        let space = token.token_type@.len() as int;
        if i < space {
            assert(text[i] == token.token_type@[i]);
        } else if i > space {
            assert(text[i] == token.access_token@[i - space - 1]);
        }
    }
    assert(is_ascii_chars(text));
    is_ascii_chars_encode_utf8(text);
}

/// A token with a control character cannot stand in a header.
pub proof fn law_control_character_is_not_sendable(token: Token, i: int)
    requires
        0 <= i < token.access_token@.len(),
        '\0' <= token.access_token@[i] < ' ',
        token.access_token@[i] != '\t',
    ensures
        !token.is_sendable(),
{
    reveal_strlit(" ");
    let text = token.token_type@ + " "@ + token.access_token@;
    let at = token.token_type@.len() + 1 + i;
    assert(text[at] == token.access_token@[i]);
    let k = lemma_ascii_char_is_byte(text, at);
    assert(encode_utf8(text)[k] < 32 && encode_utf8(text)[k] != 9);
}

/// An authorized request has one authorization, that of the token; all its other headers are as they
/// were.
pub proof fn law_applied_sets_authorization_only(
    creds: PubsubCreds,
    lines: Map<Seq<char>, Seq<Seq<u8>>>,
    name: Seq<char>,
)
    ensures
        creds.applied(lines).dom().contains("authorization"@),
        creds.applied(lines)["authorization"@].len() == 1,
        creds.applied(lines)["authorization"@][0] == encode_utf8(
            creds.token.token_type@ + " "@ + creds.token.access_token@,
        ),
        name != "authorization"@ ==> (creds.applied(lines).dom().contains(name)
            <==> lines.dom().contains(name)),
        name != "authorization"@ && lines.dom().contains(name) ==> creds.applied(lines)[name]
            == lines[name],
{
}

/// A token request names the account as its issuer, Pub/Sub as its scope and the account's token
/// service as its audience, is signed with the account's key in RS256, and holds for one hour. It
/// claims nothing else.
pub proof fn law_token_request_is_for_account(
    jwt: Jwt<JwtClaims>,
    creds: Credentials,
    pem: Seq<char>,
)
    requires
        is_token_request(jwt, creds, pem),
    ensures
        jwt_fields(jwt)["iss"@] == credentials_fields(creds)["client_email"@],
        jwt_fields(jwt)["scope"@] == "https://www.googleapis.com/auth/pubsub"@,
        jwt_fields(jwt)["aud"@] == credentials_fields(creds)["token_uri"@],
        jwt_fields(jwt)["key"@] == pem,
        jwt_fields(jwt)["alg"@] == "RS256"@,
        jwt_fields(jwt).dom() == set!["iss"@, "scope"@, "aud"@, "key"@, "alg"@],
        jwt_times(jwt).len() == 2,
        jwt_times(jwt)[1] - jwt_times(jwt)[0] == 3600,
{
    reveal_strlit("iss");
    reveal_strlit("scope");
    reveal_strlit("aud");
    reveal_strlit("key");
    reveal_strlit("alg");
    let (iss, scope, aud, key, alg) = ("iss"@, "scope"@, "aud"@, "key"@, "alg"@);
    assert(iss[0] == 'i' && scope[0] == 's' && aud[1] == 'u' && aud[0] == 'a');
    assert(key[0] == 'k' && alg[1] == 'l' && alg[0] == 'a');
    assert(jwt_fields(jwt).dom() =~= set![iss, scope, aud, key, alg]);
}

/// One attempt to renew the token replaces it with the new one as it is, or changes nothing; the
/// account stays the same either way.
pub proof fn law_renewal_takes_token_as_it_is(creds: PubsubCreds, token: Token, error: GOErr)
    ensures
        creds.renewed(Ok(token)).token == token,
        creds.renewed(Ok(token)).creds == creds.creds,
        creds.renewed(Err(error)) == creds,
{
}

/// Applying credentials again, after any renewal, leaves the request with the newest token only.
pub proof fn law_newest_token_wins(
    older: PubsubCreds,
    newer: PubsubCreds,
    lines: Map<Seq<char>, Seq<Seq<u8>>>,
)
    ensures
        newer.applied(older.applied(lines)) == newer.applied(lines),
{
    assert(newer.applied(older.applied(lines)) =~= newer.applied(lines));
}

/// After any number of attempts to renew the token, the last one that succeeded decides which token
/// requests carry; the account stays the same.
pub proof fn law_last_renewal_decides(
    creds: PubsubCreds,
    attempts: Seq<Result<Token, GOErr>>,
    last: int,
    lines: Map<Seq<char>, Seq<Seq<u8>>>,
)
    requires
        0 <= last < attempts.len(),
        attempts[last] is Ok,
        forall|i: int| last < i < attempts.len() ==> #[trigger] attempts[i] is Err,
    ensures
        creds.after(attempts) == (PubsubCreds { creds: creds.creds, token: attempts[last]->Ok_0 }),
        creds.after(attempts).applied(lines) == lines.insert(
            "authorization"@,
            seq![encode_utf8(attempts[last]->Ok_0.authorization())],
        ),
    decreases attempts.len(),
{
    if last == attempts.len() - 1 {
        lemma_account_stays(creds, attempts.drop_last());
    } else {
        assert(attempts.last() is Err);
        law_last_renewal_decides(creds, attempts.drop_last(), last, lines);
    }
}

/// Attempts to renew the token that all fail change nothing.
pub proof fn law_failed_renewals_change_nothing(
    creds: PubsubCreds,
    attempts: Seq<Result<Token, GOErr>>,
)
    requires
        forall|i: int| 0 <= i < attempts.len() ==> #[trigger] attempts[i] is Err,
    ensures
        creds.after(attempts) == creds,
    decreases attempts.len(),
{
    if attempts.len() > 0 {
        assert(attempts.last() is Err);
        law_failed_renewals_change_nothing(creds, attempts.drop_last());
    }
}

proof fn lemma_account_stays(creds: PubsubCreds, attempts: Seq<Result<Token, GOErr>>)
    ensures
        creds.after(attempts).creds == creds.creds,
    decreases attempts.len(),
{
    if attempts.len() > 0 {
        lemma_account_stays(creds, attempts.drop_last());
    }
}

} // verus!
