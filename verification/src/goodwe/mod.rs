//! The solar portal: the cache of session credentials, and the calls that
//! are made with them.
//!
//! Credentials are kept in a log that only grows. The current credential is
//! the one issued last; it is reused until it is older than
//! [`CREDENTIAL_TTL_MS`], and a login replaces it by appending a new one.
//! Nothing in the log is ever changed or removed, so a reader sees a
//! credential that may be old but is never half-written.

use crate::clock::CREDENTIAL_TTL_MS;
use crate::goodwe::types::LoginRequest;
use vstd::prelude::*;

pub mod types;

verus! {

/// Where a login is sent.
pub const LOGIN_URL: &'static str = "https://www.semsportal.com/api/v2/Common/CrossLogin";

/// Where the details of a plant are asked for.
pub const GET_POWERSTATION_DETAILS_URL: &'static str =
    "https://au.semsportal.com/api/v3/PowerStation/GetPlantDetailByPowerstationId";

/// Name of the header that carries the session token.
pub const TOKEN_HEADER: &'static str = "token";

/// Name of the form field that carries the station in a plant-details call.
pub const POWERSTATION_FIELD: &'static str = "powerStationId";

/// The token of a caller that has not logged in yet: the base64 text of
/// `{"uid":"","timestamp":0,"token":"","client":"web","version":"","language":"en"}`.
pub const LOGIN_TOKEN: &'static str =
    "eyJ1aWQiOiIiLCJ0aW1lc3RhbXAiOjAsInRva2VuIjoiIiwiY2xpZW50Ijoid2ViIiwidmVyc2lvbiI6IiIsImxhbmd1YWdlIjoiZW4ifQ==";

/// What can go wrong on the solar path.
#[derive(Clone, Copy, PartialEq, Eq, Structural, Debug)]
pub enum GoodWeSemsAPIError {
    /// The login exchange failed: network, status or body.
    Auth,
    /// The portal refused the request or sent a body that cannot be read.
    Upstream,
    /// The store of credentials could not be read or written.
    Database,
}

/// A session credential: the login document of the portal as it was
/// received, and the instant at which it was issued. A credential is never
/// changed; a newer one takes its place.
#[derive(Clone, Debug, PartialEq, Eq)]
pub struct Credential {
    pub login_data: Vec<u8>,
    pub issued_at: i64,
}

pub struct CredentialView {
    pub login_data: Seq<u8>,
    pub issued_at: i64,
}

impl View for Credential {
    type V = CredentialView;

    open spec fn view(&self) -> CredentialView {
        CredentialView { login_data: self.login_data@, issued_at: self.issued_at }
    }
}

/// The views of the credentials of a log, in the order of the log.
pub open spec fn log_view(log: Seq<Credential>) -> Seq<CredentialView> {
    log.map_values(|c: Credential| c@)
}

/// A credential issued at `issued_at` is too old at `now`: its age exceeds
/// five minutes.
pub open spec fn is_stale(issued_at: int, now: int) -> bool {
    now - issued_at > 300_000
}

/// Index of the current credential of a log: the one issued last, and of
/// several issued at the same instant the one appended last. An empty log
/// has none.
pub open spec fn newest_index(log: Seq<CredentialView>) -> Option<int>
    decreases log.len(),
{
    if log.len() == 0 {
        None
    } else {
        match newest_index(log.drop_last()) {
            Some(i) => if log[i].issued_at > log.last().issued_at {
                Some(i)
            } else {
                Some(log.len() - 1)
            },
            None => Some(log.len() - 1),
        }
    }
}

/// The credential that a caller at `now` is given without a login: the
/// current one, unless there is none or it is stale.
pub open spec fn cached(log: Seq<CredentialView>, now: int) -> Option<CredentialView> {
    match newest_index(log) {
        Some(i) => if is_stale(log[i].issued_at as int, now) {
            None
        } else {
            Some(log[i])
        },
        None => None,
    }
}

/// The log after a login at `now` that yielded `login_data`.
pub open spec fn after_login(log: Seq<CredentialView>, login_data: Seq<u8>, now: i64) -> Seq<
    CredentialView,
> {
    log.push(CredentialView { login_data, issued_at: now })
}

/// The current credential is in the log, none was issued after it, and none
/// that follows it was issued at the same instant.
pub proof fn lemma_newest_is_latest(log: Seq<CredentialView>)
    ensures
        newest_index(log) is None <==> log.len() == 0,
        newest_index(log) matches Some(i) ==> {
            &&& 0 <= i < log.len()
            &&& forall|j: int| 0 <= j < log.len() ==> (#[trigger] log[j]).issued_at <= log[i].issued_at
            &&& forall|j: int| i < j < log.len() ==> (#[trigger] log[j]).issued_at < log[i].issued_at
        },
    decreases log.len(),
{
    if log.len() > 0 {
        let front = log.drop_last();
        lemma_newest_is_latest(front);
        let i = newest_index(log)->0;
        assert forall|j: int| 0 <= j < log.len() implies (#[trigger] log[j]).issued_at <= log[i].issued_at by {
            if j < log.len() - 1 {
                assert(front[j] == log[j]);
            }
        }
        assert forall|j: int| i < j < log.len() implies (#[trigger] log[j]).issued_at < log[i].issued_at by {
            if j < log.len() - 1 {
                assert(front[j] == log[j]);
            }
        }
    }
}

/// The text that the standard base64 alphabet, with padding, gives for `bytes`.
pub uninterp spec fn base64_standard(bytes: Seq<u8>) -> Seq<char>;

/// The base64 text of `len` bytes has a length that fits in `usize`.
pub open spec fn encodable(len: int) -> bool {
    4 * ((len + 2) / 3) <= usize::MAX
}

/// Calls `base64::Engine::encode` on the engine `BASE64_STANDARD`. The text
/// that comes back is the standard padded base64 encoding of `bytes` and of
/// nothing else. Not proved: the encoder is taken on trust. It panics when
/// the length of the text does not fit in `usize`, which the precondition
/// rules out.
#[verifier::external_body]
fn encode_base64(bytes: &[u8]) -> (text: String)
    requires
        encodable(bytes@.len() as int),
    ensures
        text@ == base64_standard(bytes@),
{
    base64::Engine::encode(&base64::prelude::BASE64_STANDARD, bytes)
}

/// A login call: where it goes, its body, and the token it carries.
#[derive(Clone, Debug, PartialEq, Eq)]
pub struct LoginCall {
    pub url: &'static str,
    pub body: LoginRequest,
    pub token: &'static str,
}

/// A plant-details call: where it goes, the station asked for, and the
/// session token.
#[derive(Clone, Debug, PartialEq, Eq)]
pub struct PlantDetailsCall {
    pub url: &'static str,
    pub powerstation_id: String,
    pub token: String,
}

/// The account at the solar portal and the log of its session credentials.
#[derive(Clone, Debug)]
pub struct GoodWeSemsAPI {
    username: String,
    password: String,
    powerstation_id: String,
    tokens: Vec<Credential>,
}

impl GoodWeSemsAPI {
    /// The log of credentials, oldest first.
    pub closed spec fn log(self) -> Seq<CredentialView> {
        log_view(self.tokens@)
    }

    pub closed spec fn account(self) -> Seq<char> {
        self.username@
    }

    pub closed spec fn secret(self) -> Seq<char> {
        self.password@
    }

    pub closed spec fn station(self) -> Seq<char> {
        self.powerstation_id@
    }

    /// A session for one account and one station. `cached` is what the store
    /// holds of earlier logins, oldest first; it may be empty.
    pub fn new(username: String, password: String, powerstation_id: String, cached: Vec<Credential>) -> (api:
        GoodWeSemsAPI)
        ensures
            api.account() == username@,
            api.secret() == password@,
            api.station() == powerstation_id@,
            api.log() == log_view(cached@),
    {
        GoodWeSemsAPI { username, password, powerstation_id, tokens: cached }
    }

    /// The credential to use at `now` if no login is needed: the one issued
    /// last, provided that it is not older than five minutes. `None` means
    /// that the caller has to log in and hand the answer to
    /// [`GoodWeSemsAPI::login_and_save`].
    pub fn get_new_or_cached_login_data(&self, now: i64) -> (r: Option<&Credential>)
        ensures
            match r {
                Some(c) => cached(self.log(), now as int) == Some(c@),
                None => cached(self.log(), now as int) is None,
            },
    {
        let ghost log = log_view(self.tokens@);
        let mut best: Option<usize> = None;
        let mut i: usize = 0;
        proof {
            assert(log.take(0) =~= Seq::<CredentialView>::empty());
        }
        while i < self.tokens.len()
            invariant
                i <= self.tokens.len(),
                log == log_view(self.tokens@),
                match best {
                    Some(b) => b < i && newest_index(log.take(i as int)) == Some(b as int),
                    None => newest_index(log.take(i as int)) is None,
                },
            decreases self.tokens.len() - i,
        {
            proof {
                let next = log.take(i + 1);
                assert(next.drop_last() =~= log.take(i as int));
                assert(next.last() == self.tokens@[i as int]@);
                if let Some(b) = best {
                    assert(next[b as int] == self.tokens@[b as int]@);
                }
            }
            best = match best {
                Some(b) => if self.tokens[b].issued_at > self.tokens[i].issued_at {
                    Some(b)
                } else {
                    Some(i)
                },
                None => Some(i),
            };
            i = i + 1;
        }
        proof {
            assert(log.take(i as int) =~= log);
        }
        match best {
            Some(b) => {
                let newest = &self.tokens[b];
                let age: i128 = now as i128 - newest.issued_at as i128;
                if age > CREDENTIAL_TTL_MS as i128 {
                    None
                } else {
                    Some(newest)
                }
            },
            None => None,
        }
    }

    /// Takes the answer of a login made at `now`. A successful login appends
    /// its credential to the log, where it is the current one from now on. A
    /// failed login changes nothing and its error is handed on.
    pub fn login_and_save(&mut self, response: Result<Vec<u8>, GoodWeSemsAPIError>, now: i64) -> (r:
        Result<(), GoodWeSemsAPIError>)
        ensures
            final(self).account() == old(self).account(),
            final(self).secret() == old(self).secret(),
            final(self).station() == old(self).station(),
            match response {
                Ok(login_data) => r is Ok && final(self).log() == after_login(
                    old(self).log(),
                    login_data@,
                    now,
                ),
                Err(e) => r == Err::<(), GoodWeSemsAPIError>(e) && final(self).log() == old(self).log(),
            },
    {
        match response {
            Ok(login_data) => {
                let ghost before = self.tokens@;
                let credential = Credential { login_data, issued_at: now };
                self.tokens.push(credential);
                proof {
                    assert(log_view(self.tokens@) =~= log_view(before).push(credential@));
                }
                Ok(())
            },
            Err(e) => Err(e),
        }
    }

    /// The login call for this account. It carries the fixed token of a
    /// caller without a session.
    pub fn login(&self) -> (call: LoginCall)
        ensures
            call.url@ == LOGIN_URL@,
            call.token@ == LOGIN_TOKEN@,
            call.body.account@ == self.account(),
            call.body.pwd@ == self.secret(),
    {
        LoginCall {
            url: LOGIN_URL,
            body: LoginRequest { account: self.username.clone(), pwd: self.password.clone() },
            token: LOGIN_TOKEN,
        }
    }

    /// The plant-details call of this station that carries `token` as its
    /// session token.
    pub fn plant_details_call(&self, token: String) -> (call: PlantDetailsCall)
        ensures
            call.url@ == GET_POWERSTATION_DETAILS_URL@,
            call.powerstation_id@ == self.station(),
            call.token@ == token@,
    {
        PlantDetailsCall {
            url: GET_POWERSTATION_DETAILS_URL,
            powerstation_id: self.powerstation_id.clone(),
            token,
        }
    }

    /// The plant-details call made with the credential `login`: its token is
    /// the base64 text of the login document.
    pub fn get_solar_data(&self, login: &Credential) -> (call: PlantDetailsCall)
        requires
            encodable(login.login_data@.len() as int),
        ensures
            call.url@ == GET_POWERSTATION_DETAILS_URL@,
            call.powerstation_id@ == self.station(),
            call.token@ == base64_standard(login.login_data@),
    {
        let token = encode_base64(login.login_data.as_slice());
        self.plant_details_call(token)
    }
}

/// A credential is reused while it is fresh. If a caller at `t1` was given a
/// cached credential, a caller at `t2` is given the same one, with no login,
/// as long as it is not stale at `t2`. If the caller at `t1` had to log in,
/// the credential of that login is what a caller at `t2` is given, with no
/// second login, when `t2` is no more than five minutes after `t1`.
pub proof fn lemma_credential_is_reused(log: Seq<CredentialView>, t1: i64, t2: i64, login_data: Seq<u8>)
    ensures
        cached(log, t1 as int) matches Some(c) ==> (!is_stale(c.issued_at as int, t2 as int)
            ==> cached(log, t2 as int) == Some(c)),
        cached(log, t1 as int) is None && t2 - t1 <= 300_000 ==> cached(
            after_login(log, login_data, t1),
            t2 as int,
        ) == Some(CredentialView { login_data, issued_at: t1 }),
{
    lemma_newest_is_latest(log);
    if cached(log, t1 as int) is None {
        let grown = after_login(log, login_data, t1);
        assert(grown.drop_last() =~= log);
        assert(grown.last() == CredentialView { login_data, issued_at: t1 });
    }
}

} // verus!
