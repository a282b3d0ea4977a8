//! The two-step login to the Balanz API and the access token kept between
//! requests.

use vstd::prelude::*;
use crate::balanz::config::{with_nonce, BalanzConfig, LoginPayload};
use crate::error::AppError;

verus! {

/// A 2xx status.
pub open spec fn is_success(status: u16) -> bool {
    200 <= status < 300
}

/// A 4xx status.
pub open spec fn is_client_error(status: u16) -> bool {
    400 <= status < 500
}

/// A 5xx status.
pub open spec fn is_server_error(status: u16) -> bool {
    500 <= status < 600
}

/// Whether an HTTP status is a server error (500 to 599).
pub fn server_error(status: u16) -> (r: bool)
    ensures
        r == is_server_error(status),
        r == (500 <= status <= 599),
{
    500 <= status && status < 600
}

/// Where the login flow starts: the request for a nonce.
pub fn init_url() -> (url: &'static str)
    ensures
        url@ == "https://clientes.balanz.com/api/v1/auth/init"@,
{
    "https://clientes.balanz.com/api/v1/auth/init"
}

/// Where the login form with its nonce goes.
pub fn login_url() -> (url: &'static str)
    ensures
        url@ == "https://clientes.balanz.com/api/v1/auth/login"@,
{
    "https://clientes.balanz.com/api/v1/auth/login"
}

/// The body of the nonce request.
pub struct InitRequest {
    pub user: String,
    pub source: String,
}

/// The nonce request for the user of a login form.
pub fn init_request<N>(payload: &LoginPayload<N>) -> (r: InitRequest)
    ensures
        r.user@ == payload.user@,
        r.source@ == "WebV2"@,
{
    InitRequest { user: payload.user.clone(), source: "WebV2".to_owned() }
}

/// The verdict on the status of the nonce reply: a server error ends the
/// login.
pub fn check_init_status(status: u16) -> (r: Result<(), AppError>)
    ensures
        is_server_error(status) ==> r == Err::<(), AppError>(AppError::LoginServerError),
        !is_server_error(status) ==> r is Ok,
        500 <= status <= 599 ==> r == Err::<(), AppError>(AppError::LoginServerError),
        !(500 <= status <= 599) ==> r is Ok,
{
    if server_error(status) {
        Err(AppError::LoginServerError)
    } else {
        Ok(())
    }
}

/// A copy of a login form.
pub fn copy_payload(p: &LoginPayload<String>) -> (r: LoginPayload<String>)
    ensures
        r == *p,
{
    LoginPayload {
        user: p.user.clone(),
        pass: p.pass.clone(),
        source: p.source.clone(),
        version_so: p.version_so.clone(),
        version_app: p.version_app.clone(),
        tipo_dispositivo: p.tipo_dispositivo.clone(),
        sistema_operativo: p.sistema_operativo.clone(),
        nombre_dispositivo: p.nombre_dispositivo.clone(),
        id_dispositivo: p.id_dispositivo.clone(),
        nonce: match &p.nonce {
            Some(n) => Some(n.clone()),
            None => None,
        },
    }
}

/// The login form to send once the nonce reply is read: the configured form
/// with the nonce, or `LoginNonceMissing` when the reply has no text nonce.
pub fn login_request(config: &BalanzConfig, nonce: Option<String>) -> (r: Result<LoginPayload<String>, AppError>)
    ensures
        match nonce {
            Some(n) => r == Ok::<LoginPayload<String>, AppError>(LoginPayload { nonce: Some(n), ..config.login_payload }),
            None => r == Err::<LoginPayload<String>, AppError>(AppError::LoginNonceMissing),
        },
{
    match nonce {
        Some(n) => Ok(with_nonce(copy_payload(&config.login_payload), n)),
        None => Err(AppError::LoginNonceMissing),
    }
}

/// The verdict on the status of the login reply: 4xx means the credentials
/// were refused, any other status outside 2xx is a server error.
pub fn check_login_status(status: u16) -> (r: Result<(), AppError>)
    ensures
        is_client_error(status) ==> r == Err::<(), AppError>(AppError::BadCredentials),
        !is_client_error(status) && !is_success(status) ==> r == Err::<(), AppError>(
            AppError::LoginServerError,
        ),
        is_success(status) ==> r is Ok,
        400 <= status <= 499 ==> r == Err::<(), AppError>(AppError::BadCredentials),
        !(400 <= status <= 499) && !(200 <= status <= 299) ==> r == Err::<(), AppError>(
            AppError::LoginServerError,
        ),
        200 <= status <= 299 ==> r is Ok,
{
    if 400 <= status && status < 500 {
        Err(AppError::BadCredentials)
    } else if !(200 <= status && status < 300) {
        Err(AppError::LoginServerError)
    } else {
        Ok(())
    }
}

/// The access token of the login reply, or `LoginResponseMissingToken` when
/// the reply has no text token.
pub fn access_token_from_reply(token: Option<String>) -> (r: Result<String, AppError>)
    ensures
        match token {
            Some(t) => r == Ok::<String, AppError>(t),
            None => r == Err::<String, AppError>(AppError::LoginResponseMissingToken),
        },
{
    match token {
        Some(t) => Ok(t),
        None => Err(AppError::LoginResponseMissingToken),
    }
}

/// How a token is obtained in state `s`: a token in memory is used as it
/// is; without one, the stored copy is read unless a refresh is forced, in
/// which case the service logs in.
pub open spec fn token_plan(s: TokenState) -> TokenPlan {
    if s.access_token@.len() != 0 {
        TokenPlan::Cached(s.access_token)
    } else if !s.force_refresh {
        TokenPlan::LoadStored
    } else {
        TokenPlan::Login
    }
}

/// The access token held in memory, and whether the stored copy must be
/// skipped because it was refused.
pub struct TokenState {
    pub access_token: String,
    pub force_refresh: bool,
}

/// How to obtain a token.
pub enum TokenPlan {
    /// Use the token held in memory.
    Cached(String),
    /// Read the stored copy first.
    LoadStored,
    /// Log in.
    Login,
}

impl TokenState {
    /// No token yet; the stored copy may be used.
    pub fn new() -> (s: Self)
        ensures
            s.access_token@.len() == 0,
            !s.force_refresh,
    {
        TokenState { access_token: String::new(), force_refresh: false }
    }

    /// A token in memory is used as it is; without one, the stored copy is
    /// read unless a refresh is forced, in which case the service logs in.
    pub fn plan(&self) -> (p: TokenPlan)
        ensures
            p == token_plan(*self),
    {
        if !self.access_token.as_str().is_empty() {
            TokenPlan::Cached(self.access_token.clone())
        } else if !self.force_refresh {
            TokenPlan::LoadStored
        } else {
            TokenPlan::Login
        }
    }

    /// Takes the stored copy when there is a non-empty one and returns it;
    /// otherwise returns `None` and the service logs in.
    pub fn accept_stored(&mut self, stored: Option<String>) -> (r: Option<String>)
        ensures
            final(self).force_refresh == old(self).force_refresh,
            match stored {
                Some(t) => if t@.len() != 0 {
                    r == Some(t) && final(self).access_token == t
                } else {
                    r is None && final(self).access_token == old(self).access_token
                },
                None => r is None && final(self).access_token == old(self).access_token,
            },
    {
        match stored {
            Some(t) => {
                if !t.as_str().is_empty() {
                    self.access_token = t.clone();
                    Some(t)
                } else {
                    None
                }
            },
            None => None,
        }
    }

    /// Keeps a token obtained by logging in and returns it, to be used and
    /// stored.
    pub fn accept_login(&mut self, token: String) -> (r: String)
        ensures
            r == token,
            final(self).access_token == token,
            final(self).force_refresh == old(self).force_refresh,
    {
        self.access_token = token.clone();
        token
    }

    /// Drops a refused token and forces the next token to come from a login.
    pub fn invalidate(&mut self)
        ensures
            final(self).access_token@.len() == 0,
            final(self).force_refresh,
    {
        self.access_token = String::new();
        self.force_refresh = true;
    }
}

/// After a refused token is dropped (any state `invalidate` leaves), the next
/// token comes from a login, never from memory or the stored copy.
pub proof fn law_invalidate_forces_login(after: TokenState)
    requires
        after.access_token@.len() == 0,
        after.force_refresh,
    ensures
        token_plan(after) is Login,
{
}

/// A token just taken from the store or from a login is served from memory
/// by the next request, without another read or login.
pub proof fn law_accepted_token_is_cached(after: TokenState, token: String)
    requires
        after.access_token == token,
        token@.len() != 0,
    ensures
        token_plan(after) == TokenPlan::Cached(token),
{
}

/// A forced refresh stays forced: every step of a token state (`plan`,
/// `accept_stored`, `accept_login`, `invalidate`) keeps the flag set once it
/// is set, so along any run of them the stored copy is never read again.
pub proof fn law_forced_refresh_stays(run: Seq<TokenState>, start: int)
    requires
        0 <= start < run.len(),
        run[start].force_refresh,
        forall|i: int|
            0 <= i < run.len() - 1 ==> (#[trigger] run[i].force_refresh ==> run[i + 1].force_refresh),
    ensures
        forall|i: int| start <= i < run.len() ==> #[trigger] run[i].force_refresh,
        forall|i: int| start <= i < run.len() ==> !(#[trigger] token_plan(run[i]) is LoadStored),
    decreases run.len() - start,
{
    if start + 1 < run.len() {
        assert(run[start].force_refresh ==> run[start + 1].force_refresh);
        law_forced_refresh_stays(run, start + 1);
    }
}

/// The status classes are the HTTP ranges, every status in them included:
/// 200 to 299 is a success, 400 to 499 a client error and 500 to 599 a
/// server error (502 and 504 among them); the three never overlap.
pub proof fn law_status_classes(status: u16)
    ensures
        is_success(status) <==> 200 <= status <= 299,
        is_client_error(status) <==> 400 <= status <= 499,
        is_server_error(status) <==> 500 <= status <= 599,
        !(is_success(status) && is_client_error(status)),
        !(is_success(status) && is_server_error(status)),
        !(is_client_error(status) && is_server_error(status)),
{
}

} // verus!
