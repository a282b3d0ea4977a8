use vstd::prelude::*;
use crate::text::{parse_u64, parsed_u64};

verus! {

/// The login form the Balanz API expects, as sent by its web client.
#[derive(Clone, Debug)]
pub struct LoginPayload<N> {
    pub user: String,
    pub pass: String,
    pub source: String,
    pub version_so: String,
    pub version_app: String,
    pub tipo_dispositivo: String,
    pub sistema_operativo: String,
    pub nombre_dispositivo: String,
    pub id_dispositivo: String,
    /// The nonce of the login init step, once known.
    pub nonce: Option<N>,
}

/// `payload` describes the web client with these credentials and no nonce.
pub open spec fn is_login_form<N>(payload: LoginPayload<N>, user: Seq<char>, pass: Seq<char>) -> bool {
    &&& payload.user@ == user
    &&& payload.pass@ == pass
    &&& payload.source@ == "WebV2"@
    &&& payload.version_so@ == "10"@
    &&& payload.version_app@ == "2.11.0"@
    &&& payload.tipo_dispositivo@ == "Web"@
    &&& payload.sistema_operativo@ == "Windows"@
    &&& payload.nombre_dispositivo@ == "Edge 125.0.0.0"@
    &&& payload.id_dispositivo@ == "84a22d3c-5165-4ed0-b061-0f8b8ddf09d0"@
    &&& payload.nonce is None
}

/// The login form for a user and password.
pub fn login_payload<N>(user: String, pass: String) -> (payload: LoginPayload<N>)
    ensures
        is_login_form(payload, user@, pass@),
{
    LoginPayload {
        user,
        pass,
        source: "WebV2".to_owned(),
        version_so: "10".to_owned(),
        version_app: "2.11.0".to_owned(),
        tipo_dispositivo: "Web".to_owned(),
        sistema_operativo: "Windows".to_owned(),
        nombre_dispositivo: "Edge 125.0.0.0".to_owned(),
        id_dispositivo: "84a22d3c-5165-4ed0-b061-0f8b8ddf09d0".to_owned(),
        nonce: None,
    }
}

/// The same form with `nonce` set.
pub fn with_nonce<N>(payload: LoginPayload<N>, nonce: N) -> (r: LoginPayload<N>)
    ensures
        r == (LoginPayload { nonce: Some(nonce), ..payload }),
{
    LoginPayload { nonce: Some(nonce), ..payload }
}

/// The user agent of the web client the service presents itself as.
pub open spec fn user_agent() -> Seq<char> {
    "Mozilla/5.0 (Windows NT 10.0; Win64; x64) AppleWebKit/537.36 (KHTML, like Gecko) Chrome/125.0.0.0 Safari/537.36 Edg/125.0.0.0"@
}

/// The headers of every login request: name, then value.
pub fn request_headers() -> (h: Vec<(&'static str, &'static str)>)
    ensures
        h@.len() == 4,
        h@[0].0@ == "content-type"@ && h@[0].1@ == "application/json"@,
        h@[1].0@ == "accept"@ && h@[1].1@ == "application/json"@,
        h@[2].0@ == "user-agent"@ && h@[2].1@ == user_agent(),
        h@[3].0@ == "referer"@ && h@[3].1@ == "https://clientes.balanz.com/"@,
{
    let mut h: Vec<(&'static str, &'static str)> = Vec::new();
    h.push(("content-type", "application/json"));
    h.push(("accept", "application/json"));
    h.push(
        (
            "user-agent",
            "Mozilla/5.0 (Windows NT 10.0; Win64; x64) AppleWebKit/537.36 (KHTML, like Gecko) Chrome/125.0.0.0 Safari/537.36 Edg/125.0.0.0",
        ),
    );
    h.push(("referer", "https://clientes.balanz.com/"));
    h
}

/// Seconds to wait for a complete set of quotes when no valid setting is given.
pub const DEFAULT_TIMEOUT_SECS: u64 = 60;

/// The quote timeout: the setting read as an unsigned decimal number, or
/// the default when the setting is absent or not such a number.
pub fn timeout_secs(setting: Option<&str>) -> (secs: u64)
    ensures
        secs == match setting {
            Some(s) => match parsed_u64(s@) {
                Some(v) => v,
                None => DEFAULT_TIMEOUT_SECS,
            },
            None => DEFAULT_TIMEOUT_SECS,
        },
{
    match setting {
        Some(s) => match parse_u64(s) {
            Some(v) => v,
            None => DEFAULT_TIMEOUT_SECS,
        },
        None => DEFAULT_TIMEOUT_SECS,
    }
}

/// Static configuration of the `/quotes` service.
pub struct BalanzConfig {
    pub gcp_project_id: String,
    pub login_payload: LoginPayload<String>,
    pub timeout_secs: u64,
}

impl BalanzConfig {
    /// The configuration built from the settings the service is started with.
    pub fn from_settings(
        user: String,
        password: String,
        gcp_project_id: String,
        timeout_setting: Option<&str>,
    ) -> (config: Self)
        ensures
            is_login_form(config.login_payload, user@, password@),
            config.gcp_project_id == gcp_project_id,
            config.timeout_secs == match timeout_setting {
                Some(s) => match parsed_u64(s@) {
                    Some(v) => v,
                    None => DEFAULT_TIMEOUT_SECS,
                },
                None => DEFAULT_TIMEOUT_SECS,
            },
    {
        BalanzConfig {
            gcp_project_id,
            login_payload: login_payload(user, password),
            timeout_secs: timeout_secs(timeout_setting),
        }
    }
}

} // verus!
