//! The remote-service boundary, on the library's side: configuration
//! defaults, what the service reports of a robot, and how its responses
//! are classified.
//!
//! The HTTP client itself is an external collaborator; callers hand in the
//! plain values it produced — a status code, a body string — and take the
//! decisions back.

use vstd::prelude::*;

use crate::ident::Lang;
use crate::ident::spec_lang_ext;

verus! {

/// The production service address, used when none is configured.
pub open spec fn spec_prod_base_url() -> Seq<char> {
    "https://robotrumble.org"@
}

/// Stored account configuration.
#[derive(Debug, Clone, PartialEq, Eq)]
pub struct Config {
    /// The session key of a logged-in account, if any.
    pub auth_key: Option<String>,
    /// An override of the service address, if any.
    pub base_url: Option<String>,
}

impl Default for Config {
    /// A fresh configuration: logged out, production service address.
    fn default() -> (c: Config)
        ensures
            c.auth_key is None,
            c.base_url is None,
    {
        Config { auth_key: None, base_url: None }
    }
}

impl Config {
    /// The service address: the configured override, or production.
    pub fn base_url(&self) -> (r: &str)
        ensures
            match self.base_url {
                Some(u) => r@ == u@,
                None => r@ == spec_prod_base_url(),
            },
    {
        match &self.base_url {
            Some(u) => u.as_str(),
            None => "https://robotrumble.org",
        }
    }
}

/// What the service reports of a published robot.
#[derive(Debug, Clone, PartialEq, Eq)]
pub struct RobotInfo {
    /// The robot's numeric id with the service.
    pub id: usize,
    /// The language its published source is written in.
    pub lang: Lang,
}

/// How a service response is treated, by its status code.
#[derive(Debug, Clone, Copy, PartialEq, Eq, Structural)]
pub enum StatusClass {
    /// The request succeeded.
    Success,
    /// The thing asked for does not exist; lookups report an absent robot.
    NotFound,
    /// Authentication failed; the response body carries the reason.
    AuthFailure,
    /// Any other failure.
    Failure,
}

/// Classifies a response status code.
pub fn classify_status(status: u16) -> (r: StatusClass)
    ensures
        r is Success <==> status == 200,
        r is NotFound <==> status == 404,
        r is AuthFailure <==> status == 403,
        r is Failure <==> (status != 200 && status != 404 && status != 403),
{
    if status == 200 {
        StatusClass::Success
    } else if status == 404 {
        StatusClass::NotFound
    } else if status == 403 {
        StatusClass::AuthFailure
    } else {
        StatusClass::Failure
    }
}

/// A published robot's code, as the service returns it: an empty string
/// means the robot has no open-source published code.
pub fn published_code(code: String) -> (r: Option<String>)
    ensures
        match r {
            Some(c) => code@.len() > 0 && c == code,
            None => code@.len() == 0,
        },
{
    if code.as_str().is_empty() {
        None
    } else {
        Some(code)
    }
}

/// The file name a downloaded robot is written to: the robot's name with
/// its language's canonical extension.
pub fn download_file_name(robot: &str, lang: Lang) -> (r: String)
    ensures
        r@ == robot@ + "."@ + spec_lang_ext(lang),
{
    let mut out = robot.to_owned();
    out.append(".");
    out.append(lang.ext());
    out
}

} // verus!
