//! Client-side configuration: the stored API key and the rule that merges
//! a caller-supplied key override over it. Reading and writing the config
//! file is transport plumbing and stays outside the library.

use vstd::prelude::*;

verus! {

/// Why the client gave up before reaching the service.
#[derive(Clone, Copy, Debug, PartialEq, Eq, Structural)]
pub enum ClientError {
    /// No API key: none supplied and none stored.
    NoApiKey,
    /// The server reported a failed registration.
    RegistrationError,
    /// A caller-supplied argument could not be understood.
    BadArgument,
}

/// The client's stored configuration: the API key to present.
#[derive(Debug)]
pub struct CoffeeConfig {
    pub api_key: String,
}

/// Picks the API key to use: a caller-supplied key takes precedence over
/// the stored configuration; with neither, the client cannot proceed.
pub fn get_api_key<'a>(cfg: &'a Option<CoffeeConfig>, key_arg: Option<&'a str>) -> (r: Result<
    &'a str,
    ClientError,
>)
    ensures
        match r {
            Ok(k) => match key_arg {
                Some(a) => k@ == a@,
                None => match *cfg {
                    Some(ref c) => k@ == c.api_key@,
                    None => false,
                },
            },
            Err(e) => e == ClientError::NoApiKey && key_arg is None && cfg is None,
        },
{
    match key_arg {
        Some(k) => Ok(k),
        None => match cfg {
            Some(c) => Ok(c.api_key.as_str()),
            None => Err(ClientError::NoApiKey),
        },
    }
}

} // verus!
