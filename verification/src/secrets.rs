//! Resolution of configured secrets into the values used at run time.
use vstd::prelude::*;

verus! {

/// A configured secret: a literal value or the name of an environment
/// variable (`env:NAME` in the configuration file).
pub enum Secret {
    Value(String),
    EnvVar(String),
}

/// Errors that can occur during secret resolution.
pub enum SecretResolveError {
    /// Environment variable not found.
    EnvVarNotFound(String),
}

impl SecretResolveError {
    /// The error message shown to the user.
    pub fn message(&self) -> (s: String)
        ensures
            match self {
                SecretResolveError::EnvVarNotFound(name) => s@ == "Environment variable '"@
                    + name@ + "' not found"@,
            },
    {
        match self {
            SecretResolveError::EnvVarNotFound(name) => {
                let mut v = crate::text::lit("Environment variable '");
                crate::text::extend_chars(&mut v, &crate::text::str_chars(name.as_str()));
                crate::text::extend_chars(&mut v, &crate::text::lit("' not found"));
                crate::text::string_from_chars(&v)
            },
        }
    }
}

/// The value of `secret`: a literal is used as it is; an environment
/// reference takes `env_value`, the value that the named variable holds in
/// the environment (`None` when it is unset), and fails when it is unset.
pub fn resolve_secret(secret: &Secret, env_value: Option<String>) -> (r: Result<
    String,
    SecretResolveError,
>)
    ensures
        match secret {
            Secret::Value(v) => r matches Ok(s) && s@ == v@,
            Secret::EnvVar(name) => match env_value {
                Some(v) => r matches Ok(s) && s@ == v@,
                None => r matches Err(SecretResolveError::EnvVarNotFound(n)) && n@ == name@,
            },
        },
{
    match secret {
        Secret::Value(s) => Ok(s.clone()),
        Secret::EnvVar(name) => match env_value {
            Some(v) => Ok(v),
            None => Err(SecretResolveError::EnvVarNotFound(name.clone())),
        },
    }
}

} // verus!
