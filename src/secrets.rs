//! Looking up a configuration secret: the process environment first, then the
//! deployment's secret store.

use shuttle_secrets::SecretStore;
use vstd::prelude::*;

verus! {

#[verifier::external_type_specification]
#[verifier::external_body]
pub struct ExSecretStore(SecretStore);

/// What a secret store holds: each secret's value under its name.
pub uninterp spec fn secrets_of(store: SecretStore) -> Map<Seq<char>, Seq<char>>;

/// Relies on shuttle's `SecretStore::get`: the value stored under `key`, or `None` when
/// the store has no such key.
#[verifier::external_body]
fn lookup_secret(store: &SecretStore, key: &str) -> (r: Option<String>)
    ensures
        r is Some <==> secrets_of(*store).contains_key(key@),
        r matches Some(v) ==> v@ == secrets_of(*store)[key@],
{
    store.get(key)
}

#[derive(Clone, Debug, PartialEq, Eq)]
pub enum SecretError {
    /// Neither the environment nor the store holds the secret.
    NotFound { name: String },
}

impl SecretError {
    /// The error's text, as in `"TOKEN" not found`.
    pub fn message(&self) -> (r: String)
        ensures
            self matches SecretError::NotFound { name } ==> r@ == "\""@ + name@ + "\" not found"@,
    {
        match self {
            SecretError::NotFound { name } => {
                let mut r = String::from_str("\"");
                r.append(name.as_str());
                r.append("\" not found");
                r
            },
        }
    }
}

pub struct SecretsUtils {}

impl SecretsUtils {
    /// The secret called `name`: `env_value`, what the process environment holds under
    /// that name, when it holds anything; else the value in `secret_store`.
    pub fn get_secret(name: &str, env_value: Option<String>, secret_store: &SecretStore) -> (r:
        Result<String, SecretError>)
        ensures
            env_value matches Some(v) ==> (r matches Ok(s) && s@ == v@),
            env_value is None && secrets_of(*secret_store).contains_key(name@) ==> (r matches Ok(
                s,
            ) && s@ == secrets_of(*secret_store)[name@]),
            env_value is None && !secrets_of(*secret_store).contains_key(name@) ==> (r matches Err(
                SecretError::NotFound { name: missing },
            ) && missing@ == name@),
    {
        match env_value {
            Some(v) => Ok(v),
            None => match lookup_secret(secret_store, name) {
                Some(v) => Ok(v),
                None => Err(SecretError::NotFound { name: String::from_str(name) }),
            },
        }
    }
}

} // verus!
