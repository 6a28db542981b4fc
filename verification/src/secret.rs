//! The keys under which credentials are kept in the secret store.
use vstd::prelude::*;
use crate::models::SavedConfig;
use crate::text::push_str;

verus! {

/// The account a password is stored under: `<base url>|<username>|<service>`.
pub fn account_key(config: &SavedConfig) -> (r: String)
    ensures
        r@ == config.base_url@ + "|"@ + config.username@ + "|"@ + config.service@,
{
    let mut out = String::new();
    push_str(&mut out, config.base_url.as_str());
    push_str(&mut out, "|");
    push_str(&mut out, config.username.as_str());
    push_str(&mut out, "|");
    push_str(&mut out, config.service.as_str());
    proof {
        reveal_strlit("|");
    }
    assert(out@ =~= config.base_url@ + "|"@ + config.username@ + "|"@ + config.service@);
    out
}

} // verus!
