//! Credentials.

use vstd::prelude::*;

use crate::secret::Secret;

verus! {

/// A secret gives back the text that it was made of, and so does a copy of it.
pub proof fn law_secrets_give_back_their_text(
    text: String,
    secret: Secret,
    copy: Secret,
    exposed: &str,
    copied: &str,
)
    requires
        call_ensures(Secret::new, (text,), secret),
        call_ensures(Secret::clone, (&secret,), copy),
        call_ensures(Secret::expose, (&secret,), exposed),
        call_ensures(Secret::expose, (&copy,), copied),
    ensures
        exposed@ == text@,
        copied@ == text@,
{
}

} // verus!
