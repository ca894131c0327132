//! What holds of the credential lifecycle, whatever the medium held before.
//!
//! Each law speaks of a medium that answers as [`Ledger`] says, and of the
//! functions that read its answers.

use crate::auth::{access_of, stored_of};
use crate::db::{Ledger, Query};
use crate::{decision_of, revoked_of, Decision};
use vstd::prelude::*;

verus! {

/// The validator allows exactly the keys on the allow-list: a key that was
/// never issued and a key that was revoked are both denied, and nothing
/// else is.
pub proof fn lemma_validator_follows_allow_list(ledger: Ledger, key: String)
    ensures
        decision_of(access_of(ledger.answer(Query::CheckApiKey { api_key: key }))) == (
        if ledger.allowed.contains(key@) {
            Decision::Allow
        } else {
            Decision::Deny
        }),
{
}

/// A key is allowed as soon as it is stored and denied as soon as it is
/// revoked: the check that follows the revocation never allows.
pub proof fn lemma_revocation_is_immediate(ledger: Ledger, key: String)
    ensures
        ({
            let issued = ledger.after(Query::StoreApiKey { api_key: key });
            let revoked = issued.after(Query::RevokeApiKey { api_key: key });
            &&& decision_of(access_of(issued.answer(Query::CheckApiKey { api_key: key })))
                == Decision::Allow
            &&& decision_of(access_of(revoked.answer(Query::CheckApiKey { api_key: key })))
                == Decision::Deny
        }),
{
}

/// Revoking succeeds on every key, held or not, and revoking twice is
/// revoking once. Revoking a key that is not held changes nothing.
pub proof fn lemma_revoke_is_idempotent(ledger: Ledger, key: String)
    ensures
        ({
            let query = Query::RevokeApiKey { api_key: key };
            let once = ledger.after(query);
            &&& revoked_of(ledger.answer(query)) is Ok
            &&& revoked_of(once.answer(query)) is Ok
            &&& once.after(query) == once
            &&& !ledger.allowed.contains(key@) ==> once == ledger
        }),
{
    let query = Query::RevokeApiKey { api_key: key };
    let once = ledger.after(query);
    assert(once.after(query) =~= once);
    if !ledger.allowed.contains(key@) {
        assert(once =~= ledger);
    }
}

/// Two keys issued one after the other by the same medium are different
/// keys: the second store query succeeds only on a key that the first did
/// not leave behind.
pub proof fn lemma_issued_keys_differ(ledger: Ledger, first: String, second: String)
    requires
        stored_of(ledger.answer(Query::StoreApiKey { api_key: first })) is Ok,
        stored_of(
            ledger.after(Query::StoreApiKey { api_key: first }).answer(
                Query::StoreApiKey { api_key: second },
            ),
        ) is Ok,
    ensures
        first@ != second@,
{
}

/// A store query that does not succeed issues nothing: a key that was not
/// allowed before a refused query is not allowed after it.
pub proof fn lemma_refused_key_is_not_issued(ledger: Ledger, key: String)
    requires
        stored_of(ledger.answer(Query::StoreApiKey { api_key: key })) is Err,
    ensures
        ledger.after(Query::StoreApiKey { api_key: key }) == ledger,
{
    assert(ledger.after(Query::StoreApiKey { api_key: key }) =~= ledger);
}

} // verus!
