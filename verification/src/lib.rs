//! Credential lifecycle and usage accounting for a small API service.
//!
//! The crate holds the rules of the service: how keys are made, how a
//! credential is judged, how calls are counted and which usage record a call
//! leaves behind. The durable medium and the transport live outside; they
//! exchange plain values with the functions found here.

use vstd::prelude::*;

pub mod auth;
pub mod db;
pub mod laws;
pub mod stats;

pub use stats::{CounterOp, Counters, UsageStats};

use auth::{IssueError, StorageError};
use db::{ApiEndpoint, Query, Reply};

verus! {

/// What the access validator says of a credential.
#[derive(Clone, Copy, Debug, PartialEq, Eq, Structural)]
pub enum Decision {
    /// The key is on the allow-list.
    Allow,
    /// The key is unknown or revoked.
    Deny,
    /// The allow-list could not be read.
    Error,
}

/// The decision that a look-up of the key leads to.
pub open spec fn decision_of(lookup: Result<bool, StorageError>) -> Decision {
    match lookup {
        Ok(true) => Decision::Allow,
        Ok(false) => Decision::Deny,
        Err(_) => Decision::Error,
    }
}

/// Judges a credential by the look-up of its key. A failed look-up is an
/// error of its own: it neither allows nor denies.
pub fn validator(lookup: Result<bool, StorageError>) -> (decision: Decision)
    ensures
        decision == decision_of(lookup),
{
    match lookup {
        Ok(true) => Decision::Allow,
        Ok(false) => Decision::Deny,
        Err(_) => Decision::Error,
    }
}

/// What the medium's answer to a revoke query means for the caller.
pub open spec fn revoked_of(reply: Reply) -> Result<(), StorageError> {
    match reply {
        Reply::Revoked => Ok(()),
        _ => Err(StorageError),
    }
}

/// Ends the revocation of a key, given the medium's answer to the revoke
/// query. The answer does not tell a key that was held from one that was
/// not, and neither does the outcome.
pub fn delete_api_key(reply: Reply) -> (outcome: Result<(), StorageError>)
    ensures
        outcome == revoked_of(reply),
{
    match reply {
        Reply::Revoked => Ok(()),
        _ => Err(StorageError),
    }
}

/// What ends a line of the issue-key response.
pub open spec fn line_end() -> Seq<char> {
    seq!['\r', '\n']
}

/// Ends the issuing of `key`, given the medium's answer to the store query:
/// the response is the key followed by a line end if the medium took the key
/// as a new one, and no key is handed out otherwise.
pub fn request_api_key(key: String, reply: Reply) -> (body: Result<String, IssueError>)
    ensures
        match auth::stored_of(reply) {
            Ok(_) => body is Ok && body->Ok_0@ == key@ + line_end(),
            Err(e) => body == Err::<String, IssueError>(e),
        },
{
    match auth::stored(reply) {
        Ok(_) => {
            let mut body = key;
            body.append("\r\n");
            proof {
                reveal_strlit("\r\n");
                assert("\r\n"@ =~= line_end());
            }
            Ok(body)
        },
        Err(e) => Err(e),
    }
}

/// Whether `query` asks to record the call of `endpoint` that `api_key` made
/// at `called_at`.
pub open spec fn records_call(
    query: Query,
    api_key: Seq<char>,
    endpoint: ApiEndpoint,
    called_at: int,
) -> bool {
    &&& query matches Query::RecordApiUsage { api_key: k, endpoint: e, called_at: t }
    &&& k@ == api_key
    &&& e == endpoint
    &&& t == called_at
}

/// Counts one call of `endpoint` under the validator's `decision`: an
/// allowed call is counted, any other one is not.
pub fn count_call(decision: Decision, stats: &mut UsageStats, endpoint: ApiEndpoint)
    ensures
        final(stats).counters == (if decision == Decision::Allow {
            old(stats).counters.incremented(endpoint)
        } else {
            old(stats).counters
        }),
{
    match decision {
        Decision::Allow => stats.increment(endpoint),
        _ => {},
    }
}

/// The usage record that one call of `endpoint` leaves behind under the
/// validator's `decision`: the query that records who called and when for an
/// allowed call, and nothing for any other one.
pub fn usage_record(
    decision: Decision,
    api_key: &str,
    endpoint: ApiEndpoint,
    called_at: i64,
) -> (record: Option<Query>)
    ensures
        decision == Decision::Allow ==> record is Some && records_call(
            record->Some_0,
            api_key@,
            endpoint,
            called_at as int,
        ),
        decision != Decision::Allow ==> record is None,
{
    match decision {
        Decision::Allow => Some(
            Query::RecordApiUsage { api_key: String::from_str(api_key), endpoint, called_at },
        ),
        _ => None,
    }
}

/// Accounts for one call of the sign-change operation that `api_key` made at
/// `called_at` (microseconds since the Unix epoch, UTC), under the
/// validator's `decision`. Only an allowed call is counted and leaves a usage
/// record to store; any other one leaves no trace.
pub fn change_sign(
    decision: Decision,
    stats: &mut UsageStats,
    api_key: &str,
    called_at: i64,
) -> (record: Option<Query>)
    ensures
        decision == Decision::Allow ==> {
            &&& final(stats).counters == old(stats).counters.incremented(ApiEndpoint::ChangeSign)
            &&& record is Some
            &&& records_call(record->Some_0, api_key@, ApiEndpoint::ChangeSign, called_at as int)
        },
        decision != Decision::Allow ==> {
            &&& final(stats).counters == old(stats).counters
            &&& record is None
        },
{
    count_call(decision, stats, ApiEndpoint::ChangeSign);
    usage_record(decision, api_key, ApiEndpoint::ChangeSign, called_at)
}

/// The body of the usage-statistics response.
#[derive(Clone, Copy, Debug, PartialEq, Eq, Structural)]
pub struct UsageStatsResponse {
    pub change_sign: u32,
}

/// Reads the usage statistics: the response carries the counts gathered so
/// far, and reading them starts the counting again from zero.
pub fn usage_statistics(stats: &mut UsageStats) -> (response: UsageStatsResponse)
    ensures
        response.change_sign == old(stats).counters.count(ApiEndpoint::ChangeSign),
        final(stats).counters == Counters::zero(),
{
    let snapshot = stats.snapshot_and_reset();
    UsageStatsResponse { change_sign: snapshot.get(ApiEndpoint::ChangeSign) }
}

/// Starts the counting again from zero; nothing is handed out.
pub fn reset_usage_statistics(stats: &mut UsageStats)
    ensures
        final(stats).counters == Counters::zero(),
{
    stats.reset();
}

} // verus!
