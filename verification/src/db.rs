//! What the service asks of its durable medium, and what a faithful medium
//! answers.
//!
//! A [`Query`] is a request to the medium and a [`Reply`] its answer. The
//! medium itself is outside this crate; [`Ledger`] says what it holds and
//! how each query changes it, and [`MemoryDb`] is a medium that lives in
//! memory and follows that description.

use vstd::prelude::*;

verus! {

/// The protected operations whose calls are counted.
#[derive(Clone, Copy, Debug, PartialEq, Eq, Structural)]
pub enum ApiEndpoint {
    ChangeSign,
}

impl ApiEndpoint {
    /// The name under which the medium files calls of this endpoint.
    pub fn name(&self) -> (name: &'static str)
        ensures
            name@ == endpoint_name(*self),
    {
        match self {
            ApiEndpoint::ChangeSign => "change_sign",
        }
    }
}

/// The name of each endpoint.
pub open spec fn endpoint_name(endpoint: ApiEndpoint) -> Seq<char> {
    match endpoint {
        ApiEndpoint::ChangeSign => "change_sign"@,
    }
}

/// One call of a protected operation: who called, what, and when
/// (microseconds since the Unix epoch, UTC).
#[derive(Clone, Debug, PartialEq, Eq)]
pub struct UsageEvent {
    pub api_key: String,
    pub endpoint: ApiEndpoint,
    pub called_at: i64,
}

/// A usage event as the contracts see it.
#[verifier::ext_equal]
pub struct UsageRecord {
    pub api_key: Seq<char>,
    pub endpoint: ApiEndpoint,
    pub called_at: int,
}

impl View for UsageEvent {
    type V = UsageRecord;

    open spec fn view(&self) -> UsageRecord {
        UsageRecord {
            api_key: self.api_key@,
            endpoint: self.endpoint,
            called_at: self.called_at as int,
        }
    }
}

/// A request to the durable medium.
#[derive(Clone, Debug, PartialEq, Eq)]
pub enum Query {
    /// Keep `api_key` as an allowed key, unless it is one already.
    StoreApiKey { api_key: String },
    /// Forget `api_key`, whether or not it was allowed.
    RevokeApiKey { api_key: String },
    /// Say whether `api_key` is allowed.
    CheckApiKey { api_key: String },
    /// Append one usage event to the log.
    RecordApiUsage { api_key: String, endpoint: ApiEndpoint, called_at: i64 },
}

/// The answer of the durable medium to one query.
#[derive(Clone, Copy, Debug, PartialEq, Eq, Structural)]
pub enum Reply {
    /// The key was not held before and is held now.
    Stored,
    /// The key was held already; nothing changed.
    Duplicate,
    /// The key is not held any more.
    Revoked,
    /// Whether the key is held.
    Allowed(bool),
    /// The event stands at the end of the log.
    Recorded,
    /// The medium could not carry out the query; nothing changed.
    Failed,
}

/// What a durable medium holds: the allow-list and the usage log.
#[verifier::ext_equal]
pub struct Ledger {
    pub allowed: Set<Seq<char>>,
    pub log: Seq<UsageRecord>,
}

impl Ledger {
    /// A medium that holds nothing yet.
    pub open spec fn empty() -> Ledger {
        Ledger { allowed: Set::empty(), log: Seq::empty() }
    }

    /// The medium with `key` added to the allow-list.
    pub open spec fn with_key(self, key: Seq<char>) -> Ledger {
        Ledger { allowed: self.allowed.insert(key), log: self.log }
    }

    /// The medium with `key` taken off the allow-list.
    pub open spec fn without_key(self, key: Seq<char>) -> Ledger {
        Ledger { allowed: self.allowed.remove(key), log: self.log }
    }

    /// The medium with `event` appended to the usage log.
    pub open spec fn with_event(self, event: UsageRecord) -> Ledger {
        Ledger { allowed: self.allowed, log: self.log.push(event) }
    }

    /// What the medium holds once it has carried out `query`.
    pub open spec fn after(self, query: Query) -> Ledger {
        match query {
            Query::StoreApiKey { api_key } => self.with_key(api_key@),
            Query::RevokeApiKey { api_key } => self.without_key(api_key@),
            Query::CheckApiKey { api_key } => self,
            Query::RecordApiUsage { api_key, endpoint, called_at } => self.with_event(
                UsageRecord { api_key: api_key@, endpoint, called_at: called_at as int },
            ),
        }
    }

    /// What the medium answers when it carries out `query`.
    pub open spec fn answer(self, query: Query) -> Reply {
        match query {
            Query::StoreApiKey { api_key } => if self.allowed.contains(api_key@) {
                Reply::Duplicate
            } else {
                Reply::Stored
            },
            Query::RevokeApiKey { api_key } => Reply::Revoked,
            Query::CheckApiKey { api_key } => Reply::Allowed(self.allowed.contains(api_key@)),
            Query::RecordApiUsage { api_key, endpoint, called_at } => Reply::Recorded,
        }
    }
}

/// Whether the medium's answer to a record query says that the event stands
/// in the log. A lost event is only ever observed: nothing is tried again.
pub fn recorded(reply: Reply) -> (kept: bool)
    ensures
        kept == (reply == Reply::Recorded),
{
    match reply {
        Reply::Recorded => true,
        _ => false,
    }
}

/// A medium that lives in memory. It answers as [`Ledger`] says while it is
/// online, and with [`Reply::Failed`] while it is not. No key is held twice.
#[derive(Debug)]
pub struct MemoryDb {
    keys: Vec<String>,
    events: Vec<UsageEvent>,
    online: bool,
}

impl View for MemoryDb {
    type V = Ledger;

    closed spec fn view(&self) -> Ledger {
        Ledger { allowed: allowed_of(self.keys@), log: log_of(self.events@) }
    }
}

/// Whether one of `keys` reads `key`.
spec fn holds_key(keys: Seq<String>, key: Seq<char>) -> bool {
    exists|i: int| 0 <= i < keys.len() && #[trigger] keys[i]@ == key
}

/// The allow-list that `keys` stand for.
spec fn allowed_of(keys: Seq<String>) -> Set<Seq<char>> {
    Set::new(|k: Seq<char>| holds_key(keys, k))
}

/// The usage log that `events` stand for.
spec fn log_of(events: Seq<UsageEvent>) -> Seq<UsageRecord> {
    Seq::new(events.len(), |i: int| events[i]@)
}

/// Whether no two of `keys` read the same.
spec fn distinct(keys: Seq<String>) -> bool {
    forall|i: int, j: int| 0 <= i < j < keys.len() ==> #[trigger] keys[i]@ != #[trigger] keys[j]@
}

/// `keys` with one that reads `key` put behind them, where none did before.
fn keys_with(keys: Vec<String>, key: &String) -> (more: Vec<String>)
    requires
        distinct(keys@),
        !holds_key(keys@, key@),
    ensures
        distinct(more@),
        allowed_of(more@) == allowed_of(keys@).insert(key@),
{
    let mut more = keys;
    more.push(key.clone());
    assert forall|k: Seq<char>|
        allowed_of(more@).contains(k) <==> allowed_of(keys@).insert(key@).contains(k) by {
        if holds_key(keys@, k) {
            let i = choose|i: int| 0 <= i < keys@.len() && keys@[i]@ == k;
            assert(more@[i]@ == k);
        }
        if k == key@ {
            assert(more@[keys@.len() as int]@ == k);
        }
    }
    assert(allowed_of(more@) =~= allowed_of(keys@).insert(key@));
    more
}

/// `keys` without the one at `at`.
fn keys_without(keys: Vec<String>, at: usize) -> (fewer: Vec<String>)
    requires
        distinct(keys@),
        at < keys@.len(),
    ensures
        distinct(fewer@),
        allowed_of(fewer@) == allowed_of(keys@).remove(keys@[at as int]@),
{
    let mut fewer = keys;
    fewer.remove(at);
    assert(distinct(fewer@)) by {
        assert forall|i: int, j: int| 0 <= i < j < fewer@.len() implies #[trigger] fewer@[i]@
            != #[trigger] fewer@[j]@ by {
            let before_i = if i < at { i } else { i + 1 };
            let before_j = if j < at { j } else { j + 1 };
            assert(fewer@[i] == keys@[before_i]);
            assert(fewer@[j] == keys@[before_j]);
        }
    }
    assert forall|k: Seq<char>|
        allowed_of(fewer@).contains(k) <==> allowed_of(keys@).remove(keys@[at as int]@).contains(
            k,
        ) by {
        if holds_key(fewer@, k) {
            let j = choose|j: int| 0 <= j < fewer@.len() && fewer@[j]@ == k;
            let before = if j < at { j } else { j + 1 };
            assert(keys@[before]@ == k);
        }
        if holds_key(keys@, k) && k != keys@[at as int]@ {
            let j = choose|j: int| 0 <= j < keys@.len() && keys@[j]@ == k;
            let after = if j < at { j } else { j - 1 };
            assert(fewer@[after]@ == k);
        }
    }
    assert(allowed_of(fewer@) =~= allowed_of(keys@).remove(keys@[at as int]@));
    fewer
}

impl MemoryDb {
    #[verifier::type_invariant]
    spec fn keys_are_distinct(self) -> bool {
        distinct(self.keys@)
    }

    /// Whether the medium carries out queries.
    pub closed spec fn online(&self) -> bool {
        self.online
    }

    /// A medium that holds nothing and is online.
    pub fn new() -> (db: MemoryDb)
        ensures
            db@ == Ledger::empty(),
            db.online(),
    {
        let db = MemoryDb { keys: Vec::new(), events: Vec::new(), online: true };
        assert(db@.allowed =~= Set::<Seq<char>>::empty());
        assert(db@.log =~= Seq::<UsageRecord>::empty());
        db
    }

    /// Takes the medium offline or brings it back. What it holds stays.
    pub fn set_online(&mut self, online: bool)
        ensures
            final(self)@ == old(self)@,
            final(self).online() == online,
    {
        proof {
            use_type_invariant(&*self);
        }
        self.online = online;
    }

    /// The usage events recorded so far, the oldest first.
    pub fn usage_log(&self) -> (log: &Vec<UsageEvent>)
        ensures
            log@.len() == self@.log.len(),
            forall|i: int| 0 <= i < log@.len() ==> (#[trigger] log@[i])@ == self@.log[i],
    {
        &self.events
    }

    /// Where `key` stands among the keys held, if it does.
    fn position(&self, key: &String) -> (found: Option<usize>)
        ensures
            match found {
                Some(i) => i < self.keys@.len() && self.keys@[i as int]@ == key@,
                None => !holds_key(self.keys@, key@),
            },
    {
        let mut i: usize = 0;
        while i < self.keys.len()
            invariant
                i <= self.keys@.len(),
                forall|j: int| 0 <= j < i ==> #[trigger] self.keys@[j]@ != key@,
            decreases self.keys@.len() - i,
        {
            if self.keys[i] == *key {
                return Some(i);
            }
            i = i + 1;
        }
        None
    }

    /// Hands out the keys held; none is held until they are put back.
    fn take_keys(&mut self) -> (keys: Vec<String>)
        ensures
            keys == old(self).keys,
            final(self).keys@.len() == 0,
            final(self).events == old(self).events,
            final(self).online == old(self).online,
    {
        let mut keys: Vec<String> = Vec::new();
        core::mem::swap(&mut self.keys, &mut keys);
        keys
    }

    /// Holds `keys` in place of the keys held.
    fn put_keys(&mut self, keys: Vec<String>)
        requires
            distinct(keys@),
        ensures
            final(self).keys == keys,
            final(self).events == old(self).events,
            final(self).online == old(self).online,
    {
        let mut keys = keys;
        core::mem::swap(&mut self.keys, &mut keys);
    }

    /// Appends `event` to the usage log.
    fn append(&mut self, event: UsageEvent)
        ensures
            final(self).keys == old(self).keys,
            final(self).events@ == old(self).events@.push(event),
            final(self).online == old(self).online,
    {
        proof {
            use_type_invariant(&*self);
        }
        let mut events: Vec<UsageEvent> = Vec::new();
        core::mem::swap(&mut self.events, &mut events);
        events.push(event);
        core::mem::swap(&mut self.events, &mut events);
    }

    /// Carries out `query`.
    pub fn execute(&mut self, query: &Query) -> (reply: Reply)
        ensures
            final(self).online() == old(self).online(),
            old(self).online() ==> final(self)@ == old(self)@.after(*query) && reply == old(
                self,
            )@.answer(*query),
            !old(self).online() ==> final(self)@ == old(self)@ && reply == Reply::Failed,
    {
        proof {
            use_type_invariant(&*self);
        }
        if !self.online {
            return Reply::Failed;
        }
        match query {
            Query::StoreApiKey { api_key } => {
                match self.position(api_key) {
                    Some(_) => {
                        assert(self@.allowed =~= old(self)@.allowed.insert(api_key@));
                        Reply::Duplicate
                    },
                    None => {
                        let keys = self.take_keys();
                        self.put_keys(keys_with(keys, api_key));
                        Reply::Stored
                    },
                }
            },
            Query::RevokeApiKey { api_key } => {
                match self.position(api_key) {
                    Some(at) => {
                        let keys = self.take_keys();
                        self.put_keys(keys_without(keys, at));
                    },
                    None => {
                        assert(self@.allowed =~= old(self)@.allowed.remove(api_key@));
                    },
                }
                Reply::Revoked
            },
            Query::CheckApiKey { api_key } => {
                let found = self.position(api_key);
                Reply::Allowed(found.is_some())
            },
            Query::RecordApiUsage { api_key, endpoint, called_at } => {
                self.append(
                    UsageEvent {
                        api_key: api_key.clone(),
                        endpoint: *endpoint,
                        called_at: *called_at,
                    },
                );
                assert(self@.log =~= old(self)@.after(*query).log);
                Reply::Recorded
            },
        }
    }
}

/// Appends `event` to the usage log of `db`, and says whether it got there.
/// An event that the medium did not take is lost.
pub fn record_api_usage(db: &mut MemoryDb, event: &UsageEvent) -> (kept: bool)
    ensures
        final(db).online() == old(db).online(),
        kept == old(db).online(),
        final(db)@ == (if kept {
            old(db)@.with_event(event@)
        } else {
            old(db)@
        }),
{
    let query = Query::RecordApiUsage {
        api_key: event.api_key.clone(),
        endpoint: event.endpoint,
        called_at: event.called_at,
    };
    let reply = db.execute(&query);
    recorded(reply)
}

} // verus!
