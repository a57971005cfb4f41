//! The distributed backend: routing a key to the storage node that owns it.

use super::context::{RawContext, Region, RegionContext, StoreMeta};
use super::pd_client::{LeaderClient, PDClient};
use super::tikv_client::{normal_address, KVClient, RawGetRequest, RawPutRequest};
use crate::redis_server::DBError;
use crate::texts::{ascii, text_bytes};
use vstd::prelude::*;

verus! {

pub type Key = Vec<u8>;

pub type Value = Vec<u8>;

/// Why the distributed backend did not do what was asked.
#[derive(Debug)]
pub enum Error {
    /// A storage node refused or failed the call.
    TiKVError(String),
    /// The placement directory answered with an error.
    PdError(String),
    /// The operation was refused before anything was sent.
    OperationError(String),
    Other,
    /// A seed endpoint was named twice.
    DuplicateMember,
    /// Two endpoints belong to different clusters.
    ClusterMismatch,
    /// No member of the placement directory could be reached.
    DirectoryUnavailable,
}

/// Whether the entry `i` of `entries` is the one for `address`.
pub open spec fn entry_at(entries: Seq<(String, KVClient)>, address: Seq<char>, i: int) -> bool {
    0 <= i < entries.len() && entries[i].0@ == address
}

/// Whether no address stands twice in `entries`.
pub open spec fn distinct_addresses(entries: Seq<(String, KVClient)>) -> bool {
    forall|i: int, j: int| 0 <= i < j < entries.len() ==> entries[i].0@ != entries[j].0@
}

/// The map that `entries` stand for: each address with the client beside
/// it.
pub open spec fn pool_map(entries: Seq<(String, KVClient)>) -> Map<Seq<char>, KVClient> {
    Map::new(
        |address: Seq<char>| exists|i: int| entry_at(entries, address, i),
        |address: Seq<char>| entries[choose|i: int| entry_at(entries, address, i)].1,
    )
}

/// The clients of the storage nodes by the address of the store, one for
/// each address at most.
#[derive(Debug)]
pub struct ClientPool {
    entries: Vec<(String, KVClient)>,
}

impl View for ClientPool {
    type V = Map<Seq<char>, KVClient>;

    closed spec fn view(&self) -> Map<Seq<char>, KVClient> {
        pool_map(self.entries@)
    }
}

impl ClientPool {
    #[verifier::type_invariant]
    spec fn wf(self) -> bool {
        distinct_addresses(self.entries@)
    }

    /// A pool without clients.
    pub fn new() -> (pool: Self)
        ensures
            pool@ == Map::<Seq<char>, KVClient>::empty(),
    {
        let pool = ClientPool { entries: Vec::new() };
        pool
    }

    /// How many clients the pool holds.
    pub fn len(&self) -> (n: usize)
        ensures
            n == self@.dom().len(),
            self@.dom().finite(),
    {
        proof {
            use_type_invariant(self);
            lemma_pool_size(self.entries@);
        }
        self.entries.len()
    }

    fn find(&self, address: &String) -> (at: Option<usize>)
        ensures
            match at {
                Some(i) => entry_at(self.entries@, address@, i as int),
                None => forall|i: int| !entry_at(self.entries@, address@, i),
            },
    {
        let mut i: usize = 0;
        while i < self.entries.len()
            invariant
                i <= self.entries@.len(),
                forall|j: int| 0 <= j < i ==> !entry_at(self.entries@, address@, j),
            decreases self.entries.len() - i,
        {
            if self.entries[i].0 == *address {
                return Some(i);
            }
            i += 1;
        }
        None
    }

    /// The client for the store at `address`, where the pool holds one.
    pub fn get(&self, address: &String) -> (found: Option<KVClient>)
        ensures
            found == if self@.contains_key(address@) {
                Some(self@[address@])
            } else {
                None
            },
    {
        proof {
            use_type_invariant(self);
        }
        match self.find(address) {
            Some(i) => {
                Some(self.entries[i].1.clone())
            },
            None => None,
        }
    }

    /// The client for the store at `address`: the one that the pool holds,
    /// or a new one, which the pool then holds. The flag says whether the
    /// client is new.
    pub fn get_or_create(&mut self, address: &String) -> (res: (KVClient, bool))
        ensures
            res.1 == !old(self)@.contains_key(address@),
            final(self)@.contains_key(address@),
            final(self)@[address@] == res.0,
            res.1 ==> res.0.address@ == normal_address(address@),
            res.1 ==> final(self)@ == old(self)@.insert(address@, res.0),
            !res.1 ==> final(self)@ == old(self)@,
    {
        proof {
            use_type_invariant(&*self);
        }
        match self.get(address) {
            Some(client) => (client, false),
            None => {
                let client = KVClient::for_address(address.as_str());
                let copy = client.clone();
                let mut entries: Vec<(String, KVClient)> = Vec::new();
                std::mem::swap(&mut entries, &mut self.entries);
                let ghost before = entries@;
                entries.push((address.clone(), client));
                proof {
                    let after = entries@;
                    assert forall|i: int| !entry_at(before, address@, i) by {
                        if entry_at(before, address@, i) {
                            assert(pool_map(before).contains_key(address@));
                        }
                    }
                    assert forall|i: int, j: int| 0 <= i < j < after.len() implies after[i].0@
                        != after[j].0@ by {
                        if j == after.len() - 1 {
                            assert(!entry_at(before, address@, i));
                        }
                    }
                    lemma_pool_push(before, *address, copy);
                }
                self.entries = entries;
                (copy, true)
            },
        }
    }
}

/// A pool with one more address is the pool with that address inserted.
pub proof fn lemma_pool_push(entries: Seq<(String, KVClient)>, address: String, client: KVClient)
    requires
        distinct_addresses(entries),
        forall|i: int| !entry_at(entries, address@, i),
    ensures
        pool_map(entries.push((address, client))) == pool_map(entries).insert(address@, client),
{
    let after = entries.push((address, client));
    let last = entries.len() as int;
    assert forall|a: Seq<char>| #[trigger]
        pool_map(after).contains_key(a) == pool_map(entries).insert(
            address@,
            client,
        ).contains_key(a) by {
        if pool_map(after).contains_key(a) {
            let i = choose|i: int| entry_at(after, a, i);
            if i < last {
                assert(entry_at(entries, a, i));
            }
        }
        if a == address@ {
            assert(entry_at(after, a, last));
        } else if pool_map(entries).contains_key(a) {
            let i = choose|i: int| entry_at(entries, a, i);
            assert(entry_at(after, a, i));
        }
    }
    assert forall|a: Seq<char>| pool_map(after).contains_key(a) implies #[trigger] pool_map(
        after,
    )[a] == pool_map(entries).insert(address@, client)[a] by {
        let i = choose|i: int| entry_at(after, a, i);
        if i < last {
            assert(entry_at(entries, a, i));
        }
    }
}

/// A pool holds as many clients as it has entries.
pub proof fn lemma_pool_size(entries: Seq<(String, KVClient)>)
    requires
        distinct_addresses(entries),
    ensures
        pool_map(entries).dom().finite(),
        pool_map(entries).dom().len() == entries.len(),
    decreases entries.len(),
{
    if entries.len() == 0 {
        assert(pool_map(entries).dom() =~= Set::<Seq<char>>::empty());
    } else {
        let front = entries.drop_last();
        let last = entries.last();
        lemma_pool_size(front);
        assert(front.push((last.0, last.1)) =~= entries);
        lemma_pool_push(front, last.0, last.1);
    }
}

/// How often a key is routed before the operation is given up.
pub const ROUTE_RETRY_LIMIT: u32 = 3;

/// How far the routing of one operation has come.
#[derive(Debug)]
pub enum RouteStage {
    /// The directory is asked for the region of the key.
    Locating,
    /// The directory is asked for the store of the region's leader.
    Loading(Region),
    /// The storage node is called.
    Calling(RegionContext),
    /// The operation has ended.
    Finished,
}

/// One operation on one key on its way to the storage node that owns the
/// key.
#[derive(Debug)]
pub struct Route {
    pub key: Key,
    /// The value to store; none for a read.
    pub value: Option<Value>,
    /// The column family, if one was chosen.
    pub cf: Option<String>,
    /// How often the key was routed, this time included.
    pub attempts: u32,
    pub stage: RouteStage,
}

/// What came back from the directory or from the storage node.
#[derive(Debug)]
pub enum RouteEvent {
    /// The region that the directory names for the key.
    Region(Region),
    /// The store that the directory names for the leader.
    Store(StoreMeta),
    /// The bytes that the storage node answered with; none for a write.
    Reply(Value),
    /// The directory or the storage node did not answer, or the storage
    /// node answered that the region has changed or that it does not lead
    /// it.
    Failed,
}

/// What is to be done next for an operation.
#[derive(Debug)]
pub enum RouteAction {
    /// Ask the directory for the region of the key.
    Locate,
    /// Ask the directory for the store with this number.
    LoadStore(u64),
    /// Send the request of the route through this client. The flag says
    /// that the client is new and has no connection yet.
    Call(KVClient, bool),
    /// The operation has ended: with the value that was read, with none for
    /// a write and for a key that is not stored, or with an error.
    Done(Result<Option<Value>, Error>),
}

/// What a reply means: nothing for a write, and for a read the bytes that
/// came, or that the key is not stored where none came.
pub open spec fn reply_value(write: bool, bytes: Value) -> Option<Value> {
    if write || bytes@.len() == 0 {
        None
    } else {
        Some(bytes)
    }
}

/// Whether `event` is the answer that `stage` waits for.
pub open spec fn awaited(stage: RouteStage, event: RouteEvent) -> bool {
    match (stage, event) {
        (RouteStage::Locating, RouteEvent::Region(region)) => region.leader is Some,
        (RouteStage::Loading(_), RouteEvent::Store(_)) => true,
        (RouteStage::Calling(_), RouteEvent::Reply(_)) => true,
        _ => false,
    }
}

/// Whether `after`, `pool_after` and `action` are what `event` makes of
/// the route `before` and the pool `pool_before`.
///
/// An answer that is awaited moves the route on: from the region to its
/// leader's store, from the store to the call through the one client of
/// its address, from the reply to the end. Anything else sends a route
/// that has not ended back to the directory, `ROUTE_RETRY_LIMIT` times in
/// all, and ends it with an error after that.
pub open spec fn routed(
    before: Route,
    pool_before: Map<Seq<char>, KVClient>,
    event: RouteEvent,
    after: Route,
    pool_after: Map<Seq<char>, KVClient>,
    action: RouteAction,
) -> bool {
    &&& after.key == before.key
    &&& after.value == before.value
    &&& after.cf == before.cf
    &&& match (before.stage, event) {
        (RouteStage::Finished, _) => {
            &&& after.stage == RouteStage::Finished
            &&& after.attempts == before.attempts
            &&& pool_after == pool_before
            &&& action == RouteAction::Done(Err(Error::Other))
        },
        (RouteStage::Locating, RouteEvent::Region(region)) if region.leader is Some => {
            &&& after.stage == RouteStage::Loading(region)
            &&& after.attempts == before.attempts
            &&& pool_after == pool_before
            &&& action == RouteAction::LoadStore(region.leader->0.store_id())
        },
        (RouteStage::Loading(region), RouteEvent::Store(store)) => {
            &&& after.stage == RouteStage::Calling(RegionContext { region, store })
            &&& after.attempts == before.attempts
            &&& action matches RouteAction::Call(client, created)
            &&& created == !pool_before.contains_key(store.address@)
            &&& created ==> client.address@ == normal_address(store.address@) && pool_after
                == pool_before.insert(store.address@, client)
            &&& !created ==> client == pool_before[store.address@] && pool_after == pool_before
        },
        (RouteStage::Calling(_), RouteEvent::Reply(bytes)) => {
            &&& after.stage == RouteStage::Finished
            &&& after.attempts == before.attempts
            &&& pool_after == pool_before
            &&& action == RouteAction::Done(Ok(reply_value(before.value is Some, bytes)))
        },
        _ => {
            &&& pool_after == pool_before
            &&& if before.attempts < ROUTE_RETRY_LIMIT {
                &&& after.stage == RouteStage::Locating
                &&& after.attempts == before.attempts + 1
                &&& action == RouteAction::Locate
            } else {
                &&& after.stage == RouteStage::Finished
                &&& after.attempts == before.attempts
                &&& action == RouteAction::Done(Err(Error::Other))
            }
        },
    }
}

impl Route {
    /// Sends the route back to the directory, or ends it where it has been
    /// there often enough.
    fn retry(&mut self) -> (action: RouteAction)
        ensures
            final(self).key == old(self).key,
            final(self).value == old(self).value,
            final(self).cf == old(self).cf,
            if old(self).attempts < ROUTE_RETRY_LIMIT {
                &&& final(self).stage == RouteStage::Locating
                &&& final(self).attempts == old(self).attempts + 1
                &&& action == RouteAction::Locate
            } else {
                &&& final(self).stage == RouteStage::Finished
                &&& final(self).attempts == old(self).attempts
                &&& action == RouteAction::Done(Err(Error::Other))
            },
    {
        if self.attempts < ROUTE_RETRY_LIMIT {
            self.attempts = self.attempts + 1;
            self.stage = RouteStage::Locating;
            RouteAction::Locate
        } else {
            self.stage = RouteStage::Finished;
            RouteAction::Done(Err(Error::Other))
        }
    }

    /// What addresses the call of a route that has come to a store: the
    /// region with its store, the client and the column family.
    pub fn raw_context(&self, client: KVClient) -> (res: Option<RawContext>)
        ensures
            match self.stage {
                RouteStage::Calling(to) => res matches Some(context) && {
                    &&& context.region.region.spec_context() == to.region.spec_context()
                    &&& context.region.store == to.store
                    &&& context.client == client
                    &&& context.cf == self.cf
                },
                _ => res is None,
            },
    {
        match &self.stage {
            RouteStage::Calling(to) => {
                let region = RegionContext { region: to.region.clone(), store: to.store.clone() };
                let cf = match &self.cf {
                    Some(cf) => Some(cf.clone()),
                    None => None,
                };
                Some(RawContext::new(region, client, cf))
            },
            _ => None,
        }
    }

    /// The request that a write sends once its route has come to a store;
    /// an error for a read and for a route that is elsewhere.
    pub fn put_request(&self, client: KVClient) -> (res: Result<RawPutRequest, Error>)
        ensures
            match (self.stage, self.value) {
                (RouteStage::Calling(to), Some(value)) => match to.region.spec_context() {
                    Some(context) => res matches Ok(request) && {
                        &&& request.context == context
                        &&& request.cf@ == super::tikv_client::cf_of(self.cf)
                        &&& request.key@ == self.key@
                        &&& request.value@ == value@
                    },
                    None => res is Err,
                },
                _ => res is Err,
            },
    {
        let value = match &self.value {
            Some(value) => value.clone(),
            None => {
                return Err(Error::Other);
            },
        };
        match self.raw_context(client) {
            Some(context) => KVClient::new_raw_put_req(context, self.key.clone(), value),
            None => Err(Error::Other),
        }
    }

    /// The request that a read sends once its route has come to a store;
    /// an error for a route that is elsewhere.
    pub fn get_request(&self, client: KVClient) -> (res: Result<RawGetRequest, Error>)
        ensures
            match self.stage {
                RouteStage::Calling(to) => match to.region.spec_context() {
                    Some(context) => res matches Ok(request) && {
                        &&& request.context == context
                        &&& request.cf@ == super::tikv_client::cf_of(self.cf)
                        &&& request.key@ == self.key@
                    },
                    None => res is Err,
                },
                _ => res is Err,
            },
    {
        match self.raw_context(client) {
            Some(context) => KVClient::new_raw_get_req(context, self.key.clone()),
            None => Err(Error::Other),
        }
    }
}

/// The distributed backend: the client of the directory and the clients of
/// the storage nodes.
#[derive(Debug)]
pub struct TikvDB {
    pub pd: PDClient,
    pub kvserver: ClientPool,
}

impl TikvDB {
    /// A backend that finds its storage nodes through `leader` and has no
    /// client of a storage node yet.
    pub fn connect(leader: LeaderClient) -> (res: Result<TikvDB, Error>)
        ensures
            res matches Ok(db) && db.pd.spec_leader() == leader && db.pd.cluster_id()
                == leader.cluster_id && db.kvserver@ == Map::<Seq<char>, KVClient>::empty(),
    {
        Ok(TikvDB { pd: PDClient::new(leader), kvserver: ClientPool::new() })
    }

    /// The client for the store of `context`: the one that the pool holds
    /// for its address, or a new one, which the pool then holds. The flag
    /// says whether the client is new.
    pub fn kv_client(&mut self, context: RegionContext) -> (res: Result<
        (RegionContext, KVClient, bool),
        Error,
    >)
        ensures
            final(self).pd == old(self).pd,
            res matches Ok((same, client, created)) && {
                &&& same == context
                &&& created == !old(self).kvserver@.contains_key(context.store.address@)
                &&& final(self).kvserver@.contains_key(context.store.address@)
                &&& final(self).kvserver@[context.store.address@] == client
                &&& created ==> client.address@ == normal_address(context.store.address@)
                    && final(self).kvserver@ == old(self).kvserver@.insert(
                    context.store.address@,
                    client,
                )
                &&& !created ==> final(self).kvserver@ == old(self).kvserver@
            },
    {
        let (client, created) = self.kvserver.get_or_create(context.address());
        Ok((context, client, created))
    }

    /// Begins a write of `value` under `key`. An empty value is refused
    /// before anything is asked or sent.
    pub fn tikv_raw_put(&self, key: Key, value: Value, cf: Option<String>) -> (res: (
        Route,
        RouteAction,
    ))
        ensures
            res.0.key == key,
            res.0.value == Some(value),
            res.0.cf == cf,
            res.0.attempts == 1,
            if value@.len() == 0 {
                &&& res.0.stage == RouteStage::Finished
                &&& res.1 matches RouteAction::Done(Err(e))
                &&& e is OperationError
            } else {
                &&& res.0.stage == RouteStage::Locating
                &&& res.1 == RouteAction::Locate
            },
    {
        if value.len() == 0 {
            (
                Route { key, value: Some(value), cf, attempts: 1, stage: RouteStage::Finished },
                RouteAction::Done(Err(Error::OperationError(String::new()))),
            )
        } else {
            (
                Route { key, value: Some(value), cf, attempts: 1, stage: RouteStage::Locating },
                RouteAction::Locate,
            )
        }
    }

    /// Begins a read of the value under `key`.
    pub fn tikv_raw_get(&self, key: Key, cf: Option<String>) -> (res: (Route, RouteAction))
        ensures
            res.0.key == key,
            res.0.value == None::<Value>,
            res.0.cf == cf,
            res.0.attempts == 1,
            res.0.stage == RouteStage::Locating,
            res.1 == RouteAction::Locate,
    {
        (
            Route { key, value: None, cf, attempts: 1, stage: RouteStage::Locating },
            RouteAction::Locate,
        )
    }

    /// Takes what came back for `route` and says what to do next.
    pub fn step(&mut self, route: &mut Route, event: RouteEvent) -> (action: RouteAction)
        ensures
            final(self).pd == old(self).pd,
            routed(
                *old(route),
                old(self).kvserver@,
                event,
                *final(route),
                final(self).kvserver@,
                action,
            ),
    {
        let mut stage = RouteStage::Finished;
        std::mem::swap(&mut stage, &mut route.stage);
        match (stage, event) {
            (RouteStage::Finished, _) => RouteAction::Done(Err(Error::Other)),
            (RouteStage::Locating, RouteEvent::Region(region)) => {
                match region.leader {
                    Some(leader) => {
                        let store_id = leader.store_id();
                        route.stage = RouteStage::Loading(region);
                        RouteAction::LoadStore(store_id)
                    },
                    None => route.retry(),
                }
            },
            (RouteStage::Loading(region), RouteEvent::Store(store)) => {
                let (client, created) = self.kvserver.get_or_create(&store.address);
                route.stage = RouteStage::Calling(RegionContext { region, store });
                RouteAction::Call(client, created)
            },
            (RouteStage::Calling(_), RouteEvent::Reply(bytes)) => {
                let write = route.value.is_some();
                if write || bytes.len() == 0 {
                    RouteAction::Done(Ok(None))
                } else {
                    RouteAction::Done(Ok(Some(bytes)))
                }
            },
            _ => route.retry(),
        }
    }

    /// What a write through the backend returns to the executor.
    pub fn raw_put(res: Result<Option<Value>, Error>) -> (out: Result<Vec<u8>, DBError>)
        ensures
            match res {
                Ok(_) => out matches Ok(text) && text@ == ascii("OK"@),
                Err(_) => out == Err::<Vec<u8>, DBError>(DBError::Other),
            },
    {
        match res {
            Ok(_) => {
                proof {
                    reveal_strlit("OK");
                }
                Ok(text_bytes("OK"))
            },
            Err(_) => Err(DBError::Other),
        }
    }

    /// What a read through the backend returns to the executor: the value,
    /// `NotFound` for a key that is not stored and `Other` for an
    /// operation that was given up.
    pub fn raw_get(res: Result<Option<Value>, Error>) -> (out: Result<Vec<u8>, DBError>)
        ensures
            match res {
                Ok(Some(value)) => out == Ok::<Vec<u8>, DBError>(value),
                Ok(None) => out == Err::<Vec<u8>, DBError>(DBError::NotFound),
                Err(_) => out == Err::<Vec<u8>, DBError>(DBError::Other),
            },
    {
        match res {
            Ok(Some(value)) => Ok(value),
            Ok(None) => Err(DBError::NotFound),
            Err(_) => Err(DBError::Other),
        }
    }
}

/// A key is routed `ROUTE_RETRY_LIMIT` times at most: no event takes the
/// count past the limit, and an event that is not awaited ends a route
/// that has reached it.
pub proof fn lemma_route_is_bounded(
    before: Route,
    pool_before: Map<Seq<char>, KVClient>,
    event: RouteEvent,
    after: Route,
    pool_after: Map<Seq<char>, KVClient>,
    action: RouteAction,
)
    requires
        routed(before, pool_before, event, after, pool_after, action),
        before.attempts <= ROUTE_RETRY_LIMIT,
    ensures
        after.attempts <= ROUTE_RETRY_LIMIT,
        before.attempts == ROUTE_RETRY_LIMIT && !awaited(before.stage, event) ==> action
            == RouteAction::Done(Err(Error::Other)),
{
}

/// One client serves an address: a route that comes to a store whose
/// address has a client in the pool is sent through that client, and the
/// pool stays as it is.
pub proof fn lemma_route_reuses_client(
    before: Route,
    pool_before: Map<Seq<char>, KVClient>,
    store: StoreMeta,
    after: Route,
    pool_after: Map<Seq<char>, KVClient>,
    action: RouteAction,
)
    requires
        before.stage is Loading,
        routed(before, pool_before, RouteEvent::Store(store), after, pool_after, action),
    ensures
        action is Call,
        pool_after.contains_key(store.address@),
        pool_after[store.address@] == action->Call_0,
        pool_before.contains_key(store.address@) ==> !action->Call_1 && pool_after == pool_before,
        forall|address: Seq<char>| #[trigger]
            pool_before.contains_key(address) ==> pool_after.contains_key(address) && (address
                != store.address@ ==> pool_after[address] == pool_before[address]),
{
}

} // verus!
