//! Regions, peers and stores as the placement directory describes them, and
//! what addresses a call to a storage node.

use super::tikv_client::KVClient;
use super::tikv_db::{Error, Key};
use crate::wire::copy_range;
use vstd::prelude::*;

verus! {

/// Whether `a` comes before `b`, or is `b`, in the order of byte strings:
/// by the first byte in which they differ, a prefix before what it is a
/// prefix of.
pub open spec fn lex_le(a: Seq<u8>, b: Seq<u8>) -> bool
    decreases a.len(),
{
    if a.len() == 0 {
        true
    } else if b.len() == 0 {
        false
    } else if a[0] != b[0] {
        a[0] < b[0]
    } else {
        lex_le(a.drop_first(), b.drop_first())
    }
}

/// Whether `a` comes before `b` in the order of byte strings.
pub open spec fn lex_lt(a: Seq<u8>, b: Seq<u8>) -> bool {
    lex_le(a, b) && a != b
}

/// Whether `key` lies in the range from `start`, which belongs to it, to
/// `end`, which does not; an empty `end` stands for no upper bound.
pub open spec fn in_range(start: Seq<u8>, end: Seq<u8>, key: Seq<u8>) -> bool {
    lex_le(start, key) && (lex_lt(key, end) || end.len() == 0)
}

pub proof fn lemma_lex_le_refl(a: Seq<u8>)
    ensures
        lex_le(a, a),
    decreases a.len(),
{
    if a.len() > 0 {
        lemma_lex_le_refl(a.drop_first());
    }
}

/// A range holds its start and not its end: the start of a range that is
/// not empty lies in it, and a key at the end lies outside.
pub proof fn lemma_range_is_half_open(start: Seq<u8>, end: Seq<u8>)
    ensures
        lex_lt(start, end) || end.len() == 0 ==> in_range(start, end, start),
        end.len() > 0 ==> !in_range(start, end, end),
{
    lemma_lex_le_refl(start);
}

/// Whether `a` comes before `b`, or is `b`, in the order of byte strings.
pub fn bytes_le(a: &[u8], b: &[u8]) -> (le: bool)
    ensures
        le == lex_le(a@, b@),
{
    let mut i: usize = 0;
    assert(a@.skip(0) =~= a@ && b@.skip(0) =~= b@);
    while i < a.len() && i < b.len()
        invariant
            i <= a@.len(),
            i <= b@.len(),
            lex_le(a@, b@) == lex_le(a@.skip(i as int), b@.skip(i as int)),
        decreases a.len() - i,
    {
        proof {
            assert(a@.skip(i as int).drop_first() =~= a@.skip(i + 1));
            assert(b@.skip(i as int).drop_first() =~= b@.skip(i + 1));
        }
        if a[i] != b[i] {
            return a[i] < b[i];
        }
        i += 1;
    }
    i == a.len()
}

/// Whether `a` comes before `b` in the order of byte strings.
pub fn bytes_lt(a: &[u8], b: &[u8]) -> (lt: bool)
    ensures
        lt == lex_lt(a@, b@),
{
    bytes_le(a, b) && !crate::wire::bytes_eq(a, b)
}

/// The version of a region: it changes when the region's members or its
/// range change.
#[derive(Clone, Copy, Debug, Default, PartialEq, Eq, Structural)]
pub struct RegionEpoch {
    pub conf_ver: u64,
    pub version: u64,
}

/// A member of a region as the directory describes it: its own number and
/// the number of the store it lives on.
#[derive(Clone, Copy, Debug, Default, PartialEq, Eq, Structural)]
pub struct PeerMeta {
    pub id: u64,
    pub store_id: u64,
}

/// A region as the directory describes it: the keys from `start_key` up to,
/// not including, `end_key`.
#[derive(Debug, Default)]
pub struct RegionMeta {
    pub id: u64,
    pub start_key: Vec<u8>,
    pub end_key: Vec<u8>,
    pub region_epoch: RegionEpoch,
    pub peers: Vec<PeerMeta>,
}

impl Clone for RegionMeta {
    fn clone(&self) -> (copy: Self)
        ensures
            copy.id == self.id,
            copy.start_key@ == self.start_key@,
            copy.end_key@ == self.end_key@,
            copy.region_epoch == self.region_epoch,
            copy.peers@ == self.peers@,
    {
        RegionMeta {
            id: self.id,
            start_key: self.start_key.clone(),
            end_key: self.end_key.clone(),
            region_epoch: self.region_epoch,
            peers: self.peers.clone(),
        }
    }
}

/// A storage node as the directory describes it.
#[derive(Debug, Default)]
pub struct StoreMeta {
    pub id: u64,
    pub address: String,
}

impl Clone for StoreMeta {
    fn clone(&self) -> (copy: Self)
        ensures
            copy == *self,
    {
        StoreMeta { id: self.id, address: self.address.clone() }
    }
}

/// A member of a region.
#[derive(Clone, Copy, Debug, Default, PartialEq, Eq, Structural)]
pub struct Peer(pub PeerMeta);

impl Peer {
    pub fn from(peer: PeerMeta) -> (out: Peer)
        ensures
            out.0 == peer,
    {
        Peer(peer)
    }

    pub fn into_inner(self) -> (peer: PeerMeta)
        ensures
            peer == self.0,
    {
        self.0
    }

    pub open spec fn spec_store_id(&self) -> u64 {
        self.0.store_id
    }

    /// The number of the store that the peer lives on.
    #[verifier::when_used_as_spec(spec_store_id)]
    pub fn store_id(&self) -> (id: u64)
        ensures
            id == self.spec_store_id(),
    {
        self.0.store_id
    }
}

/// What addresses a call to a storage node: the region, its version and
/// the peer that is to serve the call.
#[derive(Clone, Copy, Debug, Default, PartialEq, Eq, Structural)]
pub struct Context {
    pub region_id: u64,
    pub region_epoch: RegionEpoch,
    pub peer: PeerMeta,
}

/// A region and the peer that leads it, where one is known.
#[derive(Debug, Default)]
pub struct Region {
    pub region: RegionMeta,
    pub leader: Option<Peer>,
}

impl Clone for Region {
    fn clone(&self) -> (copy: Self)
        ensures
            copy.region.id == self.region.id,
            copy.region.start_key@ == self.region.start_key@,
            copy.region.end_key@ == self.region.end_key@,
            copy.region.region_epoch == self.region.region_epoch,
            copy.region.peers@ == self.region.peers@,
            copy.leader == self.leader,
    {
        Region { region: self.region.clone(), leader: self.leader }
    }
}

impl Region {
    /// The call context that this region gives, where its leader is known.
    pub open spec fn spec_context(&self) -> Option<Context> {
        match self.leader {
            Some(leader) => Some(
                Context {
                    region_id: self.region.id,
                    region_epoch: self.region.region_epoch,
                    peer: leader.0,
                },
            ),
            None => None,
        }
    }

    pub fn new(region: RegionMeta, leader: Option<PeerMeta>) -> (out: Self)
        ensures
            out.region == region,
            out.leader == match leader {
                Some(peer) => Some(Peer(peer)),
                None => None,
            },
    {
        Region {
            region,
            leader: match leader {
                Some(peer) => Some(Peer(peer)),
                None => None,
            },
        }
    }

    /// Whether `key` belongs to this region.
    pub fn contains(&self, key: &Key) -> (inside: bool)
        ensures
            inside == in_range(self.region.start_key@, self.region.end_key@, key@),
    {
        bytes_le(self.region.start_key.as_slice(), key.as_slice()) && (bytes_lt(
            key.as_slice(),
            self.region.end_key.as_slice(),
        ) || self.region.end_key.len() == 0)
    }

    /// The context of a call to this region; an error where no leader is
    /// known.
    pub fn context(&self) -> (res: Result<Context, Error>)
        ensures
            match self.spec_context() {
                Some(context) => res == Ok::<Context, Error>(context),
                None => res == Err::<Context, Error>(Error::Other),
            },
    {
        match self.leader {
            Some(leader) => Ok(
                Context {
                    region_id: self.region.id,
                    region_epoch: self.region.region_epoch,
                    peer: leader.0,
                },
            ),
            None => Err(Error::Other),
        }
    }

    pub fn start_key(&self) -> (key: &[u8])
        ensures
            key@ == self.region.start_key@,
    {
        self.region.start_key.as_slice()
    }

    pub fn end_key(&self) -> (key: &[u8])
        ensures
            key@ == self.region.end_key@,
    {
        self.region.end_key.as_slice()
    }

    pub fn id(&self) -> (id: u64)
        ensures
            id == self.region.id,
    {
        self.region.id
    }

    /// The leader; an error where none is known.
    pub fn peer(&self) -> (res: Result<Peer, Error>)
        ensures
            match self.leader {
                Some(leader) => res == Ok::<Peer, Error>(leader),
                None => res == Err::<Peer, Error>(Error::Other),
            },
    {
        match self.leader {
            Some(leader) => Ok(leader),
            None => Err(Error::Other),
        }
    }

    pub fn meta(&self) -> (meta: RegionMeta)
        ensures
            meta.id == self.region.id,
            meta.start_key@ == self.region.start_key@,
            meta.end_key@ == self.region.end_key@,
            meta.region_epoch == self.region.region_epoch,
            meta.peers@ == self.region.peers@,
    {
        self.region.clone()
    }
}

/// A region and the store that its leader lives on.
#[derive(Debug, Default)]
pub struct RegionContext {
    pub region: Region,
    pub store: StoreMeta,
}

impl RegionContext {
    /// The address of the store.
    pub fn address(&self) -> (address: &String)
        ensures
            *address == self.store.address,
    {
        &self.store.address
    }

    pub fn start_key(&self) -> (key: Key)
        ensures
            key@ == self.region.region.start_key@,
    {
        let key = self.region.start_key();
        let out = copy_range(key, 0, key.len());
        out
    }

    pub fn end_key(&self) -> (key: Key)
        ensures
            key@ == self.region.region.end_key@,
    {
        let key = self.region.end_key();
        let out = copy_range(key, 0, key.len());
        out
    }

    pub fn range(&self) -> (range: (Key, Key))
        ensures
            range.0@ == self.region.region.start_key@,
            range.1@ == self.region.region.end_key@,
    {
        (self.start_key(), self.end_key())
    }

    /// The context of a call to the region; an error where no leader is
    /// known.
    pub fn into_context(self) -> (res: Result<Context, Error>)
        ensures
            match self.region.spec_context() {
                Some(context) => res == Ok::<Context, Error>(context),
                None => res == Err::<Context, Error>(Error::Other),
            },
    {
        self.region.context()
    }
}

/// What addresses one call to a storage node: the region and its store,
/// the client of that store and the column family, if one was chosen.
#[derive(Debug)]
pub struct RawContext {
    pub region: RegionContext,
    pub client: KVClient,
    pub cf: Option<String>,
}

impl RawContext {
    pub fn new(region: RegionContext, client: KVClient, cf: Option<String>) -> (context: Self)
        ensures
            context.region == region,
            context.client == client,
            context.cf == cf,
    {
        RawContext { region, client, cf }
    }

    /// The client that the call goes through.
    pub fn client(&self) -> (client: KVClient)
        ensures
            client == self.client,
    {
        self.client.clone()
    }

    pub fn into_inner(self) -> (parts: (RegionContext, Option<String>))
        ensures
            parts.0 == self.region,
            parts.1 == self.cf,
    {
        (self.region, self.cf)
    }
}

} // verus!
