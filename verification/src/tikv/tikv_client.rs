//! The client of one storage node: its address and the requests that are
//! sent to it.

use super::context::{Context, RawContext};
use super::tikv_db::{Error, Key, Value};
use vstd::prelude::*;
use vstd::string::*;

verus! {

/// `s` without the copies of `prefix` that it starts with.
pub open spec fn strip_prefixes(s: Seq<char>, prefix: Seq<char>) -> Seq<char>
    decreases s.len(),
{
    if prefix.len() > 0 && prefix.is_prefix_of(s) {
        strip_prefixes(s.skip(prefix.len() as int), prefix)
    } else {
        s
    }
}

/// The address that is connected to for `addr`: `addr` without `http://`
/// and then without `https://` in front.
pub open spec fn normal_address(addr: Seq<char>) -> Seq<char> {
    strip_prefixes(strip_prefixes(addr, "http://"@), "https://"@)
}

/// Whether `prefix` stands in `s` at the character `from`.
fn has_prefix_at(s: &str, from: usize, prefix: &str) -> (found: bool)
    requires
        from <= s@.len(),
    ensures
        found == prefix@.is_prefix_of(s@.skip(from as int)),
{
    let n = s.unicode_len();
    let m = prefix.unicode_len();
    if m > n - from {
        return false;
    }
    let mut i: usize = 0;
    while i < m
        invariant
            i <= m,
            m == prefix@.len(),
            n == s@.len(),
            from + m <= n,
            forall|j: int| 0 <= j < i ==> prefix@[j] == s@[from + j],
        decreases m - i,
    {
        if s.get_char(from + i) != prefix.get_char(i) {
            return false;
        }
        i += 1;
    }
    true
}

/// `s` without the copies of `prefix` that it starts with.
pub fn trim_start_matches<'a>(s: &'a str, prefix: &str) -> (out: &'a str)
    ensures
        out@ == strip_prefixes(s@, prefix@),
{
    let n = s.unicode_len();
    let m = prefix.unicode_len();
    if m == 0 {
        return s;
    }
    let mut from: usize = 0;
    assert(s@.skip(0) =~= s@);
    while has_prefix_at(s, from, prefix)
        invariant
            from <= n == s@.len(),
            m == prefix@.len(),
            m > 0,
            strip_prefixes(s@, prefix@) == strip_prefixes(s@.skip(from as int), prefix@),
        decreases n - from,
    {
        assert(s@.skip(from as int).skip(m as int) =~= s@.skip(from + m));
        from += m;
    }
    s.substring_char(from, n)
}

/// The client of the storage node at `address`.
#[derive(Debug)]
pub struct KVClient {
    pub address: String,
}

impl Clone for KVClient {
    fn clone(&self) -> (copy: Self)
        ensures
            copy == *self,
    {
        KVClient { address: self.address.clone() }
    }
}

/// A request to store `value` under `key`.
#[derive(Debug)]
pub struct RawPutRequest {
    pub context: Context,
    /// The column family; empty for the default one.
    pub cf: String,
    pub key: Key,
    pub value: Value,
}

/// A request for the value under `key`.
#[derive(Debug)]
pub struct RawGetRequest {
    pub context: Context,
    /// The column family; empty for the default one.
    pub cf: String,
    pub key: Key,
}

/// The column family that a request names: the one that was chosen, or
/// none.
pub open spec fn cf_of(cf: Option<String>) -> Seq<char> {
    match cf {
        Some(name) => name@,
        None => Seq::<char>::empty(),
    }
}

impl KVClient {
    /// A client for the storage node that the directory knows at `addr`.
    pub fn for_address(addr: &str) -> (client: KVClient)
        ensures
            client.address@ == normal_address(addr@),
    {
        let addr = trim_start_matches(trim_start_matches(addr, "http://"), "https://");
        KVClient { address: addr.to_owned() }
    }

    /// A client for the storage node that the directory knows at `addr`.
    pub fn new(addr: &str) -> (res: Result<KVClient, Error>)
        ensures
            res matches Ok(client) && client.address@ == normal_address(addr@),
    {
        Ok(KVClient::for_address(addr))
    }

    /// The request that stores `value` under `key`, addressed by `context`;
    /// an error where the region has no leader.
    pub fn new_raw_put_req(context: RawContext, key: Key, value: Value) -> (res: Result<
        RawPutRequest,
        Error,
    >)
        ensures
            match context.region.region.spec_context() {
                Some(to) => res matches Ok(request) && {
                    &&& request.context == to
                    &&& request.cf@ == cf_of(context.cf)
                    &&& request.key == key
                    &&& request.value == value
                },
                None => res == Err::<RawPutRequest, Error>(Error::Other),
            },
    {
        let (region, cf) = context.into_inner();
        let to = region.into_context()?;
        let cf = match cf {
            Some(cf) => cf,
            None => String::new(),
        };
        Ok(RawPutRequest { context: to, cf, key, value })
    }

    /// The request for the value under `key`, addressed by `context`; an
    /// error where the region has no leader.
    pub fn new_raw_get_req(context: RawContext, key: Key) -> (res: Result<RawGetRequest, Error>)
        ensures
            match context.region.region.spec_context() {
                Some(to) => res matches Ok(request) && {
                    &&& request.context == to
                    &&& request.cf@ == cf_of(context.cf)
                    &&& request.key == key
                },
                None => res == Err::<RawGetRequest, Error>(Error::Other),
            },
    {
        let (region, cf) = context.into_inner();
        let to = region.into_context()?;
        let cf = match cf {
            Some(cf) => cf,
            None => String::new(),
        };
        Ok(RawGetRequest { context: to, cf, key })
    }
}

} // verus!
