//! The resource fetcher: one request, one result, with a fallback for when
//! the client is offline. Successful responses are kept, by serialized
//! request, so that the same request can be answered without the network.
//! The network call itself is made by the caller, between `begin` and
//! `complete`.
use vstd::prelude::*;
use crate::errors::{LemmyAppError, LemmyAppErrorType};

verus! {

/// The response kept for serialized request `key`: the latest one stored.
pub open spec fn cached(entries: Seq<(String, String)>, key: Seq<char>) -> Option<Seq<char>>
    decreases entries.len(),
{
    if entries.len() == 0 {
        None
    } else if entries.last().0@ == key {
        Some(entries.last().1@)
    } else {
        cached(entries.drop_last(), key)
    }
}

/// The entries without any for `key`.
pub open spec fn without_key(entries: Seq<(String, String)>, key: Seq<char>) -> Seq<(String, String)> {
    entries.filter(|e: (String, String)| e.0@ != key)
}

pub proof fn lemma_cached_without_key(entries: Seq<(String, String)>, key: Seq<char>, other: Seq<char>)
    ensures
        cached(without_key(entries, key), other) == if other == key {
            None
        } else {
            cached(entries, other)
        },
    decreases entries.len(),
{
    reveal(Seq::filter);
    if entries.len() > 0 {
        let keep = |e: (String, String)| e.0@ != key;
        let rest = without_key(entries.drop_last(), key);
        let last = entries.last();
        assert(without_key(entries, key) == if keep(last) {
            rest.push(last)
        } else {
            rest
        });
        if keep(last) {
            assert(rest.push(last).drop_last() =~= rest);
        }
        lemma_cached_without_key(entries.drop_last(), key, other);
    }
}

/// What to do for a request.
#[derive(Debug)]
pub enum FetchStep {
    /// Send the request over the network, then hand its result to `complete`.
    Network,
    /// Offline, with a kept response: this is the result.
    Cached(String),
    /// Offline, with nothing kept for the request.
    Offline(LemmyAppError),
}

/// Decides requests by connectivity and keeps the responses of those that
/// succeeded.
#[derive(Debug)]
pub struct ResourceFetcher {
    pub online: bool,
    pub cache: Vec<(String, String)>,
}

impl ResourceFetcher {
    /// A fetcher with nothing kept yet.
    pub fn new(online: bool) -> (r: ResourceFetcher)
        ensures
            r.online == online,
            r.cache@.len() == 0,
    {
        ResourceFetcher { online, cache: Vec::new() }
    }

    /// The response kept for `key`, if any.
    pub open spec fn cached_for(&self, key: Seq<char>) -> Option<Seq<char>> {
        cached(self.cache@, key)
    }

    /// Connectivity changed.
    pub fn set_online(&mut self, online: bool)
        ensures
            final(self).online == online,
            final(self).cache@ == old(self).cache@,
    {
        self.online = online;
    }

    /// The response kept for `key`, if any.
    pub fn lookup(&self, key: &String) -> (r: Option<String>)
        ensures
            match r {
                Some(p) => self.cached_for(key@) == Some(p@),
                None => self.cached_for(key@) is None,
            },
    {
        let mut i: usize = self.cache.len();
        assert(self.cache@.subrange(0, i as int) =~= self.cache@);
        while i > 0
            invariant
                i <= self.cache@.len(),
                cached(self.cache@, key@) == cached(self.cache@.subrange(0, i as int), key@),
            decreases i,
        {
            let ghost prefix = self.cache@.subrange(0, i as int);
            assert(prefix.drop_last() =~= self.cache@.subrange(0, i - 1));
            if self.cache[i - 1].0 == *key {
                return Some(self.cache[i - 1].1.clone());
            }
            i = i - 1;
        }
        None
    }

    /// What to do for the request serialized as `key`: go to the network
    /// when online; when offline, answer with the kept response, or fail
    /// with `OfflineError` where none is kept.
    pub fn begin(&self, key: &String) -> (r: FetchStep)
        ensures
            self.online ==> r is Network,
            !self.online ==> match r {
                FetchStep::Network => false,
                FetchStep::Cached(p) => self.cached_for(key@) == Some(p@),
                FetchStep::Offline(e) => self.cached_for(key@) is None && e.error_type
                    == LemmyAppErrorType::OfflineError,
            },
    {
        if self.online {
            FetchStep::Network
        } else {
            match self.lookup(key) {
                Some(p) => FetchStep::Cached(p),
                None => FetchStep::Offline(LemmyAppError::new(LemmyAppErrorType::OfflineError)),
            }
        }
    }

    /// Keeps `response` as the answer to the request serialized as `key`,
    /// in place of any earlier one.
    pub fn store(&mut self, key: String, response: String)
        ensures
            final(self).online == old(self).online,
            final(self).cache@ == without_key(old(self).cache@, key@).push((key, response)),
    {
        let ghost keep = |e: (String, String)| e.0@ != key@;
        let mut kept: Vec<(String, String)> = Vec::new();
        let mut i: usize = 0;
        proof {
            reveal(Seq::filter);
            assert(self.cache@.subrange(0, 0) =~= Seq::<(String, String)>::empty());
        }
        while i < self.cache.len()
            invariant
                i <= self.cache@.len(),
                keep == (|e: (String, String)| e.0@ != key@),
                kept@ == self.cache@.subrange(0, i as int).filter(keep),
            decreases self.cache@.len() - i,
        {
            proof {
                let before = self.cache@.subrange(0, i as int);
                let after = self.cache@.subrange(0, i + 1);
                assert(after.drop_last() =~= before);
                reveal(Seq::filter);
            }
            if self.cache[i].0 != key {
                let e = (self.cache[i].0.clone(), self.cache[i].1.clone());
                assert(e == self.cache@[i as int]);
                kept.push(e);
            }
            i = i + 1;
        }
        proof {
            assert(self.cache@.subrange(0, i as int) =~= self.cache@);
        }
        kept.push((key, response));
        self.cache = kept;
    }

    /// The network answered: a response is kept for later offline use and
    /// returned; an error is returned as it is.
    pub fn complete(&mut self, key: String, result: Result<String, LemmyAppError>) -> (r: Result<
        String,
        LemmyAppError,
    >)
        ensures
            final(self).online == old(self).online,
            match result {
                Ok(p) => r matches Ok(q) && q@ == p@ && final(self).cache@ == without_key(
                    old(self).cache@,
                    key@,
                ).push((key, p)),
                Err(e) => r == Err::<String, LemmyAppError>(e) && final(self).cache@ == old(
                    self,
                ).cache@,
            },
    {
        match result {
            Ok(p) => {
                let kept = p.clone();
                self.store(key, p);
                Ok(kept)
            },
            Err(e) => Err(e),
        }
    }
}

/// Offline fallback: once a response for `key` has been kept, it is what
/// the fetcher answers for `key` while offline, and the other requests are
/// answered as before.
pub proof fn lemma_offline_fallback(
    entries: Seq<(String, String)>,
    key: String,
    response: String,
    other: Seq<char>,
)
    ensures
        cached(without_key(entries, key@).push((key, response)), key@) == Some(response@),
        other != key@ ==> cached(without_key(entries, key@).push((key, response)), other)
            == cached(entries, other),
{
    let stored = without_key(entries, key@).push((key, response));
    assert(stored.drop_last() == without_key(entries, key@));
    lemma_cached_without_key(entries, key@, other);
}

} // verus!
