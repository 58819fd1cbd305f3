use vstd::prelude::*;
use crate::errors::{LookupError, SerializeError};
use crate::keys::{Query, lookup_key, cache_key_of, query_hash};
use crate::selection::GeocodeParsedResult;

verus! {

/// What a cache read produced, after decoding the stored value.
pub enum CacheRead {
    /// A stored record that decoded.
    Found(GeocodeParsedResult),
    /// No value under the key.
    Missing,
    /// The backend failed or the stored value did not decode; read as a miss.
    Failed(SerializeError),
}

/// The next thing the lookup needs done.
pub enum LookupAction {
    /// Read the cache under this key.
    ReadCache(String),
    /// Ask the provider (forward or reverse, by the query's kind).
    CallProvider,
    /// Store this record under this key, then report it.
    WriteCache(String, GeocodeParsedResult),
    /// The lookup is over.
    Return(Result<GeocodeParsedResult, LookupError>),
}

/// Where a lookup stands between two actions.
pub enum LookupStage {
    ReadingCache,
    CallingProvider,
    WritingCache(GeocodeParsedResult),
    Done,
}

/// One cache-aside lookup: cache first, the provider on a miss, then a
/// best-effort write of the provider's answer.
pub struct Lookup {
    pub key: String,
    pub stage: LookupStage,
}

impl Lookup {
    /// Starts a lookup of `q` under the key derived from `prefix`.
    pub fn start(prefix: &String, q: &Query) -> (r: (Lookup, LookupAction))
        ensures
            r.0.key@ == cache_key_of(prefix@, query_hash(*q)),
            r.0.stage is ReadingCache,
            r.1 matches LookupAction::ReadCache(k) && k@ == r.0.key@,
    {
        let key = lookup_key(prefix, q);
        let action = LookupAction::ReadCache(key.clone());
        (Lookup { key, stage: LookupStage::ReadingCache }, action)
    }

    /// A hit is returned as it is; a miss or a failed read goes to the provider.
    pub fn on_cache_read(&mut self, read: CacheRead) -> (r: LookupAction)
        requires
            old(self).stage is ReadingCache,
        ensures
            final(self).key == old(self).key,
            match read {
                CacheRead::Found(v) => final(self).stage is Done && r == LookupAction::Return(Ok(v)),
                _ => final(self).stage is CallingProvider && r is CallProvider,
            },
    {
        match read {
            CacheRead::Found(v) => {
                self.stage = LookupStage::Done;
                LookupAction::Return(Ok(v))
            },
            _ => {
                self.stage = LookupStage::CallingProvider;
                LookupAction::CallProvider
            },
        }
    }

    /// A provider answer is written to the cache; a provider error ends the
    /// lookup unchanged.
    pub fn on_provider_result(&mut self, result: Result<GeocodeParsedResult, LookupError>) -> (r: LookupAction)
        requires
            old(self).stage is CallingProvider,
        ensures
            final(self).key == old(self).key,
            match result {
                Ok(v) => {
                    &&& final(self).stage == LookupStage::WritingCache(v)
                    &&& (r matches LookupAction::WriteCache(k, w) && k@ == old(self).key@ && w == v)
                },
                Err(e) => final(self).stage is Done && r == LookupAction::Return(Err(e)),
            },
    {
        match result {
            Ok(v) => {
                let action = LookupAction::WriteCache(self.key.clone(), v.clone());
                self.stage = LookupStage::WritingCache(v);
                action
            },
            Err(e) => {
                self.stage = LookupStage::Done;
                LookupAction::Return(Err(e))
            },
        }
    }

    /// The provider's answer is returned whether or not the write succeeded.
    pub fn on_cache_written(&mut self, written: Result<(), SerializeError>) -> (r: LookupAction)
        requires
            old(self).stage is WritingCache,
        ensures
            final(self).key == old(self).key,
            final(self).stage is Done,
            (old(self).stage matches LookupStage::WritingCache(v) && r == LookupAction::Return(Ok(v))),
    {
        let v = match &self.stage {
            LookupStage::WritingCache(v) => v.clone(),
            _ => GeocodeParsedResult::empty(),
        };
        self.stage = LookupStage::Done;
        LookupAction::Return(Ok(v))
    }
}

} // verus!
