//! The application state the request handlers share: the short-code
//! converter, the engine, and the configuration, assembled through a
//! builder that reports exactly which part is missing.

use vstd::prelude::*;

verus! {

use crate::backend::{Backend, count_in_window, window_start};
use crate::backend::memory::InMemoryBackend;
use crate::digits::dec_str;
use crate::errors::ServiceError;
use crate::settings::Config;
use crate::shortener::{HashIds, decoded_id, hashid_of, unhashid_of};

/// The assembled application state.
pub struct State {
    pub shortner: HashIds,
    pub backend: InMemoryBackend,
    pub config: Config,
}

impl State {
    /// An empty builder.
    pub fn builder() -> (r: StateBuilder)
        ensures
            r.shortner is None,
            r.backend is None,
            r.config is None,
    {
        StateBuilder { shortner: None, backend: None, config: None }
    }

    /// The work of a create request once the URI is validated: store the
    /// destination and return the short code of its fresh id.
    pub fn create_shorten(&mut self, uri: &str) -> (r: Result<String, ServiceError>)
        ensures
            final(self).shortner == old(self).shortner,
            final(self).config == old(self).config,
            match r {
                Ok(code) => {
                    &&& old(self).backend@.can_store()
                    &&& final(self).backend@ == old(self).backend@.store_ok(uri@)
                    &&& code@ == hashid_of(old(self).backend@.fresh_id())
                    &&& unhashid_of(code@) == Some(seq![old(self).backend@.fresh_id()])
                },
                Err(e) => e matches ServiceError::Backend(b) && b is Internal && !old(self).backend@.can_store() && final(self).backend@ == old(self).backend@,
            },
    {
        let id = match self.backend.store(uri) {
            Ok(id) => id,
            Err(e) => {
                return Err(ServiceError::Backend(e));
            },
        };
        match self.shortner.encode(id) {
            Ok(code) => Ok(code),
            Err(e) => Err(ServiceError::Sortner(e)),
        }
    }

    /// The work of an expand request: decode the short code and look the
    /// destination up, recording the access.
    pub fn expand_shorten(&mut self, shorten: &str) -> (r: Result<String, ServiceError>)
        ensures
            final(self).shortner == old(self).shortner,
            final(self).config == old(self).config,
            match r {
                Ok(url) => decoded_id(shorten@) matches Some(id) && old(self).backend@.live.contains_key(id) && url@ == old(self).backend@.live[id] && (final(self).backend@ == old(self).backend@ || exists|ts: i64|
                    final(self).backend@ == old(self).backend@.record_ok(id, ts)),
                Err(e) => match e {
                    ServiceError::Sortner(se) => se is Decode && (decoded_id(shorten@) is None
                        || shorten.len() > 12) && final(self).backend@ == old(self).backend@,
                    ServiceError::Backend(be) => decoded_id(shorten@) matches Some(id) && be is NotFound && !old(self).backend@.live.contains_key(id) && final(self).backend@ == old(self).backend@,
                    _ => false,
                },
            },
    {
        let id = match self.shortner.decode(shorten) {
            Ok(id) => id,
            Err(e) => {
                return Err(ServiceError::Sortner(e));
            },
        };
        match self.backend.retrive(id) {
            Ok(url) => Ok(url),
            Err(e) => Err(ServiceError::Backend(e)),
        }
    }

    /// The work of a stat request: decode the short code and render the
    /// count of accesses over the trailing 24 hours.
    pub fn get_stat_by_shorten(&self, shorten: &str) -> (r: Result<String, ServiceError>)
        ensures
            match r {
                Ok(s) => decoded_id(shorten@) matches Some(id) && self.backend@.live.contains_key(
                    id,
                ) && exists|now: i64, c: u64|
                    c == count_in_window(
                        self.backend@.events[id],
                        window_start(None, now),
                        now as int,
                    ) && s@ == dec_str(c as int),
                Err(e) => match e {
                    ServiceError::Sortner(se) => se is Decode && (decoded_id(shorten@) is None
                        || shorten.len() > 12),
                    ServiceError::Backend(be) => decoded_id(shorten@) matches Some(id) && (be
                        is NotFound <==> !self.backend@.live.contains_key(id)),
                    _ => false,
                },
            },
    {
        let id = match self.shortner.decode(shorten) {
            Ok(id) => id,
            Err(e) => {
                return Err(ServiceError::Sortner(e));
            },
        };
        let count = match self.backend.stat(id, None) {
            Ok(c) => c,
            Err(e) => {
                return Err(ServiceError::Backend(e));
            },
        };
        let rendered = crate::digits::u64_to_string(count);
        proof {
            let now0 = choose|now: i64|
                count == count_in_window(
                    self.backend@.events[id],
                    window_start(None, now),
                    now as int,
                );
            assert(count == count_in_window(
                self.backend@.events[id],
                window_start(None, now0),
                now0 as int,
            ) && rendered@ == dec_str(count as int));
        }
        Ok(rendered)
    }

    /// The work of an update request once the URI is validated: decode
    /// the short code and replace the destination.
    pub fn update_shorten(&mut self, shorten: &str, uri: &str) -> (r: Result<(), ServiceError>)
        ensures
            final(self).shortner == old(self).shortner,
            final(self).config == old(self).config,
            match r {
                Ok(_) => decoded_id(shorten@) matches Some(id) && old(self).backend@.live.contains_key(id) && final(self).backend@ == old(self).backend@.update_ok(id, uri@),
                Err(e) => match e {
                    ServiceError::Sortner(se) => se is Decode && (decoded_id(shorten@) is None
                        || shorten.len() > 12) && final(self).backend@ == old(self).backend@,
                    ServiceError::Backend(be) => decoded_id(shorten@) matches Some(id) && be is NotFound && !old(self).backend@.live.contains_key(id) && final(self).backend@ == old(self).backend@,
                    _ => false,
                },
            },
    {
        let id = match self.shortner.decode(shorten) {
            Ok(id) => id,
            Err(e) => {
                return Err(ServiceError::Sortner(e));
            },
        };
        match self.backend.update(id, uri) {
            Ok(_) => Ok(()),
            Err(e) => Err(ServiceError::Backend(e)),
        }
    }

    /// The work of a delete request: decode the short code and remove
    /// the entry with all its stat data.
    pub fn delete_shorten(&mut self, shorten: &str) -> (r: Result<(), ServiceError>)
        ensures
            final(self).shortner == old(self).shortner,
            final(self).config == old(self).config,
            match r {
                Ok(_) => decoded_id(shorten@) matches Some(id) && old(self).backend@.live.contains_key(id) && final(self).backend@ == old(self).backend@.delete_ok(id),
                Err(e) => match e {
                    ServiceError::Sortner(se) => se is Decode && (decoded_id(shorten@) is None
                        || shorten.len() > 12) && final(self).backend@ == old(self).backend@,
                    ServiceError::Backend(be) => decoded_id(shorten@) matches Some(id) && be is NotFound && !old(self).backend@.live.contains_key(id) && final(self).backend@ == old(self).backend@,
                    _ => false,
                },
            },
    {
        let id = match self.shortner.decode(shorten) {
            Ok(id) => id,
            Err(e) => {
                return Err(ServiceError::Sortner(e));
            },
        };
        match self.backend.delete(id) {
            Ok(_) => Ok(()),
            Err(e) => Err(ServiceError::Backend(e)),
        }
    }
}

/// Collects the parts of the application state one by one.
pub struct StateBuilder {
    pub config: Option<Config>,
    pub shortner: Option<HashIds>,
    pub backend: Option<InMemoryBackend>,
}

impl StateBuilder {
    /// Sets the short-code converter.
    pub fn shortner(self, shortener: HashIds) -> (r: StateBuilder)
        ensures
            r.shortner == Some(shortener),
            r.backend == self.backend,
            r.config == self.config,
    {
        StateBuilder { shortner: Some(shortener), backend: self.backend, config: self.config }
    }

    /// Sets the configuration.
    pub fn config(self, config: Config) -> (r: StateBuilder)
        ensures
            r.config == Some(config),
            r.shortner == self.shortner,
            r.backend == self.backend,
    {
        StateBuilder { config: Some(config), shortner: self.shortner, backend: self.backend }
    }

    /// Sets the storage engine.
    pub fn backend(self, backend: InMemoryBackend) -> (r: StateBuilder)
        ensures
            r.backend == Some(backend),
            r.shortner == self.shortner,
            r.config == self.config,
    {
        StateBuilder { backend: Some(backend), shortner: self.shortner, config: self.config }
    }

    /// Assembles the state. Fails naming the first missing part, in the
    /// order: converter, engine, configuration.
    pub fn build(self) -> (r: Result<State, ServiceError>)
        ensures
            match r {
                Ok(st) => self.shortner == Some(st.shortner) && self.backend == Some(st.backend)
                    && self.config == Some(st.config),
                Err(e) => e matches ServiceError::State(m) && if self.shortner is None {
                    m@ == "Uninitialized shortner"@
                } else if self.backend is None {
                    m@ == "Uninitialized backend"@
                } else {
                    self.config is None && m@ == "Uninitialized config"@
                },
            },
    {
        let shortner = match self.shortner {
            Some(s) => s,
            None => {
                return Err(ServiceError::State("Uninitialized shortner"));
            },
        };
        let backend = match self.backend {
            Some(b) => b,
            None => {
                return Err(ServiceError::State("Uninitialized backend"));
            },
        };
        let config = match self.config {
            Some(c) => c,
            None => {
                return Err(ServiceError::State("Uninitialized config"));
            },
        };
        Ok(State { shortner, backend, config })
    }
}

} // verus!
