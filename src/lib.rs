//! Client library for running remote algorithms and managing a remote data
//! store: payload negotiation, response envelopes and paginated listings.
use vstd::prelude::*;

pub mod algo;
pub mod collection;
pub mod data;
pub mod error;
pub mod json;
pub mod text;

use algo::{AlgoRef, Algorithm};
use collection::Collection;
use data::{DataDir, DataFile, HasDataPath};

verus! {

/// The service's settings: the API key and the base URL that every request
/// goes to.
#[derive(Debug)]
pub struct Service {
    pub api_key: String,
    pub base_url: String,
}

impl Clone for Service {
    fn clone(&self) -> (r: Service)
        ensures
            r == *self,
    {
        Service { api_key: self.api_key.clone(), base_url: self.base_url.clone() }
    }
}

impl Service {
    /// A service that uses `api_key` against the public API endpoint.
    pub fn new(api_key: &str) -> (r: Service)
        ensures
            r.api_key@ == api_key@,
            r.base_url@ == "https://api.algorithmia.com"@,
    {
        Service {
            api_key: String::from_str(api_key),
            base_url: String::from_str("https://api.algorithmia.com"),
        }
    }

    /// The algorithm that `algo_ref` names, reached through this service.
    pub fn algorithm(self, algo_ref: AlgoRef) -> (r: Algorithm)
        ensures
            r.wf(),
            r.spec_path() == algo::algo_path(algo_ref.path@),
            r.spec_options() == Seq::<(Seq<char>, Seq<char>)>::empty(),
            r.spec_service() == self,
    {
        Algorithm::new(self, algo_ref)
    }

    /// The data collection at `path`, reached through this service.
    pub fn collection(self, path: &str) -> (r: Collection)
        ensures
            r.path@ == path@,
            r.service == self,
    {
        Collection { service: self, path: String::from_str(path) }
    }

    /// The data directory at `path`, reached through this service.
    pub fn dir(&self, path: &str) -> (r: DataDir)
        ensures
            r.data_path() == data::data_uri_path(path@),
            r.data_service() == *self,
    {
        DataDir::new(self.clone(), path)
    }

    /// The data file at `path`, reached through this service.
    pub fn file(&self, path: &str) -> (r: DataFile)
        ensures
            r.data_path() == data::data_uri_path(path@),
            r.data_service() == *self,
    {
        DataFile::new(self.clone(), path)
    }
}

} // verus!
