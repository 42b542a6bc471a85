//! Client configuration and its builder.

use vstd::prelude::*;

verus! {

/// What a client configuration says: the service the client registers as, how
/// many messages it asks for at a time, and the server's address.
pub struct FrillsClientConfigView {
    pub service_name: Seq<char>,
    pub cache_size: u16,
    pub remote: Seq<char>,
}

/// The settings with which a client connects.
pub struct FrillsClientConfig {
    service_name: String,
    cache_size: u16,
    remote: String,
}

impl View for FrillsClientConfig {
    type V = FrillsClientConfigView;

    closed spec fn view(&self) -> FrillsClientConfigView {
        FrillsClientConfigView {
            service_name: self.service_name@,
            cache_size: self.cache_size,
            remote: self.remote@,
        }
    }
}

/// The default settings: service "ClientService", batches of 16 messages, and the
/// server at 127.0.0.1:12345.
pub open spec fn default_config() -> FrillsClientConfigView {
    FrillsClientConfigView {
        service_name: "ClientService"@,
        cache_size: 16,
        remote: "127.0.0.1:12345"@,
    }
}

impl Default for FrillsClientConfig {
    fn default() -> (c: Self)
        ensures
            c@ == default_config(),
    {
        FrillsClientConfig {
            service_name: "ClientService".to_owned(),
            cache_size: 16,
            remote: "127.0.0.1:12345".to_owned(),
        }
    }
}

impl FrillsClientConfig {
    /// The service the client registers as.
    pub fn service_name(&self) -> (r: &String)
        ensures
            r@ == self@.service_name,
    {
        &self.service_name
    }

    /// How many messages the client asks for at a time.
    pub fn cache_size(&self) -> (r: u16)
        ensures
            r == self@.cache_size,
    {
        self.cache_size
    }

    /// The server's address.
    pub fn remote(&self) -> (r: &String)
        ensures
            r@ == self@.remote,
    {
        &self.remote
    }
}

/// Builds the configuration of a client.
pub struct Builder {
    config: FrillsClientConfig,
}

impl View for Builder {
    type V = FrillsClientConfigView;

    closed spec fn view(&self) -> FrillsClientConfigView {
        self.config@
    }
}

impl Builder {
    /// The default settings for the service `service_name`.
    pub fn new(service_name: &str) -> (b: Self)
        ensures
            b@ == (FrillsClientConfigView { service_name: service_name@, ..default_config() }),
    {
        let mut config = FrillsClientConfig::default();
        config.service_name = service_name.to_owned();
        Builder { config }
    }

    /// Sets how many messages the client asks for at a time.
    pub fn cache_size(self, cache_size: u16) -> (b: Self)
        ensures
            b@ == (FrillsClientConfigView { cache_size, ..self@ }),
    {
        let mut b = self;
        b.config.cache_size = cache_size;
        b
    }

    /// Sets the server's address.
    pub fn remote(self, remote: String) -> (b: Self)
        ensures
            b@ == (FrillsClientConfigView { remote: remote@, ..self@ }),
    {
        let mut b = self;
        b.config.remote = remote;
        b
    }

    /// Sets the server's address from a string slice.
    pub fn remote_from_str(self, remote: &str) -> (b: Self)
        ensures
            b@ == (FrillsClientConfigView { remote: remote@, ..self@ }),
    {
        let mut b = self;
        b.config.remote = remote.to_owned();
        b
    }

    /// The configuration built so far.
    pub fn config(&self) -> (c: &FrillsClientConfig)
        ensures
            c@ == self@,
    {
        &self.config
    }
}

} // verus!
