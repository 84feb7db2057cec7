use vstd::prelude::*;

verus! {

/// Settings of the web front end.
#[derive(Debug, Clone, PartialEq, Eq)]
pub struct WebConfig {
    /// The address the server binds to.
    pub bind_address: String,
}

impl Default for WebConfig {
    /// Binds to the loopback interface on a port the system picks.
    fn default() -> (r: WebConfig)
        ensures
            r.bind_address@ == "127.0.0.1:0"@,
    {
        WebConfig { bind_address: "127.0.0.1:0".to_owned() }
    }
}

/// The web front end with its settings.
#[derive(Debug, Clone, PartialEq, Eq)]
pub struct WebApp {
    config: WebConfig,
}

impl WebApp {
    /// The settings the front end runs with.
    pub closed spec fn spec_config(&self) -> WebConfig {
        self.config
    }

    /// A front end with the given settings.
    pub fn new(config: WebConfig) -> (r: WebApp)
        ensures
            r.spec_config() == config,
    {
        WebApp { config }
    }

    /// Two front ends are the same exactly when their settings are: a front
    /// end holds its whole configuration and nothing else.
    pub proof fn lemma_web_app_is_its_config(a: WebApp, b: WebApp)
        ensures
            (a == b) <==> (a.spec_config() == b.spec_config()),
    {
    }

    /// The settings the front end runs with.
    pub fn config(&self) -> (r: &WebConfig)
        ensures
            *r == self.spec_config(),
    {
        &self.config
    }
}

} // verus!
