use vstd::prelude::*;

verus! {

/// The proxy's configuration: where to listen, where to forward, and whether
/// to log verbosely and to cache answers.
#[derive(Debug, Clone, PartialEq, Eq)]
pub struct Args {
    pub local_address: String,
    pub local_port: u16,
    pub upstream_address: String,
    pub upstream_port: u16,
    pub verbose: bool,
    pub cache: bool,
}

impl Default for Args {
    /// Listen on 127.0.0.1:53, forward to 1.1.1.1:443, quiet, no cache.
    fn default() -> (r: Args)
        ensures
            r.local_address@ == "127.0.0.1"@,
            r.local_port == 53,
            r.upstream_address@ == "1.1.1.1"@,
            r.upstream_port == 443,
            !r.verbose,
            !r.cache,
    {
        Args {
            local_address: String::from_str("127.0.0.1"),
            local_port: 53,
            upstream_address: String::from_str("1.1.1.1"),
            upstream_port: 443,
            verbose: false,
            cache: false,
        }
    }
}

} // verus!
