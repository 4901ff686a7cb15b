//! The command-line options and what the program starts from them.
use vstd::prelude::*;

verus! {

/// The transport the server speaks.
#[derive(Clone, Copy, PartialEq, Eq, Debug)]
pub enum TransportMode {
    /// Standard input and output.
    Stdio,
    /// Streamable HTTP.
    Http,
}

impl TransportMode {
    /// The name of the transport: `stdio` or `http`.
    pub fn as_str(&self) -> (r: &'static str)
        ensures
            r@ == match self {
                TransportMode::Stdio => "stdio"@,
                TransportMode::Http => "http"@,
            },
    {
        match self {
            TransportMode::Stdio => "stdio",
            TransportMode::Http => "http",
        }
    }
}

/// The command-line options.
pub struct Cli {
    /// Path to the local source checkout to index and search
    pub local: Option<String>,
    /// Transport mode: stdio or http
    pub transport: TransportMode,
    /// HTTP port (only used when the transport is http)
    pub port: u16,
    /// Path to the SQLite index database
    pub db: Option<String>,
    /// Number of parallel indexing threads (default: number of logical CPUs)
    pub index_threads: Option<usize>,
    /// Disable the incremental file watcher
    pub no_watch: bool,
    /// Skip the background search-index rebuild
    pub no_fts_rebuild: bool,
    /// Allow remote connections / any Host header
    pub allow_remote: bool,
}

/// What runs at startup besides the server.
pub struct Startup {
    /// Index the local checkout.
    pub index: bool,
    /// Rebuild the search index once indexing ends.
    pub rebuild_after_index: bool,
    /// Watch the checkout for changes.
    pub watch: bool,
    /// Rebuild the search index right away (no checkout to index).
    pub rebuild_now: bool,
}

impl Cli {
    /// What runs at startup: with a local checkout, indexing (then the
    /// search-index rebuild unless disabled) and the watcher unless
    /// disabled; without one, only the rebuild unless disabled.
    pub fn startup(&self) -> (r: Startup)
        ensures
            r.index == self.local is Some,
            r.rebuild_after_index == (self.local is Some && !self.no_fts_rebuild),
            r.watch == (self.local is Some && !self.no_watch),
            r.rebuild_now == (self.local is None && !self.no_fts_rebuild),
    {
        let index = self.local.is_some();
        Startup {
            index,
            rebuild_after_index: index && !self.no_fts_rebuild,
            watch: index && !self.no_watch,
            rebuild_now: !index && !self.no_fts_rebuild,
        }
    }

    /// The number of indexing threads: the option, else the available
    /// parallelism, else 4.
    pub fn threads(&self, available: Option<usize>) -> (r: usize)
        ensures
            r == match self.index_threads {
                Some(n) => n,
                None => match available {
                    Some(a) => a,
                    None => 4,
                },
            },
    {
        match self.index_threads {
            Some(n) => n,
            None => match available {
                Some(a) => a,
                None => 4,
            },
        }
    }
}

} // verus!
