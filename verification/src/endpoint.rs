//! The `cli-endpoint.toml` file that announces the local HTTP endpoint to
//! the command-line tool: its contents, and the guard that removes it once.
//!
//! The file exists exactly while the server is ready. The guard remembers
//! whether the file is known to be gone; the caller performs the removal
//! and reports its outcome.

use vstd::prelude::*;

verus! {

/// Version of the request protocol announced in the endpoint file.
pub const RPC_PROTOCOL_VERSION: u32 = 1;

/// What the endpoint file holds.
#[derive(Debug, Clone, PartialEq, Eq)]
pub struct EndpointFileContents {
    pub http_endpoint: String,
    pub token: String,
    pub started_at: String,
    pub rpc_protocol_version: u32,
}

/// How an attempt to remove the endpoint file ended.
#[derive(Debug, Clone, PartialEq, Eq)]
pub enum RemoveOutcome {
    Removed,
    NotFound,
    Failed(String),
}

/// Guards the endpoint file at `path`: once a removal has succeeded (or
/// found the file already gone) the guard is invalidated and never touches
/// the file again.
#[derive(Debug, Clone, PartialEq, Eq)]
pub struct EndpointFileGuard {
    path: String,
    invalidated: bool,
}

impl EndpointFileGuard {
    pub closed spec fn spec_path(&self) -> Seq<char> {
        self.path@
    }

    pub closed spec fn spec_invalidated(&self) -> bool {
        self.invalidated
    }

    /// A guard for the file at `path`, not yet invalidated.
    pub fn new(path: String) -> (r: Self)
        ensures
            r.spec_path() == path@,
            !r.spec_invalidated(),
    {
        EndpointFileGuard { path, invalidated: false }
    }

    /// The guarded path.
    pub fn path(&self) -> (r: &str)
        ensures
            r@ == self.spec_path(),
    {
        self.path.as_str()
    }

    /// The file is known to be gone.
    pub fn is_invalidated(&self) -> (r: bool)
        ensures
            r == self.spec_invalidated(),
    {
        self.invalidated
    }

    /// The file still has to be removed: an invalidation is a no-op once
    /// the guard is invalidated.
    pub fn needs_removal(&self) -> (r: bool)
        ensures
            r == !self.spec_invalidated(),
    {
        !self.invalidated
    }

    /// Records how a removal of the file ended. A removal, or a file that
    /// was already gone, invalidates the guard; any other failure leaves it
    /// as it was, so that the removal can be tried again, and is returned.
    pub fn record_removal(&mut self, outcome: RemoveOutcome) -> (r: Result<(), String>)
        ensures
            final(self).spec_path() == old(self).spec_path(),
            outcome is Failed ==> final(self).spec_invalidated() == old(self).spec_invalidated(),
            !(outcome is Failed) ==> final(self).spec_invalidated(),
            r is Ok <==> !(outcome is Failed),
            outcome matches RemoveOutcome::Failed(e) ==> r == Err::<(), String>(e),
    {
        match outcome {
            RemoveOutcome::Removed => {
                self.invalidated = true;
                Ok(())
            },
            RemoveOutcome::NotFound => {
                self.invalidated = true;
                Ok(())
            },
            RemoveOutcome::Failed(e) => Err(e),
        }
    }
}

} // verus!
