use vstd::prelude::*;

use crate::threshold::AppKey;

verus! {

/// Resolves a process ID to the application it runs.
pub trait ProcessResolver: Send + Sync {
    fn resolve_pid(&self, pid: u32) -> Option<AppKey>;
}

/// A resolver that reports a fixed result for every process.
pub struct MockProcessResolver {
    pub result: Option<AppKey>,
}

impl ProcessResolver for MockProcessResolver {
    fn resolve_pid(&self, pid: u32) -> (r: Option<AppKey>)
        ensures
            match (r, self.result) {
                (Some(a), Some(b)) => a@ == b@,
                (None, None) => true,
                _ => false,
            },
    {
        match &self.result {
            Some(k) => Some(k.clone()),
            None => None,
        }
    }
}

/// Process resolution on platforms without process queries: never resolves.
pub struct WindowsProcessResolver;

impl WindowsProcessResolver {
    pub fn new() -> (r: Self) {
        WindowsProcessResolver
    }
}

impl ProcessResolver for WindowsProcessResolver {
    fn resolve_pid(&self, pid: u32) -> (r: Option<AppKey>)
        ensures
            r is None,
    {
        None
    }
}

} // verus!
