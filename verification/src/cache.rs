//! Decides, from the run's flags and from what already exists on disk, whether
//! a case's document has to be fetched and whether its text has to be
//! extracted.

use vstd::prelude::*;

verus! {

/// What already exists on disk for one case.
#[derive(Clone, Copy, Debug, PartialEq, Eq, Structural)]
pub struct CacheState {
    /// The document has been fetched before.
    pub pdf_cached: bool,
    /// The final text has been produced before.
    pub text_produced: bool,
}

/// What has to be done for one case.
#[derive(Clone, Copy, Debug, PartialEq, Eq, Structural)]
pub struct CacheDecision {
    pub should_download: bool,
    pub should_run: bool,
}

/// A fetch is needed unless the cache may be used and holds the document.
pub open spec fn download_needed(reuse_cache: bool, pdf_cache_exists: bool) -> bool {
    !reuse_cache || !pdf_cache_exists
}

/// An extraction is needed when it is forced or no text exists yet.
pub open spec fn run_needed(force_rerun: bool, output_text_exists: bool) -> bool {
    force_rerun || !output_text_exists
}

/// Whether the document has to be fetched.
///
/// With the cache in use and the document present nothing is fetched; with the
/// cache switched off a fetch is made whatever the cache holds.
pub fn should_download(reuse_cache: bool, pdf_cache_exists: bool) -> (fetch: bool)
    ensures
        fetch == download_needed(reuse_cache, pdf_cache_exists),
        reuse_cache && pdf_cache_exists ==> !fetch,
        !reuse_cache ==> fetch,
{
    !reuse_cache || !pdf_cache_exists
}

/// Whether the text has to be extracted.
///
/// Without a forced rerun an existing text is kept and nothing runs; a forced
/// rerun always extracts.
pub fn should_run(force_rerun: bool, output_text_exists: bool) -> (run: bool)
    ensures
        run == run_needed(force_rerun, output_text_exists),
        !force_rerun && output_text_exists ==> !run,
        force_rerun ==> run,
{
    force_rerun || !output_text_exists
}

/// Both decisions for one case.
pub fn resolve(reuse_cache: bool, force_rerun: bool, state: CacheState) -> (decision: CacheDecision)
    ensures
        decision.should_download == download_needed(reuse_cache, state.pdf_cached),
        decision.should_run == run_needed(force_rerun, state.text_produced),
{
    CacheDecision {
        should_download: should_download(reuse_cache, state.pdf_cached),
        should_run: should_run(force_rerun, state.text_produced),
    }
}

} // verus!
