//! The print dispatcher's choice of strategy: by which means a job is
//! submitted on a platform, and what is tried after a failure.

use vstd::prelude::*;
use crate::error::PrintError;

verus! {

/// The kinds of platform that the agent runs on.
#[derive(Clone, Copy, Debug, PartialEq, Eq, Structural)]
pub enum Platform {
    /// Documents are printed by handing a file to a print command.
    ShellPrint,
    /// Documents are rasterized and sent to a device page by page.
    DeviceContext,
}

/// A way of submitting a job.
#[derive(Clone, Copy, Debug, PartialEq, Eq, Structural)]
pub enum Strategy {
    /// Hand the document, as a file, to the platform's print command.
    ShellCommand,
    /// Rasterize the page and drive a device session with it.
    DeviceSession,
    /// Try the external viewers of the fallback chain.
    FallbackChain,
}

/// The strategy with which a job starts on a platform.
pub open spec fn primary(platform: Platform) -> Strategy {
    match platform {
        Platform::ShellPrint => Strategy::ShellCommand,
        Platform::DeviceContext => Strategy::DeviceSession,
    }
}

/// The strategy that takes over after `failed` ended in `error`, if any
/// does. Only one thing is ever tried after a failure: where the page
/// could not be rasterized on the device-context platform, the fallback
/// chain. Every other failure is final.
pub open spec fn successor(platform: Platform, failed: Strategy, error: PrintError) -> Option<
    Strategy,
> {
    if platform == Platform::DeviceContext && failed == Strategy::DeviceSession && error is Render {
        Some(Strategy::FallbackChain)
    } else {
        None
    }
}

/// The strategy with which a job starts on this platform.
pub fn primary_strategy(platform: Platform) -> (strategy: Strategy)
    ensures
        strategy == primary(platform),
{
    match platform {
        Platform::ShellPrint => Strategy::ShellCommand,
        Platform::DeviceContext => Strategy::DeviceSession,
    }
}

/// What to try after the strategy `failed` ended in `error`: another
/// strategy, or nothing more, in which case the error goes to the caller.
pub fn next_strategy(platform: Platform, failed: Strategy, error: &PrintError) -> (next: Option<
    Strategy,
>)
    ensures
        next == successor(platform, failed, *error),
{
    match (platform, failed, error) {
        (Platform::DeviceContext, Strategy::DeviceSession, PrintError::Render(_)) => Some(
            Strategy::FallbackChain,
        ),
        _ => None,
    }
}

/// Nothing is retried: no strategy follows itself, and nothing follows the
/// strategy that followed a failure. A job therefore tries two strategies
/// at most.
pub proof fn lemma_nothing_is_retried(
    platform: Platform,
    failed: Strategy,
    error: PrintError,
    later: PrintError,
)
    ensures
        successor(platform, failed, error) != Some(failed),
        successor(platform, failed, error) != Some(primary(platform)),
        successor(platform, failed, error) matches Some(second) ==> successor(
            platform,
            second,
            later,
        ) is None,
{
}

/// Only a page that could not be rasterized opens the way to the fallback
/// chain: a document that cannot be decoded or loaded, a device that refuses
/// the job and an exhausted chain are final.
pub proof fn lemma_only_render_errors_fall_back(platform: Platform, failed: Strategy, error: PrintError)
    requires
        !(error is Render),
    ensures
        successor(platform, failed, error) is None,
{
}

} // verus!
