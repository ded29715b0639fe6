//! A flag by which running work is asked to stop.
use std::sync::atomic::AtomicBool;
use std::sync::atomic::Ordering;
use std::sync::Arc;
use vstd::prelude::*;

use crate::text::copy_text;
use crate::workspace::unit_result;

verus! {

pub const CANCELLED: &'static str = "cancelled";

/// The flag. Copies of a token share it.
#[derive(Clone, Debug)]
pub struct CancellationToken {
    cancelled: Arc<AtomicBool>,
}

/// What a check gives, when the flag reads so.
pub open spec fn check_text(cancelled: bool) -> Result<(), Seq<char>> {
    if cancelled {
        Err(CANCELLED@)
    } else {
        Ok(())
    }
}

/// What a check gives, when the flag reads so.
pub fn check_flag(cancelled: bool) -> (r: Result<(), String>)
    ensures
        unit_result(r) == check_text(cancelled),
{
    if cancelled {
        Err(copy_text(CANCELLED))
    } else {
        Ok(())
    }
}

impl CancellationToken {
    /// A token that is not cancelled. What the shared flag holds later is up to
    /// whoever holds a copy, so nothing is stated of it.
    pub fn new() -> CancellationToken {
        CancellationToken { cancelled: Arc::new(AtomicBool::new(false)) }
    }

    pub fn cancel(&self) {
        self.cancelled.store(true, Ordering::SeqCst);
    }

    /// What the flag reads now; another holder may have set it.
    pub fn is_cancelled(&self) -> bool {
        self.cancelled.load(Ordering::SeqCst)
    }

    /// Reads the flag, and fails with the fixed text where it reads as set. What
    /// it reads is not stated: a failure carries that text and no other.
    pub fn check(&self) -> (r: Result<(), String>)
        ensures
            unit_result(r) == check_text(r is Err),
    {
        check_flag(self.is_cancelled())
    }
}

} // verus!
