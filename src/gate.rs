use std::sync::atomic::{AtomicBool, Ordering};
use tokio::sync::broadcast::{Receiver, Sender};
use vstd::prelude::*;

use crate::error::ErrorKind;
use crate::text::same_text;

verus! {

#[verifier::external_type_specification]
#[verifier::external_body]
#[verifier::reject_recursive_types(T)]
pub struct ExSender<T>(Sender<T>);

#[verifier::external_type_specification]
#[verifier::external_body]
#[verifier::reject_recursive_types(T)]
pub struct ExReceiver<T>(Receiver<T>);

/// tokio's `Sender::new` asserts that the capacity is neither zero nor above
/// `usize::MAX / 2`.
pub assume_specification<T>[ Sender::<T>::new ](capacity: usize) -> Sender<T>
    requires
        0 < capacity <= usize::MAX / 2,
;

/// tokio's `Sender::subscribe`: a receiver of every value sent after the call.
/// It asserts that fewer than `usize::MAX >> 2` receivers exist, more than
/// memory can hold.
pub assume_specification<T>[ Sender::<T>::subscribe ](tx: &Sender<T>) -> Receiver<T>;

/// The two gated actions.
#[derive(Debug, Clone, Copy, PartialEq, Eq, Structural)]
pub enum Domain {
    Voting,
    Registration,
}

/// A change of a domain's gate, as broadcast to subscribers.
#[derive(Debug, Clone, Copy, PartialEq, Eq, Structural)]
pub struct GateTransition {
    pub domain: Domain,
    pub enabled: bool,
}

/// Relies on tokio's `Sender::send`, which never blocks: when the buffer is
/// full the oldest value is dropped, and an error only says that nobody is
/// subscribed.
#[verifier::external_body]
fn publish(tx: &Sender<GateTransition>, transition: GateTransition) {
    let _ = tx.send(transition);
}

/// The cached gate flags of both domains and the fan-out of their changes.
///
/// Reads are lock-free atomic loads and never touch the durable store; a
/// write is applied to the cache only once the durable store has taken it.
pub struct GateController {
    voting: AtomicBool,
    registration: AtomicBool,
    tx: Sender<GateTransition>,
}

impl GateController {
    /// Builds the controller from the durable values, with room for
    /// `capacity` pending transitions per subscriber.
    pub fn new(voting: bool, registration: bool, capacity: usize) -> (r: Self)
        requires
            0 < capacity <= usize::MAX / 2,
    {
        GateController {
            voting: AtomicBool::new(voting),
            registration: AtomicBool::new(registration),
            tx: Sender::new(capacity),
        }
    }

    fn flag(&self, domain: Domain) -> (r: &AtomicBool) {
        match domain {
            Domain::Voting => &self.voting,
            Domain::Registration => &self.registration,
        }
    }

    /// The cached flag of `domain`. Concurrent writers may change it at any
    /// time, so nothing is promised of the value read.
    pub fn read(&self, domain: Domain) -> bool {
        self.flag(domain).load(Ordering::SeqCst)
    }

    /// Completes a gate write once the durable store has answered: if the
    /// store took the value, the cache is updated and then the transition is
    /// published; if it failed, cache and subscribers are left untouched.
    pub fn write(&self, domain: Domain, value: bool, persisted: bool) -> (r: Result<(), ErrorKind>)
        ensures
            persisted ==> r is Ok,
            !persisted ==> r == Err::<(), ErrorKind>(ErrorKind::StoreUnavailable),
    {
        if !persisted {
            return Err(ErrorKind::StoreUnavailable);
        }
        self.flag(domain).store(value, Ordering::SeqCst);
        publish(&self.tx, GateTransition { domain, enabled: value });
        Ok(())
    }

    /// Registers an observer of the transitions published from now on.
    pub fn subscribe(&self) -> Receiver<GateTransition> {
        self.tx.subscribe()
    }
}

/// The text a gate flag is persisted as.
pub open spec fn setting_text(enabled: bool) -> Seq<char> {
    if enabled {
        "true"@
    } else {
        "false"@
    }
}

/// The persisted text of a gate flag.
pub fn setting_value(enabled: bool) -> (r: String)
    ensures
        r@ == setting_text(enabled),
{
    if enabled {
        String::from_str("true")
    } else {
        String::from_str("false")
    }
}

/// Reads a persisted gate flag; a missing or unreadable row means closed.
pub fn parse_setting(stored: Option<&str>) -> (r: bool)
    ensures
        r == (stored matches Some(s) && s@ == "true"@),
{
    proof {
        reveal_strlit("true");
    }
    match stored {
        Some(s) => same_text(s, "true"),
        None => false,
    }
}

/// Whether an administrator's action text opens its domain: only `start` does.
pub fn action_enables(action: &str) -> (r: bool)
    ensures
        r == (action@ == "start"@),
{
    same_text(action, "start")
}

} // verus!
