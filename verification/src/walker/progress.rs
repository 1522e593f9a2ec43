//! Reporting progress over a channel.

use std::sync::mpsc::{channel, sync_channel, Receiver, Sender, SyncSender, TrySendError};
use vstd::prelude::*;

verus! {

#[verifier::external_type_specification]
#[verifier::external_body]
#[verifier::reject_recursive_types(T)]
pub struct ExSender<T>(Sender<T>);

#[verifier::external_type_specification]
#[verifier::external_body]
#[verifier::reject_recursive_types(T)]
pub struct ExSyncSender<T>(SyncSender<T>);

#[verifier::external_type_specification]
#[verifier::external_body]
#[verifier::reject_recursive_types(T)]
pub struct ExReceiver<T>(Receiver<T>);

/// The phase that a tick reports on.
#[derive(Clone, Copy, Debug, PartialEq, Eq, Structural)]
pub enum JobType {
    /// Paths are being collected.
    Collecting,
    /// Files are being hashed.
    Hashing,
}

impl JobType {
    /// The name of the phase.
    pub fn as_str(&self) -> (r: &'static str)
        ensures
            r@ == (match self {
                JobType::Collecting => "collecting"@,
                JobType::Hashing => "hashing"@,
            }),
    {
        match self {
            JobType::Collecting => "collecting",
            JobType::Hashing => "hashing",
        }
    }
}

impl Default for JobType {
    fn default() -> (r: Self)
        ensures
            r == JobType::Collecting,
    {
        JobType::Collecting
    }
}

/// One report of progress.
#[derive(Clone, Copy, Debug, PartialEq, Eq, Structural)]
pub struct Tick {
    /// How much is done: paths collected, or files hashed.
    pub done: usize,
    /// How much there is to do. While collecting this is not known, and
    /// equals `done`.
    pub total: usize,
    /// The phase.
    pub job: JobType,
}

impl Default for Tick {
    fn default() -> (r: Self)
        ensures
            r == (Tick { done: 0, total: 0, job: JobType::Collecting }),
    {
        Tick { done: 0, total: 0, job: JobType::Collecting }
    }
}

/// What became of a tick that was handed to a channel.
#[derive(Clone, Copy, Debug, PartialEq, Eq, Structural)]
pub enum Delivery {
    /// The tick is in the channel.
    Sent,
    /// The channel is full: the tick is dropped.
    Full,
    /// Nobody listens any more.
    Closed,
}

impl Delivery {
    /// Whether reporting has failed for good. A tick that was dropped
    /// because the channel was full is no failure.
    pub fn failed(&self) -> (r: bool)
        ensures
            r == (*self == Delivery::Closed),
    {
        matches!(self, Delivery::Closed)
    }
}

/// `std::sync::mpsc::Sender::send`: hands the tick to a channel without
/// bound. The channel is never full.
#[verifier::external_body]
fn send_unbound(tx: &Sender<Tick>, tick: Tick) -> (r: Delivery)
    ensures
        r != Delivery::Full,
{
    match tx.send(tick) {
        Ok(()) => Delivery::Sent,
        Err(_) => Delivery::Closed,
    }
}

/// `std::sync::mpsc::SyncSender::try_send`: hands the tick to a bounded
/// channel without waiting.
#[verifier::external_body]
fn send_bound(tx: &SyncSender<Tick>, tick: Tick) -> Delivery {
    match tx.try_send(tick) {
        Ok(()) => Delivery::Sent,
        Err(TrySendError::Full(_)) => Delivery::Full,
        Err(TrySendError::Disconnected(_)) => Delivery::Closed,
    }
}

/// `std::sync::mpsc::channel`: a channel without bound.
#[verifier::external_body]
fn open_unbound() -> (Sender<Tick>, Receiver<Tick>) {
    channel()
}

/// `std::sync::mpsc::sync_channel`: a channel that holds up to `capacity`
/// ticks.
#[verifier::external_body]
fn open_bound(capacity: usize) -> (SyncSender<Tick>, Receiver<Tick>) {
    sync_channel(capacity)
}

/// `<std::sync::mpsc::Sender as Clone>::clone`: another sender of the same
/// channel.
#[verifier::external_body]
fn share_unbound(tx: &Sender<Tick>) -> Sender<Tick> {
    tx.clone()
}

/// `<std::sync::mpsc::SyncSender as Clone>::clone`: another sender of the
/// same channel.
#[verifier::external_body]
fn share_bound(tx: &SyncSender<Tick>) -> SyncSender<Tick> {
    tx.clone()
}

/// The sending end of a progress channel.
#[derive(Debug)]
pub enum Tx {
    /// Of a channel without bound: every tick is kept until it is read.
    Unbound(Sender<Tick>),
    /// Of a bounded channel: a tick that finds the channel full is dropped.
    Bound(SyncSender<Tick>),
}

impl Tx {
    /// Hands the tick to the channel, without ever waiting, and says what
    /// became of it. A channel without bound is never full.
    pub fn deliver(&self, tick: Tick) -> (r: Delivery)
        ensures
            self is Unbound ==> r != Delivery::Full,
    {
        match self {
            Tx::Unbound(tx) => send_unbound(tx, tick),
            Tx::Bound(tx) => send_bound(tx, tick),
        }
    }

    /// Hands the tick to the channel and returns whether reporting has
    /// failed for good: see [`Delivery::failed`]. Whether it has is up to the
    /// receiving end.
    pub fn send(&self, tick: Tick) -> bool {
        self.deliver(tick).failed()
    }
}

impl Clone for Tx {
    /// Another sender of the same channel, of the same kind.
    fn clone(&self) -> (r: Self)
        ensures
            r is Unbound <==> self is Unbound,
    {
        match self {
            Tx::Unbound(tx) => Tx::Unbound(share_unbound(tx)),
            Tx::Bound(tx) => Tx::Bound(share_bound(tx)),
        }
    }
}

/// A progress channel as it is made: the reporting end, and the receiving
/// end, which can be taken once.
pub type ProgressChannel = (Progress, Option<Receiver<Tick>>);

/// The end of a progress channel on which progress is reported.
#[derive(Debug)]
pub struct Progress {
    /// The sending end of the channel.
    pub tx: Tx,
}

impl Progress {
    /// Opens a progress channel. With a capacity of 0 the channel has no
    /// bound; else it holds up to `capacity` ticks and drops what finds it
    /// full.
    pub fn channel(capacity: usize) -> (r: ProgressChannel)
        ensures
            r.0.tx is Unbound <==> capacity == 0,
            r.1 is Some,
    {
        if capacity == 0 {
            let (tx, rx) = open_unbound();
            (Progress { tx: Tx::Unbound(tx) }, Some(rx))
        } else {
            let (tx, rx) = open_bound(capacity);
            (Progress { tx: Tx::Bound(tx) }, Some(rx))
        }
    }

    /// Reports progress: sends a tick with the given numbers.
    pub fn notify(&self, job: JobType, done: usize, total: usize) {
        let _ = self.tx.send(Tick { done, total, job });
    }
}

impl Clone for Progress {
    /// Another reporting end of the same channel.
    fn clone(&self) -> (r: Self)
        ensures
            r.tx is Unbound <==> self.tx is Unbound,
    {
        Progress { tx: self.tx.clone() }
    }
}

} // verus!
