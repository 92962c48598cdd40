//! JPEG frames and the shared record of an active source.
//!
//! One record per active source carries the source's name, its counters
//! and the sending half of a bounded broadcast channel of JPEG frames.
//! Publishing never waits for a subscriber: a subscriber that falls more
//! than the channel's capacity behind loses the oldest frames and is told
//! how many.

use vstd::prelude::*;

use crate::stats::{wrap_add, wrap_sub, SourceStats};

verus! {

/// Frames a broadcast channel holds for its slowest subscriber.
pub const CHANNEL_CAPACITY: usize = 4;

/// The reference-counted byte buffer of the `bytes` crate, carried as is.
#[verifier::external_type_specification]
#[verifier::external_body]
pub struct ExBytes(bytes::Bytes);

/// The sending half of tokio's broadcast channel, carried as is.
#[verifier::external_type_specification]
#[verifier::external_body]
#[verifier::reject_recursive_types(T)]
pub struct ExSender<T>(tokio::sync::broadcast::Sender<T>);

/// The receiving half of tokio's broadcast channel, carried as is.
#[verifier::external_type_specification]
#[verifier::external_body]
#[verifier::reject_recursive_types(T)]
pub struct ExReceiver<T>(tokio::sync::broadcast::Receiver<T>);

/// The bytes a `bytes::Bytes` buffer holds, in order.
pub uninterp spec fn bytes_contents(buffer: bytes::Bytes) -> Seq<u8>;

/// `Bytes::from(Vec<u8>)`: the buffer takes the vector over and holds
/// exactly its bytes.
#[verifier::external_body]
fn bytes_from_vec(bytes: Vec<u8>) -> (buffer: bytes::Bytes)
    ensures
        bytes_contents(buffer) == bytes@,
{
    bytes::Bytes::from(bytes)
}

/// `Bytes::len`: the number of bytes the buffer holds.
#[verifier::external_body]
fn bytes_len(buffer: &bytes::Bytes) -> (len: usize)
    ensures
        len == bytes_contents(*buffer).len(),
{
    buffer.len()
}

/// `Bytes::clone`: a second handle on the same bytes.
#[verifier::external_body]
fn bytes_clone(buffer: &bytes::Bytes) -> (copy: bytes::Bytes)
    ensures
        bytes_contents(copy) == bytes_contents(*buffer),
{
    buffer.clone()
}

/// `Bytes::to_vec`, through the buffer's view as a slice: a vector with a
/// copy of the bytes.
#[verifier::external_body]
fn bytes_to_vec(buffer: &bytes::Bytes) -> (bytes: Vec<u8>)
    ensures
        bytes@ == bytes_contents(*buffer),
{
    buffer.to_vec()
}

/// Whether `n` is a power of two.
pub open spec fn is_power_of_two(n: nat) -> bool
    decreases n,
{
    n == 1 || (n > 1 && n % 2 == 0 && is_power_of_two(n / 2))
}

/// The number of frames the buffer of a broadcast channel holds.
pub uninterp spec fn channel_capacity(tx: tokio::sync::broadcast::Sender<JpegFrame>) -> nat;

/// `tokio::sync::broadcast::channel`, keeping the sending half. The buffer
/// of the channel holds the capacity asked for, rounded up to the next
/// power of two. The call panics on a capacity of zero or above half of
/// `usize::MAX`, which the precondition leaves out.
#[verifier::external_body]
fn channel_sender(capacity: usize) -> (tx: tokio::sync::broadcast::Sender<JpegFrame>)
    requires
        0 < capacity <= usize::MAX / 2,
    ensures
        is_power_of_two(channel_capacity(tx)),
        capacity <= channel_capacity(tx) < 2 * capacity,
{
    tokio::sync::broadcast::channel(capacity).0
}

/// `Sender::subscribe`: a new receiver that sees the frames sent from now
/// on. Nothing is claimed of it. (The call panics only once a quarter of
/// `usize::MAX` receivers are alive at once, more than memory can hold.)
#[verifier::external_body]
fn channel_subscribe(tx: &tokio::sync::broadcast::Sender<JpegFrame>) -> (rx:
    tokio::sync::broadcast::Receiver<JpegFrame>) {
    tx.subscribe()
}

/// `Sender::receiver_count`: the receivers alive at the moment of the call.
/// Receivers come and go on other threads, so nothing is claimed of the count.
#[verifier::external_body]
fn channel_receiver_count(tx: &tokio::sync::broadcast::Sender<JpegFrame>) -> (count: usize) {
    tx.receiver_count()
}

/// `Sender::send`: queues the frame for every live receiver and returns
/// their number, or hands the frame back as an error when there is none.
/// The error is turned into a count of zero; a success counts at least one.
#[verifier::external_body]
fn channel_send(tx: &tokio::sync::broadcast::Sender<JpegFrame>, frame: JpegFrame) -> (reached:
    Option<usize>)
    ensures
        reached matches Some(n) ==> n > 0,
{
    tx.send(frame).ok()
}

/// One encoded image, cheap to hand to any number of subscribers.
pub struct JpegFrame {
    pub data: bytes::Bytes,
}

impl View for JpegFrame {
    type V = Seq<u8>;

    open spec fn view(&self) -> Seq<u8> {
        bytes_contents(self.data)
    }
}

impl Clone for JpegFrame {
    fn clone(&self) -> (copy: Self)
        ensures
            copy@ == self@,
    {
        JpegFrame { data: bytes_clone(&self.data) }
    }
}

impl JpegFrame {
    /// Wraps the encoder's output.
    pub fn new(jpeg: Vec<u8>) -> (frame: JpegFrame)
        ensures
            frame@ == jpeg@,
    {
        JpegFrame { data: bytes_from_vec(jpeg) }
    }

    /// Size of the image in bytes.
    pub fn len(&self) -> (len: usize)
        ensures
            len == self@.len(),
    {
        bytes_len(&self.data)
    }

    /// A copy of the image's bytes.
    pub fn to_vec(&self) -> (bytes: Vec<u8>)
        ensures
            bytes@ == self@,
    {
        bytes_to_vec(&self.data)
    }
}

/// The record of one active source: its name, its counters and the channel
/// on which its frames go out.
pub struct SharedReceiver {
    pub source_name: String,
    pub stats: SourceStats,
    /// Sending half of the frame channel.
    pub tx: tokio::sync::broadcast::Sender<JpegFrame>,
}

impl SharedReceiver {
    /// A record for `source_name` with fresh counters and an empty channel
    /// whose buffer holds [`CHANNEL_CAPACITY`] frames.
    pub fn new(source_name: String) -> (record: SharedReceiver)
        ensures
            record.source_name@ == source_name@,
            record.stats.totals() == SourceStats::fresh(0),
            channel_capacity(record.tx) == CHANNEL_CAPACITY,
    {
        let tx = channel_sender(CHANNEL_CAPACITY);
        proof {
            // Of the numbers from four up to seven only four is a power of two.
            reveal_with_fuel(is_power_of_two, 4);
        }
        SharedReceiver { source_name, stats: SourceStats::new(), tx }
    }

    /// Attaches a subscriber: counts it as a client and opens a receiver
    /// for the frames published from now on.
    pub fn subscribe(&mut self) -> (rx: tokio::sync::broadcast::Receiver<JpegFrame>)
        ensures
            final(self).source_name == old(self).source_name,
            final(self).tx == old(self).tx,
            final(self).stats == (SourceStats {
                clients: wrap_add(old(self).stats.clients, 1),
                ..old(self).stats
            }),
    {
        self.stats.clients = self.stats.clients.wrapping_add(1);
        channel_subscribe(&self.tx)
    }

    /// Detaches a subscriber: the client count goes down by one.
    pub fn unsubscribe(&mut self)
        ensures
            final(self).source_name == old(self).source_name,
            final(self).tx == old(self).tx,
            final(self).stats == (SourceStats {
                clients: wrap_sub(old(self).stats.clients, 1),
                ..old(self).stats
            }),
    {
        self.stats.clients = self.stats.clients.wrapping_sub(1);
    }

    /// Subscribers currently attached.
    pub fn client_count(&self) -> (count: u64)
        ensures
            count == self.stats.clients,
    {
        self.stats.clients
    }

    /// Receivers alive on the channel right now.
    pub fn receiver_count(&self) -> usize {
        channel_receiver_count(&self.tx)
    }

    /// Sends a frame to every live receiver and returns how many there
    /// were. Nobody listening is not an error: the frame is let go and zero
    /// is returned.
    pub fn publish(&self, frame: JpegFrame) -> (reached: usize) {
        Self::reached_count(channel_send(&self.tx, frame))
    }

    /// The number of receivers a send reached: its count, or zero when it
    /// found nobody.
    pub fn reached_count(sent: Option<usize>) -> (reached: usize)
        ensures
            reached == match sent {
                Some(n) => n,
                None => 0,
            },
    {
        match sent {
            Some(n) => n,
            None => 0,
        }
    }
}

} // verus!
