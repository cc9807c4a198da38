use std::sync::mpsc::{Receiver, RecvError, SendError, Sender};
use std::sync::{Arc, Mutex};
use vstd::prelude::*;

verus! {

/// A received Modbus frame and the number of bytes read into it.
pub type ModbusMsg<'a> = (&'a [u8], usize);

/// A request as `[address, function, offset, count]`.
pub type RequestMsg<'a> = &'a [u16];

#[verifier::external_type_specification]
#[verifier::external_body]
#[verifier::reject_recursive_types(T)]
pub struct ExSender<T>(Sender<T>);

#[verifier::external_type_specification]
#[verifier::external_body]
#[verifier::reject_recursive_types(T)]
pub struct ExReceiver<T>(Receiver<T>);

#[verifier::external_type_specification]
#[verifier::external_body]
#[verifier::reject_recursive_types(T)]
pub struct ExMutex<T: ?Sized>(Mutex<T>);

#[verifier::external_type_specification]
#[verifier::external_body]
pub struct ExRecvError(RecvError);

#[verifier::external_type_specification]
#[verifier::external_body]
#[verifier::reject_recursive_types(T)]
pub struct ExSendError<T>(SendError<T>);

/// `std::sync::mpsc::channel`: the two ends of a new unbounded channel.
/// Nothing is claimed of them: the ends are opaque here.
#[verifier::external_body]
fn open_channel<T>() -> (Sender<T>, Receiver<T>) {
    std::sync::mpsc::channel::<T>()
}

/// `Mutex::new`: puts a value under a lock. Nothing is claimed of the lock,
/// which is opaque here.
#[verifier::external_body]
fn new_lock<T>(t: T) -> Mutex<T> {
    Mutex::new(t)
}

/// `Arc::clone`: another handle to the same shared value; claimed: the new
/// handle equals the one it was cloned from.
#[verifier::external_body]
fn share<T>(a: &Arc<T>) -> (r: Arc<T>)
    ensures
        r == *a,
{
    Arc::clone(a)
}

/// `Receiver::recv`: blocks until a value arrives, or fails once every
/// sender is gone. What comes back depends on other threads; nothing is
/// claimed of it.
#[verifier::external_body]
fn receive<T>(rx: &Receiver<T>) -> Result<T, RecvError> {
    rx.recv()
}

/// Why a transmitter could not be handed out.
#[derive(Clone, Copy, Debug, PartialEq, Eq, Structural)]
pub enum ChannelError {
    /// Every transmitter of the channel has already been taken.
    AllTransmittersExtracted,
}

impl ChannelError {
    /// The text that reports this error.
    pub fn to_string(&self) -> (text: String)
        ensures
            text@ == "All transmittes have been extracted!"@,
    {
        match self {
            ChannelError::AllTransmittersExtracted => "All transmittes have been extracted!".to_owned(),
        }
    }
}

/// One receiver and a stack of shared transmitters of one mpsc channel.
#[verifier::reject_recursive_types(T)]
pub struct Channel<T: Send> {
    transmitters: Vec<Arc<Mutex<Sender<T>>>>,
    receiver: Receiver<T>,
}

impl<T: Send> View for Channel<T> {
    type V = Seq<Arc<Mutex<Sender<T>>>>;

    /// The transmitters not yet handed out, the next one last.
    closed spec fn view(&self) -> Seq<Arc<Mutex<Sender<T>>>> {
        self.transmitters@
    }
}

impl<T: Send> Channel<T> {
    /// Creates a channel with one receiver and `count` handles to its one
    /// transmitter.
    pub fn new(count: u8) -> (channel: Self)
        ensures
            channel@.len() == count,
            forall|i: int, j: int|
                0 <= i < channel@.len() && 0 <= j < channel@.len() ==> #[trigger] channel@[i]
                    == #[trigger] channel@[j],
    {
        let (tx, rx) = open_channel::<T>();
        let tx = Arc::new(new_lock(tx));
        let mut channel = Channel { transmitters: Vec::new(), receiver: rx };
        let mut i: u8 = 0;
        while i < count
            invariant
                i <= count,
                channel.transmitters@.len() == i,
                forall|k: int|
                    0 <= k < channel.transmitters@.len() ==> #[trigger] channel.transmitters@[k]
                        == tx,
            decreases count - i,
        {
            channel.transmitters.push(share(&tx));
            i += 1;
        }
        channel
    }

    /// Hands out the next transmitter, or fails once all have been taken.
    pub fn get_transmitter(&mut self) -> (r: Result<Arc<Mutex<Sender<T>>>, ChannelError>)
        ensures
            old(self)@.len() == 0 ==> r == Err::<Arc<Mutex<Sender<T>>>, ChannelError>(
                ChannelError::AllTransmittersExtracted,
            ) && final(self)@ == old(self)@,
            old(self)@.len() > 0 ==> r == Ok::<Arc<Mutex<Sender<T>>>, ChannelError>(old(self)@.last())
                && final(self)@ == old(self)@.drop_last(),
    {
        match self.transmitters.pop() {
            Some(tx) => Ok(tx),
            None => Err(ChannelError::AllTransmittersExtracted),
        }
    }

    /// Waits for the next value on the channel; fails once every transmitter
    /// is gone.
    pub fn recv(&self) -> Result<T, RecvError> {
        receive(&self.receiver)
    }
}

} // verus!
