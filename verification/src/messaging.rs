use crossbeam::channel::Sender;
use crossbeam_skiplist::SkipMap;
use vstd::prelude::*;

verus! {

/// A crossbeam sending half of a channel; opaque to proofs.
#[verifier::external_type_specification]
#[verifier::external_body]
#[verifier::reject_recursive_types(T)]
pub struct ExSender<T>(Sender<T>);

/// A crossbeam lock-free ordered map; opaque to proofs.
#[verifier::external_type_specification]
#[verifier::external_body]
#[verifier::reject_recursive_types(K)]
#[verifier::reject_recursive_types(V)]
pub struct ExSkipMap<K, V>(SkipMap<K, V>);

/// `SkipMap::new` builds a map; it is shared between threads from then on, so
/// nothing is stated of its contents.
pub assume_specification<K, V>[ SkipMap::<K, V>::new ]() -> SkipMap<K, V>;

/// The destination of a message.
#[derive(Debug, Clone, PartialEq, Eq, Ord, PartialOrd, Hash)]
pub enum ChannelID {
    Camera(u32),
    CameraStopper,
    Interpreter,
    WindowDisplay,
}

/// An image as a camera delivers it: `rows` by `cols` pixels of element type
/// `typ` (an OpenCV type code), row-major in `data`.
#[derive(Debug, Clone)]
pub struct Frame {
    pub rows: i32,
    pub cols: i32,
    pub typ: i32,
    pub data: Vec<u8>,
}

/// What the workers send each other.
#[derive(Debug, Clone)]
pub enum Message {
    Frame(Frame),
    Start,
    Stop,
}

/// Why the event server refused or failed a request.
#[derive(Debug, Clone, Copy, PartialEq, Eq)]
pub enum EventError {
    /// A receiver is already registered under the channel.
    DuplicateChannel,
    /// A registered receiver has hung up.
    Disconnected,
}

/// Whether the map holds an entry for `id`, through `SkipMap::contains_key`.
/// Other threads may register channels at any time, so the answer is not tied
/// to any earlier insertion.
#[verifier::external_body]
fn registry_contains(map: &SkipMap<ChannelID, Sender<Message>>, id: &ChannelID) -> bool {
    map.contains_key(id)
}

/// Adds or replaces the entry for `id`, through `SkipMap::insert`. The map is
/// shared, so nothing is stated of its contents afterwards.
#[verifier::external_body]
fn registry_insert(map: &SkipMap<ChannelID, Sender<Message>>, id: ChannelID, tx: Sender<Message>) {
    map.insert(id, tx);
}

/// A clone of the sender registered for `id`, if any, through `SkipMap::get`
/// and `Entry::value`.
#[verifier::external_body]
fn registry_sender(map: &SkipMap<ChannelID, Sender<Message>>, id: &ChannelID) -> Option<
    Sender<Message>,
> {
    map.get(id).map(|entry| entry.value().clone())
}

/// Clones of all registered senders in channel order, through `SkipMap::iter`
/// and `Entry::value`.
#[verifier::external_body]
fn registry_senders(map: &SkipMap<ChannelID, Sender<Message>>) -> Vec<Sender<Message>> {
    map.iter().map(|entry| entry.value().clone()).collect()
}

/// Sends through `Sender::send`, which blocks while a bounded channel is full;
/// whether the receiver is still there decides the result, which is not known.
#[verifier::external_body]
fn channel_send(tx: &Sender<Message>, msg: Message) -> bool {
    tx.send(msg).is_ok()
}

/// The answer to a registration request, given whether the channel already
/// had a receiver when it was looked up.
pub fn registration_outcome(already_registered: bool) -> (r: Result<(), EventError>)
    ensures
        already_registered ==> r == Err::<(), EventError>(EventError::DuplicateChannel),
        !already_registered ==> r == Ok::<(), EventError>(()),
{
    if already_registered {
        Err(EventError::DuplicateChannel)
    } else {
        Ok(())
    }
}

/// Routes messages to the receivers registered for each channel.
pub struct EventServer {
    registry: SkipMap<ChannelID, Sender<Message>>,
}

impl Default for EventServer {
    fn default() -> Self {
        EventServer { registry: SkipMap::new() }
    }
}

impl EventServer {
    /// Registers `msg` as the receiver of channel `id`; a channel that already
    /// has one is refused and keeps it.
    pub fn register_msg(&self, id: ChannelID, msg: Sender<Message>) -> (r: Result<(), EventError>)
        ensures
            r == Ok::<(), EventError>(()) || r == Err::<(), EventError>(EventError::DuplicateChannel),
    {
        let already: bool = registry_contains(&self.registry, &id);
        let outcome = registration_outcome(already);
        if outcome.is_ok() {
            registry_insert(&self.registry, id, msg);
        }
        outcome
    }

    /// Sends `msg` to the receiver of channel `id`, if one is registered; a
    /// receiver that has hung up is ignored.
    pub fn send(&self, id: &ChannelID, msg: Message) {
        match registry_sender(&self.registry, id) {
            Some(tx) => {
                let _delivered: bool = channel_send(&tx, msg);
            },
            None => {},
        }
    }

    /// Sends a copy of `msg` to every registered receiver, in channel order;
    /// stops at the first receiver that has hung up.
    pub fn broadcast(&self, msg: Message) -> (r: Result<(), EventError>)
        ensures
            r == Ok::<(), EventError>(()) || r == Err::<(), EventError>(EventError::Disconnected),
    {
        let senders: Vec<Sender<Message>> = registry_senders(&self.registry);
        let n: usize = senders.len();
        let mut i: usize = 0;
        while i < n
            invariant
                i <= n,
                n == senders@.len(),
            decreases n - i,
        {
            if !channel_send(&senders[i], msg.clone()) {
                return Err(EventError::Disconnected);
            }
            i = i + 1;
        }
        Ok(())
    }
}

}
