//! How the main thread of a program waits for the others.
//!
//! The main thread opens a channel. Every other thread takes a sender of the channel
//! that is current when it starts, sends once when it is done, and drops the sender.
//! When the main thread is done itself, it receives until no sender is left.
use vstd::prelude::*;

verus! {

/// A channel on which threads say that they are done.
struct Channel {
    senders: usize,
    receiving: bool,
}

/// The channel of the program that was started last, and the channels before it.
pub struct GlobalSyncSender {
    channels: Vec<Channel>,
    current: Option<usize>,
}

/// A sender that a thread holds.
#[derive(Debug)]
pub struct SyncSender {
    channel: usize,
}

/// The end of a channel at which the main thread receives.
#[derive(Debug)]
pub struct SyncReceiver {
    channel: usize,
}

/// A channel as contracts see it.
pub struct ChannelView {
    /// How many senders there are, that of the current channel included.
    pub senders: nat,
    /// Whether the main thread receives, so that sending does not block.
    pub receiving: bool,
}

/// The channels as contracts see them.
#[verifier::ext_equal]
pub struct SyncView {
    /// All channels, in the order in which they were opened.
    pub channels: Seq<ChannelView>,
    /// The channel of which new threads take a sender.
    pub current: Option<int>,
}

impl SyncView {
    /// Whether there is a channel `c`.
    pub open spec fn has(self, c: int) -> bool {
        0 <= c < self.channels.len()
    }

    /// How many senders of the channel `c` threads hold.
    pub open spec fn held(self, c: int) -> int {
        self.channels[c].senders - if self.current == Some(c) {
            1int
        } else {
            0int
        }
    }

    /// Whether the current channel is one of the channels and has a sender.
    pub open spec fn wf(self) -> bool {
        &&& self.current matches Some(c) ==> self.has(c) && self.channels[c].senders >= 1
        &&& forall|c: int| 0 <= c < self.channels.len() ==> (#[trigger] self.channels[c]).senders
            <= usize::MAX
    }

    /// The channels with one sender more or less of the channel `c`.
    pub open spec fn changed(self, c: int, by: int) -> SyncView {
        SyncView {
            channels: self.channels.update(
                c,
                ChannelView {
                    senders: (self.channels[c].senders + by) as nat,
                    receiving: self.channels[c].receiving,
                },
            ),
            current: self.current,
        }
    }

    /// The channels after the current one has ceased to be current.
    pub open spec fn cleared(self) -> SyncView {
        match self.current {
            Some(c) => SyncView { current: None, ..self.changed(c, -1) },
            None => self,
        }
    }

    /// The channels after a new one has been opened and made the current one.
    pub open spec fn opened(self) -> SyncView {
        SyncView {
            channels: self.cleared().channels.push(ChannelView { senders: 1, receiving: false }),
            current: Some(self.channels.len() as int),
        }
    }

    /// The channels after the main thread has begun to receive on the channel `c`.
    pub open spec fn receiving(self, c: int) -> SyncView {
        SyncView {
            channels: self.channels.update(
                c,
                ChannelView { senders: self.channels[c].senders, receiving: true },
            ),
            current: self.current,
        }
    }
}

impl View for Channel {
    type V = ChannelView;

    closed spec fn view(&self) -> ChannelView {
        ChannelView { senders: self.senders as nat, receiving: self.receiving }
    }
}

impl View for GlobalSyncSender {
    type V = SyncView;

    closed spec fn view(&self) -> SyncView {
        SyncView {
            channels: self.channels@.map_values(|c: Channel| c@),
            current: match self.current {
                Some(c) => Some(c as int),
                None => None,
            },
        }
    }
}

impl SyncSender {
    /// The channel of the sender.
    pub closed spec fn channel(&self) -> int {
        self.channel as int
    }
}

impl SyncReceiver {
    /// The channel of the receiver.
    pub closed spec fn channel(&self) -> int {
        self.channel as int
    }
}

impl GlobalSyncSender {
    /// No channel has been opened yet.
    pub fn new() -> (sync: GlobalSyncSender)
        ensures
            sync@.wf(),
            sync@ == (SyncView { channels: Seq::empty(), current: None }),
    {
        let sync = GlobalSyncSender { channels: Vec::new(), current: None };
        assert(sync@.channels =~= Seq::empty());
        sync
    }

    /// Opens a channel and makes it the current one.
    pub fn open(&mut self) -> (receiver: SyncReceiver)
        requires
            old(self)@.wf(),
        ensures
            final(self)@.wf(),
            final(self)@ == old(self)@.opened(),
            receiver.channel() == old(self)@.channels.len(),
    {
        self.clear();
        let channel: usize = self.channels.len();
        self.channels.push(Channel { senders: 1, receiving: false });
        self.current = Some(channel);
        assert(self@.channels =~= old(self)@.opened().channels);
        SyncReceiver { channel }
    }

    /// Leaves no channel current.
    pub fn clear(&mut self)
        requires
            old(self)@.wf(),
        ensures
            final(self)@.wf(),
            final(self)@ == old(self)@.cleared(),
    {
        if let Some(c) = self.current {
            assert(self@.channels[c as int] == self.channels@[c as int]@);
            self.channels[c].senders = self.channels[c].senders - 1;
            self.current = None;
            assert(self@.channels =~= old(self)@.cleared().channels);
        }
    }

    /// A sender of the current channel, for a thread that starts. There must be a current
    /// channel.
    pub fn clone_sender(&mut self) -> (sender: SyncSender)
        requires
            old(self)@.wf(),
            old(self)@.current matches Some(c) && old(self)@.channels[c].senders < usize::MAX,
        ensures
            final(self)@.wf(),
            old(self)@.current == Some(sender.channel()),
            final(self)@ == old(self)@.changed(sender.channel(), 1),
    {
        let channel: usize = match self.current {
            Some(c) => c,
            None => 0,
        };
        assert(self@.channels[channel as int] == self.channels@[channel as int]@);
        self.channels[channel].senders = self.channels[channel].senders + 1;
        assert(self@.channels =~= old(self)@.changed(channel as int, 1).channels);
        SyncSender { channel }
    }

    /// Whether a sender of the current channel can be had.
    pub fn has_sender(&self) -> (has: bool)
        requires
            self@.wf(),
        ensures
            has == (self@.current matches Some(c) && self@.channels[c].senders < usize::MAX),
    {
        match self.current {
            Some(c) => {
                assert(self@.channels[c as int] == self.channels@[c as int]@);
                self.channels[c].senders < usize::MAX
            },
            None => false,
        }
    }

    /// Whether sending does not block.
    pub fn can_send(&self, sender: &SyncSender) -> (can: bool)
        requires
            self@.has(sender.channel()),
        ensures
            can == self@.channels[sender.channel()].receiving,
    {
        self.channels[sender.channel].receiving
    }

    /// Drops a sender that a thread held.
    pub fn drop_sender(&mut self, sender: SyncSender)
        requires
            old(self)@.wf(),
            old(self)@.has(sender.channel()),
            old(self)@.held(sender.channel()) >= 1,
        ensures
            final(self)@.wf(),
            final(self)@ == old(self)@.changed(sender.channel(), -1),
    {
        let c: usize = sender.channel;
        assert(self@.channels[c as int] == self.channels@[c as int]@);
        self.channels[c].senders = self.channels[c].senders - 1;
        assert(self@.channels =~= old(self)@.changed(c as int, -1).channels);
    }

    /// The main thread begins to receive.
    pub fn begin_receiving(&mut self, receiver: &SyncReceiver)
        requires
            old(self)@.wf(),
            old(self)@.has(receiver.channel()),
        ensures
            final(self)@.wf(),
            final(self)@ == old(self)@.receiving(receiver.channel()),
    {
        let c: usize = receiver.channel;
        assert(self@.channels[c as int] == self.channels@[c as int]@);
        self.channels[c].receiving = true;
        assert(self@.channels =~= old(self)@.receiving(c as int).channels);
    }

    /// Whether no sender is left, so that the main thread need not receive any more.
    pub fn is_over(&self, receiver: &SyncReceiver) -> (over: bool)
        requires
            self@.has(receiver.channel()),
        ensures
            over == (self@.channels[receiver.channel()].senders == 0),
    {
        self.channels[receiver.channel].senders == 0
    }
}

/// The channel that the main thread opens is a new one and the current one, with no sender
/// held by a thread. The channels before it lose nothing that a thread holds.
pub proof fn law_open(v: SyncView, c: int)
    requires
        v.wf(),
        v.has(c),
    ensures
        v.opened().current == Some(v.channels.len() as int),
        v.opened().held(v.channels.len() as int) == 0,
        v.opened().held(c) == v.held(c),
{
}

/// A thread that takes a sender adds one to those held of the current channel, and to no
/// other; when it drops the sender all is as before.
pub proof fn law_clone_and_drop(v: SyncView, c: int, d: int)
    requires
        v.wf(),
        v.current == Some(c),
        v.has(d),
    ensures
        v.changed(c, 1).held(d) == v.held(d) + if d == c {
            1int
        } else {
            0int
        },
        v.changed(c, 1).changed(c, -1) == v,
{
    assert(v.changed(c, 1).changed(c, -1) =~= v);
}

/// Once its channel is no longer current, the main thread goes on receiving exactly as long
/// as some thread holds a sender of it.
pub proof fn law_over_when_all_dropped(v: SyncView, c: int)
    requires
        v.wf(),
        v.has(c),
    ensures
        v.cleared().current is None,
        v.cleared().held(c) == v.held(c),
        v.cleared().channels[c].senders == 0 <==> v.held(c) == 0,
{
}

/// What opening a channel does: there is one channel more, with one sender, which is that of the
/// channel itself, and it is the current one. A channel that was current loses its own sender, and
/// nothing else changes.
pub proof fn law_opened_channel(v: SyncView, c: int)
    requires
        v.wf(),
        0 <= c < v.channels.len(),
    ensures
        v.opened().channels.len() == v.channels.len() + 1,
        v.opened().current == Some(v.channels.len() as int),
        v.opened().channels[v.channels.len() as int].senders == 1,
        !v.opened().channels[v.channels.len() as int].receiving,
        v.current == Some(c) ==> v.opened().channels[c].senders + 1 == v.channels[c].senders,
        v.current != Some(c) ==> v.opened().channels[c].senders == v.channels[c].senders,
        v.opened().channels[c].receiving == v.channels[c].receiving,
{
}

/// The first channel that is opened is channel 0.
pub proof fn law_first_channel(v: SyncView)
    requires
        v.channels.len() == 0,
        v.current is None,
    ensures
        v.opened().channels.len() == 1,
        v.opened().current == Some(0int),
        v.opened().channels[0].senders == 1,
        !v.opened().channels[0].receiving,
{
}

/// What leaving no channel current does: the channel that was current loses its own sender, and
/// nothing else changes.
pub proof fn law_cleared_channel(v: SyncView, c: int)
    requires
        v.wf(),
        0 <= c < v.channels.len(),
    ensures
        v.cleared().current is None,
        v.cleared().channels.len() == v.channels.len(),
        v.current == Some(c) ==> v.cleared().channels[c].senders + 1 == v.channels[c].senders,
        v.current != Some(c) ==> v.cleared().channels[c].senders == v.channels[c].senders,
        v.cleared().channels[c].receiving == v.channels[c].receiving,
{
}

/// What it does when a thread takes or drops a sender of the channel `c`: there is one more or one
/// less of it, and nothing else changes.
pub proof fn law_sender_taken_or_dropped(v: SyncView, c: int, d: int)
    requires
        v.wf(),
        0 <= c < v.channels.len(),
        0 <= d < v.channels.len(),
        v.channels[c].senders >= 1,
    ensures
        v.changed(c, 1).current == v.current,
        v.changed(c, -1).current == v.current,
        v.changed(c, 1).channels.len() == v.channels.len(),
        v.changed(c, -1).channels.len() == v.channels.len(),
        v.changed(c, 1).channels[c].senders == v.channels[c].senders + 1,
        v.changed(c, -1).channels[c].senders + 1 == v.channels[c].senders,
        v.changed(c, 1).channels[c].receiving == v.channels[c].receiving,
        v.changed(c, -1).channels[c].receiving == v.channels[c].receiving,
        d != c ==> v.changed(c, 1).channels[d] == v.channels[d],
        d != c ==> v.changed(c, -1).channels[d] == v.channels[d],
{
}

/// What it does when the main thread begins to receive on the channel `c`: sending on it does not
/// block any more, and nothing else changes.
pub proof fn law_receiving_channel(v: SyncView, c: int, d: int)
    requires
        0 <= c < v.channels.len(),
        0 <= d < v.channels.len(),
    ensures
        v.receiving(c).current == v.current,
        v.receiving(c).channels.len() == v.channels.len(),
        v.receiving(c).channels[c].receiving,
        v.receiving(c).channels[c].senders == v.channels[c].senders,
        d != c ==> v.receiving(c).channels[d] == v.channels[d],
{
}

/// Threads hold all senders of a channel but that of the current channel itself.
pub proof fn law_held_senders(v: SyncView, c: int)
    ensures
        v.has(c) <==> 0 <= c < v.channels.len(),
        v.current == Some(c) ==> v.held(c) + 1 == v.channels[c].senders,
        v.current != Some(c) ==> v.held(c) == v.channels[c].senders,
{
}

} // verus!
