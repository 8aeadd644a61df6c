use vstd::prelude::*;

use crate::block::{block_hash, pow_ok, Block, BlockModel};

verus! {

/// The sending half of a std channel; nothing inside it is read here.
#[verifier::external_type_specification]
#[verifier::external_body]
#[verifier::reject_recursive_types(T)]
pub struct ExSender<T>(std::sync::mpsc::Sender<T>);

/// The receiving half of a std channel; nothing inside it is read here.
#[verifier::external_type_specification]
#[verifier::external_body]
#[verifier::reject_recursive_types(T)]
pub struct ExReceiver<T>(std::sync::mpsc::Receiver<T>);

/// Relies on std::sync::mpsc::channel: a new channel for stop signals.
#[verifier::external_body]
fn stop_channel() -> (std::sync::mpsc::Sender<()>, std::sync::mpsc::Receiver<()>) {
    std::sync::mpsc::channel()
}

/// Relies on std::sync::mpsc::Receiver::try_recv: whether a stop signal is
/// waiting, without blocking.
#[verifier::external_body]
fn stop_requested(receiver: &std::sync::mpsc::Receiver<()>) -> bool {
    receiver.try_recv().is_ok()
}

/// The handle on the current proof-of-work search: at most one runs at a
/// time, and it is stopped by a signal it checks before each hash.
pub struct Miner {
    killswitch_sender: Option<std::sync::mpsc::Sender<()>>,
    stops_sent: Ghost<nat>,
}

impl Miner {
    /// Whether a search was started and not aborted since.
    pub closed spec fn active(&self) -> bool {
        self.killswitch_sender is Some
    }

    /// How many stop signals were sent to running searches.
    pub closed spec fn stops(&self) -> nat {
        self.stops_sent@
    }

    /// A miner with no search running.
    pub fn new() -> (r: Miner)
        ensures
            !r.active(),
            r.stops() == 0,
    {
        Miner { killswitch_sender: None, stops_sent: Ghost(0) }
    }

    /// Relies on std::sync::mpsc::Sender::send: queues one stop signal on the
    /// running search's channel (a search that already ended drops it).
    #[verifier::external_body]
    fn send_stop(&mut self)
        requires
            old(self).active(),
        ensures
            final(self).stops() == old(self).stops() + 1,
            final(self).active(),
    {
        if let Some(sender) = &self.killswitch_sender {
            let _ = sender.send(());
        }
    }

    /// Whether a search was started and not aborted since.
    pub fn is_mining(&self) -> (r: bool)
        ensures
            r == self.active(),
    {
        self.killswitch_sender.is_some()
    }

    /// Starts a new search, first stopping any running one; the returned
    /// receiver is what the search checks for the stop signal.
    pub fn start(&mut self) -> (r: std::sync::mpsc::Receiver<()>)
        ensures
            final(self).active(),
            final(self).stops() == old(self).stops() + (if old(self).active() {
                1nat
            } else {
                0nat
            }),
    {
        self.abort();
        let (sender, receiver) = stop_channel();
        self.killswitch_sender = Some(sender);
        receiver
    }

    /// Signals the running search, if any, to stop; it stops before its next
    /// hash and emits nothing.
    pub fn abort(&mut self)
        ensures
            !final(self).active(),
            final(self).stops() == old(self).stops() + (if old(self).active() {
                1nat
            } else {
                0nat
            }),
    {
        if self.killswitch_sender.is_some() {
            self.send_stop();
        }
        self.killswitch_sender = None;
    }
}

/// One step of the nonce search.
pub enum Step {
    /// A stop signal was waiting.
    Stopped,
    /// The block's hash meets the difficulty.
    Found(Block),
    /// The block with the next nonce, to try next.
    Next(Block),
    /// The largest nonce failed too.
    Exhausted,
}

/// The block `b` with the nonce `n`.
pub open spec fn with_nonce(b: BlockModel, n: u64) -> BlockModel {
    BlockModel { nonce: n, ..b }
}

/// One step of the search on `b`, told whether a stop signal is waiting:
/// stop first, then the block itself if its hash meets the difficulty, then
/// the next nonce, until the nonces run out.
pub fn search_step(b: Block, stop: bool) -> (r: Step)
    ensures
        stop ==> r is Stopped,
        !stop && pow_ok(block_hash(b@)) ==> (r matches Step::Found(x) && x@ == b@),
        !stop && !pow_ok(block_hash(b@)) && b@.nonce < u64::MAX ==> (r matches Step::Next(x)
            && x@ == with_nonce(b@, (b@.nonce + 1) as u64)),
        !stop && !pow_ok(block_hash(b@)) && b@.nonce == u64::MAX ==> r is Exhausted,
{
    if stop {
        return Step::Stopped;
    }
    if b.verify_nonce() {
        return Step::Found(b);
    }
    if b.nonce == u64::MAX {
        return Step::Exhausted;
    }
    let mut next = b;
    next.nonce = next.nonce + 1;
    Step::Next(next)
}

/// Searches nonces upward from the block's own until its hash meets the
/// difficulty, checking for a stop signal before each hash. Returns the
/// block with the first nonce that works, or `None` when stopped or when
/// the nonces run out.
pub fn search_nonce(block: Block, killswitch: &std::sync::mpsc::Receiver<()>) -> (r: Option<Block>)
    ensures
        r matches Some(b) ==> (pow_ok(block_hash(b@)) && b@ == with_nonce(block@, b@.nonce)
            && b@.nonce >= block@.nonce && forall|n: u64|
            block@.nonce <= n < b@.nonce ==> !pow_ok(block_hash(#[trigger] with_nonce(block@, n)))),
{
    let mut b = block;
    let ghost start = block@;
    assert(b@ =~= with_nonce(start, b@.nonce));
    loop
        invariant
            b@ == with_nonce(start, b@.nonce),
            start == block@,
            b@.nonce >= start.nonce,
            forall|n: u64| start.nonce <= n < b@.nonce ==> !pow_ok(block_hash(#[trigger] with_nonce(start, n))),
        decreases u64::MAX - b.nonce,
    {
        let ghost cur = b@;
        match search_step(b, stop_requested(killswitch)) {
            Step::Stopped => {
                return None;
            },
            Step::Exhausted => {
                return None;
            },
            Step::Found(x) => {
                return Some(x);
            },
            Step::Next(x) => {
                assert(x@ =~= with_nonce(start, x@.nonce));
                assert forall|n: u64| start.nonce <= n < x@.nonce implies !pow_ok(
                    block_hash(#[trigger] with_nonce(start, n)),
                ) by {
                    if n == cur.nonce {
                        assert(with_nonce(start, n) == cur);
                    }
                }
                b = x;
            },
        }
    }
}

} // verus!
