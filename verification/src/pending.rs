//! Requests that arrive before the tank renderer is ready: a dropped GLB file
//! waits here, and "add tanks" presses add up until the next frame takes them.
use vstd::prelude::*;

verus! {

/// The waiting requests.
pub struct Pending {
    /// The latest dropped GLB file not yet taken.
    pub glb: Option<Vec<u8>>,
    /// Tanks per team requested since the last frame.
    pub add_tanks: u32,
}

/// Mathematical model of `Pending`.
pub struct PendingModel {
    pub glb: Option<Seq<u8>>,
    pub add_tanks: u32,
}

impl View for Pending {
    type V = PendingModel;

    open spec fn view(&self) -> PendingModel {
        PendingModel {
            glb: match self.glb {
                Some(v) => Some(v@),
                None => None,
            },
            add_tanks: self.add_tanks,
        }
    }
}

/// `a + b` modulo 2^32.
pub open spec fn wrapping_add_u32(a: u32, b: u32) -> u32 {
    if a + b <= u32::MAX {
        (a + b) as u32
    } else {
        (a + b - 0x1_0000_0000) as u32
    }
}

/// A file was dropped: it replaces whatever file was waiting.
pub open spec fn queue_spec(p: PendingModel, bytes: Seq<u8>) -> PendingModel {
    PendingModel { glb: Some(bytes), ..p }
}

/// The waiting file is taken; nothing waits afterwards.
pub open spec fn take_spec(p: PendingModel) -> (PendingModel, Option<Seq<u8>>) {
    (PendingModel { glb: None, ..p }, p.glb)
}

/// `n` more tanks per team were asked for.
pub open spec fn request_add_spec(p: PendingModel, n: u32) -> PendingModel {
    PendingModel { add_tanks: wrapping_add_u32(p.add_tanks, n), ..p }
}

/// The requested tank count is taken and reset.
pub open spec fn take_add_spec(p: PendingModel) -> (PendingModel, u32) {
    (PendingModel { add_tanks: 0, ..p }, p.add_tanks)
}

impl Pending {
    /// Nothing waits.
    pub fn new() -> (p: Pending)
        ensures
            p@ == (PendingModel { glb: None, add_tanks: 0 }),
    {
        Pending { glb: None, add_tanks: 0 }
    }
}

/// Keeps a dropped GLB file until the renderer takes it; a newer file replaces an older one.
pub fn queue(pending: &mut Pending, bytes: Vec<u8>)
    ensures
        final(pending)@ == queue_spec(old(pending)@, bytes@),
{
    pending.glb = Some(bytes);
}

/// Takes the waiting GLB file, leaving none.
pub fn take(pending: &mut Pending) -> (file: Option<Vec<u8>>)
    ensures
        (final(pending)@, match file {
            Some(v) => Some(v@),
            None => None,
        }) == take_spec(old(pending)@),
{
    let mut file: Option<Vec<u8>> = None;
    std::mem::swap(&mut file, &mut pending.glb);
    file
}

/// Asks for `n` more tanks per team (the count wraps around like an atomic add).
pub fn request_add(pending: &mut Pending, n: u32)
    ensures
        final(pending)@ == request_add_spec(old(pending)@, n),
{
    pending.add_tanks = pending.add_tanks.wrapping_add(n);
}

/// Takes the number of tanks requested since the last call and resets it.
pub fn take_add(pending: &mut Pending) -> (n: u32)
    ensures
        (final(pending)@, n) == take_add_spec(old(pending)@),
{
    let n = pending.add_tanks;
    pending.add_tanks = 0;
    n
}

/// Taking after queueing gives back exactly the queued file, and only once;
/// queueing twice keeps the later file.
pub proof fn lemma_take_returns_queued(p: PendingModel, first: Seq<u8>, bytes: Seq<u8>)
    ensures
        take_spec(queue_spec(p, bytes)).1 == Some(bytes),
        take_spec(take_spec(queue_spec(p, bytes)).0).1 is None,
        take_spec(queue_spec(queue_spec(p, first), bytes)).1 == Some(bytes),
{
}

/// Requests add up (modulo 2^32) until they are taken, and taking starts the count over.
pub proof fn lemma_requests_add_up(p: PendingModel, a: u32, b: u32)
    ensures
        take_add_spec(request_add_spec(request_add_spec(take_add_spec(p).0, a), b)).1
            == wrapping_add_u32(a, b),
        a + b <= u32::MAX ==> wrapping_add_u32(a, b) == a + b,
        take_add_spec(take_add_spec(p).0).1 == 0,
{
}

} // verus!
