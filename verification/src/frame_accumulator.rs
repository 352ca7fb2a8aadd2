use vstd::prelude::*;

use crate::dronecan_frame::DroneCanFrame;
use crate::tailbyte::toggle_bit;

verus! {

/// Identifies a transfer being received: source node, data type identifier
/// and transfer identifier.
pub type TransferKey = (u8, u16, u8);

/// How many frames one transfer may hold.
pub const MAX_MESSAGE_SIZE: usize = 16;

/// How many transfers may be received at the same time.
pub const MAX_PARALLEL_RECEPTION: usize = 16;

/// The frames received so far for one transfer, oldest first, in a
/// `heapless::Deque` with room for `MAX_MESSAGE_SIZE` frames.
///
/// The deque is kept in a field that specifications do not read: its
/// storage type is declared in a private module of `heapless`, so the
/// deque type cannot be named in them.  `queued_frames` names its contents.
#[verifier::external_body]
pub struct FrameQueue {
    frames: heapless::Deque<DroneCanFrame, 16>,
}

/// The frames a `FrameQueue` holds, front (oldest) first.
pub uninterp spec fn queued_frames(q: FrameQueue) -> Seq<DroneCanFrame>;

/// An empty queue, made by `heapless::Deque::new`.
#[verifier::external_body]
fn queue_new() -> (r: FrameQueue)
    ensures
        queued_frames(r) == Seq::<DroneCanFrame>::empty(),
{
    FrameQueue { frames: heapless::Deque::new() }
}

/// `heapless::Deque::is_empty`: whether the queue holds no frame.
#[verifier::external_body]
fn queue_is_empty(q: &FrameQueue) -> (r: bool)
    ensures
        r == (queued_frames(*q).len() == 0),
{
    q.frames.is_empty()
}

/// `heapless::Deque::back`: the most recently pushed frame, if any.
#[verifier::external_body]
fn queue_back(q: &FrameQueue) -> (r: Option<&DroneCanFrame>)
    ensures
        r is Some <==> queued_frames(*q).len() > 0,
        r matches Some(f) ==> *f == queued_frames(*q).last(),
{
    q.frames.back()
}

/// `heapless::Deque::push_back`: appends `frame` unless the queue already
/// holds `MAX_MESSAGE_SIZE` frames, in which case the queue is unchanged
/// and `frame` is handed back.
#[verifier::external_body]
fn queue_push_back(q: &mut FrameQueue, frame: DroneCanFrame) -> (r: Result<(), DroneCanFrame>)
    ensures
        queued_frames(*old(q)).len() < MAX_MESSAGE_SIZE ==> r is Ok && queued_frames(*final(q))
            == queued_frames(*old(q)).push(frame),
        queued_frames(*old(q)).len() >= MAX_MESSAGE_SIZE ==> (r matches Err(back) && back == frame)
            && queued_frames(*final(q)) == queued_frames(*old(q)),
{
    q.frames.push_back(frame)
}

/// What the receiver knows of one transfer in progress.
pub struct PendingTransfer {
    pub frames: FrameQueue,
    pub last_toggle: bool,
    pub started_at: u32,
}

/// `heapless::IndexMap`, the map that holds the transfers in progress.
#[verifier::external_type_specification]
#[verifier::external_body]
#[verifier::reject_recursive_types(K)]
#[verifier::reject_recursive_types(V)]
#[verifier::reject_recursive_types(S)]
pub struct ExIndexMap<K, V, S, const N: usize>(heapless::index_map::IndexMap<K, V, S, N>);

/// `hash32::BuildHasherDefault`, the hasher builder of the map.
#[verifier::external_type_specification]
#[verifier::external_body]
#[verifier::reject_recursive_types(H)]
pub struct ExBuildHasherDefault<H>(hash32::BuildHasherDefault<H>);

/// `hash32::FnvHasher`, the hasher of the map.
#[verifier::external_type_specification]
#[verifier::external_body]
pub struct ExFnvHasher(hash32::FnvHasher);

/// The transfers in progress, by key, with room for
/// `MAX_PARALLEL_RECEPTION` entries.
pub type PendingMap = heapless::index_map::FnvIndexMap<TransferKey, PendingTransfer, 16>;

/// The entries a `PendingMap` holds.
pub uninterp spec fn pending_transfers(m: PendingMap) -> Map<TransferKey, PendingTransfer>;

/// An empty map, made by `heapless::index_map::FnvIndexMap::new`.
#[verifier::external_body]
fn pending_new() -> (r: PendingMap)
    ensures
        pending_transfers(r).dom() == Set::<TransferKey>::empty(),
{
    heapless::index_map::FnvIndexMap::new()
}

/// `heapless::IndexMap::is_full`: whether the map holds
/// `MAX_PARALLEL_RECEPTION` entries.
#[verifier::external_body]
fn pending_is_full(m: &PendingMap) -> (r: bool)
    ensures
        r == (pending_transfers(*m).dom().len() == MAX_PARALLEL_RECEPTION),
{
    m.is_full()
}

/// `heapless::IndexMap::remove`: takes the entry of `key` out of the map.
#[verifier::external_body]
fn pending_remove(m: &mut PendingMap, key: &TransferKey) -> (r: Option<PendingTransfer>)
    ensures
        pending_transfers(*old(m)).contains_key(*key) ==> r == Some(
            pending_transfers(*old(m))[*key],
        ),
        !pending_transfers(*old(m)).contains_key(*key) ==> r is None,
        pending_transfers(*final(m)) == pending_transfers(*old(m)).remove(*key),
{
    m.remove(key)
}

/// `heapless::IndexMap::insert`: puts `value` under `key`.  An existing
/// entry is replaced and handed back; a new key is refused, and the pair
/// handed back, when the map already holds `MAX_PARALLEL_RECEPTION`
/// entries.
#[verifier::external_body]
fn pending_insert(m: &mut PendingMap, key: TransferKey, value: PendingTransfer) -> (r: Result<
    Option<PendingTransfer>,
    (TransferKey, PendingTransfer),
>)
    ensures
        pending_transfers(*old(m)).contains_key(key) ==> (r matches Ok(prev) && prev == Some(pending_transfers(*old(m))[key])) && pending_transfers(*final(m))
            == pending_transfers(*old(m)).insert(key, value),
        !pending_transfers(*old(m)).contains_key(key) && pending_transfers(*old(m)).dom().len()
            < MAX_PARALLEL_RECEPTION ==> (r matches Ok(prev) && prev is None) && pending_transfers(*final(m)) == pending_transfers(*old(m)).insert(key, value),
        !pending_transfers(*old(m)).contains_key(key) && pending_transfers(*old(m)).dom().len()
            >= MAX_PARALLEL_RECEPTION ==> (r matches Err(back) && back == (key, value)) && pending_transfers(*final(m)) == pending_transfers(*old(m)),
{
    m.insert(key, value)
}

/// Why a frame was refused.
#[derive(Debug, Clone, Copy, PartialEq, Eq, Structural)]
pub enum ReceptionError {
    /// A new transfer arrived while `MAX_PARALLEL_RECEPTION` are in progress.
    TableFull,
    /// The first frame of a transfer does not start it.
    WrongStartFrame,
    /// The frame's toggle bit equals that of the previous frame of its
    /// transfer.
    ToggleBitError,
    /// The transfer already holds `MAX_MESSAGE_SIZE` frames.
    MessageTooLarge,
}

/// The abstract state of one transfer in progress.
pub struct TransferView {
    pub frames: Seq<DroneCanFrame>,
    pub last_toggle: bool,
    pub started_at: u32,
}

impl View for PendingTransfer {
    type V = TransferView;

    open spec fn view(&self) -> TransferView {
        TransferView {
            frames: queued_frames(self.frames),
            last_toggle: self.last_toggle,
            started_at: self.started_at,
        }
    }
}

/// The state of a transfer seen for the first time at `now`.
pub open spec fn fresh_transfer(now: u32) -> TransferView {
    TransferView { frames: Seq::empty(), last_toggle: false, started_at: now }
}

/// The toggle bit of a frame's tail byte.
pub open spec fn frame_toggle(f: DroneCanFrame) -> bool {
    toggle_bit(f.payload.stored_tailbyte().value)
}

/// What receiving `frame` for the transfer `key` at `now` does to the
/// transfers in progress `v`, and what it answers.
///
/// A new key is refused while `MAX_PARALLEL_RECEPTION` transfers are in
/// progress.  Otherwise the transfer (a fresh one for a new key) is kept
/// in progress and the frame refused when it is the first frame but does
/// not start the transfer, when its toggle bit equals that of the last
/// frame received, or when the transfer already holds `MAX_MESSAGE_SIZE`
/// frames.  An accepted frame that ends the transfer completes it and the
/// transfer leaves; any other accepted frame is appended to it.
pub open spec fn on_frame_result(
    v: Map<TransferKey, TransferView>,
    key: TransferKey,
    frame: DroneCanFrame,
    now: u32,
) -> (Map<TransferKey, TransferView>, Result<(), ReceptionError>) {
    let cur = if v.contains_key(key) { v[key] } else { fresh_transfer(now) };
    if !v.contains_key(key) && v.dom().len() >= MAX_PARALLEL_RECEPTION {
        (v, Err(ReceptionError::TableFull))
    } else if cur.frames.len() == 0 && !frame.payload.starts_transfer() {
        (v.insert(key, cur), Err(ReceptionError::WrongStartFrame))
    } else if cur.frames.len() > 0 && frame_toggle(cur.frames.last()) == frame_toggle(frame) {
        (v.insert(key, cur), Err(ReceptionError::ToggleBitError))
    } else if cur.frames.len() >= MAX_MESSAGE_SIZE {
        (v.insert(key, cur), Err(ReceptionError::MessageTooLarge))
    } else if frame.payload.ends_transfer() {
        (v.remove(key), Ok(()))
    } else {
        (
            v.insert(
                key,
                TransferView {
                    frames: cur.frames.push(frame),
                    last_toggle: cur.last_toggle,
                    started_at: cur.started_at,
                },
            ),
            Ok(()),
        )
    }
}

/// Whether a transfer in progress is consistent: at most
/// `MAX_MESSAGE_SIZE` frames, the first of which starts the transfer, none
/// of which ends it, with toggle bits alternating from frame to frame.
pub open spec fn transfer_wf(t: TransferView) -> bool {
    &&& t.frames.len() <= MAX_MESSAGE_SIZE
    &&& t.frames.len() > 0 ==> t.frames[0].payload.starts_transfer()
    &&& forall|i: int| 0 <= i < t.frames.len() ==> !(#[trigger] t.frames[i]).payload.ends_transfer()
    &&& forall|i: int|
        0 < i < t.frames.len() ==> frame_toggle(#[trigger] t.frames[i]) != frame_toggle(
            t.frames[i - 1],
        )
}

/// Whether a set of transfers in progress is consistent: finitely many, at
/// most `MAX_PARALLEL_RECEPTION`, each consistent.
pub open spec fn transfers_wf(v: Map<TransferKey, TransferView>) -> bool {
    &&& v.dom().finite()
    &&& v.dom().len() <= MAX_PARALLEL_RECEPTION
    &&& forall|k: TransferKey| #[trigger] v.contains_key(k) ==> transfer_wf(v[k])
}

/// The abstract transfers held in a map of pending transfers.
pub open spec fn pending_view(m: PendingMap) -> Map<TransferKey, TransferView> {
    pending_transfers(m).map_values(|p: PendingTransfer| p@)
}

/// Receiving a frame keeps the transfers in progress consistent.
pub proof fn lemma_on_frame_keeps_transfers_wf(
    v: Map<TransferKey, TransferView>,
    key: TransferKey,
    frame: DroneCanFrame,
    now: u32,
)
    requires
        transfers_wf(v),
    ensures
        transfers_wf(on_frame_result(v, key, frame, now).0),
{
    let cur = if v.contains_key(key) { v[key] } else { fresh_transfer(now) };
    let res = on_frame_result(v, key, frame, now).0;
    if !v.contains_key(key) && v.dom().len() >= MAX_PARALLEL_RECEPTION {
    } else {
        assert(v.dom().insert(key).len() <= MAX_PARALLEL_RECEPTION) by {
            if !v.contains_key(key) {
                assert(v.dom().insert(key).len() == v.dom().len() + 1);
            } else {
                assert(v.dom().insert(key) =~= v.dom());
            }
        }
        assert(v.dom().remove(key).len() <= v.dom().len()) by {
            if v.contains_key(key) {
                assert(v.dom().remove(key).len() == v.dom().len() - 1);
            } else {
                assert(v.dom().remove(key) =~= v.dom());
            }
        }
        if !(cur.frames.len() == 0 && !frame.payload.starts_transfer()) && !(cur.frames.len() > 0
            && frame_toggle(cur.frames.last()) == frame_toggle(frame)) && !(cur.frames.len()
            >= MAX_MESSAGE_SIZE) && !frame.payload.ends_transfer() {
            let next = cur.frames.push(frame);
            assert forall|i: int| 0 < i < next.len() implies frame_toggle(#[trigger] next[i])
                != frame_toggle(next[i - 1]) by {
                if i < next.len() - 1 {
                    assert(next[i] == cur.frames[i]);
                }
            }
            assert forall|i: int| 0 <= i < next.len() implies !(
            #[trigger] next[i]).payload.ends_transfer() by {
                if i < next.len() - 1 {
                    assert(next[i] == cur.frames[i]);
                }
            }
        }
    }
}

/// Receiving a frame changes at most the transfer of its own key.
pub proof fn lemma_on_frame_touches_only_its_key(
    v: Map<TransferKey, TransferView>,
    key: TransferKey,
    frame: DroneCanFrame,
    now: u32,
    other: TransferKey,
)
    requires
        other != key,
    ensures
        on_frame_result(v, key, frame, now).0.contains_key(other) == v.contains_key(other),
        v.contains_key(other) ==> on_frame_result(v, key, frame, now).0[other] == v[other],
{
}

/// A refused frame is not stored: the transfers in progress are those
/// before, with a fresh transfer added for a new key unless the table was
/// full.
pub proof fn lemma_refused_frame_is_not_stored(
    v: Map<TransferKey, TransferView>,
    key: TransferKey,
    frame: DroneCanFrame,
    now: u32,
)
    requires
        on_frame_result(v, key, frame, now).1 is Err,
    ensures
        on_frame_result(v, key, frame, now).0 == v || on_frame_result(v, key, frame, now).0 == v.insert(
            key,
            if v.contains_key(key) { v[key] } else { fresh_transfer(now) },
        ),
        (on_frame_result(v, key, frame, now).1 matches Err(e) && e == ReceptionError::TableFull)
            <==> on_frame_result(v, key, frame, now).0 == v && !v.contains_key(key),
{
}

/// A frame that ends its transfer and is accepted completes the transfer,
/// which is no longer in progress; an accepted frame that does not end it
/// is appended to the frames received for it.
pub proof fn lemma_accepted_frame(
    v: Map<TransferKey, TransferView>,
    key: TransferKey,
    frame: DroneCanFrame,
    now: u32,
)
    requires
        on_frame_result(v, key, frame, now).1 is Ok,
    ensures
        frame.payload.ends_transfer() ==> !on_frame_result(v, key, frame, now).0.contains_key(key),
        !frame.payload.ends_transfer() ==> on_frame_result(v, key, frame, now).0[key].frames == (
        if v.contains_key(key) { v[key].frames } else { Seq::empty() }).push(frame),
{
}

/// A frame whose toggle bit repeats that of the last frame received for
/// its transfer is refused with `ToggleBitError`, whatever kind of frame it
/// is (an end or single frame too), and the transfers are left as they
/// were.
pub proof fn lemma_repeated_toggle_is_refused(
    v: Map<TransferKey, TransferView>,
    key: TransferKey,
    frame: DroneCanFrame,
    now: u32,
)
    requires
        v.contains_key(key),
        v[key].frames.len() > 0,
        frame_toggle(v[key].frames.last()) == frame_toggle(frame),
    ensures
        on_frame_result(v, key, frame, now).1 == Err::<(), ReceptionError>(
            ReceptionError::ToggleBitError,
        ),
        on_frame_result(v, key, frame, now).0 == v,
{
    assert(v.insert(key, v[key]) =~= v);
}

/// Exactly when a frame is accepted: its transfer is in progress or there
/// is room for a new one, the first frame of a transfer starts it, every
/// later frame has the other toggle bit than the frame before it, and the
/// transfer holds fewer than `MAX_MESSAGE_SIZE` frames before it.
pub proof fn lemma_accepted_exactly_when(
    v: Map<TransferKey, TransferView>,
    key: TransferKey,
    frame: DroneCanFrame,
    now: u32,
)
    ensures
        ({
            let before = if v.contains_key(key) { v[key].frames } else { Seq::empty() };
            on_frame_result(v, key, frame, now).1 is Ok <==> {
                &&& v.contains_key(key) || v.dom().len() < MAX_PARALLEL_RECEPTION
                &&& before.len() == 0 ==> frame.payload.starts_transfer()
                &&& before.len() > 0 ==> frame_toggle(before.last()) != frame_toggle(frame)
                &&& before.len() < MAX_MESSAGE_SIZE
            }
        }),
{
}

/// A new transfer is refused with `TableFull`, and nothing changes, while
/// `MAX_PARALLEL_RECEPTION` transfers are in progress.
pub proof fn lemma_new_transfer_refused_when_table_full(
    v: Map<TransferKey, TransferView>,
    key: TransferKey,
    frame: DroneCanFrame,
    now: u32,
)
    requires
        !v.contains_key(key),
        v.dom().len() >= MAX_PARALLEL_RECEPTION,
    ensures
        on_frame_result(v, key, frame, now).1 == Err::<(), ReceptionError>(
            ReceptionError::TableFull,
        ),
        on_frame_result(v, key, frame, now).0 == v,
{
}

/// The first frame of a transfer that does not start it is refused with
/// `WrongStartFrame`; the transfer stays in progress with no frame.
pub proof fn lemma_first_frame_must_start(
    v: Map<TransferKey, TransferView>,
    key: TransferKey,
    frame: DroneCanFrame,
    now: u32,
)
    requires
        v.contains_key(key) ==> v[key].frames.len() == 0,
        v.contains_key(key) || v.dom().len() < MAX_PARALLEL_RECEPTION,
        !frame.payload.starts_transfer(),
    ensures
        on_frame_result(v, key, frame, now).1 == Err::<(), ReceptionError>(
            ReceptionError::WrongStartFrame,
        ),
        on_frame_result(v, key, frame, now).0.contains_key(key),
        on_frame_result(v, key, frame, now).0[key].frames.len() == 0,
{
}

/// A frame with the other toggle bit for a transfer that already holds
/// `MAX_MESSAGE_SIZE` frames is refused with `MessageTooLarge`, and the
/// transfers are left as they were.
pub proof fn lemma_full_transfer_refuses_frames(
    v: Map<TransferKey, TransferView>,
    key: TransferKey,
    frame: DroneCanFrame,
    now: u32,
)
    requires
        v.contains_key(key),
        v[key].frames.len() >= MAX_MESSAGE_SIZE,
        frame_toggle(v[key].frames.last()) != frame_toggle(frame),
    ensures
        on_frame_result(v, key, frame, now).1 == Err::<(), ReceptionError>(
            ReceptionError::MessageTooLarge,
        ),
        on_frame_result(v, key, frame, now).0 == v,
{
    assert(v.insert(key, v[key]) =~= v);
}

/// Reassembles multi-frame transfers from the frames received.
pub struct ReceptionManager {
    pending: PendingMap,
}

impl ReceptionManager {
    /// The transfers in progress, by key.
    pub closed spec fn transfers(&self) -> Map<TransferKey, TransferView> {
        pending_view(self.pending)
    }

    #[verifier::type_invariant]
    closed spec fn inv(self) -> bool {
        transfers_wf(self.transfers())
    }

    /// A receiver with no transfer in progress.
    pub fn new() -> (r: Self)
        ensures
            r.transfers() == Map::<TransferKey, TransferView>::empty(),
    {
        let pending = pending_new();
        assert(pending_view(pending) =~= Map::<TransferKey, TransferView>::empty());
        let r = ReceptionManager { pending };
        assert(r.transfers() =~= Map::<TransferKey, TransferView>::empty());
        r
    }

    /// Receives `frame` for the transfer `key` at time `now`, as
    /// `on_frame_result` states.
    pub fn on_frame(&mut self, key: TransferKey, frame: DroneCanFrame, now: u32) -> (r: Result<
        (),
        ReceptionError,
    >)
        ensures
            (final(self).transfers(), r) == on_frame_result(old(self).transfers(), key, frame, now),
    {
        proof {
            use_type_invariant(&*self);
        }
        let ghost v = self.transfers();
        proof {
            lemma_on_frame_keeps_transfers_wf(v, key, frame, now);
        }
        let mut pending = pending_new();
        assert(pending_view(pending) =~= Map::<TransferKey, TransferView>::empty());
        std::mem::swap(&mut pending, &mut self.pending);
        let ghost m = pending_transfers(pending);
        assert(v =~= m.map_values(|p: PendingTransfer| p@));
        assert(v.dom() =~= m.dom());

        let mut entry = match pending_remove(&mut pending, &key) {
            Some(e) => e,
            None => {
                assert(pending_transfers(pending) =~= m);
                assert(v.dom() =~= m.dom());
                if pending_is_full(&pending) {
                    assert(pending_view(pending) =~= v);
                    self.pending = pending;
                    return Err(ReceptionError::TableFull);
                }
                PendingTransfer { frames: queue_new(), last_toggle: false, started_at: now }
            },
        };
        let ghost cur = entry@;
        assert(cur == (if v.contains_key(key) { v[key] } else { fresh_transfer(now) }));
        let ghost rest = pending_transfers(pending);
        assert(rest =~= m.remove(key));
        assert(rest.dom().len() < MAX_PARALLEL_RECEPTION) by {
            if m.contains_key(key) {
                assert(m.dom().remove(key) =~= rest.dom());
            }
        }

        if queue_is_empty(&entry.frames) {
            if !frame.payload.start_of_transfer() {
                let _ = pending_insert(&mut pending, key, entry);
                assert(pending_view(pending) =~= v.insert(key, cur));
                self.pending = pending;
                return Err(ReceptionError::WrongStartFrame);
            }
        } else {
            if let Some(last_frame) = queue_back(&entry.frames) {
                if last_frame.payload.toggle() == frame.payload.toggle() {
                    let _ = pending_insert(&mut pending, key, entry);
                    assert(pending_view(pending) =~= v.insert(key, cur));
                    self.pending = pending;
                    return Err(ReceptionError::ToggleBitError);
                }
            }
        }

        match queue_push_back(&mut entry.frames, frame) {
            Ok(()) => {},
            Err(_) => {
                let _ = pending_insert(&mut pending, key, entry);
                assert(pending_view(pending) =~= v.insert(key, cur));
                self.pending = pending;
                return Err(ReceptionError::MessageTooLarge);
            },
        }

        if queue_back(&entry.frames).unwrap().payload.end_of_transfer() {
            assert(pending_view(pending) =~= v.remove(key));
            self.pending = pending;
        } else {
            let ghost next = entry@;
            let _ = pending_insert(&mut pending, key, entry);
            assert(pending_view(pending) =~= v.insert(key, next));
            self.pending = pending;
        }
        Ok(())
    }
}

} // verus!
