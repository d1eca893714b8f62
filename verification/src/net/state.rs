//! Client connection states, and the queues that hold packets until the
//! state's handlers take them.

use crate::cursor::unread;
use crate::error::IoError;
use crate::io::mc::{McRead, McWrite};
use crate::io::packet::RawPacket;
use std::collections::{HashMap, VecDeque};
use vstd::prelude::*;

verus! {

broadcast use vstd::std_specs::hash::group_hash_axioms;

/// A client connection state in the Minecraft protocol.
pub trait ProtocolState: Sized {
    /// Where packets received in this state wait.
    type Queue: ProtocolQueue + Default;
}

/// The initial client connection [`ProtocolState`].
pub struct Handshake;

impl ProtocolState for Handshake {
    type Queue = ();
}

/// A potential client connection [`ProtocolState`] after [`Handshake`].
pub struct Status;

impl ProtocolState for Status {
    type Queue = HashMap<i32, VecDeque<RawPacket>>;
}

/// A potential client connection [`ProtocolState`] after [`Handshake`].
pub struct Login;

impl ProtocolState for Login {
    type Queue = HashMap<i32, VecDeque<RawPacket>>;
}

/// The client connection [`ProtocolState`] after a successful [`Login`].
pub struct Play;

impl ProtocolState for Play {
    type Queue = HashMap<i32, VecDeque<RawPacket>>;
}

/// A store of [`RawPacket`]s, grouped by their ID.
pub trait ProtocolQueue: Sized {
    /// Takes the oldest stored packet with the given ID, if any.
    fn pop(&mut self, id: i32) -> Option<RawPacket>;

    /// Stores a packet.
    fn push(&mut self, packet: RawPacket);
}

/// The unit queue stores nothing.
impl ProtocolQueue for () {
    fn pop(&mut self, id: i32) -> (r: Option<RawPacket>)
        ensures
            r is None,
    {
        None
    }

    fn push(&mut self, packet: RawPacket) {
    }
}

/// The packets waiting under each ID, oldest first.
pub open spec fn queues(m: HashMap<i32, VecDeque<RawPacket>>) -> Map<i32, Seq<RawPacket>> {
    m@.map_values(|q: VecDeque<RawPacket>| q@)
}

/// The packets waiting under `id`, oldest first.
pub open spec fn pending(qs: Map<i32, Seq<RawPacket>>, id: i32) -> Seq<RawPacket> {
    if qs.contains_key(id) {
        qs[id]
    } else {
        Seq::empty()
    }
}

/// The queues after a packet is stored: it goes last under its ID.
pub open spec fn queues_push(qs: Map<i32, Seq<RawPacket>>, p: RawPacket) -> Map<i32, Seq<RawPacket>> {
    qs.insert(p.id, pending(qs, p.id).push(p))
}

/// What taking a packet under `id` gives: the oldest one there, if any, and
/// the queues without it.
pub open spec fn queues_pop(qs: Map<i32, Seq<RawPacket>>, id: i32) -> (Option<RawPacket>, Map<i32, Seq<RawPacket>>) {
    if pending(qs, id).len() > 0 {
        (Some(pending(qs, id)[0]), qs.insert(id, pending(qs, id).drop_first()))
    } else {
        (None, qs)
    }
}

impl ProtocolQueue for HashMap<i32, VecDeque<RawPacket>> {
    fn pop(&mut self, id: i32) -> (r: Option<RawPacket>)
        ensures
            r == queues_pop(queues(*old(self)), id).0,
            queues(*final(self)) == queues_pop(queues(*old(self)), id).1,
    {
        match self.remove(&id) {
            Some(mut queue) => {
                let r = queue.pop_front();
                self.insert(id, queue);
                proof {
                    let qs = queues(*old(self));
                    if pending(qs, id).len() > 0 {
                        assert(queues(*self) =~= qs.insert(id, pending(qs, id).drop_first()));
                    } else {
                        assert(queues(*self) =~= qs);
                    }
                }
                r
            },
            None => {
                assert(queues(*self) =~= queues(*old(self)));
                None
            },
        }
    }

    fn push(&mut self, packet: RawPacket)
        ensures
            queues(*final(self)) == queues_push(queues(*old(self)), packet),
    {
        let id = packet.id;
        let ghost qs = queues(*self);
        let ghost p = packet;
        let mut queue = match self.remove(&id) {
            Some(queue) => queue,
            None => VecDeque::new(),
        };
        queue.push_back(packet);
        self.insert(id, queue);
        assert(queues(*self) =~= queues_push(qs, p));
    }
}

/// Packets under one ID come out in the order they went in: storing a
/// packet and then taking one under its ID gives the stored packet when
/// none was waiting (and leaves nothing waiting there), and otherwise gives
/// the oldest waiting packet, as taking it first and storing the new one
/// after would.
pub proof fn lemma_queue_fifo(qs: Map<i32, Seq<RawPacket>>, p: RawPacket)
    ensures
        pending(qs, p.id).len() == 0 ==> queues_pop(queues_push(qs, p), p.id) == (
        Some(p),
        qs.insert(p.id, Seq::<RawPacket>::empty()),
        ),
        pending(qs, p.id).len() > 0 ==> queues_pop(queues_push(qs, p), p.id) == (
        queues_pop(qs, p.id).0,
        queues_push(queues_pop(qs, p.id).1, p),
        ),
{
    let q = pending(qs, p.id);
    if q.len() > 0 {
        assert(q.push(p).drop_first() =~= q.drop_first().push(p));
        assert(queues_pop(queues_push(qs, p), p.id).1 =~= queues_push(queues_pop(qs, p.id).1, p));
    } else {
        assert(q.push(p).drop_first() =~= Seq::<RawPacket>::empty());
        assert(queues_pop(queues_push(qs, p), p.id).1 =~= qs.insert(p.id, Seq::<RawPacket>::empty()));
    }
}

/// Storing a packet leaves the packets under other IDs alone.
pub proof fn lemma_queue_push_other(qs: Map<i32, Seq<RawPacket>>, p: RawPacket, id: i32)
    requires
        id != p.id,
    ensures
        pending(queues_push(qs, p), id) == pending(qs, id),
{
}

/// The queues after storing packets one after another.
pub open spec fn queues_push_all(qs: Map<i32, Seq<RawPacket>>, ps: Seq<RawPacket>) -> Map<i32, Seq<RawPacket>>
    decreases ps.len(),
{
    if ps.len() == 0 {
        qs
    } else {
        queues_push(queues_push_all(qs, ps.drop_last()), ps.last())
    }
}

/// Where the first packet with `id` stands in `ps`; -1 when none does.
pub open spec fn first_with_id(ps: Seq<RawPacket>, id: i32) -> int
    decreases ps.len(),
{
    if ps.len() == 0 {
        -1
    } else if first_with_id(ps.drop_last(), id) >= 0 {
        first_with_id(ps.drop_last(), id)
    } else if ps.last().id == id {
        ps.len() - 1
    } else {
        -1
    }
}

/// A prefix that holds a packet with `id` holds the first one.
proof fn lemma_first_with_id_prefix(ps: Seq<RawPacket>, id: i32, j: int)
    requires
        0 <= j <= ps.len(),
        first_with_id(ps.take(j), id) >= 0,
    ensures
        first_with_id(ps, id) == first_with_id(ps.take(j), id),
    decreases ps.len(),
{
    if j == ps.len() {
        assert(ps.take(j) =~= ps);
    } else {
        assert(ps.drop_last().take(j) =~= ps.take(j));
        lemma_first_with_id_prefix(ps.drop_last(), id, j);
    }
}

/// The packet that taking the next one with `id` gives: the oldest stored
/// under `id`, else the first arrived one with `id`, if any.
pub open spec fn taken_packet(qs: Map<i32, Seq<RawPacket>>, incoming: Seq<RawPacket>, id: i32) -> Option<RawPacket> {
    if pending(qs, id).len() > 0 {
        Some(pending(qs, id)[0])
    } else if first_with_id(incoming, id) >= 0 {
        Some(incoming[first_with_id(incoming, id)])
    } else {
        None
    }
}

/// Takes the next packet with the given ID for a client: the oldest one
/// stored under that ID if there is one; otherwise the first one among the
/// packets that arrived, storing those before it (and all of them, when
/// none has the ID) in the queue.
pub fn take_packet(
    queue: &mut HashMap<i32, VecDeque<RawPacket>>,
    incoming: &mut VecDeque<RawPacket>,
    id: i32,
) -> (r: Option<RawPacket>)
    ensures
        r == taken_packet(queues(*old(queue)), old(incoming)@, id),
        pending(queues(*old(queue)), id).len() > 0 ==> queues(*final(queue)) == queues_pop(queues(*old(queue)), id).1
            && final(incoming)@ == old(incoming)@,
        pending(queues(*old(queue)), id).len() == 0 ==> ({
            let k = first_with_id(old(incoming)@, id);
            if k >= 0 {
                &&& queues(*final(queue)) == queues_push_all(queues(*old(queue)), old(incoming)@.take(k))
                &&& final(incoming)@ == old(incoming)@.skip(k + 1)
            } else {
                &&& queues(*final(queue)) == queues_push_all(queues(*old(queue)), old(incoming)@)
                &&& final(incoming)@ == Seq::<RawPacket>::empty()
            }
        }),
{
    // check the queue for a matching packet
    let from_queue = queue.pop(id);
    if from_queue.is_some() {
        return from_queue;
    }
    // if the queue was empty, check the arrived packets
    let ghost start = incoming@;
    let ghost qs0 = queues(*queue);
    assert(qs0 == queues(*old(queue)));
    let ghost mut taken: int = 0;
    assert(start.take(0) =~= Seq::<RawPacket>::empty());
    assert(start.skip(0) =~= start);
    while incoming.len() > 0
        invariant
            pending(queues(*old(queue)), id).len() == 0,
            qs0 == queues(*old(queue)),
            start == old(incoming)@,
            0 <= taken <= start.len(),
            incoming@ == start.skip(taken),
            first_with_id(start.take(taken), id) < 0,
            queues(*queue) == queues_push_all(qs0, start.take(taken)),
        decreases incoming.len(),
    {
        let packet = incoming.pop_front().unwrap();
        assert(start.take(taken + 1).drop_last() =~= start.take(taken));
        assert(start.take(taken + 1).last() == packet);
        assert(start.skip(taken).subrange(1, start.skip(taken).len() as int) =~= start.skip(taken + 1));
        if packet.id == id {
            proof {
                lemma_first_with_id_prefix(start, id, taken + 1);
            }
            return Some(packet);
        }
        queue.push(packet);
        proof {
            taken = taken + 1;
        }
    }
    assert(start.take(taken) =~= start);
    None
}

/// Takes the next packet with the given ID for a client, as
/// [`take_packet`] does (keeping the packets before it in the queue, in
/// order, and leaving those after it unread), and reads its body: `None`
/// when there is no such packet, else what reading the body gives.
pub fn read_queued<T: McRead>(
    queue: &mut HashMap<i32, VecDeque<RawPacket>>,
    incoming: &mut VecDeque<RawPacket>,
    id: i32,
    args: &T::Args,
) -> (r: Option<Result<T, IoError>>)
    requires
        T::read_ok(*args),
    ensures
        match taken_packet(queues(*old(queue)), old(incoming)@, id) {
            None => r is None,
            Some(p) => r matches Some(res) && match T::spec_read(*args, p.body@) {
                Ok((v, _)) => res matches Ok(x) && x.deep_view() == v,
                Err(e) => res matches Err(e2) && e2 == e,
            },
        },
        pending(queues(*old(queue)), id).len() > 0 ==> queues(*final(queue)) == queues_pop(queues(*old(queue)), id).1
            && final(incoming)@ == old(incoming)@,
        pending(queues(*old(queue)), id).len() == 0 ==> ({
            let k = first_with_id(old(incoming)@, id);
            if k >= 0 {
                &&& queues(*final(queue)) == queues_push_all(queues(*old(queue)), old(incoming)@.take(k))
                &&& final(incoming)@ == old(incoming)@.skip(k + 1)
            } else {
                &&& queues(*final(queue)) == queues_push_all(queues(*old(queue)), old(incoming)@)
                &&& final(incoming)@ == Seq::<RawPacket>::empty()
            }
        }),
{
    match take_packet(queue, incoming, id) {
        None => None,
        Some(packet) => {
            let mut reader = packet.reader();
            assert(unread(reader) =~= packet.body@);
            Some(T::read(&mut reader, args))
        },
    }
}

/// Encodes a packet's body under the given ID.
pub fn encode_body<T: McWrite>(packet: &T, id: i32, args: &T::Args) -> (r: Result<RawPacket, IoError>)
    ensures
        match T::spec_write(packet.deep_view(), *args) {
            Ok(b) => r matches Ok(p) && p.id == id && p.body@ == b,
            Err(e) => r matches Err(e2) && e2 == e,
        },
{
    let mut body: Vec<u8> = Vec::new();
    match packet.write(&mut body, args) {
        Ok(()) => {
            assert(body@ =~= Seq::<u8>::empty() + body@);
            Ok(RawPacket { id, body })
        },
        Err(e) => Err(e),
    }
}

} // verus!
