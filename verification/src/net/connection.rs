//! Framing of encoded events over an ordered byte stream.
//!
//! Every message is escaped, so that neither the delimiter nor the escape
//! byte occurs in it bare, and then closed by one bare delimiter. The
//! receiving side looks at the bytes that have arrived without taking them,
//! and takes a message out only once its closing delimiter is there.

use core::marker::PhantomData;
use crate::net::event::{Event, EventView};
use crate::net::protocol::{
    lemma_decode_encode, spec_encode, spec_view_of, Protocol, SmartProtocol,
};
use std::collections::VecDeque;
use vstd::prelude::*;

verus! {

/// The byte that closes a message: a line feed.
pub const DELIMITER: u8 = 0x0A;

/// The byte that announces a literal byte: ESC.
pub const ESCAPE: u8 = 0x1B;

/// One byte as it travels: reserved bytes get the escape byte in front.
pub open spec fn spec_escape_byte(byte: u8) -> Seq<u8> {
    if byte == ESCAPE || byte == DELIMITER {
        seq![ESCAPE, byte]
    } else {
        seq![byte]
    }
}

/// A message as it travels, without its closing delimiter.
pub open spec fn spec_escape(bytes: Seq<u8>) -> Seq<u8>
    decreases bytes.len(),
{
    if bytes.len() == 0 {
        Seq::empty()
    } else {
        spec_escape_byte(bytes[0]) + spec_escape(bytes.skip(1))
    }
}

/// The message that escaped bytes stand for: each escape byte is dropped
/// and the byte after it taken as it is. An escape byte with nothing after
/// it is dropped.
pub open spec fn spec_unescape(bytes: Seq<u8>) -> Seq<u8>
    decreases bytes.len(),
{
    if bytes.len() == 0 {
        Seq::empty()
    } else if bytes[0] == ESCAPE {
        if bytes.len() == 1 {
            Seq::empty()
        } else {
            seq![bytes[1]] + spec_unescape(bytes.skip(2))
        }
    } else {
        seq![bytes[0]] + spec_unescape(bytes.skip(1))
    }
}

/// The position of the first delimiter at or after `from` that no escape
/// byte announces, reading from `from` on.
pub open spec fn spec_first_unescaped_newline(bytes: Seq<u8>, from: int) -> Option<int>
    decreases bytes.len() - from,
{
    if from < 0 || from >= bytes.len() {
        None
    } else if bytes[from] == ESCAPE {
        if from + 1 >= bytes.len() {
            None
        } else {
            spec_first_unescaped_newline(bytes, from + 2)
        }
    } else if bytes[from] == DELIMITER {
        Some(from)
    } else {
        spec_first_unescaped_newline(bytes, from + 1)
    }
}

/// A message as it is written to the stream: escaped and closed.
pub open spec fn spec_frame(message: Seq<u8>) -> Seq<u8> {
    spec_escape(message).push(DELIMITER)
}

/// Escapes the reserved bytes by placing the escape byte before them.
pub fn escape_bytes(bytes: &[u8]) -> (escaped: Vec<u8>)
    ensures
        escaped@ == spec_escape(bytes@),
{
    let mut escaped: Vec<u8> = Vec::new();
    let mut i: usize = 0;
    assert(escaped@ + spec_escape(bytes@.skip(0)) =~= spec_escape(bytes@)) by {
        assert(bytes@.skip(0) =~= bytes@);
    }
    while i < bytes.len()
        invariant
            i <= bytes.len(),
            spec_escape(bytes@) == escaped@ + spec_escape(bytes@.skip(i as int)),
        decreases bytes.len() - i,
    {
        let byte: u8 = bytes[i];
        proof {
            assert(bytes@.skip(i as int).skip(1) =~= bytes@.skip(i + 1));
            assert(escaped@ + (spec_escape_byte(byte) + spec_escape(bytes@.skip(i + 1))) =~= escaped@
                + spec_escape_byte(byte) + spec_escape(bytes@.skip(i + 1)));
        }
        let ghost before = escaped@;
        if byte == ESCAPE {
            escaped.push(ESCAPE);
            escaped.push(ESCAPE);
        } else if byte == DELIMITER {
            escaped.push(ESCAPE);
            escaped.push(DELIMITER);
        } else {
            escaped.push(byte);
        }
        assert(escaped@ =~= before + spec_escape_byte(byte));
        i += 1;
    }
    assert(escaped@ + spec_escape(bytes@.skip(bytes@.len() as int)) =~= escaped@);
    escaped
}

/// Undoes `escape_bytes`.
pub fn unescape_bytes(bytes: &[u8]) -> (unescaped: Vec<u8>)
    ensures
        unescaped@ == spec_unescape(bytes@),
{
    let mut unescaped: Vec<u8> = Vec::new();
    let mut i: usize = 0;
    assert(unescaped@ + spec_unescape(bytes@.skip(0)) =~= spec_unescape(bytes@)) by {
        assert(bytes@.skip(0) =~= bytes@);
    }
    while i < bytes.len()
        invariant
            i <= bytes.len(),
            spec_unescape(bytes@) == unescaped@ + spec_unescape(bytes@.skip(i as int)),
        decreases bytes.len() - i,
    {
        let byte: u8 = bytes[i];
        let ghost before = unescaped@;
        let ghost rest = bytes@.skip(i as int);
        if byte == ESCAPE {
            if i + 1 < bytes.len() {
                unescaped.push(bytes[i + 1]);
                proof {
                    assert(rest.skip(2) =~= bytes@.skip(i + 2));
                    assert(before + (seq![rest[1]] + spec_unescape(rest.skip(2))) =~= before.push(
                        rest[1],
                    ) + spec_unescape(rest.skip(2)));
                }
                i += 2;
            } else {
                proof {
                    assert(rest.len() == 1);
                    assert(bytes@.skip(i + 1).len() == 0);
                    assert(before + Seq::<u8>::empty() =~= before + spec_unescape(
                        bytes@.skip(i + 1),
                    ));
                }
                i += 1;
            }
        } else {
            unescaped.push(byte);
            proof {
                assert(rest.skip(1) =~= bytes@.skip(i + 1));
                assert(before + (seq![rest[0]] + spec_unescape(rest.skip(1))) =~= before.push(
                    rest[0],
                ) + spec_unescape(rest.skip(1)));
            }
            i += 1;
        }
    }
    assert(unescaped@ + spec_unescape(bytes@.skip(bytes@.len() as int)) =~= unescaped@);
    unescaped
}

/// Finds the first delimiter that no escape byte announces.
pub fn index_of_first_unescaped_newline(bytes: &[u8]) -> (index: Option<usize>)
    ensures
        match index {
            Some(found) => spec_first_unescaped_newline(bytes@, 0) == Some(found as int) && found
                < bytes@.len(),
            None => spec_first_unescaped_newline(bytes@, 0).is_none(),
        },
{
    let mut i: usize = 0;
    while i < bytes.len()
        invariant
            spec_first_unescaped_newline(bytes@, 0) == spec_first_unescaped_newline(
                bytes@,
                i as int,
            ),
        decreases bytes.len() - i,
    {
        let byte: u8 = bytes[i];
        if byte == ESCAPE {
            if i + 1 < bytes.len() {
                i += 2;
            } else {
                return None;
            }
        } else if byte == DELIMITER {
            return Some(i);
        } else {
            i += 1;
        }
    }
    None
}

/// Escaping and then unescaping gives back the bytes, wherever delimiter
/// and escape bytes stand in them.
pub proof fn lemma_unescape_escape(bytes: Seq<u8>)
    ensures
        spec_unescape(spec_escape(bytes)) == bytes,
    decreases bytes.len(),
{
    if bytes.len() > 0 {
        let rest = bytes.skip(1);
        let escaped = spec_escape(bytes);
        lemma_unescape_escape(rest);
        if bytes[0] == ESCAPE || bytes[0] == DELIMITER {
            assert(escaped.skip(2) =~= spec_escape(rest));
        } else {
            assert(escaped.skip(1) =~= spec_escape(rest));
        }
        assert(seq![bytes[0]] + rest =~= bytes);
    }
}

/// In a stream that holds `before`, then a framed message, then whatever
/// follows, a search that starts where the frame starts finds the frame's
/// closing delimiter and nothing earlier.
pub proof fn lemma_frame_boundary(before: Seq<u8>, message: Seq<u8>, after: Seq<u8>)
    ensures
        spec_first_unescaped_newline(
            before + spec_frame(message) + after,
            before.len() as int,
        ) == Some((before.len() + spec_escape(message).len()) as int),
    decreases message.len(),
{
    let stream = before + spec_frame(message) + after;
    if message.len() == 0 {
        assert(stream[before.len() as int] == DELIMITER);
    } else {
        let rest = message.skip(1);
        let head = spec_escape_byte(message[0]);
        lemma_frame_boundary(before + head, rest, after);
        assert(stream =~= before + head + spec_frame(rest) + after);
        if message[0] == ESCAPE || message[0] == DELIMITER {
            assert(stream[before.len() as int] == ESCAPE);
        } else {
            assert(stream[before.len() as int] == message[0]);
        }
    }
}

/// Where the first complete message among the arrived bytes ends, if one
/// is complete, however long it is.
pub open spec fn spec_next_frame(arrived: Seq<u8>) -> Option<int> {
    spec_first_unescaped_newline(arrived, 0)
}

/// What one call of `recv` returns on the arrived bytes, and the bytes it
/// leaves. Without a complete message nothing is taken. With one, the
/// message and its delimiter are taken whether or not it stands for an
/// event.
pub open spec fn spec_recv<P: Protocol>(arrived: Seq<u8>) -> (Option<EventView>, Seq<u8>) {
    match spec_next_frame(arrived) {
        Some(end) => (P::decoded(spec_unescape(arrived.take(end))), arrived.skip(end + 1)),
        None => (None, arrived),
    }
}

/// What `recv_multiple` returns on the arrived bytes, and the bytes it
/// leaves: the events of successive calls of `recv`, up to `limit` of them
/// and up to the first call that returns none.
pub open spec fn spec_recv_multiple<P: Protocol>(arrived: Seq<u8>, limit: nat) -> (
    Seq<EventView>,
    Seq<u8>,
)
    decreases limit,
{
    if limit == 0 {
        (Seq::empty(), arrived)
    } else {
        let (event, rest) = spec_recv::<P>(arrived);
        match event {
            Some(event) => {
                let (more, left) = spec_recv_multiple::<P>(rest, (limit - 1) as nat);
                (seq![event] + more, left)
            },
            None => (Seq::empty(), rest),
        }
    }
}

/// The views of a queue of events, in order.
pub open spec fn spec_views(events: Seq<Event>) -> Seq<EventView> {
    events.map_values(|event: Event| event@)
}

/// A connection as a mathematical value.
pub ghost struct ConnectionView {
    /// The bytes that arrived and were not yet taken out as messages.
    pub arrived: Seq<u8>,
    /// The bytes of sent messages that the host has not yet collected.
    pub unsent: Seq<u8>,
    /// Whether the peer runs on this machine.
    pub local: bool,
}

/// One end of a framed connection to a peer.
///
/// The connection holds the bytes that arrived from the peer and were not
/// yet taken out as messages, and the bytes of sent messages that the host
/// has not yet written to the stream. The host moves bytes between the two
/// queues and the stream; the connection frames and unframes.
pub struct Connection<PROTOCOL: Protocol> {
    incoming: Vec<u8>,
    outgoing: Vec<u8>,
    local: bool,
    protocol_marker: PhantomData<PROTOCOL>,
}

impl<PROTOCOL: Protocol> View for Connection<PROTOCOL> {
    type V = ConnectionView;

    closed spec fn view(&self) -> ConnectionView {
        ConnectionView { arrived: self.incoming@, unsent: self.outgoing@, local: self.local }
    }
}

impl<PROTOCOL: Protocol> Connection<PROTOCOL> {
    /// A connection with nothing arrived and nothing to write. `local` says
    /// whether the peer runs on this machine.
    pub fn new(local: bool) -> (connection: Self)
        ensures
            connection@ == (ConnectionView {
                arrived: Seq::empty(),
                unsent: Seq::empty(),
                local,
            }),
    {
        Connection {
            incoming: Vec::new(),
            outgoing: Vec::new(),
            local,
            protocol_marker: PhantomData,
        }
    }

    /// Sends an event: its encoding is escaped, closed with a delimiter and
    /// queued for the host to write.
    pub fn send(&mut self, event: &Event)
        ensures
            final(self)@ == (ConnectionView {
                unsent: old(self)@.unsent + spec_frame(PROTOCOL::encoded(event@)),
                ..old(self)@
            }),
    {
        let event_bytes = PROTOCOL::encode(event);
        let mut escaped_bytes = escape_bytes(event_bytes.as_slice());
        escaped_bytes.push(DELIMITER);
        self.outgoing.append(&mut escaped_bytes);
    }

    /// Hands the queued bytes to the host, which writes them to the stream.
    pub fn take_outgoing(&mut self) -> (bytes: Vec<u8>)
        ensures
            bytes@ == old(self)@.unsent,
            final(self)@ == (ConnectionView { unsent: Seq::empty(), ..old(self)@ }),
    {
        let mut bytes: Vec<u8> = Vec::new();
        bytes.append(&mut self.outgoing);
        bytes
    }

    /// Takes in bytes that the host read from the stream.
    pub fn feed(&mut self, bytes: &[u8])
        ensures
            final(self)@ == (ConnectionView {
                arrived: old(self)@.arrived + bytes@,
                ..old(self)@
            }),
    {
        self.incoming.extend_from_slice(bytes);
        assert(self.incoming@ =~= old(self).incoming@ + bytes@);
    }

    /// Receives an event, if a complete message has arrived. Never waits:
    /// with no complete message among the arrived bytes it returns `None`
    /// and takes nothing.
    pub fn recv(&mut self) -> (event: Option<Event>)
        ensures
            spec_view_of(event) == spec_recv::<PROTOCOL>(old(self)@.arrived).0,
            final(self)@ == (ConnectionView {
                arrived: spec_recv::<PROTOCOL>(old(self)@.arrived).1,
                ..old(self)@
            }),
    {
        let found = index_of_first_unescaped_newline(self.incoming.as_slice());
        match found {
            Some(first_newline_index) => {
                assert(first_newline_index < self.incoming.len());
                let rest = self.incoming.split_off(first_newline_index + 1);
                let event_bytes = unescape_bytes(
                    &self.incoming.as_slice()[0..first_newline_index],
                );
                proof {
                    assert(self.incoming@.subrange(0, first_newline_index as int) =~= old(
                        self,
                    ).incoming@.take(first_newline_index as int));
                    assert(rest@ =~= old(self).incoming@.skip(first_newline_index + 1));
                }
                self.incoming = rest;
                PROTOCOL::decode(event_bytes.as_slice())
            },
            None => None,
        }
    }

    /// Receives up to `event_limit` events: calls `recv` until it returns
    /// `None` or the limit is reached.
    pub fn recv_multiple(&mut self, event_limit: usize) -> (events: VecDeque<Event>)
        ensures
            spec_views(events@) == spec_recv_multiple::<PROTOCOL>(
                old(self)@.arrived,
                event_limit as nat,
            ).0,
            final(self)@ == (ConnectionView {
                arrived: spec_recv_multiple::<PROTOCOL>(old(self)@.arrived, event_limit as nat).1,
                ..old(self)@
            }),
    {
        let mut events: VecDeque<Event> = VecDeque::new();
        assert(spec_views(events@) =~= Seq::<EventView>::empty());
        while events.len() < event_limit
            invariant_except_break
                spec_recv_multiple::<PROTOCOL>(old(self)@.arrived, event_limit as nat) == ({
                    let (more, left) = spec_recv_multiple::<PROTOCOL>(
                        self@.arrived,
                        (event_limit - events@.len()) as nat,
                    );
                    (spec_views(events@) + more, left)
                }),
            invariant
                events@.len() <= event_limit,
                self@.unsent == old(self)@.unsent,
                self@.local == old(self)@.local,
            ensures
                (spec_views(events@), self@.arrived) == spec_recv_multiple::<PROTOCOL>(
                    old(self)@.arrived,
                    event_limit as nat,
                ),
                self@.unsent == old(self)@.unsent,
                self@.local == old(self)@.local,
            decreases event_limit - events@.len(),
        {
            let ghost before = events@;
            match self.recv() {
                Some(event) => {
                    events.push_back(event);
                    proof {
                        let (more, left) = spec_recv_multiple::<PROTOCOL>(
                            self@.arrived,
                            (event_limit - events@.len()) as nat,
                        );
                        assert(spec_views(events@) =~= spec_views(before).push(event@));
                        assert(spec_views(before) + (seq![event@] + more) =~= spec_views(events@)
                            + more);
                    }
                },
                None => {
                    proof {
                        assert(spec_views(events@) + Seq::<EventView>::empty() =~= spec_views(
                            events@,
                        ));
                    }
                    break ;
                },
            }
        }
        proof {
            if events@.len() == event_limit {
                assert(spec_views(events@) + Seq::<EventView>::empty() =~= spec_views(events@));
            }
        }
        events
    }

    /// Whether the peer runs on this machine.
    pub fn is_local(&self) -> (local: bool)
        ensures
            local == self@.local,
    {
        self.local
    }
}

/// A framed message at the head of the arrived bytes is what `recv` takes
/// next, however long it is: the message is decoded and exactly the frame is
/// taken, whatever follows it.
pub proof fn lemma_recv_framed<P: Protocol>(message: Seq<u8>, after: Seq<u8>)
    ensures
        spec_recv::<P>(spec_frame(message) + after) == (P::decoded(message), after),
{
    let frame = spec_frame(message);
    let arrived = frame + after;
    let end = spec_escape(message).len() as int;
    assert(arrived =~= Seq::<u8>::empty() + frame + after);
    lemma_frame_boundary(Seq::empty(), message, after);
    assert(arrived.take(end) =~= spec_escape(message));
    assert(arrived.skip(end + 1) =~= after);
    lemma_unescape_escape(message);
}

/// A frame of which the closing delimiter has not arrived holds no
/// boundary: a search that starts where the frame starts finds nothing in
/// the first `cut` bytes of the frame, wherever the bytes stop.
pub proof fn lemma_partial_frame_has_no_boundary(before: Seq<u8>, message: Seq<u8>, cut: int)
    requires
        0 <= cut <= spec_escape(message).len(),
    ensures
        spec_first_unescaped_newline(
            before + spec_frame(message).take(cut),
            before.len() as int,
        ).is_none(),
    decreases message.len(),
{
    let stream = before + spec_frame(message).take(cut);
    if cut > 0 {
        let rest = message.skip(1);
        let head = spec_escape_byte(message[0]);
        assert(spec_frame(message) =~= head + spec_frame(rest));
        if message[0] == ESCAPE || message[0] == DELIMITER {
            assert(stream[before.len() as int] == ESCAPE);
            if cut >= 2 {
                lemma_partial_frame_has_no_boundary(before + head, rest, cut - 2);
                assert(stream =~= before + head + spec_frame(rest).take(cut - 2));
            }
        } else {
            assert(stream[before.len() as int] == message[0]);
            lemma_partial_frame_has_no_boundary(before + head, rest, cut - 1);
            assert(stream =~= before + head + spec_frame(rest).take(cut - 1));
        }
    }
}

/// While a frame is still arriving, `recv` returns nothing and takes
/// nothing; once the rest has arrived, `lemma_recv_framed` says that the
/// next call yields the event.
pub proof fn lemma_recv_waits_for_the_whole_frame<P: Protocol>(message: Seq<u8>, cut: int)
    requires
        0 <= cut < spec_frame(message).len(),
    ensures
        spec_recv::<P>(spec_frame(message).take(cut)) == (
            None::<EventView>,
            spec_frame(message).take(cut),
        ),
{
    lemma_partial_frame_has_no_boundary(Seq::empty(), message, cut);
    assert(Seq::<u8>::empty() + spec_frame(message).take(cut) =~= spec_frame(message).take(cut));
}

/// A row of messages as they stand in the stream: each escaped and closed,
/// one behind the other.
pub open spec fn spec_frames(messages: Seq<Seq<u8>>) -> Seq<u8>
    decreases messages.len(),
{
    if messages.len() == 0 {
        Seq::empty()
    } else {
        spec_frame(messages[0]) + spec_frames(messages.skip(1))
    }
}

/// The events that a row of decodable messages stands for, in order.
pub open spec fn spec_decoded_all<P: Protocol>(messages: Seq<Seq<u8>>) -> Seq<EventView> {
    Seq::new(messages.len(), |i: int| P::decoded(messages[i]).unwrap())
}

/// The smaller of two counts.
pub open spec fn spec_min(a: int, b: int) -> int {
    if a <= b {
        a
    } else {
        b
    }
}

/// When complete frames of decodable messages have arrived, followed by an
/// incomplete frame or by nothing, `recv_multiple` returns their events in
/// the order of arrival, as many as there are but no more than the limit.
/// The frames beyond the limit, and whatever follows the frames, stay where
/// they are. This holds of frames of any length.
pub proof fn lemma_recv_multiple_framed<P: Protocol>(
    messages: Seq<Seq<u8>>,
    tail: Seq<u8>,
    limit: nat,
)
    requires
        forall|i: int| 0 <= i < messages.len() ==> P::decoded(#[trigger] messages[i]).is_some(),
        spec_next_frame(tail).is_none(),
    ensures
        ({
            let count = spec_min(messages.len() as int, limit as int);
            spec_recv_multiple::<P>(spec_frames(messages) + tail, limit) == (
                spec_decoded_all::<P>(messages.take(count)),
                spec_frames(messages.skip(count)) + tail,
            )
        }),
    decreases limit,
{
    let arrived = spec_frames(messages) + tail;
    let count = spec_min(messages.len() as int, limit as int);
    if limit == 0 {
        assert(messages.skip(0) =~= messages);
        assert(spec_decoded_all::<P>(messages.take(0)) =~= Seq::<EventView>::empty());
    } else if messages.len() == 0 {
        assert(arrived =~= tail);
        assert(messages.skip(0) =~= messages);
        assert(spec_decoded_all::<P>(messages.take(0)) =~= Seq::<EventView>::empty());
    } else {
        let rest = messages.skip(1);
        let behind = spec_frames(rest) + tail;
        assert(arrived =~= spec_frame(messages[0]) + behind);
        lemma_recv_framed::<P>(messages[0], behind);
        assert forall|i: int| 0 <= i < rest.len() implies P::decoded(
            #[trigger] rest[i],
        ).is_some() by {
            assert(rest[i] == messages[i + 1]);
        }
        lemma_recv_multiple_framed::<P>(rest, tail, (limit - 1) as nat);
        let more = spec_min(rest.len() as int, limit - 1);
        assert(count == more + 1);
        assert(rest.skip(more) =~= messages.skip(count));
        assert(seq![P::decoded(messages[0]).unwrap()] + spec_decoded_all::<P>(rest.take(more))
            =~= spec_decoded_all::<P>(messages.take(count)));
    }
}

/// Escaping at most doubles a message and never shortens it.
pub proof fn lemma_escape_len(bytes: Seq<u8>)
    ensures
        bytes.len() <= spec_escape(bytes).len() <= 2 * bytes.len(),
    decreases bytes.len(),
{
    if bytes.len() > 0 {
        lemma_escape_len(bytes.skip(1));
    }
}

/// An event that one side sends is the event that the other side receives
/// next, field for field and bit for bit, whatever is sent after it and
/// however long the event is.
pub proof fn lemma_sent_event_is_received(event: EventView, after: Seq<u8>)
    ensures
        spec_recv::<SmartProtocol>(spec_frame(spec_encode(event)) + after) == (Some(event), after),
{
    lemma_recv_framed::<SmartProtocol>(spec_encode(event), after);
    lemma_decode_encode(event);
}

} // verus!
