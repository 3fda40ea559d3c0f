//! Packet framing.
//!
//! Host -> device (`REQ_MAGIC`):
//!   [0]    0xAA
//!   [1]    command
//!   [2]    payload length carried by this packet (or a command-specific scalar)
//!   [3..5] little-endian address / offset of this chunk
//!   [5..8] up to three command-specific header bytes; when they are absent,
//!          byte 6 carries the "final chunk" flag
//!   [8..]  payload
//!
//! Device -> host (`RESP_MAGIC`):
//!   [0]    0x55
//!   [1]    command being answered
//!   [2]    length / type
//!   [3..5] little-endian address
//!   [8..]  payload
use vstd::prelude::*;

use crate::{seq_result, Cmd, ProtocolError, DEFAULT_PACKET_LEN, HEADER_LEN, REQ_MAGIC, RESP_MAGIC};
use vstd::slice::slice_subrange;

verus! {

// ------------------------------------------------------------------ framing

/// The command-specific header byte in slot `5 + k`, if the request sets one.
pub open spec fn header_slot(other_header: Option<[Option<u8>; 3]>, k: int) -> Option<u8> {
    match other_header {
        Some(h) => h@[k],
        None => None,
    }
}

/// The bytes of an optional payload slice.
pub open spec fn payload_view(payload: Option<&[u8]>) -> Option<Seq<u8>> {
    match payload {
        Some(p) => Some(p@),
        None => None,
    }
}

/// Byte `i` of an outbound packet.
pub open spec fn frame_byte(
    cmd: u8,
    len_or_type: u8,
    addr: u16,
    payload: Option<Seq<u8>>,
    other_header: Option<[Option<u8>; 3]>,
    is_last: bool,
    i: int,
) -> u8 {
    if i == 0 {
        REQ_MAGIC
    } else if i == 1 {
        cmd
    } else if i == 2 {
        len_or_type
    } else if i == 3 {
        (addr % 256) as u8
    } else if i == 4 {
        (addr / 256) as u8
    } else if i == 6 {
        // The final-chunk flag, unless the command claims the slot.
        match header_slot(other_header, 1) {
            Some(v) => v,
            None => if is_last {
                1
            } else {
                0
            },
        }
    } else if i < 8 {
        match header_slot(other_header, i - 5) {
            Some(v) => v,
            None => 0,
        }
    } else {
        match payload {
            Some(p) => if i - 8 < p.len() {
                p[i - 8]
            } else {
                0
            },
            None => 0,
        }
    }
}

/// An outbound packet of `packet_len` bytes: header, payload, zero padding.
pub open spec fn frame(
    cmd: u8,
    len_or_type: u8,
    addr: u16,
    payload: Option<Seq<u8>>,
    other_header: Option<[Option<u8>; 3]>,
    is_last: bool,
    packet_len: nat,
) -> Seq<u8> {
    Seq::new(
        packet_len,
        |i: int| frame_byte(cmd, len_or_type, addr, payload, other_header, is_last, i),
    )
}

/// Whether a packet of `packet_len` bytes has room for every slot that is
/// written: the flag slot always, slot 7 when the command sets it, and the
/// payload area whenever a payload is given.
pub open spec fn frame_fits(
    payload: Option<Seq<u8>>,
    other_header: Option<[Option<u8>; 3]>,
    packet_len: nat,
) -> bool {
    packet_len >= HEADER_LEN || (packet_len == 7 && payload is None && header_slot(
        other_header,
        2,
    ) is None)
}

/// An outbound packet of at least header length carries the request magic
/// 0xAA in byte 0, the command in byte 1, the length or scalar in byte 2,
/// the address little-endian in bytes 3 and 4, each header byte the command
/// sets in its slot from byte 5 on, the final-chunk flag (1 on the last
/// chunk, else 0) in byte 6 when the command leaves that slot free, and the
/// payload from byte 8 on, as much as fits; every other byte is zero.
pub proof fn lemma_frame_layout(
    cmd: u8,
    len_or_type: u8,
    addr: u16,
    payload: Option<Seq<u8>>,
    other_header: Option<[Option<u8>; 3]>,
    is_last: bool,
    packet_len: nat,
)
    requires
        packet_len >= 8,
    ensures
        ({
            let p = frame(cmd, len_or_type, addr, payload, other_header, is_last, packet_len);
            &&& p.len() == packet_len
            &&& p[0] == 0xAA && p[1] == cmd && p[2] == len_or_type
            &&& p[3] + 256 * p[4] == addr
            &&& forall|k: int|
                0 <= k < 3 ==> (#[trigger] header_slot(other_header, k) matches Some(v) ==> p[5
                    + k] == v)
            &&& header_slot(other_header, 0) is None ==> p[5] == 0
            &&& header_slot(other_header, 1) is None ==> p[6] == (if is_last {
                1u8
            } else {
                0u8
            })
            &&& header_slot(other_header, 2) is None ==> p[7] == 0
            &&& forall|m: int|
                8 <= m < packet_len ==> #[trigger] p[m] == (match payload {
                    Some(d) => if m - 8 < d.len() {
                        d[m - 8]
                    } else {
                        0u8
                    },
                    None => 0u8,
                })
        }),
{
    let a = addr;
    assert(a % 256 + 256 * (a / 256) == a);
    let p = frame(cmd, len_or_type, addr, payload, other_header, is_last, packet_len);
    assert forall|k: int| 0 <= k < 3 implies (#[trigger] header_slot(other_header, k) matches Some(
        v,
    ) ==> p[5 + k] == v) by {
        if k == 0 {
        } else if k == 1 {
        } else {
        }
    }
}

/// Lay out one outbound packet.
pub fn encode(
    cmd: Cmd,
    len_or_type: u8,
    addr: u16,
    payload: Option<&[u8]>,
    packet_len: usize,
    other_header: Option<[Option<u8>; 3]>,
    is_last: bool,
) -> (buf: Vec<u8>)
    requires
        frame_fits(payload_view(payload), other_header, packet_len as nat),
    ensures
        buf@ == frame(
            cmd.code(),
            len_or_type,
            addr,
            payload_view(payload),
            other_header,
            is_last,
            packet_len as nat,
        ),
{
    let mut buf = vec![0u8; packet_len];
    buf.set(0, REQ_MAGIC);
    buf.set(1, cmd.raw());
    buf.set(2, len_or_type);
    buf.set(3, (addr % 256) as u8);
    buf.set(4, (addr / 256) as u8);

    // Slots 5..8 are command-specific. The "final chunk" flag lives in slot 6
    // and is only written when the command has not claimed that slot.
    let mut slot6_claimed = false;
    if let Some(hdr) = other_header {
        if let Some(v) = hdr[0] {
            buf.set(5, v);
        }
        if let Some(v) = hdr[1] {
            buf.set(6, v);
            slot6_claimed = true;
        }
        if let Some(v) = hdr[2] {
            buf.set(7, v);
        }
    }
    if !slot6_claimed {
        buf.set(6, if is_last { 1 } else { 0 });
    }
    assert(slot6_claimed <==> header_slot(other_header, 1) is Some);

    let ghost head = buf@;
    if let Some(p) = payload {
        let room = packet_len - HEADER_LEN;
        let n = if p.len() < room {
            p.len()
        } else {
            room
        };
        let mut j: usize = 0;
        while j < n
            invariant
                n <= p@.len(),
                HEADER_LEN + n <= packet_len,
                j <= n,
                buf@.len() == packet_len,
                forall|i: int| 0 <= i < HEADER_LEN ==> #[trigger] buf@[i] == head[i],
                forall|i: int| HEADER_LEN <= i < HEADER_LEN + j ==> #[trigger] buf@[i] == p@[i - 8],
                forall|i: int| HEADER_LEN + j <= i < packet_len ==> #[trigger] buf@[i] == 0u8,
            decreases n - j,
        {
            buf.set(HEADER_LEN + j, p[j]);
            j = j + 1;
        }
        assert(buf@ =~= frame(
            cmd.code(),
            len_or_type,
            addr,
            payload_view(payload),
            other_header,
            is_last,
            packet_len as nat,
        ));
    } else {
        assert(buf@ =~= frame(
            cmd.code(),
            len_or_type,
            addr,
            payload_view(payload),
            other_header,
            is_last,
            packet_len as nat,
        ));
    }
    buf
}

/// A fully formed outbound packet, sized to the report length the device
/// advertises. Always sent whole and zero-padded.
#[derive(Debug, Clone, PartialEq, Eq)]
pub struct Packet(pub Vec<u8>);

impl View for Packet {
    type V = Seq<u8>;

    open spec fn view(&self) -> Seq<u8> {
        self.0@
    }
}

impl Packet {
    pub fn as_slice(&self) -> (s: &[u8])
        ensures
            s@ == self@,
    {
        self.0.as_slice()
    }

    pub fn into_vec(self) -> (v: Vec<u8>)
        ensures
            v@ == self@,
    {
        self.0
    }
}


// ------------------------------------------------------------------ requests

/// The length byte of a chunk: its size, or 255 when it does not fit a byte.
pub open spec fn len_byte(n: nat) -> u8 {
    if n <= 255 {
        n as u8
    } else {
        255
    }
}

/// Number of packets needed for `content_size` bytes at `cap` bytes per
/// packet. An exchange always sends at least one packet.
pub open spec fn chunk_count(content_size: nat, cap: nat) -> nat {
    if content_size == 0 {
        1
    } else {
        content_size / cap + if content_size % cap == 0 {
            0nat
        } else {
            1nat
        }
    }
}

/// Describes one outbound request before it is split into packets.
#[derive(Debug, Clone, Copy)]
pub struct Request<'a> {
    pub cmd: Cmd,
    /// Total number of payload bytes the exchange covers. For reads this is
    /// how much to ask for; for writes it matches `data`.
    pub content_size: usize,
    /// Address of the first byte, in device address space.
    pub addr_start: u16,
    /// Payload for writes; `None` for reads.
    pub data: Option<&'a [u8]>,
    /// Command-specific header bytes occupying slots 5, 6 and 7.
    pub other_header: Option<[Option<u8>; 3]>,
    /// Report length advertised by the descriptor.
    pub packet_len: usize,
}

impl<'a> Request<'a> {
    /// Payload bytes each packet carries.
    pub open spec fn capacity(self) -> nat {
        (self.packet_len - HEADER_LEN) as nat
    }

    /// Whether the request can be split into packets: every packet has a
    /// full header, and a non-empty exchange has room for payload.
    pub open spec fn plannable(self) -> bool {
        &&& self.packet_len >= HEADER_LEN
        &&& (self.content_size == 0 || self.packet_len > HEADER_LEN)
    }

    /// How many packets the exchange takes.
    pub open spec fn packet_count(self) -> nat {
        chunk_count(self.content_size as nat, self.capacity())
    }

    /// Byte offset of packet `i` within the exchange.
    pub open spec fn chunk_offset(self, i: nat) -> nat {
        i * self.capacity()
    }

    /// Whether packet `i` is the last of the exchange.
    pub open spec fn is_last_chunk(self, i: nat) -> bool {
        i + 1 == self.packet_count()
    }

    /// Bytes covered by packet `i`: a full chunk, or what remains for the
    /// last one.
    pub open spec fn chunk_len(self, i: nat) -> nat {
        if self.is_last_chunk(i) {
            if self.content_size >= self.chunk_offset(i) {
                (self.content_size - self.chunk_offset(i)) as nat
            } else {
                0
            }
        } else {
            self.capacity()
        }
    }

    /// The slice of the payload that packet `i` carries.
    pub open spec fn chunk_payload(self, i: nat) -> Option<Seq<u8>> {
        match self.data {
            Some(d) => {
                let start = if self.chunk_offset(i) <= d@.len() {
                    self.chunk_offset(i)
                } else {
                    d@.len()
                };
                let end = if self.chunk_offset(i) + self.capacity() <= d@.len() {
                    self.chunk_offset(i) + self.capacity()
                } else {
                    d@.len()
                };
                Some(d@.subrange(start as int, end as int))
            },
            None => None,
        }
    }

    /// Device address of packet `i`, wrapping at 16 bits.
    pub open spec fn chunk_addr(self, i: nat) -> u16 {
        ((self.addr_start + self.chunk_offset(i)) % 0x10000) as u16
    }

    /// Packet `i` of the exchange, exactly as it goes on the wire.
    pub open spec fn chunk_packet(self, i: nat) -> Seq<u8> {
        frame(
            self.cmd.code(),
            len_byte(self.chunk_len(i)),
            self.chunk_addr(i),
            self.chunk_payload(i),
            self.other_header,
            self.is_last_chunk(i),
            self.packet_len as nat,
        )
    }

    /// Whether this is a plain read of `content_size` bytes for `cmd`: from
    /// address zero, no payload, no command header, default packet length.
    pub open spec fn is_read_of(self, cmd: Cmd, content_size: usize) -> bool {
        &&& self.cmd == cmd
        &&& self.content_size == content_size
        &&& self.addr_start == 0
        &&& self.data is None
        &&& self.other_header is None
        &&& self.packet_len == DEFAULT_PACKET_LEN
    }

    pub fn read(cmd: Cmd, content_size: usize) -> (r: Self)
        ensures
            r.is_read_of(cmd, content_size),
    {
        Request {
            cmd,
            content_size,
            addr_start: 0,
            data: None,
            other_header: None,
            packet_len: DEFAULT_PACKET_LEN,
        }
    }

    pub fn write(cmd: Cmd, data: &'a [u8]) -> (r: Self)
        ensures
            r.cmd == cmd,
            r.content_size == data@.len(),
            r.addr_start == 0,
            r.data == Some(data),
            r.other_header is None,
            r.packet_len == DEFAULT_PACKET_LEN,
    {
        Request {
            cmd,
            content_size: data.len(),
            addr_start: 0,
            data: Some(data),
            other_header: None,
            packet_len: DEFAULT_PACKET_LEN,
        }
    }

    /// A command that carries no payload; `scalar` lands in the length slot,
    /// which several commands reuse as an argument (reset scope, for example).
    pub fn control(cmd: Cmd, scalar: u8) -> (r: Self)
        ensures
            r.cmd == cmd,
            r.content_size == scalar,
            r.addr_start == 0,
            r.data is None,
            r.other_header is None,
            r.packet_len == DEFAULT_PACKET_LEN,
    {
        Request {
            cmd,
            content_size: scalar as usize,
            addr_start: 0,
            data: None,
            other_header: None,
            packet_len: DEFAULT_PACKET_LEN,
        }
    }

    /// Use the report length the descriptor advertised; never less than a
    /// header plus one payload byte.
    pub fn with_packet_len(self, len: usize) -> (r: Self)
        ensures
            r == (Request {
                packet_len: if len < HEADER_LEN + 1 {
                    (HEADER_LEN + 1) as usize
                } else {
                    len
                },
                ..self
            }),
    {
        let mut r = self;
        r.packet_len = if len < HEADER_LEN + 1 {
            HEADER_LEN + 1
        } else {
            len
        };
        r
    }

    pub fn with_addr(self, addr: u16) -> (r: Self)
        ensures
            r == (Request { addr_start: addr, ..self }),
    {
        let mut r = self;
        r.addr_start = addr;
        r
    }

    pub fn with_other_header(self, hdr: [Option<u8>; 3]) -> (r: Self)
        ensures
            r == (Request { other_header: Some(hdr), ..self }),
    {
        let mut r = self;
        r.other_header = Some(hdr);
        r
    }

    /// Bytes of payload each packet can carry.
    pub fn chunk_capacity(&self) -> (cap: usize)
        requires
            self.packet_len >= HEADER_LEN,
        ensures
            cap == self.capacity(),
    {
        self.packet_len - HEADER_LEN
    }

    /// Split the request into the packets that must be sent, in order.
    ///
    /// Every packet expects its own response before the next is sent.
    pub fn plan(&self) -> (p: ChunkPlan<'a>)
        requires
            self.plannable(),
        ensures
            p.request() == *self,
            p.position() == 0,
    {
        let cap = self.chunk_capacity();
        let count = if self.content_size == 0 {
            1
        } else {
            assert(self.content_size % cap != 0 ==> self.content_size / cap < self.content_size)
                by (nonlinear_arith)
                requires
                    cap > 0,
            ;
            self.content_size / cap + if self.content_size % cap == 0 {
                0
            } else {
                1
            }
        };
        ChunkPlan { req: *self, cap, count, index: 0 }
    }

    /// Build a single control packet (no chunking, no payload).
    pub fn control_packet(&self) -> (p: Packet)
        requires
            frame_fits(None, self.other_header, self.packet_len as nat),
        ensures
            p@ == frame(
                self.cmd.code(),
                if self.content_size <= 255 {
                    self.content_size as u8
                } else {
                    0
                },
                self.addr_start,
                None,
                self.other_header,
                true,
                self.packet_len as nat,
            ),
    {
        let scalar: u8 = if self.content_size <= 255 {
            self.content_size as u8
        } else {
            0
        };
        Packet(encode(self.cmd, scalar, self.addr_start, None, self.packet_len, self.other_header, true))
    }
}

/// The packets of a chunked request, handed out one at a time.
#[derive(Debug, Clone, Copy)]
pub struct ChunkPlan<'a> {
    req: Request<'a>,
    cap: usize,
    count: usize,
    index: usize,
}

impl<'a> ChunkPlan<'a> {
    #[verifier::type_invariant]
    spec fn well_formed(self) -> bool {
        &&& self.req.plannable()
        &&& self.cap == self.req.capacity()
        &&& self.count == self.req.packet_count()
        &&& self.index <= self.count
    }

    /// The request being split.
    pub closed spec fn request(self) -> Request<'a> {
        self.req
    }

    /// How many packets have been handed out so far.
    pub closed spec fn position(self) -> nat {
        self.index as nat
    }

    /// Total number of packets in the plan.
    pub fn len(&self) -> (n: usize)
        ensures
            n == self.request().packet_count(),
    {
        proof {
            use_type_invariant(self);
        }
        self.count
    }

    pub fn is_empty(&self) -> (b: bool)
        ensures
            b == (self.request().packet_count() == 0),
    {
        proof {
            use_type_invariant(self);
        }
        self.count == 0
    }

    /// The next packet, or `None` once every packet has been handed out.
    pub fn next(&mut self) -> (p: Option<Packet>)
        ensures
            final(self).request() == old(self).request(),
            old(self).position() < old(self).request().packet_count() ==> {
                &&& p matches Some(pk)
                &&& pk@ == old(self).request().chunk_packet(old(self).position())
                &&& final(self).position() == old(self).position() + 1
            },
            old(self).position() >= old(self).request().packet_count() ==> {
                &&& p is None
                &&& final(self).position() == old(self).position()
            },
    {
        proof {
            use_type_invariant(&*self);
        }
        if self.index >= self.count {
            return None;
        }
        let i = self.index;
        let req = self.req;
        let cap = self.cap;
        let count = self.count;
        proof {
            lemma_offset_bounds(req, i as nat);
        }
        let offset = i * cap;
        let remaining = if req.content_size >= offset {
            req.content_size - offset
        } else {
            0
        };
        let is_last = i == count - 1;
        let this_len = if is_last {
            remaining
        } else {
            cap
        };

        let slice = match req.data {
            Some(d) => {
                let start = if offset <= d.len() {
                    offset
                } else {
                    d.len()
                };
                let end = if offset <= d.len() && cap <= d.len() - offset {
                    offset + cap
                } else {
                    d.len()
                };
                Some(slice_subrange(d, start, end))
            },
            None => None,
        };

        let off16 = (offset % 0x10000) as u16;
        let addr = req.addr_start.wrapping_add(off16);
        proof {
            assert(addr == req.chunk_addr(i as nat)) by (nonlinear_arith)
                requires
                    addr as int == if req.addr_start + off16 > u16::MAX {
                        req.addr_start + off16 - 0x10000
                    } else {
                        req.addr_start + off16
                    },
                    off16 as int == offset % 0x10000,
                    offset as int == i * cap,
                    cap == req.capacity(),
                    req.chunk_addr(i as nat) == ((req.addr_start + req.chunk_offset(i as nat))
                        % 0x10000) as u16,
                    req.chunk_offset(i as nat) == i * req.capacity(),
            ;
        }
        let len_or_type: u8 = if this_len <= 255 {
            this_len as u8
        } else {
            255
        };
        let pkt = encode(
            req.cmd,
            len_or_type,
            addr,
            slice,
            req.packet_len,
            req.other_header,
            is_last,
        );
        self.index = i + 1;
        Some(Packet(pkt))
    }

    /// All packets not yet handed out, in order.
    pub fn into_packets(self) -> (ps: Vec<Packet>)
        ensures
            ps@.len() + self.position() == self.request().packet_count(),
            forall|k: int|
                0 <= k < ps@.len() ==> #[trigger] ps@[k]@ == self.request().chunk_packet(
                    (self.position() + k) as nat,
                ),
    {
        proof {
            use_type_invariant(&self);
        }
        let mut plan = self;
        let mut ps: Vec<Packet> = Vec::new();
        loop
            invariant
                plan.request() == self.request(),
                plan.position() == self.position() + ps@.len(),
                plan.position() <= self.request().packet_count(),
                forall|k: int|
                    0 <= k < ps@.len() ==> #[trigger] ps@[k]@ == self.request().chunk_packet(
                        (self.position() + k) as nat,
                    ),
            ensures
                plan.position() == self.request().packet_count(),
                plan.position() == self.position() + ps@.len(),
                forall|k: int|
                    0 <= k < ps@.len() ==> #[trigger] ps@[k]@ == self.request().chunk_packet(
                        (self.position() + k) as nat,
                    ),
            decreases self.request().packet_count() - plan.position(),
        {
            proof {
                use_type_invariant(&plan);
            }
            match plan.next() {
                Some(p) => {
                    ps.push(p);
                },
                None => {
                    break ;
                },
            }
        }
        ps
    }
}

/// A plan always has at least one packet.
proof fn lemma_count_positive(req: Request)
    requires
        req.plannable(),
    ensures
        req.packet_count() >= 1,
{
    let size = req.content_size as nat;
    let cap = req.capacity();
    if size > 0 && size / cap == 0 {
        assert(size % cap == size) by (nonlinear_arith)
            requires
                cap > 0,
                size / cap == 0,
        ;
    }
}

/// Offsets of the packets of a plannable request stay inside the payload
/// bounds that `usize` can hold.
proof fn lemma_offset_bounds(req: Request, i: nat)
    requires
        req.plannable(),
        i < req.packet_count(),
    ensures
        i * req.capacity() <= req.content_size,
        i * req.capacity() <= usize::MAX,
        i + 1 < req.packet_count() ==> i * req.capacity() + req.capacity() <= req.content_size,
        i + 1 == req.packet_count() ==> req.content_size - i * req.capacity() <= req.capacity(),
{
    let size = req.content_size as nat;
    let cap = req.capacity();
    if size == 0 {
        assert(i == 0);
    } else {
        let q = size / cap;
        let r = size % cap;
        assert(size == q * cap + r) by (nonlinear_arith)
            requires
                cap > 0,
                q == size / cap,
                r == size % cap,
        ;
        assert(r < cap);
        assert(i * cap <= q * cap) by (nonlinear_arith)
            requires
                i <= q,
                cap > 0,
        ;
        if i + 1 < req.packet_count() {
            assert(i * cap + cap <= q * cap) by (nonlinear_arith)
                requires
                    i + 1 <= q,
                    cap > 0,
            ;
        }
        if i + 1 == req.packet_count() {
            if r == 0 {
                assert(i + 1 == q);
                assert(size - i * cap == cap) by (nonlinear_arith)
                    requires
                        i + 1 == q,
                        size == q * cap,
                ;
            } else {
                assert(i == q);
            }
        }
    }
}

// ----------------------------------------------------------------- responses

/// What a device -> host packet says, as plain values.
pub struct ResponseView {
    pub cmd: u8,
    pub len_or_type: u8,
    pub addr: u16,
    pub data: Seq<u8>,
}

/// A decoded device -> host packet.
#[derive(Debug, Clone, PartialEq, Eq)]
pub struct Response {
    pub cmd: u8,
    pub len_or_type: u8,
    pub addr: u16,
    pub data: Vec<u8>,
}

impl View for Response {
    type V = ResponseView;

    open spec fn view(&self) -> ResponseView {
        ResponseView {
            cmd: self.cmd,
            len_or_type: self.len_or_type,
            addr: self.addr,
            data: self.data@,
        }
    }
}

/// A decoding result with the decoded response taken by its view.
pub open spec fn response_result_view(r: Result<Response, ProtocolError>) -> Result<
    ResponseView,
    ProtocolError,
> {
    match r {
        Ok(resp) => Ok(resp@),
        Err(e) => Err(e),
    }
}

/// What a raw inbound packet decodes to.
pub open spec fn parse_response(raw: Seq<u8>) -> Result<ResponseView, ProtocolError> {
    if raw.len() < HEADER_LEN {
        Err(ProtocolError::Short { got: raw.len() as usize, need: HEADER_LEN })
    } else if raw[0] != RESP_MAGIC {
        Err(ProtocolError::BadMagic(raw[0]))
    } else {
        Ok(
            ResponseView {
                cmd: raw[1],
                len_or_type: raw[2],
                addr: (raw[3] + 256 * raw[4]) as u16,
                data: raw.subrange(HEADER_LEN as int, raw.len() as int),
            },
        )
    }
}

/// An inbound packet is accepted exactly when it has at least the 8 header
/// bytes and starts with the response magic 0x55; its command is byte 1,
/// its length or type byte 2, its address the little-endian `u16` in bytes
/// 3 and 4, and its payload every byte from 8 on, in order. A shorter
/// packet is refused as short and one with another first byte as bad magic.
pub proof fn lemma_parse_response_fields(raw: Seq<u8>)
    ensures
        raw.len() < 8 ==> parse_response(raw) == Err::<ResponseView, ProtocolError>(
            (ProtocolError::Short { got: raw.len() as usize, need: 8 }),
        ),
        raw.len() >= 8 && raw[0] != 0x55 ==> parse_response(raw) == Err::<
            ResponseView,
            ProtocolError,
        >(ProtocolError::BadMagic(raw[0])),
        raw.len() >= 8 && raw[0] == 0x55 ==> (parse_response(raw) matches Ok(r) && {
            &&& r.cmd == raw[1]
            &&& r.len_or_type == raw[2]
            &&& r.addr == raw[3] + 256 * raw[4]
            &&& r.data.len() == raw.len() - 8
            &&& forall|m: int| 0 <= m < raw.len() - 8 ==> #[trigger] r.data[m] == raw[8 + m]
        }),
{
}

/// Copy of a byte slice.
fn bytes_to_vec(s: &[u8]) -> (v: Vec<u8>)
    ensures
        v@ == s@,
{
    let mut v: Vec<u8> = Vec::with_capacity(s.len());
    let mut i: usize = 0;
    while i < s.len()
        invariant
            i <= s@.len(),
            v@ == s@.subrange(0, i as int),
        decreases s@.len() - i,
    {
        v.push(s[i]);
        i = i + 1;
        assert(v@ =~= s@.subrange(0, i as int));
    }
    v
}

impl Response {
    pub fn parse(raw: &[u8]) -> (r: Result<Self, ProtocolError>)
        ensures
            response_result_view(r) == parse_response(raw@),
    {
        if raw.len() < HEADER_LEN {
            return Err(ProtocolError::Short { got: raw.len(), need: HEADER_LEN });
        }
        if raw[0] != RESP_MAGIC {
            return Err(ProtocolError::BadMagic(raw[0]));
        }
        let addr: u16 = raw[3] as u16 + 256 * (raw[4] as u16);
        Ok(
            Response {
                cmd: raw[1],
                len_or_type: raw[2],
                addr,
                data: bytes_to_vec(slice_subrange(raw, HEADER_LEN, raw.len())),
            },
        )
    }

    /// Accept the response only if it answers `cmd`.
    pub fn expect(self, cmd: Cmd) -> (r: Result<Self, ProtocolError>)
        ensures
            self.cmd == cmd.code() ==> r == Ok::<Response, ProtocolError>(self),
            self.cmd != cmd.code() ==> r == Err::<Response, ProtocolError>(
                ProtocolError::CmdMismatch { expected: cmd.code(), got: self.cmd },
            ),
    {
        if self.cmd != cmd.raw() {
            return Err(ProtocolError::CmdMismatch { expected: cmd.raw(), got: self.cmd });
        }
        Ok(self)
    }
}

/// The payloads of `rs`, one after another.
pub open spec fn concat_data(rs: Seq<ResponseView>) -> Seq<u8>
    decreases rs.len(),
{
    if rs.len() == 0 {
        Seq::empty()
    } else {
        concat_data(rs.drop_last()) + rs.last().data
    }
}

/// The responses of a slice, by their views.
pub open spec fn response_views(rs: Seq<Response>) -> Seq<ResponseView> {
    rs.map_values(|r: Response| r@)
}

/// What joining a chunked reply yields: the concatenated payloads trimmed to
/// `want` bytes, or an error when they fall short.
pub open spec fn joined(rs: Seq<ResponseView>, want: nat) -> Result<Seq<u8>, ProtocolError> {
    let all = concat_data(rs);
    if all.len() < want {
        Err(ProtocolError::Truncated { got: all.len() as usize, want: want as usize })
    } else {
        Ok(all.take(want as int))
    }
}

/// The payloads of no responses are empty, and one more response adds its
/// payload at the end: byte `m` of its payload lands at the old length plus
/// `m`, and every earlier byte stays where it was.
pub proof fn lemma_concat_data_appends(rs: Seq<ResponseView>, r: ResponseView)
    ensures
        concat_data(Seq::empty()) == Seq::<u8>::empty(),
        concat_data(rs.push(r)).len() == concat_data(rs).len() + r.data.len(),
        forall|k: int|
            0 <= k < concat_data(rs).len() ==> #[trigger] concat_data(rs.push(r))[k]
                == concat_data(rs)[k],
        forall|m: int|
            0 <= m < r.data.len() ==> concat_data(rs.push(r))[concat_data(rs).len() + m]
                == #[trigger] r.data[m],
{
    assert(rs.push(r).drop_last() =~= rs);
}

/// A single response's payloads are its own payload.
pub proof fn lemma_concat_data_single(r: ResponseView)
    ensures
        concat_data(seq![r]) == r.data,
{
    let none = Seq::<ResponseView>::empty();
    assert(seq![r].drop_last() =~= none);
    assert(concat_data(none) == Seq::<u8>::empty());
    assert(concat_data(seq![r]) == concat_data(none) + r.data);
    assert(Seq::<u8>::empty() + r.data =~= r.data);
}

/// Joining a chunked reply keeps the front of the concatenated payloads:
/// when they hold at least `want` bytes the result is exactly `want` bytes
/// long and its byte `k` is byte `k` of the payloads, so any padding is
/// trimmed from the end; when they hold fewer, the reply is refused as
/// truncated with the count it had.
pub proof fn lemma_join_keeps_the_front(rs: Seq<ResponseView>, want: nat)
    requires
        want <= usize::MAX,
    ensures
        concat_data(rs).len() >= want ==> (joined(rs, want) matches Ok(d) && d.len() == want
            && forall|k: int| 0 <= k < want ==> #[trigger] d[k] == concat_data(rs)[k]),
        concat_data(rs).len() < want ==> joined(rs, want) == Err::<Seq<u8>, ProtocolError>(
            (ProtocolError::Truncated {
                got: concat_data(rs).len() as usize,
                want: want as usize,
            }),
        ),
{
}

/// Concatenate the payloads of a chunked reply and trim to the expected size.
pub fn join(responses: &[Response], want: usize) -> (r: Result<Vec<u8>, ProtocolError>)
    ensures
        seq_result(r) == joined(response_views(responses@), want as nat),
        r is Ok <==> concat_data(response_views(responses@)).len() >= want,
        r matches Ok(d) ==> d@.len() == want && forall|k: int|
            0 <= k < want ==> #[trigger] d@[k] == concat_data(response_views(responses@))[k],
{
    let ghost views = response_views(responses@);
    proof {
        lemma_join_keeps_the_front(views, want as nat);
    }
    let mut out: Vec<u8> = Vec::with_capacity(want);
    let mut k: usize = 0;
    while k < responses.len()
        invariant
            k <= responses@.len(),
            views == response_views(responses@),
            out@ == concat_data(views.take(k as int)),
        decreases responses@.len() - k,
    {
        let data = &responses[k].data;
        let ghost before = out@;
        let mut j: usize = 0;
        while j < data.len()
            invariant
                j <= data@.len(),
                out@ == before + data@.take(j as int),
            decreases data@.len() - j,
        {
            out.push(data[j]);
            j = j + 1;
            assert(out@ =~= before + data@.take(j as int));
        }
        assert(views.take(k + 1).drop_last() =~= views.take(k as int));
        assert(data@.take(data@.len() as int) =~= data@);
        k = k + 1;
    }
    assert(views.take(responses@.len() as int) =~= views);
    if out.len() < want {
        return Err(ProtocolError::Truncated { got: out.len(), want });
    }
    out.truncate(want);
    Ok(out)
}

// ---------------------------------------------------------------------- laws

/// The payload bytes a packet says it carries: `pkt[2]` bytes after the
/// header.
pub open spec fn carried(pkt: Seq<u8>) -> Seq<u8> {
    pkt.subrange(HEADER_LEN as int, HEADER_LEN + pkt[2])
}

/// The payloads of the first `n` packets of a plan, in order, as a receiver
/// reads them back by each packet's length byte.
pub open spec fn reassembled(req: Request, n: nat) -> Seq<u8>
    decreases n,
{
    if n == 0 {
        Seq::empty()
    } else {
        reassembled(req, (n - 1) as nat) + carried(req.chunk_packet((n - 1) as nat))
    }
}

/// Packet `i` carries exactly the next `chunk_len(i)` bytes of the payload.
proof fn lemma_carried(req: Request, i: nat)
    requires
        req.plannable(),
        req.data matches Some(d) && d@.len() == req.content_size,
        req.capacity() <= 255,
        i < req.packet_count(),
    ensures
        req.chunk_offset(i) + req.chunk_len(i) <= req.content_size,
        req.is_last_chunk(i) ==> req.chunk_offset(i) + req.chunk_len(i) == req.content_size,
        !req.is_last_chunk(i) ==> req.chunk_len(i) == req.capacity(),
        req.data matches Some(d) && carried(req.chunk_packet(i)) == d@.subrange(
            req.chunk_offset(i) as int,
            (req.chunk_offset(i) + req.chunk_len(i)) as int,
        ),
{
    lemma_offset_bounds(req, i);
    let d = req.data->0;
    let off = req.chunk_offset(i);
    let len = req.chunk_len(i);
    let pkt = req.chunk_packet(i);
    let payload = req.chunk_payload(i)->0;
    assert(len <= req.capacity());
    assert(off + len <= req.content_size);
    assert(payload =~= d@.subrange(off as int, (off + len) as int));
    assert(pkt[2] == len);
    assert(carried(pkt) =~= payload);
}

/// The first `n` packets, short of the last one, carry the first
/// `n * capacity` bytes of the payload.
proof fn lemma_reassembled_prefix(req: Request, n: nat)
    requires
        req.plannable(),
        req.data matches Some(d) && d@.len() == req.content_size,
        req.capacity() <= 255,
        n + 1 <= req.packet_count(),
    ensures
        n * req.capacity() <= req.content_size,
        req.data matches Some(d) && reassembled(req, n) == d@.take((n * req.capacity()) as int),
    decreases n,
{
    let d = req.data->0;
    if n == 0 {
        assert(reassembled(req, 0) =~= d@.take(0));
    } else {
        let m = (n - 1) as nat;
        lemma_reassembled_prefix(req, m);
        lemma_carried(req, m);
        assert(n * req.capacity() == m * req.capacity() + req.capacity()) by (nonlinear_arith)
            requires
                n == m + 1,
        ;
        assert(reassembled(req, n) =~= d@.take((n * req.capacity()) as int));
    }
}

/// Reassembling the packets of a write, each by its own length byte, gives
/// back the payload: chunking neither drops, repeats nor reorders a byte.
/// This holds whenever a chunk's length fits the length byte.
pub proof fn lemma_chunks_reassemble(req: Request)
    requires
        req.plannable(),
        req.data matches Some(d) && d@.len() == req.content_size,
        req.capacity() <= 255,
    ensures
        req.data matches Some(d) && reassembled(req, req.packet_count()) == d@,
{
    let d = req.data->0;
    let count = req.packet_count();
    lemma_count_positive(req);
    let n = (count - 1) as nat;
    lemma_reassembled_prefix(req, n);
    lemma_carried(req, n);
    assert(reassembled(req, count) =~= d@);
}

/// Every packet of a plan starts with the request magic and the command, is
/// addressed at its offset (little-endian, wrapping at 16 bits), and carries
/// the final-chunk flag exactly on the last packet unless the command claims
/// that slot.
pub proof fn lemma_chunk_headers(req: Request, i: nat)
    requires
        req.plannable(),
        i < req.packet_count(),
    ensures
        req.chunk_packet(i).len() == req.packet_len,
        req.chunk_packet(i)[0] == REQ_MAGIC,
        req.chunk_packet(i)[1] == req.cmd.code(),
        req.chunk_packet(i)[3] + 256 * req.chunk_packet(i)[4] == (req.addr_start + i
            * req.capacity()) % 0x10000,
        header_slot(req.other_header, 1) is None ==> req.chunk_packet(i)[6] == (if i + 1
            == req.packet_count() {
            1u8
        } else {
            0u8
        }),
{
    let a = req.chunk_addr(i);
    assert(a % 256 + 256 * (a / 256) == a);
}

} // verus!
