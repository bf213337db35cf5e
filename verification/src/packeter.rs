use vstd::prelude::*;

verus! {

// Length-prefixed packet framing: each message travels as a four-byte
// big-endian length followed by that many payload bytes. The reader keeps a
// byte buffer fed by the transport and yields every complete frame, keeping
// a trailing partial frame for the next feeding.
/// Value of a four-byte big-endian length prefix.
pub open spec fn spec_be_val(b: Seq<u8>) -> int {
    b[0] * 0x1000000 + b[1] * 0x10000 + b[2] * 0x100 + b[3]
}

/// The four big-endian bytes of a length below `2^32`.
pub open spec fn spec_be_bytes(n: int) -> Seq<u8> {
    seq![
        (n / 0x1000000) as u8,
        ((n % 0x1000000) / 0x10000) as u8,
        (((n % 0x1000000) % 0x10000) / 0x100) as u8,
        (((n % 0x1000000) % 0x10000) % 0x100) as u8,
    ]
}

/// A complete frame: length prefix then payload.
pub open spec fn spec_encode_frame(p: Seq<u8>) -> Seq<u8> {
    spec_be_bytes(p.len() as int) + p
}

/// The buffer starts with a complete frame.
pub open spec fn spec_has_packet(b: Seq<u8>) -> bool {
    b.len() >= 4 && b.len() >= 4 + spec_be_val(b)
}

pub open spec fn spec_packet_payload(b: Seq<u8>) -> Seq<u8> {
    b.subrange(4, 4 + spec_be_val(b))
}

pub open spec fn spec_packet_rest(b: Seq<u8>) -> Seq<u8> {
    b.subrange(4 + spec_be_val(b), b.len() as int)
}

/// All complete frames at the front of the buffer, in order.
pub open spec fn spec_decode_all(b: Seq<u8>) -> Seq<Seq<u8>>
    decreases b.len(),
{
    if spec_has_packet(b) {
        seq![spec_packet_payload(b)] + spec_decode_all(spec_packet_rest(b))
    } else {
        Seq::empty()
    }
}

/// What stays in the buffer after every complete frame is consumed.
pub open spec fn spec_leftover(b: Seq<u8>) -> Seq<u8>
    decreases b.len(),
{
    if spec_has_packet(b) {
        spec_leftover(spec_packet_rest(b))
    } else {
        b
    }
}

/// Concatenation of the frames of a sequence of payloads.
pub open spec fn spec_encode_all(ps: Seq<Seq<u8>>) -> Seq<u8>
    decreases ps.len(),
{
    if ps.len() == 0 {
        Seq::empty()
    } else {
        spec_encode_frame(ps[0]) + spec_encode_all(ps.drop_first())
    }
}

/// The reconstruction of a length from its big-endian bytes is exact.
pub proof fn lemma_be_round_trip(n: int)
    requires
        0 <= n < 0x100000000,
    ensures
        spec_be_bytes(n).len() == 4,
        spec_be_val(spec_be_bytes(n)) == n,
        0 <= n / 0x1000000 < 0x100,
        0 <= (n % 0x1000000) / 0x10000 < 0x100,
        0 <= ((n % 0x1000000) % 0x10000) / 0x100 < 0x100,
        0 <= ((n % 0x1000000) % 0x10000) % 0x100 < 0x100,
{
    let r0 = n % 0x1000000;
    let r1 = r0 % 0x10000;
    assert(n == 0x1000000 * (n / 0x1000000) + n % 0x1000000) by (nonlinear_arith);
    assert(r0 == 0x10000 * (r0 / 0x10000) + r0 % 0x10000) by (nonlinear_arith);
    assert(r1 == 0x100 * (r1 / 0x100) + r1 % 0x100) by (nonlinear_arith);
    assert(0 <= n % 0x1000000 < 0x1000000) by (nonlinear_arith)
        requires
            n >= 0,
    ;
    assert(0 <= r0 % 0x10000 < 0x10000) by (nonlinear_arith)
        requires
            r0 >= 0,
    ;
    assert(0 <= r1 % 0x100 < 0x100) by (nonlinear_arith)
        requires
            r1 >= 0,
    ;
    assert(0 <= n / 0x1000000 < 0x100) by (nonlinear_arith)
        requires
            0 <= n < 0x100000000,
    ;
    assert(0 <= r0 / 0x10000 < 0x100) by (nonlinear_arith)
        requires
            0 <= r0 < 0x1000000,
    ;
    assert(0 <= r1 / 0x100 < 0x100) by (nonlinear_arith)
        requires
            0 <= r1 < 0x10000,
    ;
}

/// A byte-stream reader that turns a fed byte stream into discrete
/// length-prefixed packets, keeping any partial trailing frame buffered.
pub struct PacketReader {
    buffer: Vec<u8>,
}

impl View for PacketReader {
    type V = Seq<u8>;

    closed spec fn view(&self) -> Seq<u8> {
        self.buffer@
    }
}

impl Default for PacketReader {
    fn default() -> (r: Self)
        ensures
            r@ == Seq::<u8>::empty(),
    {
        PacketReader { buffer: Vec::new() }
    }
}

impl PacketReader {
    /// Append freshly received bytes to the buffer.
    pub fn feed(&mut self, data: &[u8])
        ensures
            final(self)@ == old(self)@ + data@,
    {
        let mut i: usize = 0;
        while i < data.len()
            invariant
                0 <= i <= data@.len(),
                self@ == old(self)@ + data@.subrange(0, i as int),
            decreases data@.len() - i,
        {
            let b: u8 = data[i];
            self.buffer.push(b);
            proof {
                assert(old(self)@ + data@.subrange(0, i + 1) =~= (old(self)@ + data@.subrange(
                    0,
                    i as int,
                )).push(data@[i as int]));
            }
            i = i + 1;
        }
        proof {
            assert(data@.subrange(0, data@.len() as int) =~= data@);
        }
    }

    /// Number of bytes currently buffered.
    pub fn bytes_stored(&self) -> (r: usize)
        ensures
            r == self@.len(),
    {
        self.buffer.len()
    }

    /// Pop the next complete packet off the front of the buffer, if one is
    /// fully buffered.
    pub fn next_packet(&mut self) -> (r: Option<Vec<u8>>)
        ensures
            spec_has_packet(old(self)@) ==> r is Some && r.unwrap()@ == spec_packet_payload(
                old(self)@,
            ) && final(self)@ == spec_packet_rest(old(self)@),
            !spec_has_packet(old(self)@) ==> r is None && final(self)@ == old(self)@,
    {
        if self.buffer.len() < 4 {
            return None;
        }
        let b0: u64 = self.buffer[0] as u64;
        let b1: u64 = self.buffer[1] as u64;
        let b2: u64 = self.buffer[2] as u64;
        let b3: u64 = self.buffer[3] as u64;
        let size: u64 = b0 * 0x1000000 + b1 * 0x10000 + b2 * 0x100 + b3;
        assert(size == spec_be_val(old(self)@));
        if (self.buffer.len() as u64) < 4 + size {
            return None;
        }
        let mut tail = self.buffer.split_off(4);
        let rest = tail.split_off(size as usize);
        self.buffer = rest;
        proof {
            assert(tail@ =~= spec_packet_payload(old(self)@));
            assert(self@ =~= spec_packet_rest(old(self)@));
        }
        Some(tail)
    }

    /// Pop every complete packet currently buffered, in stream order, leaving
    /// any partial trailing frame for the next feeding.
    pub fn read_packets(&mut self) -> (r: Vec<Vec<u8>>)
        ensures
            r@.map_values(|v: Vec<u8>| v@) == spec_decode_all(old(self)@),
            final(self)@ == spec_leftover(old(self)@),
    {
        let mut out: Vec<Vec<u8>> = Vec::new();
        loop
            invariant
                spec_decode_all(old(self)@) == out@.map_values(|v: Vec<u8>| v@) + spec_decode_all(
                    self@,
                ),
                spec_leftover(old(self)@) == spec_leftover(self@),
            decreases self@.len(),
        {
            let ghost pre = self@;
            match self.next_packet() {
                Some(p) => {
                    proof {
                        assert(spec_has_packet(pre));
                        assert(spec_decode_all(pre) == seq![spec_packet_payload(pre)]
                            + spec_decode_all(spec_packet_rest(pre)));
                    }
                    let ghost out_pre = out@;
                    out.push(p);
                    proof {
                        assert(out@.map_values(|v: Vec<u8>| v@) =~= out_pre.map_values(
                            |v: Vec<u8>| v@,
                        ).push(p@));
                        assert(out@.map_values(|v: Vec<u8>| v@) + spec_decode_all(self@)
                            =~= out_pre.map_values(|v: Vec<u8>| v@) + spec_decode_all(pre));
                    }
                },
                None => {
                    proof {
                        assert(!spec_has_packet(pre));
                        assert(spec_decode_all(self@) =~= Seq::<Seq<u8>>::empty());
                        assert(out@.map_values(|v: Vec<u8>| v@) + spec_decode_all(self@)
                            =~= out@.map_values(|v: Vec<u8>| v@));
                    }
                    return out;
                },
            }
        }
    }
}

/// Encoder of the length-prefixed wire format.
pub struct PacketWriter {}

impl PacketWriter {
    /// Append one framed message to the outgoing byte buffer: the big-endian
    /// length, then the payload.
    pub fn write(out: &mut Vec<u8>, data: &[u8])
        requires
            data@.len() < 0x100000000,
        ensures
            final(out)@ == old(out)@ + spec_encode_frame(data@),
    {
        proof {
            lemma_be_round_trip(data@.len() as int);
        }
        let n: u64 = data.len() as u64;
        let b0: u8 = (n / 0x1000000) as u8;
        let b1: u8 = ((n % 0x1000000) / 0x10000) as u8;
        let b2: u8 = (((n % 0x1000000) % 0x10000) / 0x100) as u8;
        let b3: u8 = (((n % 0x1000000) % 0x10000) % 0x100) as u8;
        out.push(b0);
        out.push(b1);
        out.push(b2);
        out.push(b3);
        let mut i: usize = 0;
        while i < data.len()
            invariant
                0 <= i <= data@.len(),
                out@ == old(out)@ + spec_be_bytes(data@.len() as int) + data@.subrange(
                    0,
                    i as int,
                ),
            decreases data@.len() - i,
        {
            let b: u8 = data[i];
            out.push(b);
            proof {
                assert(old(out)@ + spec_be_bytes(data@.len() as int) + data@.subrange(0, i + 1)
                    =~= (old(out)@ + spec_be_bytes(data@.len() as int) + data@.subrange(
                    0,
                    i as int,
                )).push(data@[i as int]));
            }
            i = i + 1;
        }
        proof {
            assert(data@.subrange(0, data@.len() as int) =~= data@);
            assert(old(out)@ + spec_be_bytes(data@.len() as int) + data@ =~= old(out)@
                + spec_encode_frame(data@));
        }
    }
}

/// Outcome kinds of a transport read, modelled as plain values: a read that
/// would block is not an error, it only means no bytes were available.
#[derive(Clone, Copy, PartialEq, Eq, Structural, Debug)]
pub enum IoErrorKind {
    WouldBlock,
    Other,
}

impl PacketReader {
    /// Turn a would-block outcome into a successful default; every other
    /// outcome passes through unchanged.
    pub fn ignore_would_block<T>(r: Result<T, IoErrorKind>, default: T) -> (res: Result<
        T,
        IoErrorKind,
    >)
        ensures
            r is Ok ==> res == r,
            r == Result::<T, IoErrorKind>::Err(IoErrorKind::WouldBlock) ==> res == Result::<
                T,
                IoErrorKind,
            >::Ok(default),
            r is Err && r != Result::<T, IoErrorKind>::Err(IoErrorKind::WouldBlock) ==> res == r,
    {
        match r {
            Ok(ok) => Ok(ok),
            Err(err) => {
                if err == IoErrorKind::WouldBlock {
                    Ok(default)
                } else {
                    Err(err)
                }
            },
        }
    }
}

/// The framing round trip: however the concatenated stream of any sequence
/// of framed payloads (followed by any incomplete trailing fragment) was
/// chunked while being fed, decoding yields exactly those payloads in order,
/// and exactly the fragment stays buffered.
pub proof fn lemma_round_trip(ps: Seq<Seq<u8>>, partial: Seq<u8>)
    requires
        forall|i: int| 0 <= i < ps.len() ==> (#[trigger] ps[i]).len() < 0x100000000,
        !spec_has_packet(partial),
    ensures
        spec_decode_all(spec_encode_all(ps) + partial) == ps,
        spec_leftover(spec_encode_all(ps) + partial) == partial,
    decreases ps.len(),
{
    if ps.len() == 0 {
        assert(spec_encode_all(ps) + partial =~= partial);
        assert(spec_decode_all(partial) =~= Seq::<Seq<u8>>::empty());
        assert(spec_decode_all(spec_encode_all(ps) + partial) =~= ps);
    } else {
        let p0 = ps[0];
        let rest = ps.drop_first();
        let buf = spec_encode_all(ps) + partial;
        lemma_be_round_trip(p0.len() as int);
        assert(buf =~= spec_encode_frame(p0) + (spec_encode_all(rest) + partial));
        assert(spec_be_bytes(p0.len() as int).len() == 4);
        assert(buf[0] == spec_be_bytes(p0.len() as int)[0]);
        assert(buf[1] == spec_be_bytes(p0.len() as int)[1]);
        assert(buf[2] == spec_be_bytes(p0.len() as int)[2]);
        assert(buf[3] == spec_be_bytes(p0.len() as int)[3]);
        assert(spec_be_val(buf) == spec_be_val(spec_be_bytes(p0.len() as int)));
        assert(spec_be_val(buf) == p0.len());
        assert(spec_has_packet(buf));
        assert(spec_packet_payload(buf) =~= p0);
        assert(spec_packet_rest(buf) =~= spec_encode_all(rest) + partial);
        lemma_round_trip(rest, partial);
        assert(spec_decode_all(buf) == seq![p0] + spec_decode_all(spec_encode_all(rest) + partial));
        assert(seq![p0] + rest =~= ps);
    }
}

} // verus!
