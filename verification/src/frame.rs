//! Byte-stream framing and resynchronization.
//!
//! A frame on the wire is `0xAA 0x55 <len> <len payload bytes> <2 checksum
//! bytes>` with `len` either 20 or 44, so a complete frame holds `len + 5`
//! bytes. The decoder accumulates one byte at a time; on any framing
//! violation or checksum mismatch it discards the whole buffer and resumes
//! scanning, so it resynchronizes after corruption at the cost of the bytes
//! already buffered.

use vstd::prelude::*;
use crate::checksum::{check_sum, checksum_matches, crc_trailer, crc_trailer_spec};

verus! {

/// The only two payload lengths the protocol defines: 20 for an orientation
/// frame, 44 for a nine-degrees-of-freedom motion frame.
pub open spec fn frame_len_ok(len: u8) -> bool {
    len == 20 || len == 44
}

/// The framing part of well-formedness: header bytes, a known length byte,
/// and exactly `len + 5` bytes in all.
pub open spec fn frame_framing_ok(f: Seq<u8>) -> bool {
    &&& f.len() >= 3
    &&& f[0] == 0xAA
    &&& f[1] == 0x55
    &&& frame_len_ok(f[2])
    &&& f.len() == f[2] + 5
}

/// The checksummed region of a frame: everything between the two header
/// bytes and the two trailing checksum bytes.
pub open spec fn frame_body(f: Seq<u8>) -> Seq<u8> {
    f.subrange(2, f.len() - 2)
}

/// The two trailing checksum bytes of a frame.
pub open spec fn frame_trailer(f: Seq<u8>) -> Seq<u8> {
    f.subrange(f.len() - 2, f.len() as int)
}

/// The floating-point field block of a frame: the payload minus its first
/// four metadata bytes, `len - 4` bytes in all.
pub open spec fn frame_block(f: Seq<u8>) -> Seq<u8> {
    f.subrange(7, f.len() - 2)
}

/// A complete, checksum-valid frame.
pub open spec fn frame_well_formed(f: Seq<u8>) -> bool {
    frame_framing_ok(f) && checksum_matches(frame_body(f), frame_trailer(f))
}

/// After appending a byte the buffer holds `s`: the scan discards it
/// entirely when the first byte is not the frame start, or once three bytes
/// are present and the second header byte or the length byte is wrong.
pub open spec fn scan_discards(s: Seq<u8>) -> bool {
    s[0] != 0xAA || (s.len() >= 3 && !(s[1] == 0x55 && frame_len_ok(s[2])))
}

/// The buffer `s` has reached the full length its length byte announces.
pub open spec fn scan_complete(s: Seq<u8>) -> bool {
    !scan_discards(s) && s.len() >= 3 && s.len() >= s[2] + 5
}

/// The buffer `s` is a complete frame whose checksum validates.
pub open spec fn scan_accepts(s: Seq<u8>) -> bool {
    scan_complete(s) && checksum_matches(frame_body(s), frame_trailer(s))
}

/// Buffer contents after one more byte `b`: kept while a frame may still be
/// forming, cleared on discard, acceptance, or checksum mismatch.
pub open spec fn step_buffer(buf: Seq<u8>, b: u8) -> Seq<u8> {
    let s = buf.push(b);
    if scan_discards(s) || scan_complete(s) {
        Seq::empty()
    } else {
        s
    }
}

/// The packet (length byte and floating-point block) that appending `b`
/// completes, if any.
pub open spec fn step_emit(buf: Seq<u8>, b: u8) -> Option<(u8, Seq<u8>)> {
    let s = buf.push(b);
    if scan_accepts(s) {
        Some((s[2], frame_block(s)))
    } else {
        None
    }
}

/// Zero-or-one emitted packets of one step, as a sequence.
pub open spec fn step_emit_seq(buf: Seq<u8>, b: u8) -> Seq<(u8, Seq<u8>)> {
    match step_emit(buf, b) {
        Some(p) => seq![p],
        None => Seq::empty(),
    }
}

/// Buffer contents after feeding every byte of `input`.
pub open spec fn run_buffer(buf: Seq<u8>, input: Seq<u8>) -> Seq<u8>
    decreases input.len(),
{
    if input.len() == 0 {
        buf
    } else {
        run_buffer(step_buffer(buf, input[0]), input.skip(1))
    }
}

/// Every packet emitted while feeding `input`, in order.
pub open spec fn run_emitted(buf: Seq<u8>, input: Seq<u8>) -> Seq<(u8, Seq<u8>)>
    decreases input.len(),
{
    if input.len() == 0 {
        Seq::empty()
    } else {
        step_emit_seq(buf, input[0]) + run_emitted(step_buffer(buf, input[0]), input.skip(1))
    }
}

/// The decoder's buffer only ever holds a viable frame prefix: it starts
/// with the frame-start byte, and once the header has been checked it is
/// still shorter than the complete frame it announces.
pub open spec fn buffer_wf(s: Seq<u8>) -> bool {
    &&& s.len() >= 1 ==> s[0] == 0xAA
    &&& s.len() >= 3 ==> s[1] == 0x55 && frame_len_ok(s[2]) && s.len() < s[2] + 5
}

/// A framed, checksum-validated packet: its length byte and its
/// floating-point field block (the payload minus four metadata bytes).
pub struct Packet {
    pub length: u8,
    pub payload: Vec<u8>,
}

impl Packet {
    /// The packet as the spec-level pair the stream model emits.
    pub open spec fn model(&self) -> (u8, Seq<u8>) {
        (self.length, self.payload@)
    }
}

/// What one appended byte did to the stream.
pub enum FrameEvent {
    /// A frame may still be forming; the byte was buffered.
    Pending,
    /// Header or length byte violated framing; the buffer was discarded.
    FramingError,
    /// A complete frame failed its checksum; the buffer was discarded.
    ChecksumMismatch,
    /// A complete frame validated; the buffer was consumed into the packet.
    Framed(Packet),
}

/// The resynchronizing frame decoder.
pub struct FrameDecoder {
    buffer: Vec<u8>,
}

impl View for FrameDecoder {
    type V = Seq<u8>;

    closed spec fn view(&self) -> Seq<u8> {
        self.buffer@
    }
}

impl FrameDecoder {
    pub open spec fn wf(&self) -> bool {
        buffer_wf(self@)
    }

    pub fn new() -> (d: FrameDecoder)
        ensures
            d@ == Seq::<u8>::empty(),
            d.wf(),
    {
        FrameDecoder { buffer: Vec::new() }
    }

    /// Append one byte from the stream. The buffer evolves exactly as
    /// `step_buffer` says, and a packet comes out exactly when `step_emit`
    /// says one does.
    pub fn push_byte(&mut self, b: u8) -> (ev: FrameEvent)
        requires
            old(self).wf(),
        ensures
            final(self).wf(),
            final(self)@ == step_buffer(old(self)@, b),
            (match ev {
                FrameEvent::Framed(p) => step_emit(old(self)@, b) == Some(p.model()),
                _ => step_emit(old(self)@, b) is None,
            }),
            (ev is FramingError <==> scan_discards(old(self)@.push(b))),
            (ev is ChecksumMismatch <==> scan_complete(old(self)@.push(b)) && !scan_accepts(
                old(self)@.push(b),
            )),
            (ev is Framed <==> scan_accepts(old(self)@.push(b))),
            (ev is Pending <==> !scan_discards(old(self)@.push(b)) && !scan_complete(
                old(self)@.push(b),
            )),
    {
        self.buffer.push(b);
        let ghost s = self.buffer@;
        let blen: usize = self.buffer.len();

        if self.buffer[0] != 0xAA {
            self.buffer.clear();
            return FrameEvent::FramingError;
        }
        if blen < 3 {
            return FrameEvent::Pending;
        }
        let len_byte: u8 = self.buffer[2];
        if self.buffer[1] != 0x55 || !(len_byte == 20 || len_byte == 44) {
            self.buffer.clear();
            return FrameEvent::FramingError;
        }
        let expected: usize = len_byte as usize + 5;
        if blen < expected {
            return FrameEvent::Pending;
        }
        // The buffer invariant keeps the buffer strictly shorter than a full
        // frame before this byte, so the frame completes exactly now.
        let body: &[u8] = vstd::slice::slice_subrange(self.buffer.as_slice(), 2, blen - 2);
        let trailer: &[u8] = vstd::slice::slice_subrange(self.buffer.as_slice(), blen - 2, blen);
        if check_sum(body, trailer) {
            let block: &[u8] = vstd::slice::slice_subrange(self.buffer.as_slice(), 7, blen - 2);
            let payload: Vec<u8> = vstd::slice::slice_to_vec(block);
            self.buffer.clear();
            proof {
                assert(body@ == frame_body(s));
                assert(trailer@ == frame_trailer(s));
                assert(payload@ == frame_block(s));
            }
            return FrameEvent::Framed(Packet { length: len_byte, payload });
        } else {
            self.buffer.clear();
            return FrameEvent::ChecksumMismatch;
        }
    }

    /// Feed a whole chunk of bytes, one at a time, and collect every packet
    /// the stream completes, in order.
    pub fn feed(&mut self, bytes: &[u8]) -> (packets: Vec<Packet>)
        requires
            old(self).wf(),
        ensures
            final(self).wf(),
            final(self)@ == run_buffer(old(self)@, bytes@),
            packets@.map_values(|p: Packet| p.model()) == run_emitted(old(self)@, bytes@),
    {
        let ghost buf0 = self@;
        let mut packets: Vec<Packet> = Vec::new();
        let mut i: usize = 0;
        while i < bytes.len()
            invariant
                i <= bytes@.len(),
                self.wf(),
                self@ == run_buffer(buf0, bytes@.take(i as int)),
                packets@.map_values(|p: Packet| p.model()) == run_emitted(
                    buf0,
                    bytes@.take(i as int),
                ),
            decreases bytes@.len() - i,
        {
            let ghost pre = self@;
            let ghost packets_pre = packets@;
            let ev = self.push_byte(bytes[i]);
            match ev {
                FrameEvent::Framed(p) => packets.push(p),
                _ => (),
            }
            proof {
                lemma_run_snoc(buf0, bytes@.take(i as int), bytes@[i as int]);
                assert(bytes@.take(i as int).push(bytes@[i as int]) =~= bytes@.take(i + 1));
                assert(packets@.map_values(|p: Packet| p.model()) =~= packets_pre.map_values(
                    |p: Packet| p.model(),
                ) + step_emit_seq(pre, bytes@[i as int]));
            }
            i = i + 1;
        }
        proof {
            assert(bytes@.take(bytes@.len() as int) =~= bytes@);
        }
        packets
    }
}

/// Feeding `s.push(b)` is feeding `s`, then `b`.
pub proof fn lemma_run_snoc(buf: Seq<u8>, s: Seq<u8>, b: u8)
    ensures
        run_buffer(buf, s.push(b)) == step_buffer(run_buffer(buf, s), b),
        run_emitted(buf, s.push(b)) == run_emitted(buf, s) + step_emit_seq(run_buffer(buf, s), b),
    decreases s.len(),
{
    if s.len() == 0 {
        let x = step_buffer(buf, b);
        assert(s.push(b)[0] == b);
        assert(s.push(b).skip(1) =~= Seq::<u8>::empty());
        assert(run_buffer(buf, s.push(b)) == run_buffer(x, Seq::<u8>::empty()));
        assert(run_buffer(x, Seq::<u8>::empty()) == x);
        assert(run_emitted(buf, s.push(b)) == step_emit_seq(buf, b) + run_emitted(
            x,
            Seq::<u8>::empty(),
        ));
        assert(run_emitted(x, Seq::<u8>::empty()) == Seq::<(u8, Seq<u8>)>::empty());
        assert(step_emit_seq(buf, b) + Seq::<(u8, Seq<u8>)>::empty() =~= step_emit_seq(buf, b));
        assert(run_emitted(buf, s) == Seq::<(u8, Seq<u8>)>::empty());
        assert(run_emitted(buf, s) + step_emit_seq(run_buffer(buf, s), b) =~= step_emit_seq(
            buf,
            b,
        ));
    } else {
        let x = step_buffer(buf, s[0]);
        assert(s.push(b)[0] == s[0]);
        assert(s.push(b).skip(1) =~= s.skip(1).push(b));
        lemma_run_snoc(x, s.skip(1), b);
        assert(run_buffer(buf, s.push(b)) == run_buffer(x, s.skip(1).push(b)));
        assert(run_buffer(buf, s) == run_buffer(x, s.skip(1)));
        assert(run_emitted(buf, s.push(b)) == step_emit_seq(buf, s[0]) + run_emitted(
            x,
            s.skip(1).push(b),
        ));
        assert(run_emitted(buf, s) == step_emit_seq(buf, s[0]) + run_emitted(x, s.skip(1)));
        assert(run_emitted(buf, s.push(b)) =~= run_emitted(buf, s) + step_emit_seq(
            run_buffer(buf, s),
            b,
        ));
    }
}

/// Feeding `s + t` is feeding `s`, then `t`.
pub proof fn lemma_run_concat(buf: Seq<u8>, s: Seq<u8>, t: Seq<u8>)
    ensures
        run_buffer(buf, s + t) == run_buffer(run_buffer(buf, s), t),
        run_emitted(buf, s + t) == run_emitted(buf, s) + run_emitted(run_buffer(buf, s), t),
    decreases s.len(),
{
    if s.len() == 0 {
        assert(s + t =~= t);
        assert(run_emitted(buf, s) + run_emitted(run_buffer(buf, s), t) =~= run_emitted(buf, t));
    } else {
        assert((s + t)[0] == s[0]);
        assert((s + t).skip(1) =~= s.skip(1) + t);
        lemma_run_concat(step_buffer(buf, s[0]), s.skip(1), t);
        assert(run_emitted(buf, s + t) =~= run_emitted(buf, s) + run_emitted(
            run_buffer(buf, s),
            t,
        ));
    }
}

/// From an empty buffer, bytes that are not the frame-start byte are each
/// discarded on arrival: nothing is buffered and nothing is emitted.
pub proof fn lemma_noise_ignored(noise: Seq<u8>)
    requires
        forall|i: int| 0 <= i < noise.len() ==> noise[i] != 0xAA,
    ensures
        run_buffer(Seq::empty(), noise) == Seq::<u8>::empty(),
        run_emitted(Seq::empty(), noise) == Seq::<(u8, Seq<u8>)>::empty(),
    decreases noise.len(),
{
    if noise.len() > 0 {
        let s = Seq::<u8>::empty().push(noise[0]);
        assert(s[0] == noise[0]);
        assert(scan_discards(s));
        assert(forall|i: int| 0 <= i < noise.skip(1).len() ==> noise.skip(1)[i] != 0xAA);
        lemma_noise_ignored(noise.skip(1));
        assert(run_emitted(Seq::empty(), noise) =~= Seq::<(u8, Seq<u8>)>::empty());
    }
}

/// While a frame with sound framing is still incomplete, the decoder buffers
/// it unchanged and emits nothing.
proof fn lemma_frame_prefix(f: Seq<u8>, k: int)
    requires
        frame_framing_ok(f),
        0 <= k < f.len(),
    ensures
        run_buffer(Seq::empty(), f.take(k)) == f.take(k),
        run_emitted(Seq::empty(), f.take(k)) == Seq::<(u8, Seq<u8>)>::empty(),
    decreases k,
{
    if k == 0 {
        assert(f.take(0) =~= Seq::<u8>::empty());
    } else {
        lemma_frame_prefix(f, k - 1);
        lemma_run_snoc(Seq::empty(), f.take(k - 1), f[k - 1]);
        let s = f.take(k - 1).push(f[k - 1]);
        assert(s =~= f.take(k));
        assert(s[0] == f[0]);
        if s.len() >= 3 {
            assert(s[1] == f[1] && s[2] == f[2]);
        }
        assert(!scan_discards(s));
        assert(s.len() == k < f.len() == f[2] + 5);
        assert(!scan_complete(s));
        assert(step_buffer(f.take(k - 1), f[k - 1]) == f.take(k));
        assert(run_emitted(Seq::empty(), f.take(k)) =~= Seq::<(u8, Seq<u8>)>::empty());
    }
}

/// Feeding one complete frame with sound framing into an empty buffer emits
/// exactly its packet when the checksum validates, and nothing otherwise;
/// either way the buffer ends empty.
pub proof fn lemma_frame_run(f: Seq<u8>)
    requires
        frame_framing_ok(f),
    ensures
        run_buffer(Seq::empty(), f) == Seq::<u8>::empty(),
        run_emitted(Seq::empty(), f) == if checksum_matches(frame_body(f), frame_trailer(f)) {
            seq![(f[2], frame_block(f))]
        } else {
            Seq::<(u8, Seq<u8>)>::empty()
        },
{
    let k = f.len() - 1;
    lemma_frame_prefix(f, k);
    lemma_run_snoc(Seq::empty(), f.take(k), f[k]);
    let s = f.take(k).push(f[k]);
    assert(s =~= f);
    assert(s[0] == f[0] && s[1] == f[1] && s[2] == f[2]);
    assert(!scan_discards(s));
    assert(scan_complete(s));
    assert(f.take(k).push(f[k]) == f);
    if checksum_matches(frame_body(f), frame_trailer(f)) {
        assert(scan_accepts(s));
        assert(run_emitted(Seq::empty(), f) =~= seq![(f[2], frame_block(f))]);
    } else {
        assert(!scan_accepts(s));
        assert(run_emitted(Seq::empty(), f) =~= Seq::<(u8, Seq<u8>)>::empty());
    }
}

/// Checksum round trip, acceptance half: a complete frame whose checksum was
/// computed correctly is accepted and emitted as exactly one packet.
pub proof fn lemma_well_formed_frame_accepted(f: Seq<u8>)
    requires
        frame_well_formed(f),
    ensures
        run_buffer(Seq::empty(), f) == Seq::<u8>::empty(),
        run_emitted(Seq::empty(), f) == seq![(f[2], frame_block(f))],
{
    lemma_frame_run(f);
}

/// Checksum round trip, rejection half: flipping any single bit of any
/// payload byte (or of the length echo inside the checksummed region) of a
/// well-formed frame makes the frame ill-formed, and feeding the corrupted
/// frame into an empty decoder emits no packet at all.
pub proof fn lemma_bit_flip_rejected(f: Seq<u8>, j: int, bit: u8)
    requires
        frame_well_formed(f),
        3 <= j < f.len() - 2,
        bit < 8,
    ensures
        !frame_well_formed(f.update(j, f[j] ^ (1u8 << bit))),
        run_buffer(Seq::empty(), f.update(j, f[j] ^ (1u8 << bit))) == Seq::<u8>::empty(),
        run_emitted(Seq::empty(), f.update(j, f[j] ^ (1u8 << bit))) == Seq::<(
            u8,
            Seq<u8>,
        )>::empty(),
{
    let g = f.update(j, f[j] ^ (1u8 << bit));
    assert(frame_framing_ok(g));
    assert(frame_body(g) =~= frame_body(f).update(j - 2, frame_body(f)[j - 2] ^ (1u8 << bit)));
    assert(frame_trailer(g) =~= frame_trailer(f));
    crate::checksum::lemma_single_flip_changes_crc(frame_body(f), j - 2, bit);
    if checksum_matches(frame_body(g), frame_trailer(g)) {
        crate::checksum::lemma_trailer_injective(
            crate::checksum::crc16_arc_spec(frame_body(f)),
            crate::checksum::crc16_arc_spec(frame_body(g)),
        );
    }
    assert(!checksum_matches(frame_body(g), frame_trailer(g)));
    lemma_frame_run(g);
}

/// Resynchronization: a byte stream made of one well-formed frame, preceded
/// and followed by arbitrary noise in which no byte equals the frame-start
/// byte, yields exactly that frame's packet and no spurious ones.
pub proof fn lemma_resync(pre: Seq<u8>, f: Seq<u8>, post: Seq<u8>)
    requires
        forall|i: int| 0 <= i < pre.len() ==> pre[i] != 0xAA,
        forall|i: int| 0 <= i < post.len() ==> post[i] != 0xAA,
        frame_well_formed(f),
    ensures
        run_buffer(Seq::empty(), pre + f + post) == Seq::<u8>::empty(),
        run_emitted(Seq::empty(), pre + f + post) == seq![(f[2], frame_block(f))],
{
    lemma_noise_ignored(pre);
    lemma_frame_run(f);
    lemma_noise_ignored(post);
    lemma_run_concat(Seq::empty(), pre, f + post);
    lemma_run_concat(Seq::empty(), f, post);
    assert((pre + f + post) =~= pre + (f + post));
    assert(run_emitted(Seq::empty(), pre + f + post) =~= seq![(f[2], frame_block(f))]);
}

/// Builds a complete wire frame around a payload: header, length byte, the
/// payload, and the correctly computed checksum trailer.
pub fn build_frame(length: u8, payload: &[u8]) -> (frame: Vec<u8>)
    requires
        frame_len_ok(length),
        payload@.len() == length as int,
    ensures
        frame_well_formed(frame@),
        frame@.len() == length + 5,
        frame@[2] == length,
        frame@.subrange(3, 3 + length as int) == payload@,
        frame_block(frame@) == payload@.skip(4),
{
    let mut body: Vec<u8> = Vec::new();
    body.push(length);
    let mut i: usize = 0;
    while i < payload.len()
        invariant
            i <= payload@.len(),
            body@ == seq![length] + payload@.take(i as int),
        decreases payload@.len() - i,
    {
        body.push(payload[i]);
        proof {
            assert(body@ =~= seq![length] + payload@.take(i + 1));
        }
        i = i + 1;
    }
    proof {
        assert(payload@.take(payload@.len() as int) =~= payload@);
    }
    let trailer: Vec<u8> = crc_trailer(body.as_slice());

    let mut frame: Vec<u8> = Vec::new();
    frame.push(0xAA);
    frame.push(0x55);
    let mut j: usize = 0;
    while j < body.len()
        invariant
            j <= body@.len(),
            body@ == seq![length] + payload@,
            frame@ == seq![0xAAu8, 0x55u8] + body@.take(j as int),
        decreases body@.len() - j,
    {
        frame.push(body[j]);
        proof {
            assert(frame@ =~= seq![0xAAu8, 0x55u8] + body@.take(j + 1));
        }
        j = j + 1;
    }
    proof {
        assert(body@.take(body@.len() as int) =~= body@);
    }
    frame.push(trailer[0]);
    frame.push(trailer[1]);
    proof {
        assert(frame@ =~= seq![0xAAu8, 0x55u8] + body@ + trailer@);
        assert(frame_body(frame@) =~= body@);
        assert(frame_trailer(frame@) =~= trailer@);
        assert(trailer@ == crc_trailer_spec(body@));
        assert(frame@.subrange(3, 3 + length as int) =~= payload@);
        assert(frame_block(frame@) =~= payload@.skip(4));
    }
    frame
}

} // verus!
