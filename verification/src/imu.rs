//! The decoding pipeline: framing, payload decode, and the merge of the two
//! independently arriving packet kinds into complete samples.
//!
//! The pipeline owns the frame decoder and the latest decoded value of each
//! packet kind. It emits a sample after every validated packet once at least
//! one orientation and one motion packet have been observed; each emitted
//! sample pairs the newly decoded half with the latest known other half.

use vstd::prelude::*;
use crate::codec::{hex_to_ieee, le_words};
use crate::frame::{
    scan_accepts, scan_complete, scan_discards, step_buffer, step_emit, buffer_wf, FrameDecoder,
    FrameEvent,
};
use crate::sample::{
    decode_9dof_data, decode_angle_data, motion_base, spec_angle_data, spec_motion_data, AngleData,
    DecodedSample, MotionConvention, MotionData, OrientationEncoding,
};

verus! {

/// What one byte of the stream did to the pipeline.
pub enum StreamEvent {
    /// A frame may still be forming.
    Pending,
    /// Framing violation; the buffered bytes were discarded.
    FramingError,
    /// A complete frame failed its checksum and was discarded.
    ChecksumMismatch,
    /// A packet was decoded and stored, but no sample is emitted yet because
    /// the other packet kind has never been observed.
    PacketStored,
    /// A packet was decoded and a complete sample is emitted.
    Sample(DecodedSample),
}

/// The latest orientation data after a packet of the given length and block.
pub open spec fn apply_packet_angle(
    angle: Option<AngleData>,
    length: u8,
    block: Seq<u8>,
) -> Option<AngleData> {
    if length == 20 {
        Some(spec_angle_data(le_words(block)))
    } else {
        angle
    }
}

/// The latest motion data after a packet of the given length and block.
pub open spec fn apply_packet_motion(
    motion: Option<MotionData>,
    convention: MotionConvention,
    length: u8,
    block: Seq<u8>,
) -> Option<MotionData> {
    if length == 44 {
        Some(spec_motion_data(le_words(block), convention))
    } else {
        motion
    }
}

/// The latest orientation data after a sequence of emitted packets.
pub open spec fn pipe_angle(
    angle: Option<AngleData>,
    emitted: Seq<(u8, Seq<u8>)>,
) -> Option<AngleData>
    decreases emitted.len(),
{
    if emitted.len() == 0 {
        angle
    } else {
        pipe_angle(apply_packet_angle(angle, emitted[0].0, emitted[0].1), emitted.skip(1))
    }
}

/// The latest motion data after a sequence of emitted packets.
pub open spec fn pipe_motion(
    motion: Option<MotionData>,
    convention: MotionConvention,
    emitted: Seq<(u8, Seq<u8>)>,
) -> Option<MotionData>
    decreases emitted.len(),
{
    if emitted.len() == 0 {
        motion
    } else {
        pipe_motion(
            apply_packet_motion(motion, convention, emitted[0].0, emitted[0].1),
            convention,
            emitted.skip(1),
        )
    }
}

/// The samples a sequence of emitted packets produces: one per packet, as
/// soon as both packet kinds have been observed, pairing the newly decoded
/// half with the latest known other half.
pub open spec fn pipe_samples(
    angle: Option<AngleData>,
    motion: Option<MotionData>,
    convention: MotionConvention,
    emitted: Seq<(u8, Seq<u8>)>,
) -> Seq<DecodedSample>
    decreases emitted.len(),
{
    if emitted.len() == 0 {
        Seq::empty()
    } else {
        let angle2 = apply_packet_angle(angle, emitted[0].0, emitted[0].1);
        let motion2 = apply_packet_motion(motion, convention, emitted[0].0, emitted[0].1);
        let rest = pipe_samples(angle2, motion2, convention, emitted.skip(1));
        if angle2 is Some && motion2 is Some {
            seq![DecodedSample { angle: angle2.unwrap(), motion: motion2.unwrap() }] + rest
        } else {
            rest
        }
    }
}

/// Processing `e.push(p)` is processing `e`, then `p`.
proof fn lemma_pipe_snoc(
    angle: Option<AngleData>,
    motion: Option<MotionData>,
    convention: MotionConvention,
    emitted: Seq<(u8, Seq<u8>)>,
    p: (u8, Seq<u8>),
)
    ensures
        pipe_angle(angle, emitted.push(p)) == apply_packet_angle(
            pipe_angle(angle, emitted),
            p.0,
            p.1,
        ),
        pipe_motion(motion, convention, emitted.push(p)) == apply_packet_motion(
            pipe_motion(motion, convention, emitted),
            convention,
            p.0,
            p.1,
        ),
        pipe_samples(angle, motion, convention, emitted.push(p)) == pipe_samples(
            angle,
            motion,
            convention,
            emitted,
        ) + ({
            let angle2 = apply_packet_angle(pipe_angle(angle, emitted), p.0, p.1);
            let motion2 = apply_packet_motion(
                pipe_motion(motion, convention, emitted),
                convention,
                p.0,
                p.1,
            );
            if angle2 is Some && motion2 is Some {
                seq![DecodedSample { angle: angle2.unwrap(), motion: motion2.unwrap() }]
            } else {
                Seq::<DecodedSample>::empty()
            }
        }),
    decreases emitted.len(),
{
    if emitted.len() == 0 {
        let angle2 = apply_packet_angle(angle, p.0, p.1);
        let motion2 = apply_packet_motion(motion, convention, p.0, p.1);
        assert(emitted.push(p)[0] == p);
        assert(emitted.push(p).skip(1) =~= Seq::<(u8, Seq<u8>)>::empty());
        assert(pipe_angle(angle2, Seq::empty()) == angle2);
        assert(pipe_motion(motion2, convention, Seq::empty()) == motion2);
        assert(pipe_samples(angle2, motion2, convention, Seq::empty()) == Seq::<
            DecodedSample,
        >::empty());
        assert(pipe_samples(angle, motion, convention, emitted.push(p)) =~= pipe_samples(
            angle,
            motion,
            convention,
            emitted,
        ) + (if angle2 is Some && motion2 is Some {
            seq![DecodedSample { angle: angle2.unwrap(), motion: motion2.unwrap() }]
        } else {
            Seq::<DecodedSample>::empty()
        }));
    } else {
        let angle1 = apply_packet_angle(angle, emitted[0].0, emitted[0].1);
        let motion1 = apply_packet_motion(motion, convention, emitted[0].0, emitted[0].1);
        assert(emitted.push(p)[0] == emitted[0]);
        assert(emitted.push(p).skip(1) =~= emitted.skip(1).push(p));
        lemma_pipe_snoc(angle1, motion1, convention, emitted.skip(1), p);
        assert(pipe_samples(angle, motion, convention, emitted.push(p)) =~= pipe_samples(
            angle,
            motion,
            convention,
            emitted,
        ) + ({
            let angle2 = apply_packet_angle(pipe_angle(angle, emitted), p.0, p.1);
            let motion2 = apply_packet_motion(
                pipe_motion(motion, convention, emitted),
                convention,
                p.0,
                p.1,
            );
            if angle2 is Some && motion2 is Some {
                seq![DecodedSample { angle: angle2.unwrap(), motion: motion2.unwrap() }]
            } else {
                Seq::<DecodedSample>::empty()
            }
        }));
    }
}

/// The telemetry decoding pipeline.
pub struct IMU {
    frames: FrameDecoder,
    latest_angle: Option<AngleData>,
    latest_motion: Option<MotionData>,
    orientation_encoding: OrientationEncoding,
    motion_convention: MotionConvention,
}

impl IMU {
    /// The bytes currently buffered while a frame forms.
    pub closed spec fn buffer(&self) -> Seq<u8> {
        self.frames@
    }

    /// The latest decoded orientation fields, if any packet carried some.
    pub closed spec fn angle(&self) -> Option<AngleData> {
        self.latest_angle
    }

    /// The latest decoded motion fields, if any packet carried some.
    pub closed spec fn motion(&self) -> Option<MotionData> {
        self.latest_motion
    }

    pub closed spec fn encoding(&self) -> OrientationEncoding {
        self.orientation_encoding
    }

    pub closed spec fn convention(&self) -> MotionConvention {
        self.motion_convention
    }

    pub open spec fn wf(&self) -> bool {
        buffer_wf(self.buffer())
    }

    /// A fresh pipeline with the chosen firmware conventions: empty buffer,
    /// no packet of either kind observed yet.
    pub fn new(encoding: OrientationEncoding, convention: MotionConvention) -> (imu: IMU)
        ensures
            imu.wf(),
            imu.buffer() == Seq::<u8>::empty(),
            imu.angle() is None,
            imu.motion() is None,
            imu.encoding() == encoding,
            imu.convention() == convention,
    {
        IMU {
            frames: FrameDecoder::new(),
            latest_angle: None,
            latest_motion: None,
            orientation_encoding: encoding,
            motion_convention: convention,
        }
    }

    /// The orientation encoding this pipeline was configured with.
    pub fn orientation_encoding(&self) -> (e: OrientationEncoding)
        ensures
            e == self.encoding(),
    {
        self.orientation_encoding
    }

    /// Feed one byte from the serial stream. The buffer follows the framing
    /// model exactly; a validated packet updates the latest value of its
    /// kind, and a sample is emitted if both kinds have been observed.
    pub fn process_byte(&mut self, b: u8) -> (ev: StreamEvent)
        requires
            old(self).wf(),
        ensures
            final(self).wf(),
            final(self).encoding() == old(self).encoding(),
            final(self).convention() == old(self).convention(),
            final(self).buffer() == step_buffer(old(self).buffer(), b),
            (match step_emit(old(self).buffer(), b) {
                Option::None => {
                    &&& final(self).angle() == old(self).angle()
                    &&& final(self).motion() == old(self).motion()
                    &&& (ev is FramingError <==> scan_discards(old(self).buffer().push(b)))
                    &&& (ev is ChecksumMismatch <==> scan_complete(old(self).buffer().push(b))
                        && !scan_accepts(old(self).buffer().push(b)))
                    &&& (ev is Pending <==> !scan_discards(old(self).buffer().push(b))
                        && !scan_complete(old(self).buffer().push(b)))
                    &&& !(ev is Sample)
                    &&& !(ev is PacketStored)
                },
                Option::Some(p) => {
                    &&& final(self).angle() == apply_packet_angle(old(self).angle(), p.0, p.1)
                    &&& final(self).motion() == apply_packet_motion(
                        old(self).motion(),
                        old(self).convention(),
                        p.0,
                        p.1,
                    )
                    &&& (match ev {
                        StreamEvent::Sample(ds) => {
                            &&& final(self).angle() == Some(ds.angle)
                            &&& final(self).motion() == Some(ds.motion)
                        },
                        StreamEvent::PacketStored => final(self).angle() is None
                            || final(self).motion() is None,
                        _ => false,
                    })
                },
            }),
    {
        let ghost s = old(self).buffer().push(b);
        let fe = self.frames.push_byte(b);
        match fe {
            FrameEvent::Pending => StreamEvent::Pending,
            FrameEvent::FramingError => StreamEvent::FramingError,
            FrameEvent::ChecksumMismatch => StreamEvent::ChecksumMismatch,
            FrameEvent::Framed(p) => {
                proof {
                    // The buffer invariant bounds the buffer below a full
                    // frame, so acceptance happens exactly at the announced
                    // frame length and the block length follows from it.
                    assert(scan_accepts(s));
                    assert(s.len() == s[2] + 5);
                    assert(p.payload@.len() == s.len() - 9);
                    assert(p.payload@.len() % 4 == 0);
                }
                let words = hex_to_ieee(p.payload);
                if p.length == 20 {
                    proof {
                        assert(words@.len() == 4);
                    }
                    let a = match decode_angle_data(&words) {
                        Ok(a) => a,
                        Err(_) => unreached(),
                    };
                    self.latest_angle = Some(a);
                } else {
                    proof {
                        assert(words@.len() == 10);
                        assert(motion_base(self.motion_convention) + 9 <= 10);
                    }
                    let m = match decode_9dof_data(&words, self.motion_convention) {
                        Ok(m) => m,
                        Err(_) => unreached(),
                    };
                    self.latest_motion = Some(m);
                }
                match (&self.latest_angle, &self.latest_motion) {
                    (Some(a), Some(m)) => StreamEvent::Sample(
                        DecodedSample { angle: *a, motion: *m },
                    ),
                    _ => StreamEvent::PacketStored,
                }
            },
        }
    }

    /// Feed a whole chunk of bytes, one at a time, and collect every
    /// complete sample the stream produces, in order.
    pub fn process_bytes(&mut self, bytes: &[u8]) -> (samples: Vec<DecodedSample>)
        requires
            old(self).wf(),
        ensures
            final(self).wf(),
            final(self).encoding() == old(self).encoding(),
            final(self).convention() == old(self).convention(),
            final(self).buffer() == crate::frame::run_buffer(old(self).buffer(), bytes@),
            final(self).angle() == pipe_angle(
                old(self).angle(),
                crate::frame::run_emitted(old(self).buffer(), bytes@),
            ),
            final(self).motion() == pipe_motion(
                old(self).motion(),
                old(self).convention(),
                crate::frame::run_emitted(old(self).buffer(), bytes@),
            ),
            samples@ == pipe_samples(
                old(self).angle(),
                old(self).motion(),
                old(self).convention(),
                crate::frame::run_emitted(old(self).buffer(), bytes@),
            ),
    {
        let ghost buf0 = self.buffer();
        let ghost angle0 = self.angle();
        let ghost motion0 = self.motion();
        let ghost conv = self.convention();
        let mut samples: Vec<DecodedSample> = Vec::new();
        let mut i: usize = 0;
        while i < bytes.len()
            invariant
                i <= bytes@.len(),
                self.wf(),
                self.encoding() == old(self).encoding(),
                self.convention() == conv,
                conv == old(self).convention(),
                buf0 == old(self).buffer(),
                angle0 == old(self).angle(),
                motion0 == old(self).motion(),
                self.buffer() == crate::frame::run_buffer(buf0, bytes@.take(i as int)),
                self.angle() == pipe_angle(
                    angle0,
                    crate::frame::run_emitted(buf0, bytes@.take(i as int)),
                ),
                self.motion() == pipe_motion(
                    motion0,
                    conv,
                    crate::frame::run_emitted(buf0, bytes@.take(i as int)),
                ),
                samples@ == pipe_samples(
                    angle0,
                    motion0,
                    conv,
                    crate::frame::run_emitted(buf0, bytes@.take(i as int)),
                ),
            decreases bytes@.len() - i,
        {
            let ghost pre_buf = self.buffer();
            let ghost emitted_pre = crate::frame::run_emitted(buf0, bytes@.take(i as int));
            let ev = self.process_byte(bytes[i]);
            match ev {
                StreamEvent::Sample(ds) => samples.push(ds),
                _ => (),
            }
            proof {
                crate::frame::lemma_run_snoc(buf0, bytes@.take(i as int), bytes@[i as int]);
                assert(bytes@.take(i as int).push(bytes@[i as int]) =~= bytes@.take(i + 1));
                match step_emit(pre_buf, bytes@[i as int]) {
                    Option::None => {
                        assert(crate::frame::run_emitted(buf0, bytes@.take(i + 1)) =~= emitted_pre);
                    },
                    Option::Some(p) => {
                        assert(crate::frame::run_emitted(buf0, bytes@.take(i + 1)) =~= emitted_pre.push(
                            p,
                        ));
                        lemma_pipe_snoc(angle0, motion0, conv, emitted_pre, p);
                        assert(samples@ =~= pipe_samples(
                            angle0,
                            motion0,
                            conv,
                            crate::frame::run_emitted(buf0, bytes@.take(i + 1)),
                        ));
                    },
                }
            }
            i = i + 1;
        }
        proof {
            assert(bytes@.take(bytes@.len() as int) =~= bytes@);
        }
        samples
    }
}

/// End to end: from a fresh pipeline, a byte stream that carries one
/// well-formed orientation frame and then one well-formed motion frame,
/// separated and surrounded by arbitrary noise free of the frame-start byte,
/// produces exactly one sample, and that sample holds exactly the fields the
/// two frames encode.
pub proof fn lemma_stream_end_to_end(
    pre: Seq<u8>,
    af: Seq<u8>,
    mid: Seq<u8>,
    mf: Seq<u8>,
    post: Seq<u8>,
    convention: MotionConvention,
)
    requires
        forall|i: int| 0 <= i < pre.len() ==> pre[i] != 0xAA,
        forall|i: int| 0 <= i < mid.len() ==> mid[i] != 0xAA,
        forall|i: int| 0 <= i < post.len() ==> post[i] != 0xAA,
        crate::frame::frame_well_formed(af),
        af[2] == 20,
        crate::frame::frame_well_formed(mf),
        mf[2] == 44,
    ensures
        pipe_samples(
            None,
            None,
            convention,
            crate::frame::run_emitted(Seq::empty(), pre + af + mid + mf + post),
        ) == seq![
            DecodedSample {
                angle: spec_angle_data(le_words(crate::frame::frame_block(af))),
                motion: spec_motion_data(le_words(crate::frame::frame_block(mf)), convention),
            },
        ],
{
    let stream = pre + af + mid + mf + post;
    // Split the stream around the two frames.
    crate::frame::lemma_run_concat(Seq::empty(), pre + af, mid + mf + post);
    crate::frame::lemma_run_concat(Seq::empty(), pre, af);
    crate::frame::lemma_noise_ignored(pre);
    crate::frame::lemma_frame_run(af);
    crate::frame::lemma_run_concat(Seq::empty(), mid, mf + post);
    crate::frame::lemma_noise_ignored(mid);
    crate::frame::lemma_run_concat(Seq::empty(), mf, post);
    crate::frame::lemma_frame_run(mf);
    crate::frame::lemma_noise_ignored(post);
    assert(stream =~= (pre + af) + (mid + (mf + post)));
    assert(mid + mf + post =~= mid + (mf + post));
    let pa = (af[2], crate::frame::frame_block(af));
    let pm = (mf[2], crate::frame::frame_block(mf));
    let emitted = crate::frame::run_emitted(Seq::<u8>::empty(), stream);
    assert(emitted =~= seq![pa, pm]);

    // Evaluate the sample fold over the two packets.
    let angle1 = apply_packet_angle(None, pa.0, pa.1);
    let motion1 = apply_packet_motion(None, convention, pa.0, pa.1);
    assert(angle1 == Some(spec_angle_data(le_words(crate::frame::frame_block(af)))));
    assert(motion1 is None);
    let angle2 = apply_packet_angle(angle1, pm.0, pm.1);
    let motion2 = apply_packet_motion(motion1, convention, pm.0, pm.1);
    assert(angle2 == angle1);
    assert(motion2 == Some(spec_motion_data(le_words(crate::frame::frame_block(mf)), convention)));
    assert(seq![pa, pm].skip(1) =~= seq![pm]);
    assert(seq![pm].skip(1) =~= Seq::<(u8, Seq<u8>)>::empty());
    assert(pipe_samples(angle2, motion2, convention, Seq::empty()) == Seq::<
        DecodedSample,
    >::empty());
    assert(pipe_samples(angle1, motion1, convention, seq![pm]) =~= seq![
        DecodedSample { angle: angle2.unwrap(), motion: motion2.unwrap() },
    ]);
    assert(pipe_samples(None, None, convention, seq![pa, pm]) =~= seq![
        DecodedSample { angle: angle2.unwrap(), motion: motion2.unwrap() },
    ]);
}

} // verus!
