//! Frame codec for the peripheral's wire format.
//!
//! Every frame opens with a one-byte kind tag. A telemetry frame
//! (`KIND_TELEMETRY`) carries a fixed twelve-byte payload: six signed 16-bit
//! big-endian fields, in the order X-angle, X-accel, Y-angle, Y-accel,
//! Z-angle, Z-accel. An attitude command (`KIND_ATTITUDE`, outbound only)
//! carries three signed 16-bit big-endian fields. An alert tag
//! (`KIND_ALERT`) carries no payload. Any other tag is junk to be skipped:
//! the decoder resynchronizes instead of failing.

use vstd::prelude::*;
use vstd::arithmetic::div_mod::lemma_fundamental_div_mod;

verus! {

/// Kind tag of an inbound telemetry data frame.
pub const KIND_TELEMETRY: u8 = 0x01;
/// Kind tag of an outbound attitude-set command frame.
pub const KIND_ATTITUDE: u8 = 0x02;
/// Kind tag of an asynchronous alert; it carries no payload.
pub const KIND_ALERT: u8 = 0x03;
/// Payload length of a telemetry frame: six signed 16-bit fields.
pub const TELEMETRY_PAYLOAD_LEN: usize = 12;

/// One decoded telemetry frame: per axis, an angle and a raw acceleration.
#[derive(Clone, Copy, PartialEq, Eq, Structural, Debug)]
pub struct TelemetryRecord {
    pub x_angle: i16,
    pub x_acc: i16,
    pub y_angle: i16,
    pub y_acc: i16,
    pub z_angle: i16,
    pub z_acc: i16,
}

/// The unsigned 16-bit representative of a signed 16-bit value
/// (its two's-complement bit pattern read as an unsigned number).
pub open spec fn u16_rep(v: i16) -> int {
    if v >= 0 {
        v as int
    } else {
        v as int + 0x10000
    }
}

/// High byte of the big-endian encoding of `v`.
pub open spec fn be_hi(v: i16) -> u8 {
    (u16_rep(v) / 256) as u8
}

/// Low byte of the big-endian encoding of `v`.
pub open spec fn be_lo(v: i16) -> u8 {
    (u16_rep(v) % 256) as u8
}

/// The signed value whose big-endian encoding is the byte pair `(hi, lo)`.
pub open spec fn i16_be(hi: u8, lo: u8) -> int {
    if hi < 128 {
        hi * 256 + lo
    } else {
        hi * 256 + lo - 0x10000
    }
}

/// Big-endian decoding inverts big-endian encoding, for every signed
/// 16-bit value.
pub proof fn lemma_be_roundtrip(v: i16)
    ensures
        i16_be(be_hi(v), be_lo(v)) == v as int,
{
    let u = u16_rep(v);
    lemma_fundamental_div_mod(u, 256);
    assert(0 <= u < 0x10000);
    assert(u == 256 * (u / 256) + u % 256);
}

/// Reads a signed 16-bit value from its two big-endian bytes.
pub fn i16_from_be(hi: u8, lo: u8) -> (r: i16)
    ensures
        r as int == i16_be(hi, lo),
        be_hi(r) == hi,
        be_lo(r) == lo,
{
    let m: i32 = (hi as i32) * 256 + (lo as i32);
    let r: i16 = if m >= 0x8000 {
        (m - 0x10000) as i16
    } else {
        m as i16
    };
    proof {
        lemma_fundamental_div_mod(u16_rep(r), 256);
    }
    r
}

/// Writes the two big-endian bytes of a signed 16-bit value.
pub fn i16_to_be(v: i16) -> (r: (u8, u8))
    ensures
        r.0 == be_hi(v),
        r.1 == be_lo(v),
{
    let u: u32 = if v >= 0 {
        v as u32
    } else {
        (v as i32 + 0x10000) as u32
    };
    proof {
        lemma_fundamental_div_mod(u as int, 256);
    }
    ((u / 256) as u8, (u % 256) as u8)
}

/// The wire bytes of an attitude-set command for the targets `(x, y, z)`:
/// the command kind tag followed by the three values, big-endian.
pub open spec fn attitude_frame_bytes(x: i16, y: i16, z: i16) -> Seq<u8> {
    seq![KIND_ATTITUDE, be_hi(x), be_lo(x), be_hi(y), be_lo(y), be_hi(z), be_lo(z)]
}

/// Encodes an attitude-set command. Pure: it cannot fail for any signed
/// 16-bit triple. Callers holding wider integers must narrow them to 16
/// bits themselves before calling.
pub fn encode_attitude(x: i16, y: i16, z: i16) -> (r: Vec<u8>)
    ensures
        r@ == attitude_frame_bytes(x, y, z),
{
    let mut r: Vec<u8> = Vec::new();
    r.push(KIND_ATTITUDE);
    let (xh, xl) = i16_to_be(x);
    r.push(xh);
    r.push(xl);
    let (yh, yl) = i16_to_be(y);
    r.push(yh);
    r.push(yl);
    let (zh, zl) = i16_to_be(z);
    r.push(zh);
    r.push(zl);
    proof {
        assert(r@ =~= attitude_frame_bytes(x, y, z));
    }
    r
}

/// The telemetry record whose twelve payload bytes are `p`.
pub open spec fn record_of(p: Seq<u8>) -> TelemetryRecord
    recommends
        p.len() == TELEMETRY_PAYLOAD_LEN,
{
    TelemetryRecord {
        x_angle: i16_be(p[0], p[1]) as i16,
        x_acc: i16_be(p[2], p[3]) as i16,
        y_angle: i16_be(p[4], p[5]) as i16,
        y_acc: i16_be(p[6], p[7]) as i16,
        z_angle: i16_be(p[8], p[9]) as i16,
        z_acc: i16_be(p[10], p[11]) as i16,
    }
}

/// The payload bytes that decode to the record `r`.
pub open spec fn telemetry_payload_bytes(r: TelemetryRecord) -> Seq<u8> {
    seq![
        be_hi(r.x_angle), be_lo(r.x_angle),
        be_hi(r.x_acc), be_lo(r.x_acc),
        be_hi(r.y_angle), be_lo(r.y_angle),
        be_hi(r.y_acc), be_lo(r.y_acc),
        be_hi(r.z_angle), be_lo(r.z_angle),
        be_hi(r.z_acc), be_lo(r.z_acc),
    ]
}

/// The full wire bytes of a telemetry frame carrying the record `r`.
pub open spec fn telemetry_frame_bytes(r: TelemetryRecord) -> Seq<u8> {
    seq![KIND_TELEMETRY] + telemetry_payload_bytes(r)
}

/// Decoding inverts encoding on whole payloads: the twelve payload bytes of
/// a record decode back to that record.
pub proof fn lemma_record_roundtrip(r: TelemetryRecord)
    ensures
        record_of(telemetry_payload_bytes(r)) == r,
{
    lemma_be_roundtrip(r.x_angle);
    lemma_be_roundtrip(r.x_acc);
    lemma_be_roundtrip(r.y_angle);
    lemma_be_roundtrip(r.y_acc);
    lemma_be_roundtrip(r.z_angle);
    lemma_be_roundtrip(r.z_acc);
}

/// What one call of `FrameDecoder::push_byte` reports.
#[derive(Clone, Copy, PartialEq, Eq, Structural, Debug)]
pub enum PushResult {
    /// The byte was consumed; the current frame is not complete yet.
    AwaitingMore,
    /// The byte completed a telemetry frame; here is its record.
    FrameComplete(TelemetryRecord),
    /// The byte was junk or a payload-free tag and was discarded.
    Skipped,
}

/// Mathematical state of the decoder: whether a telemetry kind tag has been
/// seen (`collecting`), and the payload bytes gathered so far.
#[verifier::ext_equal]
pub struct DecoderModel {
    pub collecting: bool,
    pub buf: Seq<u8>,
}

impl DecoderModel {
    /// The state that awaits a kind tag with nothing buffered.
    pub open spec fn init() -> DecoderModel {
        DecoderModel { collecting: false, buf: Seq::empty() }
    }

    /// Well-formed states: nothing is buffered between frames, and the
    /// buffer never holds a whole payload (the twelfth byte completes the
    /// frame at once, so at most eleven ever rest in the buffer).
    pub open spec fn wf(self) -> bool {
        if self.collecting {
            self.buf.len() < TELEMETRY_PAYLOAD_LEN
        } else {
            self.buf.len() == 0
        }
    }
}

/// The decoder state after consuming one byte in state `s`.
pub open spec fn step_state(s: DecoderModel, b: u8) -> DecoderModel {
    if !s.collecting {
        if b == KIND_TELEMETRY {
            DecoderModel { collecting: true, buf: Seq::empty() }
        } else {
            DecoderModel::init()
        }
    } else {
        if s.buf.len() + 1 == TELEMETRY_PAYLOAD_LEN {
            DecoderModel::init()
        } else {
            DecoderModel { collecting: true, buf: s.buf.push(b) }
        }
    }
}

/// What consuming one byte in state `s` reports.
pub open spec fn step_result(s: DecoderModel, b: u8) -> PushResult {
    if !s.collecting {
        if b == KIND_TELEMETRY {
            PushResult::AwaitingMore
        } else {
            PushResult::Skipped
        }
    } else {
        if s.buf.len() + 1 == TELEMETRY_PAYLOAD_LEN {
            PushResult::FrameComplete(record_of(s.buf.push(b)))
        } else {
            PushResult::AwaitingMore
        }
    }
}

/// The records that consuming one byte in state `s` emits (none or one).
pub open spec fn step_records(s: DecoderModel, b: u8) -> Seq<TelemetryRecord> {
    match step_result(s, b) {
        PushResult::FrameComplete(r) => seq![r],
        _ => Seq::empty(),
    }
}

/// The decoder state after consuming all of `bytes` in order, from `s`.
pub open spec fn run_state(s: DecoderModel, bytes: Seq<u8>) -> DecoderModel
    decreases bytes.len(),
{
    if bytes.len() == 0 {
        s
    } else {
        run_state(step_state(s, bytes[0]), bytes.drop_first())
    }
}

/// The records emitted, in order, while consuming all of `bytes` from `s`.
pub open spec fn run_records(s: DecoderModel, bytes: Seq<u8>) -> Seq<TelemetryRecord>
    decreases bytes.len(),
{
    if bytes.len() == 0 {
        Seq::empty()
    } else {
        step_records(s, bytes[0]) + run_records(step_state(s, bytes[0]), bytes.drop_first())
    }
}

/// One byte consumed in a well-formed state leaves a well-formed state.
pub proof fn lemma_step_wf(s: DecoderModel, b: u8)
    requires
        s.wf(),
    ensures
        step_state(s, b).wf(),
{
}

/// However many bytes arrive, and whatever they hold, the decoder stays
/// well formed: in particular its buffer never grows to a whole payload
/// length. Memory use is bounded by one frame.
pub proof fn lemma_decoder_bounded(s: DecoderModel, bytes: Seq<u8>)
    requires
        s.wf(),
    ensures
        run_state(s, bytes).wf(),
    decreases bytes.len(),
{
    if bytes.len() > 0 {
        lemma_step_wf(s, bytes[0]);
        lemma_decoder_bounded(step_state(s, bytes[0]), bytes.drop_first());
    }
}

/// Chunking law: the transport may split or coalesce frames into
/// notification chunks arbitrarily; consuming `a` and then `b` leaves the
/// same state and emits the same records, in the same order, as consuming
/// `a + b` in one piece.
pub proof fn lemma_run_append(s: DecoderModel, a: Seq<u8>, b: Seq<u8>)
    ensures
        run_state(s, a + b) == run_state(run_state(s, a), b),
        run_records(s, a + b) == run_records(s, a) + run_records(run_state(s, a), b),
    decreases a.len(),
{
    if a.len() == 0 {
        assert(a + b =~= b);
        assert(run_records(s, a) =~= Seq::<TelemetryRecord>::empty());
        assert(run_records(s, a) + run_records(run_state(s, a), b) =~= run_records(s, b));
    } else {
        assert((a + b)[0] == a[0]);
        assert((a + b).drop_first() =~= a.drop_first() + b);
        lemma_run_append(step_state(s, a[0]), a.drop_first(), b);
        assert(run_records(s, a + b) =~= run_records(s, a) + run_records(run_state(s, a), b));
    }
}

/// Consuming `bytes` and then one more byte `b` is one step after
/// consuming `bytes`.
pub proof fn lemma_run_snoc(s: DecoderModel, bytes: Seq<u8>, b: u8)
    ensures
        run_state(s, bytes.push(b)) == step_state(run_state(s, bytes), b),
        run_records(s, bytes.push(b)) == run_records(s, bytes) + step_records(run_state(s, bytes), b),
    decreases bytes.len(),
{
    if bytes.len() == 0 {
        let pb = bytes.push(b);
        assert(pb[0] == b);
        assert(pb.drop_first() =~= Seq::<u8>::empty());
        assert(run_state(step_state(s, b), pb.drop_first()) == step_state(s, b));
        assert(run_records(step_state(s, b), pb.drop_first()) =~= Seq::<TelemetryRecord>::empty());
        assert(run_state(s, pb) == step_state(s, b));
        assert(run_records(s, pb) =~= step_records(s, b));
        assert(run_records(s, bytes) + step_records(run_state(s, bytes), b) =~= step_records(s, b));
    } else {
        assert(bytes.push(b).drop_first() =~= bytes.drop_first().push(b));
        assert(bytes.push(b)[0] == bytes[0]);
        lemma_run_snoc(step_state(s, bytes[0]), bytes.drop_first(), b);
        assert(run_records(s, bytes.push(b)) =~= run_records(s, bytes) + step_records(
            run_state(s, bytes),
            b,
        ));
    }
}

proof fn lemma_feed_payload(acc: Seq<u8>, p: Seq<u8>)
    requires
        acc.len() + p.len() == TELEMETRY_PAYLOAD_LEN,
        p.len() >= 1,
    ensures
        run_state(DecoderModel { collecting: true, buf: acc }, p) == DecoderModel::init(),
        run_records(DecoderModel { collecting: true, buf: acc }, p) == seq![record_of(acc + p)],
    decreases p.len(),
{
    let s = DecoderModel { collecting: true, buf: acc };
    if p.len() == 1 {
        assert(step_state(s, p[0]) == DecoderModel::init());
        assert(step_records(s, p[0]) =~= seq![record_of(acc.push(p[0]))]);
        assert(acc.push(p[0]) =~= acc + p);
        assert(p.drop_first() =~= Seq::<u8>::empty());
        assert(run_state(DecoderModel::init(), p.drop_first()) == DecoderModel::init());
        assert(run_records(DecoderModel::init(), p.drop_first())
            =~= Seq::<TelemetryRecord>::empty());
        assert(run_records(s, p) =~= seq![record_of(acc + p)]);
    } else {
        let acc1 = acc.push(p[0]);
        assert(step_state(s, p[0]) == DecoderModel { collecting: true, buf: acc1 });
        assert(step_records(s, p[0]) =~= Seq::<TelemetryRecord>::empty());
        lemma_feed_payload(acc1, p.drop_first());
        assert(acc1 + p.drop_first() =~= acc + p);
        assert(run_records(s, p) =~= seq![record_of(acc + p)]);
    }
}

/// Round-trip law: the wire bytes of a telemetry frame, fed one at a time
/// into a fresh decoder, complete exactly one frame, whose record carries
/// the original six values; the decoder comes back to its initial state.
pub proof fn lemma_frame_roundtrip(r: TelemetryRecord)
    ensures
        run_state(DecoderModel::init(), telemetry_frame_bytes(r)) == DecoderModel::init(),
        run_records(DecoderModel::init(), telemetry_frame_bytes(r)) == seq![r],
{
    let f = telemetry_frame_bytes(r);
    let p = telemetry_payload_bytes(r);
    assert(f[0] == KIND_TELEMETRY);
    assert(f.drop_first() =~= p);
    let s1 = DecoderModel { collecting: true, buf: Seq::empty() };
    assert(step_state(DecoderModel::init(), KIND_TELEMETRY) == s1);
    assert(step_records(DecoderModel::init(), KIND_TELEMETRY)
        =~= Seq::<TelemetryRecord>::empty());
    lemma_feed_payload(Seq::empty(), p);
    assert(Seq::empty() + p =~= p);
    lemma_record_roundtrip(r);
    assert(run_records(DecoderModel::init(), f) =~= seq![r]);
}

/// Resynchronization law: one junk byte ahead of a valid telemetry frame is
/// discarded; the frame behind it still decodes to exactly its one record.
pub proof fn lemma_resync(junk: u8, r: TelemetryRecord)
    requires
        junk != KIND_TELEMETRY,
    ensures
        run_state(DecoderModel::init(), seq![junk] + telemetry_frame_bytes(r))
            == DecoderModel::init(),
        run_records(DecoderModel::init(), seq![junk] + telemetry_frame_bytes(r)) == seq![r],
{
    let f = telemetry_frame_bytes(r);
    let bytes = seq![junk] + f;
    assert(bytes[0] == junk);
    assert(bytes.drop_first() =~= f);
    assert(step_state(DecoderModel::init(), junk) == DecoderModel::init());
    assert(step_records(DecoderModel::init(), junk) =~= Seq::<TelemetryRecord>::empty());
    lemma_frame_roundtrip(r);
    assert(run_records(DecoderModel::init(), bytes) =~= seq![r]);
}

/// Running parsing cursor over the inbound byte stream.
pub struct FrameDecoder {
    collecting: bool,
    buf: Vec<u8>,
}

impl View for FrameDecoder {
    type V = DecoderModel;

    closed spec fn view(&self) -> DecoderModel {
        DecoderModel { collecting: self.collecting, buf: self.buf@ }
    }
}

impl FrameDecoder {
    /// A fresh decoder, awaiting a kind tag.
    pub fn new() -> (d: FrameDecoder)
        ensures
            d@ == DecoderModel::init(),
            d@.wf(),
    {
        let d = FrameDecoder { collecting: false, buf: Vec::new() };
        proof {
            assert(d@ =~= DecoderModel::init());
        }
        d
    }

    /// Consumes one inbound byte. Never fails, whatever the byte: an
    /// unrecognized tag only resets the frame attempt, so the decoder
    /// resynchronizes on the next plausible frame start.
    pub fn push_byte(&mut self, b: u8) -> (r: PushResult)
        requires
            old(self)@.wf(),
        ensures
            final(self)@.wf(),
            final(self)@ == step_state(old(self)@, b),
            r == step_result(old(self)@, b),
    {
        if !self.collecting {
            if b == KIND_TELEMETRY {
                self.collecting = true;
                proof {
                    assert(final(self)@ =~= step_state(old(self)@, b));
                }
                PushResult::AwaitingMore
            } else {
                proof {
                    assert(final(self)@ =~= step_state(old(self)@, b));
                }
                PushResult::Skipped
            }
        } else {
            if self.buf.len() == TELEMETRY_PAYLOAD_LEN - 1 {
                let rec = TelemetryRecord {
                    x_angle: i16_from_be(self.buf[0], self.buf[1]),
                    x_acc: i16_from_be(self.buf[2], self.buf[3]),
                    y_angle: i16_from_be(self.buf[4], self.buf[5]),
                    y_acc: i16_from_be(self.buf[6], self.buf[7]),
                    z_angle: i16_from_be(self.buf[8], self.buf[9]),
                    z_acc: i16_from_be(self.buf[10], b),
                };
                self.collecting = false;
                self.buf.clear();
                proof {
                    assert(final(self)@ =~= step_state(old(self)@, b));
                    assert(rec == record_of(old(self)@.buf.push(b)));
                }
                PushResult::FrameComplete(rec)
            } else {
                self.buf.push(b);
                proof {
                    assert(final(self)@ =~= step_state(old(self)@, b));
                }
                PushResult::AwaitingMore
            }
        }
    }

    /// Consumes one inbound chunk, byte by byte, and returns the records
    /// of every frame that completed, in the order the frames completed.
    pub fn push_chunk(&mut self, chunk: &Vec<u8>) -> (records: Vec<TelemetryRecord>)
        requires
            old(self)@.wf(),
        ensures
            final(self)@.wf(),
            final(self)@ == run_state(old(self)@, chunk@),
            records@ == run_records(old(self)@, chunk@),
    {
        let mut records: Vec<TelemetryRecord> = Vec::new();
        let ghost s0 = self@;
        let mut i: usize = 0;
        proof {
            assert(chunk@.take(0) =~= Seq::<u8>::empty());
            assert(records@ =~= run_records(s0, chunk@.take(0)));
        }
        while i < chunk.len()
            invariant
                i <= chunk.len(),
                self@.wf(),
                self@ == run_state(s0, chunk@.take(i as int)),
                records@ == run_records(s0, chunk@.take(i as int)),
            decreases chunk.len() - i,
        {
            let b = chunk[i];
            proof {
                assert(chunk@.take(i + 1) =~= chunk@.take(i as int).push(b));
                lemma_run_snoc(s0, chunk@.take(i as int), b);
            }
            let r = self.push_byte(b);
            if let PushResult::FrameComplete(rec) = r {
                records.push(rec);
                proof {
                    assert(records@ =~= run_records(s0, chunk@.take(i + 1)));
                }
            } else {
                proof {
                    assert(records@ =~= run_records(s0, chunk@.take(i + 1)));
                }
            }
            i = i + 1;
        }
        proof {
            assert(chunk@.take(chunk@.len() as int) =~= chunk@);
        }
        records
    }
}

} // verus!
