use vstd::prelude::*;

verus! {

/// Sync byte sent after the break of every LIN header.
pub const SYNC_BYTE: u8 = 0x55;

/// Largest payload of a LIN frame, in bytes.
pub const MAX_DATA_LEN: usize = 8;

/// Identifiers from this one up carry the classic checksum (data bytes only).
pub const FIRST_CLASSIC_ID: u8 = 60;

/// Deadline for the header loop-back and for each write echo, in milliseconds.
pub const HEADER_TIMEOUT_MS: u64 = 1000;

/// Deadline for a slave response, in milliseconds.
pub const RESPONSE_TIMEOUT_MS: u64 = 50;

/// Why a LIN transaction was abandoned.
#[derive(Clone, Copy, Debug, PartialEq, Eq, Structural)]
pub enum LinError {
    /// The expected bytes did not arrive before the deadline.
    Timeout,
    /// The serial layer reported a fault (framing, parity, overrun).
    PhysicalBus,
    /// The received checksum byte differs from the one computed.
    Checksum,
    /// The header read back from the line differs from the header sent.
    HeaderEcho,
}

pub open spec fn bit(x: u8, i: u8) -> u8 {
    (x >> i) & 1
}

/// The identifier with two parity bits: bit 6 is the XOR of identifier bits
/// 0, 1, 2 and 4; bit 7 is the inverted XOR of identifier bits 1, 3, 4 and 5.
pub open spec fn protected_id_of(id: u8) -> u8 {
    let even: u8 = bit(id, 0) ^ bit(id, 1) ^ bit(id, 2) ^ bit(id, 4);
    let odd: u8 = 1 ^ (bit(id, 1) ^ bit(id, 3) ^ bit(id, 4) ^ bit(id, 5));
    id | (even << 6u8) | (odd << 7u8)
}

/// Eight-bit sum with carry: each addition that reaches 256 wraps by
/// subtracting 255.
pub open spec fn carry_sum(init: u8, data: Seq<u8>) -> int
    decreases data.len(),
{
    if data.len() == 0 {
        init as int
    } else {
        let t = carry_sum(init, data.drop_last()) + data.last();
        if t >= 256 {
            t - 255
        } else {
            t
        }
    }
}

/// The inverted eight-bit sum with carry of `init` and `data`.
pub open spec fn checksum_of(init: u8, data: Seq<u8>) -> u8 {
    (255 - carry_sum(init, data)) as u8
}

/// Checksum that a frame with identifier `id` carries: classic (data only) for
/// the diagnostic and reserved identifiers, enhanced (protected identifier and
/// data) for the others.
pub open spec fn frame_checksum(id: u8, data: Seq<u8>) -> u8 {
    if id >= FIRST_CLASSIC_ID {
        checksum_of(0, data)
    } else {
        checksum_of(protected_id_of(id), data)
    }
}

/// Whether `bytes`, a payload of `len` bytes followed by a checksum byte, is a
/// valid response for identifier `id`.
pub open spec fn response_valid(id: u8, bytes: Seq<u8>, len: nat) -> bool {
    frame_checksum(id, bytes.take(len as int)) == bytes[len as int]
}

pub open spec fn byte_sum(data: Seq<u8>) -> int
    decreases data.len(),
{
    if data.len() == 0 {
        0
    } else {
        byte_sum(data.drop_last()) + data.last()
    }
}

/// The sum with carry stays a byte, agrees with the plain sum modulo 255, and is
/// zero only when every term is.
proof fn lemma_carry_sum(init: u8, data: Seq<u8>)
    ensures
        0 <= carry_sum(init, data) <= 255,
        carry_sum(init, data) % 255 == (init + byte_sum(data)) % 255,
        carry_sum(init, data) == 0 <==> init + byte_sum(data) == 0,
        byte_sum(data) >= 0,
    decreases data.len(),
{
    if data.len() > 0 {
        let prefix = data.drop_last();
        lemma_carry_sum(init, prefix);
        let t = carry_sum(init, prefix) + data.last();
        vstd::arithmetic::div_mod::lemma_add_mod_noop(
            carry_sum(init, prefix),
            data.last() as int,
            255,
        );
        vstd::arithmetic::div_mod::lemma_add_mod_noop(
            init + byte_sum(prefix),
            data.last() as int,
            255,
        );
        if t >= 256 {
            vstd::arithmetic::div_mod::lemma_mod_sub_multiples_vanish(t, 255);
        }
    }
}

proof fn lemma_byte_sum_update(data: Seq<u8>, i: int, b: u8)
    requires
        0 <= i < data.len(),
    ensures
        byte_sum(data.update(i, b)) == byte_sum(data) - data[i] + b,
    decreases data.len(),
{
    let changed = data.update(i, b);
    if i == data.len() - 1 {
        assert(changed.drop_last() =~= data.drop_last());
    } else {
        assert(changed.drop_last() =~= data.drop_last().update(i, b));
        lemma_byte_sum_update(data.drop_last(), i, b);
    }
}

/// Replacing one byte by another changes the checksum, unless the two are
/// 0x00 and 0xFF, which the sum with carry does not tell apart.
proof fn lemma_checksum_detects_change(init: u8, data: Seq<u8>, i: int, b: u8)
    requires
        0 <= i < data.len(),
        b != data[i],
        !(b == 0 && data[i] == 0xff),
        !(b == 0xff && data[i] == 0),
    ensures
        checksum_of(init, data.update(i, b)) != checksum_of(init, data),
{
    let changed = data.update(i, b);
    lemma_carry_sum(init, data);
    lemma_carry_sum(init, changed);
    lemma_byte_sum_update(data, i, b);
    let t1 = init + byte_sum(data);
    let t2 = init + byte_sum(changed);
    if carry_sum(init, data) == carry_sum(init, changed) {
        vstd::arithmetic::div_mod::lemma_fundamental_div_mod(t1, 255);
        vstd::arithmetic::div_mod::lemma_fundamental_div_mod(t2, 255);
        let k = t1 / 255 - t2 / 255;
        assert(t1 - t2 == 255 * k) by (nonlinear_arith)
            requires
                t1 == 255 * (t1 / 255) + t1 % 255,
                t2 == 255 * (t2 / 255) + t2 % 255,
                t1 % 255 == t2 % 255,
                k == t1 / 255 - t2 / 255,
        ;
        let a = data[i] as int;
        assert(t1 - t2 == a - b);
        assert(k == 1 || k == -1) by (nonlinear_arith)
            requires
                a - b == 255 * k,
                a != b,
                0 <= a <= 255,
                0 <= b <= 255,
        ;
    }
}

/// A frame built from any identifier and payload passes its own check: its
/// payload followed by its checksum is a valid response that yields the same
/// payload back.
pub proof fn lemma_frame_round_trip(id: u8, data: Seq<u8>)
    requires
        id < 64,
        data.len() <= MAX_DATA_LEN,
    ensures
        response_valid(id, data.push(frame_checksum(id, data)), data.len()),
        data.push(frame_checksum(id, data)).take(data.len() as int) == data,
        frame_of(id, data.push(frame_checksum(id, data)).take(data.len() as int)) == frame_of(
            id,
            data,
        ),
{
    assert(data.push(frame_checksum(id, data)).take(data.len() as int) =~= data);
}

/// Changing any one byte of a valid frame's payload or checksum makes the
/// response check fail, with the one exception of a payload byte swapped
/// between 0x00 and 0xFF.
pub proof fn lemma_single_byte_corruption_detected(id: u8, data: Seq<u8>, i: int, b: u8)
    requires
        id < 64,
        data.len() <= MAX_DATA_LEN,
        0 <= i <= data.len(),
        b != data.push(frame_checksum(id, data))[i],
        i < data.len() ==> !(b == 0 && data[i] == 0xff) && !(b == 0xff && data[i] == 0),
    ensures
        !response_valid(id, data.push(frame_checksum(id, data)).update(i, b), data.len()),
{
    let sent = data.push(frame_checksum(id, data));
    let got = sent.update(i, b);
    if i < data.len() {
        assert(got.take(data.len() as int) =~= data.update(i, b));
        assert(got[data.len() as int] == frame_checksum(id, data));
        let init: u8 = if id >= FIRST_CLASSIC_ID {
            0
        } else {
            protected_id_of(id)
        };
        lemma_checksum_detects_change(init, data, i, b);
    } else {
        assert(got.take(data.len() as int) =~= data);
    }
}

/// Relies on lin_bus::PID::from_id: the identifier with its two parity bits.
#[verifier::external_body]
fn protect_id(id: u8) -> (r: u8)
    requires
        id < 64,
    ensures
        r == protected_id_of(id),
{
    lin_bus::PID::from_id(id).get()
}

/// Relies on lin_bus::Frame::from_data and Frame::get_checksum: the checksum
/// byte of the frame for identifier `id`, the classic one (data only) from
/// identifier 60 up and the enhanced one (protected identifier and data) below.
#[verifier::external_body]
fn frame_checksum_byte(id: u8, data: &[u8]) -> (r: u8)
    requires
        id < 64,
        data@.len() <= MAX_DATA_LEN,
    ensures
        r == frame_checksum(id, data@),
{
    lin_bus::Frame::from_data(lin_bus::PID::from_id(id), data).get_checksum()
}

/// Abstract content of a LIN frame.
pub ghost struct FrameModel {
    pub id: u8,
    pub pid: u8,
    pub data: Seq<u8>,
    pub checksum: u8,
}

pub open spec fn frame_of(id: u8, data: Seq<u8>) -> FrameModel {
    FrameModel { id, pid: protected_id_of(id), data, checksum: frame_checksum(id, data) }
}

/// A LIN frame: identifier, payload of at most eight bytes and its checksum.
pub struct LinFrame {
    id: u8,
    pid: u8,
    data: Vec<u8>,
    checksum: u8,
}

fn copy_prefix(bytes: &[u8], n: usize) -> (r: Vec<u8>)
    requires
        n <= bytes@.len(),
    ensures
        r@ == bytes@.take(n as int),
{
    let mut r: Vec<u8> = Vec::new();
    let mut i: usize = 0;
    while i < n
        invariant
            i <= n <= bytes@.len(),
            r@ == bytes@.take(i as int),
        decreases n - i,
    {
        r.push(bytes[i]);
        i = i + 1;
        assert(r@ =~= bytes@.take(i as int));
    }
    r
}

impl LinFrame {
    pub closed spec fn view(&self) -> FrameModel {
        FrameModel { id: self.id, pid: self.pid, data: self.data@, checksum: self.checksum }
    }

    /// Builds the frame for identifier `id` (below 64) and computes its checksum.
    pub fn from_data(id: u8, data: &[u8]) -> (r: LinFrame)
        requires
            id < 64,
            data@.len() <= MAX_DATA_LEN,
        ensures
            r@ == frame_of(id, data@),
    {
        let pid = protect_id(id);
        let checksum = frame_checksum_byte(id, data);
        let copy = copy_prefix(data, data.len());
        assert(copy@ =~= data@);
        LinFrame { id, pid, data: copy, checksum }
    }

    /// Protected identifier byte sent in the header.
    pub fn get_pid(&self) -> (r: u8)
        ensures
            r == self@.pid,
    {
        self.pid
    }

    /// Identifier without parity bits.
    pub fn get_id(&self) -> (r: u8)
        ensures
            r == self@.id,
    {
        self.id
    }

    pub fn get_data(&self) -> (r: &[u8])
        ensures
            r@ == self@.data,
    {
        self.data.as_slice()
    }

    pub fn get_checksum(&self) -> (r: u8)
        ensures
            r == self@.checksum,
    {
        self.checksum
    }

    /// Bytes written after the header: the payload, then the checksum.
    pub fn get_data_with_checksum(&self) -> (r: Vec<u8>)
        ensures
            r@ == self@.data.push(self@.checksum),
    {
        let mut r = copy_prefix(self.data.as_slice(), self.data.len());
        r.push(self.checksum);
        assert(r@ =~= self@.data.push(self@.checksum));
        r
    }

    /// Result of a response read for identifier `id` with a payload of
    /// `data_length` bytes: the frame when its checksum matches, else the error
    /// that ended the read or `Checksum`.
    pub fn from_response(id: u8, read: ResponseRead, data_length: usize) -> (r: Result<
        LinFrame,
        LinError,
    >)
        requires
            id < 64,
            data_length <= MAX_DATA_LEN,
            read is Received ==> read->Received_0@.len() == data_length + 1,
        ensures
            match read {
                ResponseRead::BusFault => r == Err::<LinFrame, LinError>(LinError::PhysicalBus),
                ResponseRead::TimedOut => r == Err::<LinFrame, LinError>(LinError::Timeout),
                ResponseRead::Received(bytes) => if response_valid(
                    id,
                    bytes@,
                    data_length as nat,
                ) {
                    r is Ok && r->Ok_0@ == frame_of(id, bytes@.take(data_length as int))
                } else {
                    r == Err::<LinFrame, LinError>(LinError::Checksum)
                },
            },
    {
        match read {
            ResponseRead::BusFault => Err(LinError::PhysicalBus),
            ResponseRead::TimedOut => Err(LinError::Timeout),
            ResponseRead::Received(bytes) => {
                let payload = copy_prefix(bytes.as_slice(), data_length);
                let frame = LinFrame::from_data(id, payload.as_slice());
                if frame.checksum == bytes[data_length] {
                    Ok(frame)
                } else {
                    Err(LinError::Checksum)
                }
            },
        }
    }
}

/// How a timed read of a slave response ended.
pub enum ResponseRead {
    /// All requested bytes arrived in time.
    Received(Vec<u8>),
    /// The serial layer failed.
    BusFault,
    /// The deadline passed first.
    TimedOut,
}

/// The two header bytes that follow the break: sync, then protected identifier.
pub fn header_bytes(pid: u8) -> (r: Vec<u8>)
    ensures
        r@ == seq![SYNC_BYTE, pid],
{
    let mut r: Vec<u8> = Vec::new();
    r.push(SYNC_BYTE);
    r.push(pid);
    assert(r@ =~= seq![SYNC_BYTE, pid]);
    r
}

/// Checks the header read back from the line against the one sent; any
/// difference ends the transaction.
pub fn check_header_echo(sent: &[u8], echoed: &[u8]) -> (r: Result<(), LinError>)
    ensures
        r == (if sent@ == echoed@ {
            Ok::<(), LinError>(())
        } else {
            Err(LinError::HeaderEcho)
        }),
{
    if sent.len() != echoed.len() {
        return Err(LinError::HeaderEcho);
    }
    let mut i: usize = 0;
    while i < sent.len()
        invariant
            i <= sent@.len() == echoed@.len(),
            sent@.take(i as int) == echoed@.take(i as int),
        decreases sent@.len() - i,
    {
        if sent[i] != echoed[i] {
            assert(sent@[i as int] != echoed@[i as int]);
            return Err(LinError::HeaderEcho);
        }
        assert(sent@.take(i + 1) =~= sent@.take(i as int).push(sent@[i as int]));
        assert(echoed@.take(i + 1) =~= echoed@.take(i as int).push(echoed@[i as int]));
        i = i + 1;
    }
    assert(sent@ =~= sent@.take(i as int));
    assert(echoed@ =~= echoed@.take(i as int));
    Ok(())
}

/// What a LIN transaction does on the bus.
pub enum LinRequest {
    /// Send this frame to a slave.
    Write(LinFrame),
    /// Poll identifier `id` for a response of `data_length` bytes.
    Read { id: u8, data_length: usize },
}

/// Where a transaction stands: each step waits for the outcome of the action
/// it asked for.
#[derive(Clone, Copy, Debug, PartialEq, Eq, Structural)]
pub enum LinStep {
    /// The break was sent; its echo read ends in any way.
    Break,
    /// The header was written.
    HeaderWrite,
    /// The header's loop-back is being read.
    HeaderEcho,
    /// The payload and checksum were written.
    PayloadWrite,
    /// This many echo bytes of the payload remain to be drained.
    Drain(usize),
    /// The slave's response is being read.
    Response,
    /// Nothing more to do.
    Finished,
}

/// What the transaction asks of the serial line next.
pub enum LinAction {
    /// Hold the line in break, then read one byte within `HEADER_TIMEOUT_MS`.
    SendBreak,
    /// Write these bytes within `HEADER_TIMEOUT_MS`.
    Write(Vec<u8>),
    /// Read exactly this many bytes within the given milliseconds.
    ReadExact(usize, u64),
    /// Read one echo byte within `HEADER_TIMEOUT_MS`.
    ReadEcho,
    /// The transaction is over: `None` after a write, the frame after a read.
    Finish(Result<Option<LinFrame>, LinError>),
}

/// How the last action ended.
pub enum LinEvent {
    /// A write completed.
    Written,
    /// A read completed with these bytes.
    Received(Vec<u8>),
    /// The serial layer failed.
    BusFault,
    /// The deadline passed first.
    TimedOut,
}

pub open spec fn failed_with(a: LinAction, e: LinError) -> bool {
    a == LinAction::Finish(Err(e))
}

/// Error that ends a transaction when a header or payload step did not
/// complete as asked.
pub open spec fn step_error(ev: LinEvent) -> LinError {
    match ev {
        LinEvent::TimedOut => LinError::Timeout,
        _ => LinError::PhysicalBus,
    }
}

fn error_of(ev: &LinEvent) -> (r: LinError)
    ensures
        r == step_error(*ev),
{
    match ev {
        LinEvent::TimedOut => LinError::Timeout,
        _ => LinError::PhysicalBus,
    }
}

/// One master-side LIN transaction: break, sync and identifier with loop-back
/// check, then either the payload with its echoes drained or the slave's
/// response with its checksum checked.
pub struct LinTransaction {
    request: LinRequest,
    header: Vec<u8>,
    step: LinStep,
}

impl LinTransaction {
    pub closed spec fn request(&self) -> LinRequest {
        self.request
    }

    pub closed spec fn header(&self) -> Seq<u8> {
        self.header@
    }

    pub closed spec fn step(&self) -> LinStep {
        self.step
    }

    /// Identifier that the request addresses.
    pub open spec fn id(&self) -> u8 {
        match self.request() {
            LinRequest::Write(f) => f@.id,
            LinRequest::Read { id, .. } => id,
        }
    }

    pub open spec fn wf(&self) -> bool {
        &&& self.id() < 64
        &&& self.header() == seq![SYNC_BYTE, protected_id_of(self.id())]
        &&& match self.request() {
            LinRequest::Write(f) => f@ == frame_of(f@.id, f@.data) && f@.data.len() <= MAX_DATA_LEN,
            LinRequest::Read { data_length, .. } => data_length <= MAX_DATA_LEN,
        }
        &&& match self.step() {
            LinStep::Drain(n) => n > 0,
            _ => true,
        }
    }

    /// Starts a transaction with the break.
    pub fn begin(request: LinRequest) -> (r: (LinTransaction, LinAction))
        requires
            match request {
                LinRequest::Write(f) => f@ == frame_of(f@.id, f@.data) && f@.id < 64
                    && f@.data.len() <= MAX_DATA_LEN,
                LinRequest::Read { id, data_length } => id < 64 && data_length <= MAX_DATA_LEN,
            },
        ensures
            r.0.wf(),
            r.0.request() == request,
            r.0.step() == LinStep::Break,
            r.1 is SendBreak,
    {
        let pid = match &request {
            LinRequest::Write(f) => f.get_pid(),
            LinRequest::Read { id, .. } => protect_id(*id),
        };
        (LinTransaction { request, header: header_bytes(pid), step: LinStep::Break }, LinAction::SendBreak)
    }

    /// Takes the outcome of the last action and returns the next one. The
    /// break's echo never stops the transaction; a header or payload step that
    /// fails ends it with `Timeout` or `PhysicalBus`; a loop-back that differs
    /// from the header ends it with `HeaderEcho`; payload echoes are drained
    /// whatever they bring; the response is checked as `LinFrame::from_response`
    /// does.
    pub fn advance(&mut self, event: LinEvent) -> (r: LinAction)
        requires
            old(self).wf(),
            old(self).step() != LinStep::Finished,
        ensures
            final(self).wf(),
            final(self).request() == old(self).request(),
            final(self).header() == old(self).header(),
            r is Finish <==> final(self).step() == LinStep::Finished,
            match old(self).step() {
                LinStep::Break => final(self).step() == LinStep::HeaderWrite && r is Write
                    && r->Write_0@ == old(self).header(),
                LinStep::HeaderWrite => if event is Written {
                    final(self).step() == LinStep::HeaderEcho && r == LinAction::ReadExact(
                        2,
                        HEADER_TIMEOUT_MS,
                    )
                } else {
                    failed_with(r, step_error(event))
                },
                LinStep::HeaderEcho => match event {
                    LinEvent::Received(bytes) => if bytes@ != old(self).header() {
                        failed_with(r, LinError::HeaderEcho)
                    } else {
                        match old(self).request() {
                            LinRequest::Write(f) => final(self).step() == LinStep::PayloadWrite
                                && r is Write && r->Write_0@ == f@.data.push(f@.checksum),
                            LinRequest::Read { data_length, .. } => final(self).step()
                                == LinStep::Response && r == LinAction::ReadExact(
                                (data_length + 1) as usize,
                                RESPONSE_TIMEOUT_MS,
                            ),
                        }
                    },
                    _ => failed_with(r, step_error(event)),
                },
                LinStep::PayloadWrite => if event is Written {
                    match old(self).request() {
                        LinRequest::Write(f) => final(self).step() == LinStep::Drain(
                            (f@.data.len() + 1) as usize,
                        ) && r is ReadEcho,
                        LinRequest::Read { .. } => true,
                    }
                } else {
                    failed_with(r, step_error(event))
                },
                LinStep::Drain(n) => if n > 1 {
                    final(self).step() == LinStep::Drain((n - 1) as usize) && r is ReadEcho
                } else {
                    r == LinAction::Finish(Ok(None))
                },
                LinStep::Response => match old(self).request() {
                    LinRequest::Read { id, data_length } => match event {
                        LinEvent::Received(bytes) => if bytes@.len() != data_length + 1 {
                            failed_with(r, LinError::PhysicalBus)
                        } else if response_valid(id, bytes@, data_length as nat) {
                            r is Finish && r->Finish_0 is Ok && r->Finish_0->Ok_0 is Some
                                && r->Finish_0->Ok_0->Some_0@ == frame_of(
                                id,
                                bytes@.take(data_length as int),
                            )
                        } else {
                            failed_with(r, LinError::Checksum)
                        },
                        _ => failed_with(r, step_error(event)),
                    },
                    LinRequest::Write(_) => true,
                },
                LinStep::Finished => true,
            },
    {
        match self.step {
            LinStep::Break => {
                self.step = LinStep::HeaderWrite;
                let header = copy_prefix(self.header.as_slice(), self.header.len());
                assert(header@ =~= self.header@);
                LinAction::Write(header)
            },
            LinStep::HeaderWrite => {
                if let LinEvent::Written = event {
                    self.step = LinStep::HeaderEcho;
                    LinAction::ReadExact(2, HEADER_TIMEOUT_MS)
                } else {
                    self.step = LinStep::Finished;
                    LinAction::Finish(Err(error_of(&event)))
                }
            },
            LinStep::HeaderEcho => {
                if let LinEvent::Received(bytes) = &event {
                    if check_header_echo(self.header.as_slice(), bytes.as_slice()).is_err() {
                        self.step = LinStep::Finished;
                        return LinAction::Finish(Err(LinError::HeaderEcho));
                    }
                    match &self.request {
                        LinRequest::Write(f) => {
                            self.step = LinStep::PayloadWrite;
                            LinAction::Write(f.get_data_with_checksum())
                        },
                        LinRequest::Read { data_length, .. } => {
                            self.step = LinStep::Response;
                            LinAction::ReadExact(*data_length + 1, RESPONSE_TIMEOUT_MS)
                        },
                    }
                } else {
                    self.step = LinStep::Finished;
                    LinAction::Finish(Err(error_of(&event)))
                }
            },
            LinStep::PayloadWrite => {
                if let LinEvent::Written = event {
                    match &self.request {
                        LinRequest::Write(f) => {
                            self.step = LinStep::Drain(f.data.len() + 1);
                            LinAction::ReadEcho
                        },
                        LinRequest::Read { .. } => {
                            self.step = LinStep::Finished;
                            LinAction::Finish(Ok(None))
                        },
                    }
                } else {
                    self.step = LinStep::Finished;
                    LinAction::Finish(Err(error_of(&event)))
                }
            },
            LinStep::Drain(n) => {
                if n > 1 {
                    self.step = LinStep::Drain(n - 1);
                    LinAction::ReadEcho
                } else {
                    self.step = LinStep::Finished;
                    LinAction::Finish(Ok(None))
                }
            },
            LinStep::Response => {
                self.step = LinStep::Finished;
                match &self.request {
                    LinRequest::Read { id, data_length } => match event {
                        LinEvent::Received(bytes) => {
                            if bytes.len() != *data_length + 1 {
                                LinAction::Finish(Err(LinError::PhysicalBus))
                            } else {
                                match LinFrame::from_response(
                                    *id,
                                    ResponseRead::Received(bytes),
                                    *data_length,
                                ) {
                                    Ok(frame) => LinAction::Finish(Ok(Some(frame))),
                                    Err(e) => LinAction::Finish(Err(e)),
                                }
                            }
                        },
                        LinEvent::TimedOut => LinAction::Finish(Err(LinError::Timeout)),
                        _ => LinAction::Finish(Err(LinError::PhysicalBus)),
                    },
                    LinRequest::Write(_) => LinAction::Finish(Ok(None)),
                }
            },
            LinStep::Finished => LinAction::Finish(Ok(None)),
        }
    }
}

} // verus!
