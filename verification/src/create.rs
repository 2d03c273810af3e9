//! Synchronous robot API with TypeState mode tracking.
//!
//! `Create<M, T>` wraps a [`Transport`] and encodes the current OI mode as a
//! type parameter. Commands that require specific modes are only available
//! on the relevant `Create<Safe, T>` or `Create<Full, T>` specialisations.
//!
//! Every command first decides what it sends (see [`crate::requests`]); a
//! refused command changes nothing and sends nothing. The contracts speak of
//! the transport's histories of sent and received bytes.

use vstd::prelude::*;
use core::marker::PhantomData;
use crate::error::{ConnectError, Error, TransitionError, ValidationError};
use crate::mode::{Actuatable, Full, FullControl, Mode, Off, Passive, Safe, SensorReadable};
use crate::protocol::command::{
    encode_baud, encode_dock, encode_drive, encode_full, encode_leds, encode_motors, encode_power,
    encode_query_list, encode_reset, encode_safe, encode_sensors, encode_start, id_list_bytes,
    two_i16_command,
};
use crate::protocol::error::ProtocolError;
use crate::protocol::opcode::{group_data_len, spec_group_data_len, Opcode};
use crate::protocol::sensor::{lemma_expected_len_decodes, spec_decode_packet, spec_decode_packets, SensorData};
use crate::protocol::stream::{FrameResult, FrameSink, FrameState, StreamParser, spec_feed};
use crate::protocol::types::{BaudRate, CleanMode, DayOfWeek, OiMode, RadiusMm, VelocityMmPerSec, WheelPwm};
use crate::requests;
use crate::transport::{BaudConfigurable, Transport};
use crate::types::{
    duration_of_millis, millis, MODE_CHANGE_DELAY_MS, spec_led_bits, led_bits, ButtonBits, LedIntensity, MotorBits, PowerLedColor, RobotModel,
    SongNote, SongNumber,
};

verus! {

/// Capacity of the stream parser: header, length byte, 255-byte payload, checksum.
pub const STREAM_FRAME_CAPACITY: usize = 258;

/// A synchronous robot handle, parameterised by OI mode `M` and transport `T`.
///
/// Mode transitions consume `self` and return a new `Create` in the target mode,
/// ensuring the compiler enforces valid mode sequences.
///
/// # TypeState vs. actual robot mode
///
/// The mode type parameter tracks the **last commanded mode**, not the robot's
/// current hardware state. The robot can change mode autonomously (e.g. safety
/// events, button presses). Call [`read_oi_mode`](Create::read_oi_mode) to
/// read the actual mode from the robot.
#[derive(Debug)]
pub struct Create<M: Mode, T: Transport> {
    transport: T,
    model: RobotModel,
    stream_parser: StreamParser<STREAM_FRAME_CAPACITY>,
    /// `true` while a sensor stream is active (after `start_stream`, before `toggle_stream(false)`).
    streaming: bool,
    _mode: PhantomData<M>,
}

impl<M: Mode, T: Transport> Create<M, T> {
    /// The handle's stream parser is internally consistent.
    pub closed spec fn wf(&self) -> bool {
        self.stream_parser.wf()
    }

    /// The wrapped transport.
    pub closed spec fn spec_transport(&self) -> T {
        self.transport
    }

    /// The robot model the handle was created for.
    pub closed spec fn spec_model(&self) -> RobotModel {
        self.model
    }

    /// Whether a sensor stream has been started and not paused.
    pub closed spec fn is_streaming(&self) -> bool {
        self.streaming
    }

    /// State and buffered bytes of the stream parser.
    pub closed spec fn parser(&self) -> (FrameState, Seq<u8>) {
        self.stream_parser@
    }

    /// Bytes the transport has sent so far.
    pub open spec fn sent(&self) -> Seq<u8> {
        self.spec_transport().sent()
    }

    /// Bytes the transport has delivered to reads so far.
    pub open spec fn received(&self) -> Seq<u8> {
        self.spec_transport().received()
    }

    /// The waits the transport has performed so far.
    pub open spec fn waited(&self) -> Seq<core::time::Duration> {
        self.spec_transport().waited()
    }

    /// How many flushes the transport has performed so far.
    pub open spec fn flushes(&self) -> nat {
        self.spec_transport().flushes()
    }
}

/// `after` continues the session of `before`: same model, stream flag and parser.
pub open spec fn continues<M: Mode, N: Mode, T: Transport>(before: Create<M, T>, after: Create<N, T>) -> bool {
    &&& after.wf()
    &&& after.spec_model() == before.spec_model()
    &&& after.is_streaming() == before.is_streaming()
    &&& after.parser() == before.parser()
}

/// `after` starts afresh from `before`: same model, no stream, empty parser.
pub open spec fn restarts<M: Mode, N: Mode, T: Transport>(before: Create<M, T>, after: Create<N, T>) -> bool {
    &&& after.wf()
    &&& after.spec_model() == before.spec_model()
    &&& !after.is_streaming()
    &&& after.parser() == (FrameState::WaitingHeader, Seq::<u8>::empty())
}

/// The transport of `after` has sent exactly `bytes` more than that of `before`, and received nothing more.
pub open spec fn sent_exactly<M: Mode, N: Mode, T: Transport>(before: Create<M, T>, after: Create<N, T>, bytes: Seq<u8>) -> bool {
    &&& after.sent() == before.sent() + bytes
    &&& after.received() == before.received()
}

/// The outcome of a command that sends `bytes` and expects no answer:
/// on success exactly `bytes` went out; a failure is the transport's.
pub open spec fn command_done<M: Mode, T: Transport>(
    before: Create<M, T>,
    after: Create<M, T>,
    bytes: Seq<u8>,
    r: Result<(), Error<std::io::Error>>,
) -> bool {
    &&& continues(before, after)
    &&& after.received() == before.received()
    &&& match r {
        Ok(()) => after.sent() == before.sent() + bytes,
        Err(e) => e is Io,
    }
}

/// The outcome of a command decided by `plan`: refused with the handle
/// untouched, or sent as decided.
pub open spec fn planned_command<M: Mode, T: Transport>(
    before: Create<M, T>,
    after: Create<M, T>,
    plan: Result<Seq<u8>, Error<std::io::Error>>,
    r: Result<(), Error<std::io::Error>>,
) -> bool {
    match plan {
        Err(e) => r == Err::<(), Error<std::io::Error>>(e) && after == before,
        Ok(bytes) => command_done(before, after, bytes, r),
    }
}

/// The outcome of a mode change that sends `bytes`; with `fresh` the new
/// handle drops any stream state.
pub open spec fn transition_done<M: Mode, N: Mode, T: Transport>(
    before: Create<M, T>,
    r: Result<Create<N, T>, TransitionError<Create<M, T>, std::io::Error>>,
    bytes: Seq<u8>,
    fresh: bool,
) -> bool {
    match r {
        Ok(c) => sent_exactly(before, c, bytes) && if fresh { restarts(before, c) } else { continues(before, c) },
        Err(e) => e.source is Io && continues(before, e.create) && e.create.received() == before.received(),
    }
}

/// The outcome of a mode change decided by `plan`: refused with the
/// untouched handle returned, or carried out as decided.
pub open spec fn planned_transition<M: Mode, N: Mode, T: Transport>(
    before: Create<M, T>,
    r: Result<Create<N, T>, TransitionError<Create<M, T>, std::io::Error>>,
    plan: Result<Seq<u8>, Error<std::io::Error>>,
    fresh: bool,
) -> bool {
    match plan {
        Err(e) => r matches Err(te) && te.create == before && te.source == e,
        Ok(bytes) => transition_done(before, r, bytes, fresh),
    }
}

/// The bytes `after` received beyond those `before` had.
pub open spec fn reply<M: Mode, T: Transport>(before: Create<M, T>, after: Create<M, T>) -> Seq<u8> {
    after.received().skip(before.received().len() as int)
}

/// A query sent `request` and got back `answer`, nothing else.
pub open spec fn exchanged<M: Mode, T: Transport>(before: Create<M, T>, after: Create<M, T>, request: Seq<u8>, answer: Seq<u8>) -> bool {
    &&& after.sent() == before.sent() + request
    &&& after.received() == before.received() + answer
}

/// A failure while waiting for an answer of `n` bytes: the transport's,
/// or the connection ending before all `n` bytes came.
pub open spec fn read_failure(e: Error<std::io::Error>, n: nat) -> bool {
    ||| e is Io
    ||| (e matches Error::Protocol(ProtocolError::InsufficientData { need, got }) && need == n && got < n)
}

// ---------------------------------------------------------------------------
// Internal plumbing (all modes)
// ---------------------------------------------------------------------------

impl<M: Mode, T: Transport> Create<M, T> {
    /// Send a fire-and-forget command: write it, then flush.
    fn send_cmd(&mut self, data: &[u8]) -> (r: Result<(), Error<std::io::Error>>)
        requires
            old(self).wf(),
        ensures
            command_done(*old(self), *final(self), data@, r),
    {
        match self.transport.write_all(data) {
            Ok(()) => {},
            Err(e) => return Err(Error::Io(e)),
        }
        match self.transport.flush() {
            Ok(()) => Ok(()),
            Err(e) => Err(Error::Io(e)),
        }
    }

    /// Send a request that expects an answer: write it without flushing,
    /// so the answer is not delayed by draining the transmit buffer.
    fn write_bytes(&mut self, data: &[u8]) -> (r: Result<(), Error<std::io::Error>>)
        requires
            old(self).wf(),
        ensures
            final(self).flushes() == old(self).flushes(),
            command_done(*old(self), *final(self), data@, r),
    {
        match self.transport.write_all(data) {
            Ok(()) => Ok(()),
            Err(e) => Err(Error::Io(e)),
        }
    }

    /// One read into `buf` from `offset` on.
    fn read_at(&mut self, buf: &mut [u8], offset: usize) -> (r: std::io::Result<usize>)
        requires
            old(self).wf(),
            offset <= old(buf)@.len(),
        ensures
            final(self).flushes() == old(self).flushes(),
            continues(*old(self), *final(self)),
            final(self).sent() == old(self).sent(),
            final(buf)@.len() == old(buf)@.len(),
            final(buf)@.take(offset as int) == old(buf)@.take(offset as int),
            match r {
                Ok(n) => offset + n <= old(buf)@.len()
                    && final(self).received() == old(self).received() + final(buf)@.subrange(offset as int, offset + n),
                Err(_) => final(self).received() == old(self).received(),
            },
    {
        let (head, rest) = buf.split_at_mut(offset);
        assert(final(head)@ == head@);
        let r = self.transport.read(rest);
        proof {
            if let Ok(n) = r {
                assert(final(rest)@.take(n as int) =~= (final(head)@ + final(rest)@).subrange(offset as int, offset + n));
            }
            assert(final(head)@ =~= (final(head)@ + final(rest)@).take(offset as int));
        }
        r
    }

    /// Read exactly `buf.len()` bytes from the transport.
    fn read_exact(&mut self, buf: &mut [u8]) -> (r: Result<(), Error<std::io::Error>>)
        requires
            old(self).wf(),
        ensures
            final(self).flushes() == old(self).flushes(),
            continues(*old(self), *final(self)),
            final(self).sent() == old(self).sent(),
            final(buf)@.len() == old(buf)@.len(),
            match r {
                Ok(()) => final(self).received() == old(self).received() + final(buf)@,
                Err(e) => read_failure(e, old(buf)@.len()),
            },
    {
        let ghost len = buf@.len();
        let mut offset: usize = 0;
        while offset < buf.len()
            invariant
                self.wf(),
                continues(*old(self), *self),
                self.sent() == old(self).sent(),
                self.flushes() == old(self).flushes(),
                buf@.len() == len,
                len == old(buf)@.len(),
                offset <= len,
                self.received() == old(self).received() + buf@.take(offset as int),
            decreases len - offset,
        {
            let ghost before = buf@;
            let n = match self.read_at(buf, offset) {
                Ok(n) => n,
                Err(e) => return Err(Error::Io(e)),
            };
            if n == 0 {
                return Err(Error::Protocol(ProtocolError::InsufficientData { need: buf.len(), got: offset }));
            }
            assert(buf@.take(offset as int + n as int) =~= buf@.take(offset as int) + buf@.subrange(offset as int, offset + n));
            offset += n;
        }
        assert(buf@.take(len as int) =~= buf@);
        Ok(())
    }

    /// Wait the model's mode-change delay (20 ms) on the transport.
    fn sleep_mode_change(&mut self)
        requires
            old(self).wf(),
        ensures
            continues(*old(self), *final(self)),
            sent_exactly(*old(self), *final(self), Seq::<u8>::empty()),
            final(self).waited() == old(self).waited().push(duration_of_millis(MODE_CHANGE_DELAY_MS)),
    {
        let d = self.model.mode_change_delay();
        self.transport.delay(d);
    }

    /// Change the mode marker, keeping everything else.
    fn transition<N: Mode>(self) -> (r: Create<N, T>)
        requires
            self.wf(),
        ensures
            continues(self, r),
            sent_exactly(self, r, Seq::<u8>::empty()),
            r.spec_transport() == self.spec_transport(),
    {
        Create {
            transport: self.transport,
            model: self.model,
            stream_parser: self.stream_parser,
            streaming: self.streaming,
            _mode: PhantomData,
        }
    }

    /// Change the mode marker and drop any stream state, for modes in which
    /// the current stream session cannot continue.
    fn cleared_transition<N: Mode>(self) -> (r: Create<N, T>)
        ensures
            restarts(self, r),
            sent_exactly(self, r, Seq::<u8>::empty()),
            r.spec_transport() == self.spec_transport(),
    {
        Create {
            transport: self.transport,
            model: self.model,
            stream_parser: StreamParser::new(),
            streaming: false,
            _mode: PhantomData,
        }
    }
}

// ---------------------------------------------------------------------------
// Construction (Off mode)
// ---------------------------------------------------------------------------

impl<T: Transport> Create<Off, T> {
    /// Create a new robot handle wrapping the given transport.
    /// The robot is assumed to be in the `Off` state.
    pub fn new(transport: T, model: RobotModel) -> (c: Self)
        ensures
            c.wf(),
            c.spec_transport() == transport,
            c.spec_model() == model,
            !c.is_streaming(),
            c.parser() == (FrameState::WaitingHeader, Seq::<u8>::empty()),
    {
        Create {
            transport,
            model,
            stream_parser: StreamParser::new(),
            streaming: false,
            _mode: PhantomData,
        }
    }

    /// Send the START command (128) and transition to Passive mode.
    pub fn start(self) -> (r: Result<Create<Passive, T>, ConnectError<T, std::io::Error>>)
        requires
            self.wf(),
        ensures
            match r {
                Ok(c) => continues(self, c) && sent_exactly(self, c, seq![Opcode::Start.spec_byte()]),
                Err(e) => e.source is Io && e.transport.received() == self.received(),
            },
    {
        let mut this = self;
        if let Err(e) = this.send_cmd(&encode_start()) {
            return Err(ConnectError { transport: this.transport, source: e });
        }
        this.sleep_mode_change();
        Ok(this.transition())
    }

    /// Soft-reset the robot (7). Available in all modes per the OI spec, including Off.
    ///
    /// After this call the robot reboots; the transport is handed back.
    pub fn reset(self) -> (r: Result<T, ConnectError<T, std::io::Error>>)
        requires
            self.wf(),
        ensures
            match r {
                Ok(t) => t.sent() == self.sent() + seq![Opcode::Reset.spec_byte()] && t.received() == self.received(),
                Err(e) => e.source is Io && e.transport.received() == self.received(),
            },
    {
        let mut this = self;
        if let Err(e) = this.send_cmd(&encode_reset()) {
            return Err(ConnectError { transport: this.transport, source: e });
        }
        Ok(this.transport)
    }
}

// ---------------------------------------------------------------------------
// Mode transitions
// ---------------------------------------------------------------------------

impl<M: Mode, T: Transport> Create<M, T> {
    /// Send a mode-change command, wait the mode-change delay, and move to mode `N`.
    fn change_mode<N: Mode>(self, cmd: &[u8]) -> (r: Result<Create<N, T>, TransitionError<Self, std::io::Error>>)
        requires
            self.wf(),
        ensures
            transition_done(self, r, cmd@, false),
    {
        let mut this = self;
        if let Err(e) = this.send_cmd(cmd) {
            return Err(TransitionError { create: this, source: e });
        }
        this.sleep_mode_change();
        Ok(this.transition())
    }

    /// Send a command that leaves the current mode without waiting, and move to mode `N`.
    fn leave_mode<N: Mode>(self, cmd: &[u8], fresh: bool) -> (r: Result<Create<N, T>, TransitionError<Self, std::io::Error>>)
        requires
            self.wf(),
        ensures
            transition_done(self, r, cmd@, fresh),
    {
        let mut this = self;
        if let Err(e) = this.send_cmd(cmd) {
            return Err(TransitionError { create: this, source: e });
        }
        if fresh {
            Ok(this.cleared_transition())
        } else {
            Ok(this.transition())
        }
    }

    /// Send a command whose acceptance `plan` decided, leaving the current mode for `N`.
    fn planned_leave<N: Mode>(self, plan: Result<Vec<u8>, Error<std::io::Error>>, fresh: bool)
        -> (r: Result<Create<N, T>, TransitionError<Self, std::io::Error>>)
        requires
            self.wf(),
        ensures
            match plan {
                Err(e) => r matches Err(te) && te.create == self && te.source == e,
                Ok(v) => transition_done(self, r, v@, fresh),
            },
    {
        match plan {
            Err(e) => Err(TransitionError { create: self, source: e }),
            Ok(cmd) => self.leave_mode(cmd.as_slice(), fresh),
        }
    }
}

impl<T: Transport> Create<Passive, T> {
    /// Transition to Safe mode.
    ///
    /// On Roomba 400, uses CONTROL (opcode 130) instead of SAFE (opcode 131) because
    /// Roomba 400 SCI does not implement the SAFE command for the Passive→Safe transition.
    pub fn to_safe(self) -> (r: Result<Create<Safe, T>, TransitionError<Self, std::io::Error>>)
        requires
            self.wf(),
        ensures
            transition_done(self, r, requests::spec_to_safe(self.spec_model()), false),
    {
        let cmd = requests::to_safe(self.model);
        self.change_mode(&cmd)
    }

    /// Transition to Full mode (132).
    pub fn to_full(self) -> (r: Result<Create<Full, T>, TransitionError<Self, std::io::Error>>)
        requires
            self.wf(),
        ensures
            transition_done(self, r, seq![Opcode::Full.spec_byte()], false),
    {
        self.change_mode(&encode_full())
    }

    /// Send STOP and transition to Off mode.
    ///
    /// STOP (opcode 173) is a Create 2–only command; the OI session is ended
    /// and the stream state cleared.
    pub fn to_off(self) -> (r: Result<Create<Off, T>, TransitionError<Self, std::io::Error>>)
        requires
            self.wf(),
        ensures
            planned_transition(self, r, requests::spec_to_off(self.spec_model()), true),
    {
        let plan = requests::to_off(self.model);
        self.planned_leave(plan, true)
    }

    /// Initiate a cleaning cycle. The robot stays in (or returns to) Passive mode.
    ///
    /// `CleanMode::Max` (opcode 136) is refused on Create 1, where that opcode
    /// triggers the Demo command instead.
    pub fn clean(self, mode: CleanMode) -> (r: Result<Create<Passive, T>, TransitionError<Self, std::io::Error>>)
        requires
            self.wf(),
        ensures
            planned_transition(self, r, requests::spec_clean(self.spec_model(), mode), false),
    {
        let plan = requests::clean(self.model, mode);
        self.planned_leave(plan, false)
    }

    /// Seek the dock (143). The robot stays in Passive mode.
    pub fn seek_dock(self) -> (r: Result<Create<Passive, T>, TransitionError<Self, std::io::Error>>)
        requires
            self.wf(),
        ensures
            transition_done(self, r, seq![Opcode::Dock.spec_byte()], false),
    {
        self.leave_mode(&encode_dock(), false)
    }
}

impl<T: Transport> Create<Safe, T> {
    /// Transition to Full mode (132).
    pub fn to_full(self) -> (r: Result<Create<Full, T>, TransitionError<Self, std::io::Error>>)
        requires
            self.wf(),
        ensures
            transition_done(self, r, seq![Opcode::Full.spec_byte()], false),
    {
        self.change_mode(&encode_full())
    }

    /// Fall back to Passive mode (sends START, 128).
    pub fn to_passive(self) -> (r: Result<Create<Passive, T>, TransitionError<Self, std::io::Error>>)
        requires
            self.wf(),
        ensures
            transition_done(self, r, seq![Opcode::Start.spec_byte()], false),
    {
        self.change_mode(&encode_start())
    }

    /// Send STOP (173, Create 2 only) and transition to Off mode.
    pub fn to_off(self) -> (r: Result<Create<Off, T>, TransitionError<Self, std::io::Error>>)
        requires
            self.wf(),
        ensures
            planned_transition(self, r, requests::spec_to_off(self.spec_model()), true),
    {
        let plan = requests::to_off(self.model);
        self.planned_leave(plan, true)
    }
}

impl<T: Transport> Create<Full, T> {
    /// Fall back to Safe mode (131).
    pub fn to_safe(self) -> (r: Result<Create<Safe, T>, TransitionError<Self, std::io::Error>>)
        requires
            self.wf(),
        ensures
            transition_done(self, r, seq![Opcode::Safe.spec_byte()], false),
    {
        self.change_mode(&encode_safe())
    }

    /// Fall back to Passive mode (sends START, 128).
    pub fn to_passive(self) -> (r: Result<Create<Passive, T>, TransitionError<Self, std::io::Error>>)
        requires
            self.wf(),
        ensures
            transition_done(self, r, seq![Opcode::Start.spec_byte()], false),
    {
        self.change_mode(&encode_start())
    }

    /// Send STOP (173, Create 2 only) and transition to Off mode.
    pub fn to_off(self) -> (r: Result<Create<Off, T>, TransitionError<Self, std::io::Error>>)
        requires
            self.wf(),
        ensures
            planned_transition(self, r, requests::spec_to_off(self.spec_model()), true),
    {
        let plan = requests::to_off(self.model);
        self.planned_leave(plan, true)
    }
}

impl<M: Mode, T: Transport> Create<M, T> {
    /// Send a command whose acceptance `plan` decided.
    fn send_planned(&mut self, plan: Result<Vec<u8>, Error<std::io::Error>>) -> (r: Result<(), Error<std::io::Error>>)
        requires
            old(self).wf(),
        ensures
            match plan {
                Err(e) => r == Err::<(), Error<std::io::Error>>(e) && *final(self) == *old(self),
                Ok(v) => command_done(*old(self), *final(self), v@, r),
            },
    {
        match plan {
            Err(e) => Err(e),
            Ok(cmd) => self.send_cmd(cmd.as_slice()),
        }
    }
}

/// The results of the frames a poll completed, up to the first failed one.
pub open spec fn collect_frames(results: Seq<FrameResult>) -> Result<Seq<SensorData>, ProtocolError>
    decreases results.len(),
{
    if results.len() == 0 {
        Ok(Seq::empty())
    } else {
        match collect_frames(results.drop_last()) {
            Err(e) => Err(e),
            Ok(frames) => match results.last() {
                Ok(sd) => Ok(frames.push(sd)),
                Err(e) => Err(e),
            },
        }
    }
}

/// Reason given when polling without an active stream.
pub open spec fn not_streaming_error() -> Error<std::io::Error> {
    requests::invalid("stream", "poll_stream requires an active stream; call start_stream() first")
}

/// What one poll of a running stream did: the transport failed or ended
/// and nothing was parsed, or a chunk of at most 256 bytes was read and fed
/// to the parser, which completed the frames `results`.
pub open spec fn polled<M: Mode, T: Transport>(
    before: Create<M, T>,
    after: Create<M, T>,
    failed: bool,
    disconnected: bool,
    results: Seq<FrameResult>,
) -> bool {
    let chunk = reply(before, after);
    &&& after.wf()
    &&& after.spec_model() == before.spec_model()
    &&& after.is_streaming() == before.is_streaming()
    &&& after.sent() == before.sent()
    &&& after.received() == before.received() + chunk
    &&& if failed || disconnected {
        chunk.len() == 0 && after.parser() == before.parser()
    } else {
        1 <= chunk.len() <= 256
            && (after.parser().0, after.parser().1, results)
                == spec_feed(before.parser().0, before.parser().1, chunk, STREAM_FRAME_CAPACITY as nat)
    }
}

fn collect_results(results: Vec<FrameResult>) -> (r: Result<Vec<SensorData>, Error<std::io::Error>>)
    ensures
        match collect_frames(results@) {
            Ok(frames) => r matches Ok(v) && v@ == frames,
            Err(e) => r == Err::<Vec<SensorData>, Error<std::io::Error>>(Error::Protocol(e)),
        },
{
    let mut frames: Vec<SensorData> = Vec::new();
    let mut i: usize = 0;
    while i < results.len()
        invariant
            i <= results@.len(),
            collect_frames(results@.take(i as int)) == Ok::<Seq<SensorData>, ProtocolError>(frames@),
        decreases results@.len() - i,
    {
        assert(results@.take(i as int + 1).drop_last() =~= results@.take(i as int));
        match &results[i] {
            Ok(sd) => frames.push(*sd),
            Err(e) => {
                let e = *e;
                proof { lemma_collect_err_stable(results@.take(i as int + 1), results@.skip(i as int + 1)); }
                assert(results@.take(i as int + 1) + results@.skip(i as int + 1) =~= results@);
                return Err(Error::Protocol(e));
            },
        }
        i += 1;
    }
    assert(results@.take(results@.len() as int) =~= results@);
    Ok(frames)
}

/// Once a prefix of the results holds a failure, collecting fails with it.
proof fn lemma_collect_err_stable(a: Seq<FrameResult>, b: Seq<FrameResult>)
    requires
        collect_frames(a) is Err,
    ensures
        collect_frames(a + b) == collect_frames(a),
    decreases b.len(),
{
    if b.len() == 0 {
        assert(a + b =~= a);
    } else {
        lemma_collect_err_stable(a, b.drop_last());
        assert((a + b).drop_last() =~= a + b.drop_last());
    }
}

// ---------------------------------------------------------------------------
// Sensor reading, streams, songs and scheduling (Passive, Safe, Full)
// ---------------------------------------------------------------------------

impl<M: SensorReadable, T: Transport> Create<M, T> {
    /// Query a single sensor packet (individual or group ID) into a
    /// caller-provided buffer. Returns the number of bytes written.
    ///
    /// Validates the packet ID and buffer size before sending any bytes
    /// (SENSORS, 142) to the robot; the answer fills the front of `buf`.
    /// Queries write their request without flushing the transport, so the
    /// answer is not held up by draining the transmit buffer.
    pub fn query_sensor_raw_into(&mut self, packet_id: u8, buf: &mut [u8]) -> (r: Result<usize, Error<std::io::Error>>)
        requires
            old(self).wf(),
        ensures
            final(self).flushes() == old(self).flushes(),
            continues(*old(self), *final(self)),
            final(buf)@.len() == old(buf)@.len(),
            match requests::spec_sensor_query_len::<std::io::Error>(old(self).spec_model(), old(self).is_streaming(), packet_id) {
                Err(e) => r == Err::<usize, Error<std::io::Error>>(e) && *final(self) == *old(self) && final(buf)@ == old(buf)@,
                Ok(n) => if old(buf)@.len() < n {
                    r == Err::<usize, Error<std::io::Error>>(Error::Protocol(
                        ProtocolError::BufferTooSmall { need: n as usize, got: old(buf)@.len() as usize }))
                        && *final(self) == *old(self) && final(buf)@ == old(buf)@
                } else {
                    &&& final(buf)@.skip(n as int) == old(buf)@.skip(n as int)
                    &&& match r {
                        Ok(k) => k == n && exchanged(*old(self), *final(self),
                            seq![Opcode::Sensors.spec_byte(), packet_id], final(buf)@.take(n as int)),
                        Err(e) => read_failure(e, n),
                    }
                },
            },
    {
        let len = match requests::sensor_query_len(self.model, self.streaming, packet_id) {
            Err(e) => return Err(e),
            Ok(n) => n,
        };
        if buf.len() < len {
            return Err(Error::Protocol(ProtocolError::BufferTooSmall { need: len, got: buf.len() }));
        }
        if let Err(e) = self.write_bytes(&encode_sensors(packet_id)) {
            return Err(e);
        }
        let (front, back) = buf.split_at_mut(len);
        assert(final(back)@ == back@);
        match self.read_exact(front) {
            Err(e) => Err(e),
            Ok(()) => {
                assert((final(front)@ + final(back)@).take(len as int) =~= final(front)@);
                Ok(len)
            },
        }
    }

    /// Query a single sensor packet (individual or group ID) and return the raw bytes.
    ///
    /// Validates the packet ID before sending any bytes to the robot.
    pub fn query_sensor_raw(&mut self, packet_id: u8) -> (r: Result<Vec<u8>, Error<std::io::Error>>)
        requires
            old(self).wf(),
        ensures
            final(self).flushes() == old(self).flushes(),
            continues(*old(self), *final(self)),
            match requests::spec_sensor_query_len::<std::io::Error>(old(self).spec_model(), old(self).is_streaming(), packet_id) {
                Err(e) => r == Err::<Vec<u8>, Error<std::io::Error>>(e) && *final(self) == *old(self),
                Ok(n) => match r {
                    Ok(v) => v@.len() == n && exchanged(*old(self), *final(self), seq![Opcode::Sensors.spec_byte(), packet_id], v@),
                    Err(e) => read_failure(e, n),
                },
            },
    {
        let len = match requests::sensor_query_len(self.model, self.streaming, packet_id) {
            Err(e) => return Err(e),
            Ok(n) => n,
        };
        let mut buf: Vec<u8> = vec![0u8; len];
        if let Err(e) = self.write_bytes(&encode_sensors(packet_id)) {
            return Err(e);
        }
        match self.read_exact(buf.as_mut_slice()) {
            Err(e) => Err(e),
            Ok(()) => Ok(buf),
        }
    }

    /// Query a single individual sensor packet and decode it.
    ///
    /// Group packet IDs (0-6, 100) are not decoded by this API; use
    /// [`query_sensor_raw_into`](Self::query_sensor_raw_into) for them.
    pub fn query_sensor(&mut self, packet_id: u8) -> (r: Result<SensorData, Error<std::io::Error>>)
        requires
            old(self).wf(),
        ensures
            final(self).flushes() == old(self).flushes(),
            continues(*old(self), *final(self)),
            spec_group_data_len(packet_id) is Some ==> r == Err::<SensorData, Error<std::io::Error>>(requests::invalid(
                "packet_id",
                "group packet IDs (0-6, 100) are not decoded by query_sensor(); use query_sensor_raw_into() instead",
            )) && *final(self) == *old(self),
            spec_group_data_len(packet_id) is None ==> match requests::spec_sensor_query_len::<std::io::Error>(
                old(self).spec_model(), old(self).is_streaming(), packet_id) {
                Err(e) => r == Err::<SensorData, Error<std::io::Error>>(e) && *final(self) == *old(self),
                Ok(n) => match r {
                    Ok(sd) => {
                        let answer = reply(*old(self), *final(self));
                        &&& answer.len() == n
                        &&& exchanged(*old(self), *final(self), seq![Opcode::Sensors.spec_byte(), packet_id], answer)
                        &&& spec_decode_packet(SensorData::empty(), packet_id, answer) == (sd, Ok::<usize, ProtocolError>(n as usize))
                    },
                    Err(e) => read_failure(e, n),
                },
            },
    {
        if group_data_len(packet_id).is_some() {
            return Err(Error::Validation(ValidationError {
                field: "packet_id",
                reason: "group packet IDs (0-6, 100) are not decoded by query_sensor(); use query_sensor_raw_into() instead",
            }));
        }
        let ghost before = *self;
        let mut buf = [0u8; 64];
        let len = match self.query_sensor_raw_into(packet_id, &mut buf) {
            Err(e) => return Err(e),
            Ok(n) => n,
        };
        let mut sd = SensorData::default();
        let (front, _) = buf.split_at(len);
        assert(front@ == buf@.take(len as int));
        assert(reply(before, *self) =~= front@);
        match sd.decode_packet(packet_id, front) {
            Err(e) => Err(Error::Protocol(e)),
            Ok(_) => Ok(sd),
        }
    }
}


impl<M: SensorReadable, T: Transport> Create<M, T> {
    /// Query multiple sensors at once (QUERY_LIST, 149) and decode all of them.
    ///
    /// Refused before any byte is sent while a stream is active, on
    /// Roomba 400, for duplicate IDs, for IDs the model lacks, and for
    /// unknown IDs. Group IDs are accepted; the robot answers with their
    /// members' packets, which are decoded in order.
    pub fn query_list(&mut self, packet_ids: &[u8]) -> (r: Result<SensorData, Error<std::io::Error>>)
        requires
            old(self).wf(),
        ensures
            final(self).flushes() == old(self).flushes(),
            continues(*old(self), *final(self)),
            match requests::spec_query_list_check::<std::io::Error>(old(self).spec_model(), old(self).is_streaming(), packet_ids@) {
                Err(e) => r == Err::<SensorData, Error<std::io::Error>>(e) && *final(self) == *old(self),
                Ok(n) => match r {
                    Ok(sd) => {
                        let answer = reply(*old(self), *final(self));
                        &&& answer.len() == n
                        &&& exchanged(*old(self), *final(self), id_list_bytes(Opcode::QueryList, packet_ids@), answer)
                        &&& spec_decode_packets(SensorData::empty(), packet_ids@, answer) == (sd, Ok::<(), ProtocolError>(()))
                    },
                    Err(e) => read_failure(e, n),
                },
            },
    {
        let len = match requests::query_list_len(self.model, self.streaming, packet_ids) {
            Err(e) => return Err(e),
            Ok(n) => n,
        };
        let cmd = match encode_query_list(packet_ids) {
            Err(e) => return Err(Error::Protocol(e)),
            Ok(c) => c,
        };
        let ghost before = *self;
        if let Err(e) = self.write_bytes(cmd.as_slice()) {
            return Err(e);
        }
        let mut buf: Vec<u8> = vec![0u8; len];
        match self.read_exact(buf.as_mut_slice()) {
            Err(e) => return Err(e),
            Ok(()) => {},
        }
        assert(reply(before, *self) =~= buf@);
        proof { lemma_expected_len_decodes(SensorData::empty(), packet_ids@, buf@); }
        let mut sd = SensorData::default();
        match sd.decode_packets(packet_ids, buf.as_slice()) {
            Err(e) => Err(Error::Protocol(e)),
            Ok(()) => Ok(sd),
        }
    }

    /// Read the robot's current OI mode (packet 35).
    pub fn read_oi_mode(&mut self) -> (r: Result<OiMode, Error<std::io::Error>>)
        requires
            old(self).wf(),
        ensures
            final(self).flushes() == old(self).flushes(),
            continues(*old(self), *final(self)),
            match requests::spec_sensor_query_len::<std::io::Error>(old(self).spec_model(), old(self).is_streaming(), 35) {
                Err(e) => r == Err::<OiMode, Error<std::io::Error>>(e) && *final(self) == *old(self),
                Ok(n) => match r {
                    Ok(m) => {
                        let answer = reply(*old(self), *final(self));
                        &&& answer.len() == 1
                        &&& exchanged(*old(self), *final(self), seq![Opcode::Sensors.spec_byte(), 35u8], answer)
                        &&& m == OiMode::spec_from_raw(answer[0])
                    },
                    Err(e) => read_failure(e, n),
                },
            },
    {
        let sd = match self.query_sensor(35) {
            Err(e) => return Err(e),
            Ok(sd) => sd,
        };
        match sd.oi_mode {
            Some(m) => Ok(m),
            None => Err(Error::Protocol(ProtocolError::MissingSensorField { field: "oi_mode" })),
        }
    }

    /// Start streaming the given packet IDs (STREAM, 148).
    ///
    /// Refused before any byte is sent if the model cannot stream, if the list
    /// holds duplicates or unknown IDs, or if a frame's payload would exceed
    /// 255 bytes. Group IDs count as their members.
    pub fn start_stream(&mut self, packet_ids: &[u8]) -> (r: Result<(), Error<std::io::Error>>)
        requires
            old(self).wf(),
        ensures
            match requests::spec_start_stream::<std::io::Error>(old(self).spec_model(), packet_ids@, false) {
                Err(e) => r == Err::<(), Error<std::io::Error>>(e) && *final(self) == *old(self),
                Ok(bytes) => {
                    &&& final(self).wf()
                    &&& final(self).spec_model() == old(self).spec_model()
                    &&& final(self).parser() == old(self).parser()
                    &&& final(self).received() == old(self).received()
                    &&& match r {
                        Ok(()) => final(self).sent() == old(self).sent() + bytes && final(self).is_streaming(),
                        Err(e) => e is Io && final(self).is_streaming() == old(self).is_streaming(),
                    }
                },
            },
    {
        let plan = requests::start_stream(self.model, packet_ids, false);
        match self.send_planned(plan) {
            Err(e) => Err(e),
            Ok(()) => {
                self.streaming = true;
                Ok(())
            },
        }
    }

    /// Pause (`false`) or resume (`true`) the sensor stream (148 is resumed by 150).
    ///
    /// Refused on models without streaming.
    pub fn toggle_stream(&mut self, enable: bool) -> (r: Result<(), Error<std::io::Error>>)
        requires
            old(self).wf(),
        ensures
            match requests::spec_toggle_stream::<std::io::Error>(old(self).spec_model(), enable) {
                Err(e) => r == Err::<(), Error<std::io::Error>>(e) && *final(self) == *old(self),
                Ok(bytes) => {
                    &&& final(self).wf()
                    &&& final(self).spec_model() == old(self).spec_model()
                    &&& final(self).parser() == old(self).parser()
                    &&& final(self).received() == old(self).received()
                    &&& match r {
                        Ok(()) => final(self).sent() == old(self).sent() + bytes && final(self).is_streaming() == enable,
                        Err(e) => e is Io && final(self).is_streaming() == old(self).is_streaming(),
                    }
                },
            },
    {
        let plan = requests::toggle_stream(self.model, enable);
        match self.send_planned(plan) {
            Err(e) => Err(e),
            Ok(()) => {
                self.streaming = enable;
                Ok(())
            },
        }
    }

    /// One read of up to 256 bytes from the transport, fed to the stream parser.
    fn poll_once(&mut self) -> (r: Result<Vec<FrameResult>, Error<std::io::Error>>)
        requires
            old(self).wf(),
        ensures
            match r {
                Ok(results) => polled(*old(self), *final(self), false, false, results@),
                Err(e) => (e is Io || e is Disconnected) && polled(*old(self), *final(self), true, true, Seq::empty()),
            },
    {
        let mut buf = [0u8; 256];
        let n = match self.transport.read(&mut buf) {
            Ok(n) => n,
            Err(e) => {
                assert(reply(*old(self), *self) =~= Seq::<u8>::empty());
                return Err(Error::Io(e));
            },
        };
        if n == 0 {
            assert(reply(*old(self), *self) =~= Seq::<u8>::empty());
            return Err(Error::Disconnected);
        }
        let (chunk, _) = buf.split_at(n);
        assert(chunk@ == buf@.take(n as int));
        assert(reply(*old(self), *self) =~= chunk@);
        Ok(self.stream_parser.feed(chunk))
    }

    /// Read bytes from the transport and parse stream frames.
    ///
    /// Refused unless a stream is active. An end of stream on the transport
    /// is reported as [`Error::Disconnected`]; the first frame that fails to
    /// parse is reported as its protocol error.
    pub fn poll_stream(&mut self) -> (r: Result<Vec<SensorData>, Error<std::io::Error>>)
        requires
            old(self).wf(),
        ensures
            !old(self).is_streaming() ==> r == Err::<Vec<SensorData>, Error<std::io::Error>>(not_streaming_error())
                && *final(self) == *old(self),
            old(self).is_streaming() ==> match r {
                Err(Error::Io(_)) => polled(*old(self), *final(self), true, false, Seq::empty()),
                Err(Error::Disconnected) => polled(*old(self), *final(self), false, true, Seq::empty()),
                Err(Error::Protocol(e)) => exists|results: Seq<FrameResult>|
                    polled(*old(self), *final(self), false, false, results)
                        && collect_frames(results) == Err::<Seq<SensorData>, ProtocolError>(e),
                Ok(frames) => exists|results: Seq<FrameResult>|
                    polled(*old(self), *final(self), false, false, results)
                        && collect_frames(results) == Ok::<Seq<SensorData>, ProtocolError>(frames@),
                Err(Error::Validation(_)) => false,
            },
    {
        if !self.streaming {
            return Err(Error::Validation(ValidationError {
                field: "stream",
                reason: "poll_stream requires an active stream; call start_stream() first",
            }));
        }
        match self.poll_once() {
            Err(e) => Err(e),
            Ok(results) => collect_results(results),
        }
    }

    /// Read bytes from the transport and hand each parsed stream frame to `sink`.
    ///
    /// Refused unless a stream is active; an end of stream on the transport
    /// is reported as [`Error::Disconnected`]. On success the sink has been
    /// handed exactly the results of the frames the read bytes completed.
    pub fn poll_stream_with<S: FrameSink>(&mut self, sink: &mut S) -> (r: Result<(), Error<std::io::Error>>)
        requires
            old(self).wf(),
            old(sink).ready(),
        ensures
            final(sink).ready(),
            r is Err ==> final(sink).seen() == old(sink).seen(),
            !old(self).is_streaming() ==> r == Err::<(), Error<std::io::Error>>(not_streaming_error()) && *final(self) == *old(self),
            old(self).is_streaming() ==> match r {
                Err(Error::Io(_)) => polled(*old(self), *final(self), true, false, Seq::empty()),
                Err(Error::Disconnected) => polled(*old(self), *final(self), false, true, Seq::empty()),
                Ok(()) => exists|results: Seq<FrameResult>| polled(*old(self), *final(self), false, false, results)
                    && final(sink).seen() == old(sink).seen() + results,
                _ => false,
            },
    {
        if !self.streaming {
            return Err(Error::Validation(ValidationError {
                field: "stream",
                reason: "poll_stream requires an active stream; call start_stream() first",
            }));
        }
        let mut buf = [0u8; 256];
        let n = match self.transport.read(&mut buf) {
            Ok(n) => n,
            Err(e) => {
                assert(reply(*old(self), *self) =~= Seq::<u8>::empty());
                return Err(Error::Io(e));
            },
        };
        if n == 0 {
            assert(reply(*old(self), *self) =~= Seq::<u8>::empty());
            return Err(Error::Disconnected);
        }
        let (chunk, _) = buf.split_at(n);
        assert(chunk@ == buf@.take(n as int));
        assert(reply(*old(self), *self) =~= chunk@);
        self.stream_parser.feed_with(chunk, sink);
        assert(polled(*old(self), *self, false, false,
            spec_feed(old(self).parser().0, old(self).parser().1, chunk@, STREAM_FRAME_CAPACITY as nat).2));
        assert(final(sink).seen() == old(sink).seen()
            + spec_feed(old(self).parser().0, old(self).parser().1, chunk@, STREAM_FRAME_CAPACITY as nat).2);
        Ok(())
    }

    /// Send POWER (133), powering the robot down; the handle moves to Off
    /// mode with the stream state cleared.
    pub fn power_off(self) -> (r: Result<Create<Off, T>, TransitionError<Self, std::io::Error>>)
        requires
            self.wf(),
        ensures
            transition_done(self, r, seq![Opcode::Power.spec_byte()], true),
    {
        self.leave_mode(&encode_power(), true)
    }

    /// Reset the robot (7) and return the underlying transport.
    pub fn reset(self) -> (r: Result<T, TransitionError<Self, std::io::Error>>)
        requires
            self.wf(),
        ensures
            match r {
                Ok(t) => t.sent() == self.sent() + seq![Opcode::Reset.spec_byte()] && t.received() == self.received(),
                Err(e) => e.source is Io && continues(self, e.create) && e.create.received() == self.received(),
            },
    {
        let mut this = self;
        if let Err(e) = this.send_cmd(&encode_reset()) {
            return Err(TransitionError { create: this, source: e });
        }
        Ok(this.transport)
    }

    /// Define a song (SONG, 140).
    ///
    /// Refused if the slot exceeds this model's maximum (Create 2: 0–4,
    /// Create 1 / Roomba 400: 0–15), or if the song has more than 16 notes;
    /// an empty song is sent as it is.
    pub fn define_song(&mut self, number: SongNumber, notes: &[SongNote]) -> (r: Result<(), Error<std::io::Error>>)
        requires
            old(self).wf(),
        ensures
            planned_command(*old(self), *final(self), requests::spec_define_song(old(self).spec_model(), number, notes@, false), r),
    {
        let plan = requests::define_song(self.model, number, notes, false);
        self.send_planned(plan)
    }

    /// Play a previously defined song (PLAY, 141); refused if the slot
    /// exceeds this model's maximum.
    pub fn play_song(&mut self, number: SongNumber) -> (r: Result<(), Error<std::io::Error>>)
        requires
            old(self).wf(),
        ensures
            planned_command(*old(self), *final(self), requests::spec_play_song(old(self).spec_model(), number), r),
    {
        let plan = requests::play_song(self.model, number);
        self.send_planned(plan)
    }

    /// Set the robot's clock (SET_DAY_TIME, 168; Create 2 only, hour 0–23, minute 0–59).
    pub fn set_date(&mut self, day: DayOfWeek, hour: u8, minute: u8) -> (r: Result<(), Error<std::io::Error>>)
        requires
            old(self).wf(),
        ensures
            planned_command(*old(self), *final(self), requests::spec_date(old(self).spec_model(), day, hour, minute), r),
    {
        let plan = requests::date(self.model, day, hour, minute);
        self.send_planned(plan)
    }

    /// Set the weekly cleaning schedule (SCHEDULE, 167; Create 2 only).
    ///
    /// `days`: bitmask of scheduled days (bit 0=Sunday, bit 6=Saturday); bit 7 must be 0.
    /// `times`: (hour, minute) for each day, starting with Sunday.
    pub fn set_schedule(&mut self, days: u8, times: [(u8, u8); 7]) -> (r: Result<(), Error<std::io::Error>>)
        requires
            old(self).wf(),
        ensures
            planned_command(*old(self), *final(self), requests::spec_schedule(old(self).spec_model(), days, times@), r),
    {
        let plan = requests::schedule(self.model, days, times);
        self.send_planned(plan)
    }
}

// ---------------------------------------------------------------------------
// Actuator commands (Safe, Full)
// ---------------------------------------------------------------------------

impl<M: Actuatable, T: Transport> Create<M, T> {
    /// Drive with a given velocity and turn radius (DRIVE, 137).
    pub fn drive(&mut self, velocity: VelocityMmPerSec, radius: RadiusMm) -> (r: Result<(), Error<std::io::Error>>)
        requires
            old(self).wf(),
        ensures
            command_done(*old(self), *final(self), two_i16_command(Opcode::Drive, velocity@, radius@), r),
    {
        self.send_cmd(&encode_drive(velocity.get(), radius.get()))
    }

    /// Drive wheels directly with individual velocities (DRIVE_DIRECT, 145);
    /// refused on Roomba 400, which only has DRIVE.
    pub fn drive_direct(&mut self, right: VelocityMmPerSec, left: VelocityMmPerSec) -> (r: Result<(), Error<std::io::Error>>)
        requires
            old(self).wf(),
        ensures
            planned_command(*old(self), *final(self), requests::spec_drive_direct(old(self).spec_model(), right, left), r),
    {
        let plan = requests::drive_direct(self.model, right, left);
        self.send_planned(plan)
    }

    /// Drive wheels with PWM values (DRIVE_PWM, 146); Create 2 only.
    pub fn drive_pwm(&mut self, right: WheelPwm, left: WheelPwm) -> (r: Result<(), Error<std::io::Error>>)
        requires
            old(self).wf(),
        ensures
            planned_command(*old(self), *final(self), requests::spec_drive_pwm(old(self).spec_model(), right, left), r),
    {
        let plan = requests::drive_pwm(self.model, right, left);
        self.send_planned(plan)
    }

    /// Stop both wheels: DRIVE at 0 mm/s straight on Roomba 400, which lacks
    /// DRIVE_DIRECT; DRIVE_DIRECT with 0 on both wheels otherwise.
    pub fn stop(&mut self) -> (r: Result<(), Error<std::io::Error>>)
        requires
            old(self).wf(),
        ensures
            command_done(*old(self), *final(self), requests::spec_stop(old(self).spec_model()), r),
    {
        let cmd = requests::stop(self.model);
        self.send_cmd(&cmd)
    }

    /// Set the LEDs (LEDS, 139), with the LED bit layout of this model.
    pub fn set_leds(
        &mut self,
        debris: bool,
        spot: bool,
        dock: bool,
        check_robot: bool,
        color: PowerLedColor,
        intensity: LedIntensity,
    ) -> (r: Result<(), Error<std::io::Error>>)
        requires
            old(self).wf(),
        ensures
            command_done(*old(self), *final(self), seq![
                Opcode::Leds.spec_byte(),
                spec_led_bits(old(self).spec_model(), debris, spot, dock, check_robot),
                color@,
                intensity@,
            ], r),
    {
        let bits = led_bits(self.model, debris, spot, dock, check_robot);
        self.send_cmd(&encode_leds(bits, color.get(), intensity.get()))
    }

    /// Display ASCII characters on the 7-segment displays (164; Create 2 only).
    ///
    /// Each character must be printable ASCII (32–126); `d3` is the leftmost digit.
    pub fn set_digit_leds(&mut self, d3: u8, d2: u8, d1: u8, d0: u8) -> (r: Result<(), Error<std::io::Error>>)
        requires
            old(self).wf(),
        ensures
            planned_command(*old(self), *final(self), requests::spec_digit_leds(old(self).spec_model(), d3, d2, d1, d0), r),
    {
        let plan = requests::digit_leds(self.model, d3, d2, d1, d0);
        self.send_planned(plan)
    }

    /// Set the cleaning motors' PWM (144; Create 2 only).
    ///
    /// `main_brush` and `side_brush` take -127..=127 (-128 is refused), positive
    /// forward; `vacuum` takes 0..=127 (larger values are refused).
    pub fn set_motors_pwm(&mut self, main_brush: i8, side_brush: i8, vacuum: u8) -> (r: Result<(), Error<std::io::Error>>)
        requires
            old(self).wf(),
        ensures
            planned_command(*old(self), *final(self), requests::spec_motors_pwm(old(self).spec_model(), main_brush, side_brush, vacuum), r),
    {
        let plan = requests::motors_pwm(self.model, main_brush, side_brush, vacuum);
        self.send_planned(plan)
    }

    /// Enable or disable the cleaning motors with direction control (MOTORS, 138).
    pub fn set_motors(&mut self, motors: MotorBits) -> (r: Result<(), Error<std::io::Error>>)
        requires
            old(self).wf(),
        ensures
            command_done(*old(self), *final(self), seq![Opcode::Motors.spec_byte(), motors.spec_to_raw()], r),
    {
        self.send_cmd(&encode_motors(motors.to_raw()))
    }

    /// Set raw 7-segment digit LEDs (163; Create 2 only).
    ///
    /// Each byte controls one digit: bits 0–6 = segments A–G, bit 7 = decimal point.
    pub fn set_digit_leds_raw(&mut self, d3: u8, d2: u8, d1: u8, d0: u8) -> (r: Result<(), Error<std::io::Error>>)
        requires
            old(self).wf(),
        ensures
            planned_command(*old(self), *final(self), requests::spec_digit_leds_raw(old(self).spec_model(), d3, d2, d1, d0), r),
    {
        let plan = requests::digit_leds_raw(self.model, d3, d2, d1, d0);
        self.send_planned(plan)
    }

    /// Set the scheduling LED indicators (162; Create 2 only).
    ///
    /// - `day_leds`: bits 0–6 = Sun–Sat; bit 7 is reserved.
    /// - `schedule_leds`: bit 0=colon, bit 1=AM/PM, bit 2=clock icon,
    ///   bit 3=schedule icon; the upper 4 bits are reserved.
    pub fn set_scheduling_leds(&mut self, day_leds: u8, schedule_leds: u8) -> (r: Result<(), Error<std::io::Error>>)
        requires
            old(self).wf(),
        ensures
            planned_command(*old(self), *final(self), requests::spec_scheduling_leds(old(self).spec_model(), day_leds, schedule_leds), r),
    {
        let plan = requests::scheduling_leds(self.model, day_leds, schedule_leds);
        self.send_planned(plan)
    }

    /// Initiate a cleaning cycle from Safe or Full mode; the robot returns to Passive.
    ///
    /// `CleanMode::Max` (opcode 136) is refused on Create 1.
    pub fn clean(self, mode: CleanMode) -> (r: Result<Create<Passive, T>, TransitionError<Self, std::io::Error>>)
        requires
            self.wf(),
        ensures
            planned_transition(self, r, requests::spec_clean(self.spec_model(), mode), false),
    {
        let plan = requests::clean(self.model, mode);
        self.planned_leave(plan, false)
    }

    /// Seek the dock (143) from Safe or Full mode; the robot returns to Passive.
    pub fn seek_dock(self) -> (r: Result<Create<Passive, T>, TransitionError<Self, std::io::Error>>)
        requires
            self.wf(),
        ensures
            transition_done(self, r, seq![Opcode::Dock.spec_byte()], false),
    {
        self.leave_mode(&encode_dock(), false)
    }
}

// ---------------------------------------------------------------------------
// Full-control commands (Full only)
// ---------------------------------------------------------------------------

impl<M: FullControl, T: Transport> Create<M, T> {
    /// Simulate button presses on the robot (BUTTONS, 165; Create 2 only).
    pub fn simulate_buttons(&mut self, buttons: ButtonBits) -> (r: Result<(), Error<std::io::Error>>)
        requires
            old(self).wf(),
        ensures
            planned_command(*old(self), *final(self), requests::spec_buttons(old(self).spec_model(), buttons), r),
    {
        let plan = requests::buttons(self.model, buttons);
        self.send_planned(plan)
    }
}

// ---------------------------------------------------------------------------
// Baud-rate switching (Passive, Safe, Full)
// ---------------------------------------------------------------------------

impl<M: SensorReadable, T: BaudConfigurable> Create<M, T> {
    /// Change the robot's baud rate (BAUD, 129).
    ///
    /// Sends the command, waits 100 ms for the robot to switch, then
    /// reconfigures the host side through [`BaudConfigurable::set_baud`].
    /// The mode is unchanged.
    pub fn baud(&mut self, rate: BaudRate) -> (r: Result<(), Error<std::io::Error>>)
        requires
            old(self).wf(),
        ensures
            command_done(*old(self), *final(self), seq![Opcode::Baud.spec_byte(), rate.spec_code()], r),
    {
        if let Err(e) = self.send_cmd(&encode_baud(rate.code())) {
            return Err(e);
        }
        self.transport.delay(millis(100));
        match self.transport.set_baud(rate) {
            Ok(()) => Ok(()),
            Err(e) => Err(Error::Io(e)),
        }
    }
}

// ---------------------------------------------------------------------------
// Common utilities (all modes)
// ---------------------------------------------------------------------------

impl<M: Mode, T: Transport> Create<M, T> {
    /// Get the robot model.
    pub fn model(&self) -> (m: RobotModel)
        ensures
            m == self.spec_model(),
    {
        self.model
    }

    /// Consume the robot handle and return the underlying transport.
    ///
    /// Dropping the transport (or this handle) does **not** send any stop or
    /// shutdown command: the robot keeps executing the last commanded motion.
    pub fn into_transport(self) -> (t: T)
        ensures
            t == self.spec_transport(),
    {
        self.transport
    }

    /// Borrow the underlying transport.
    pub fn transport(&self) -> (t: &T)
        ensures
            *t == self.spec_transport(),
    {
        &self.transport
    }

    /// Borrow the underlying transport mutably.
    ///
    /// Direct transport access bypasses the TypeState mode tracking: the
    /// handle's mode, stream flag and parser are kept as they are.
    pub fn transport_mut(&mut self) -> (t: &mut T)
        ensures
            *t == old(self).spec_transport(),
            final(self).spec_transport() == *final(t),
            final(self).spec_model() == old(self).spec_model(),
            final(self).is_streaming() == old(self).is_streaming(),
            final(self).parser() == old(self).parser(),
            final(self).wf() == old(self).wf(),
    {
        &mut self.transport
    }
}

} // verus!
