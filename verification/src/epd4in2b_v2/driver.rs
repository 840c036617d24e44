use super::bus::{DelayMs, EpdError, GpioPin, InputPin, SoftwareSpi};
use super::dialect::Dialect;
use super::framebuffer::bytes_per_row;
use super::protocol::{
    after_poll, clear_ops, display_ops, display_step, init_ops, init_sequence,
    lemma_display_layout, power_off_ops, power_off_sequence, refresh_ops, refresh_sequence,
    reset_ops, reset_sequence, sleep_ops, sleep_sequence, solid_plane, Op, PollStep,
    BUSY_MAX_WAITS, BUSY_POLL_MS, EPD_HEIGHT, EPD_PLANE_BYTES, EPD_WIDTH,
};
use vstd::prelude::*;

verus! {

/// The plane size is that of the panel: its rows of whole bytes.
pub proof fn lemma_plane_bytes()
    ensures
        EPD_PLANE_BYTES == bytes_per_row(EPD_WIDTH as nat) * EPD_HEIGHT,
{
}

/// How a wait for the controller ended.
#[derive(Clone, Copy, Debug, PartialEq, Eq, Structural)]
pub struct BusyWait {
    /// Number of pauses made.
    pub waits: u32,
    /// Whether the wait gave up with the controller still busy.
    pub timed_out: bool,
}

/// `after` is `before` with all of `program` behind it.
pub open spec fn completes(before: Seq<Op>, after: Seq<Op>, program: Seq<Op>) -> bool {
    after == before + program
}

/// `after` is `before` with the steps of `program` behind it that come
/// before one of its steps, the one that failed.
pub open spec fn breaks_off(before: Seq<Op>, after: Seq<Op>, program: Seq<Op>) -> bool {
    exists|k: int| 0 <= k < program.len() && after == before + #[trigger] program.take(k)
}

/// How the record of steps grows when `program` is carried out: by all of
/// it on success, and on failure by the steps before the failing one.
pub open spec fn follows(ok: bool, before: Seq<Op>, after: Seq<Op>, program: Seq<Op>) -> bool {
    if ok {
        completes(before, after, program)
    } else {
        breaks_off(before, after, program)
    }
}

/// A failure in one part of a program is a failure of the program.
proof fn lemma_breaks_off_within(
    before: Seq<Op>,
    mid: Seq<Op>,
    after: Seq<Op>,
    done: Seq<Op>,
    part: Seq<Op>,
    whole: Seq<Op>,
)
    requires
        mid == before + done,
        breaks_off(mid, after, part),
        (done + part).is_prefix_of(whole),
    ensures
        breaks_off(before, after, whole),
{
    let k = choose|k: int| 0 <= k < part.len() && after == mid + #[trigger] part.take(k);
    let n = done.len() + k;
    assert(whole.take(n) =~= done + part.take(k));
    assert(after =~= before + whole.take(n));
}

/// A failure of a single step leaves the record as it was.
proof fn lemma_breaks_off_single(before: Seq<Op>, op: Op)
    ensures
        breaks_off(before, before, seq![op]),
{
    assert(before =~= before + seq![op].take(0));
}

/// What passes over the bus in one frame.
#[derive(Clone, Copy, Debug, PartialEq, Eq, Structural)]
pub enum Transfer {
    /// This byte is sent.
    Write(u8),
    /// A byte is asked for.
    Read,
}

impl Transfer {
    /// The call on the bus that makes the transfer.
    pub open spec fn call(self) -> Call {
        match self {
            Transfer::Write(byte) => Call::Write(byte),
            Transfer::Read => Call::Read,
        }
    }
}

/// A call that the driver makes on one of its handles.
#[derive(Clone, Copy, Debug, PartialEq, Eq, Structural)]
pub enum Call {
    /// The reset line driven high (`true`) or low.
    ResetLine(bool),
    /// The command/data select line driven high (`true`, for data) or low
    /// (for a command).
    SelectLine(bool),
    /// The chip-select line driven high (`true`, device released) or low
    /// (device selected).
    ChipSelect(bool),
    /// One byte sent.
    Write(u8),
    /// One byte asked for.
    Read,
    /// A look at the BUSY line.
    Look,
    /// A pause of so many milliseconds.
    Pause(u32),
}

/// What came of a call.
pub enum Outcome {
    /// The call succeeded.
    Done,
    /// The byte asked for came.
    Byte(u8),
    /// The look found the line high (`true`) or low.
    Level(bool),
    /// The call failed with this error.
    Failed(EpdError),
}

/// A call with what came of it.
pub struct Made {
    pub call: Call,
    pub outcome: Outcome,
}

/// What came of a call on an output line or of a byte sent.
pub open spec fn outcome_of(result: Result<(), EpdError>) -> Outcome {
    match result {
        Ok(_) => Outcome::Done,
        Err(e) => Outcome::Failed(e),
    }
}

/// What came of a byte asked for.
pub open spec fn read_outcome_of(result: Result<u8, EpdError>) -> Outcome {
    match result {
        Ok(byte) => Outcome::Byte(byte),
        Err(e) => Outcome::Failed(e),
    }
}

/// What came of a look at the BUSY line.
pub open spec fn look_outcome_of(result: Result<bool, EpdError>) -> Outcome {
    match result {
        Ok(level) => Outcome::Level(level),
        Err(e) => Outcome::Failed(e),
    }
}

/// Whether the outcome is one that the call can have.
pub open spec fn fits(m: Made) -> bool {
    match m.outcome {
        Outcome::Done => m.call != Call::Read && m.call != Call::Look,
        Outcome::Byte(_) => m.call == Call::Read,
        Outcome::Level(_) => m.call == Call::Look,
        Outcome::Failed(_) => !(m.call is Pause),
    }
}

/// Whether the driver goes on after the call: after every call that
/// succeeded, and after a read that failed, which it passes over.
pub open spec fn goes_on(m: Made) -> bool {
    !(m.outcome is Failed) || m.call == Call::Read
}

/// The calls that send or ask for one byte: the select line set, the device
/// selected where the driver has a line for that, the transfer, the device
/// released.
pub open spec fn frame_calls(has_cs: bool, data: bool, transfer: Call) -> Seq<Call> {
    if has_cs {
        seq![Call::SelectLine(data), Call::ChipSelect(false), transfer, Call::ChipSelect(true)]
    } else {
        seq![Call::SelectLine(data), transfer]
    }
}

/// The calls of `frame` have been made in order, and the driver goes on
/// after each of them.
pub open spec fn under_way(frame: Seq<Call>, made: Seq<Made>) -> bool {
    &&& made.len() <= frame.len()
    &&& forall|i: int|
        0 <= i < made.len() ==> (#[trigger] made[i]).call == frame[i] && fits(made[i]) && goes_on(
            made[i],
        )
}

/// How the calls of `frame` are made: in order, up to the first after which
/// the driver does not go on. The result is `Ok` where all were made and
/// the driver would go on after the last, and else the error of the last
/// call made.
pub open spec fn attempts(frame: Seq<Call>, made: Seq<Made>, r: Result<(), EpdError>) -> bool {
    &&& 1 <= made.len() <= frame.len()
    &&& forall|i: int|
        0 <= i < made.len() ==> (#[trigger] made[i]).call == frame[i] && fits(made[i])
    &&& forall|i: int| 0 <= i < made.len() - 1 ==> goes_on(#[trigger] made[i])
    &&& match r {
        Ok(_) => made.len() == frame.len() && goes_on(made.last()),
        Err(e) => made.last().outcome == Outcome::Failed(e) && !goes_on(made.last()),
    }
}

/// `n` rounds of a wait: a look that finds the BUSY line at its busy level,
/// and a pause.
pub open spec fn rounds(busy_level: bool, n: nat) -> Seq<Made>
    decreases n,
{
    if n == 0 {
        Seq::empty()
    } else {
        rounds(busy_level, (n - 1) as nat).push(
            Made { call: Call::Look, outcome: Outcome::Level(busy_level) },
        ).push(Made { call: Call::Pause(BUSY_POLL_MS), outcome: Outcome::Done })
    }
}

/// How a wait for the controller goes, where the BUSY line is at
/// `busy_level` while the controller is busy. The driver looks at the line
/// and pauses for as long as it finds the line at that level. The wait is
/// over when a look finds the line at the other level, when a look fails,
/// or after one round more than `BUSY_MAX_WAITS`; the result then tells
/// the number of rounds and that the time ran out.
pub open spec fn waits_for(busy_level: bool, made: Seq<Made>, r: Result<BusyWait, EpdError>) -> bool {
    let n = made.len() / 2;
    match r {
        Ok(wait) => {
            &&& wait.waits == n
            &&& wait.timed_out == (n > BUSY_MAX_WAITS)
            &&& if wait.timed_out {
                n == BUSY_MAX_WAITS + 1 && made == rounds(busy_level, n)
            } else {
                made == rounds(busy_level, n).push(
                    Made { call: Call::Look, outcome: Outcome::Level(!busy_level) },
                )
            }
        },
        Err(e) => n <= BUSY_MAX_WAITS && made == rounds(busy_level, n).push(
            Made { call: Call::Look, outcome: Outcome::Failed(e) },
        ),
    }
}

/// The result of a wait whose calls are `made`, where it did not fail.
pub open spec fn wait_of(made: Seq<Made>) -> BusyWait {
    BusyWait { waits: (made.len() / 2) as u32, timed_out: made.len() / 2 > BUSY_MAX_WAITS }
}

/// How one step is carried out on the handles: the calls that are made for
/// it, and the result that comes of them.
pub open spec fn carried(
    op: Op,
    has_cs: bool,
    dialect: Dialect,
    made: Seq<Made>,
    r: Result<(), EpdError>,
) -> bool {
    match op {
        Op::ResetLine(high) => attempts(seq![Call::ResetLine(high)], made, r),
        Op::Delay(ms) => r is Ok && made == seq![
            Made { call: Call::Pause(ms), outcome: Outcome::Done },
        ],
        Op::Command(byte) => attempts(frame_calls(has_cs, false, Call::Write(byte)), made, r),
        Op::Data(byte) => attempts(frame_calls(has_cs, true, Call::Write(byte)), made, r),
        Op::ReadData => attempts(frame_calls(has_cs, true, Call::Read), made, r),
        Op::WaitBusy => match r {
            Ok(_) => waits_for(dialect.commands().busy_level, made, Ok(wait_of(made))),
            Err(e) => waits_for(dialect.commands().busy_level, made, Err(e)),
        },
    }
}

/// The calls that `after` holds behind those of `before`.
pub open spec fn since(before: Seq<Made>, after: Seq<Made>) -> Seq<Made> {
    after.skip(before.len() as int)
}

/// What is put behind a record is what the record holds since.
proof fn lemma_since(before: Seq<Made>, made: Seq<Made>)
    ensures
        before.is_prefix_of(before + made),
        since(before, before + made) == made,
{
    assert(since(before, before + made) =~= made);
}

/// One more call after which the driver goes on.
proof fn lemma_goes_on(frame: Seq<Call>, made: Seq<Made>, m: Made)
    requires
        under_way(frame, made),
        made.len() < frame.len(),
        m.call == frame[made.len() as int],
        fits(m),
        goes_on(m),
    ensures
        under_way(frame, made.push(m)),
        made.push(m).len() == frame.len() ==> attempts(frame, made.push(m), Ok(())),
{
    let all = made.push(m);
    assert forall|i: int| 0 <= i < all.len() implies (#[trigger] all[i]).call == frame[i] && fits(
        all[i],
    ) && goes_on(all[i]) by {
        if i < made.len() {
            assert(all[i] == made[i]);
        }
    }
}

/// One more call, which fails and ends the attempt.
proof fn lemma_ends(frame: Seq<Call>, made: Seq<Made>, m: Made, e: EpdError)
    requires
        under_way(frame, made),
        made.len() < frame.len(),
        m.call == frame[made.len() as int],
        m.outcome == Outcome::Failed(e),
        !(m.call is Pause),
        m.call != Call::Read,
    ensures
        attempts(frame, made.push(m), Err(e)),
{
    let all = made.push(m);
    assert forall|i: int| 0 <= i < all.len() implies (#[trigger] all[i]).call == frame[i] && fits(
        all[i],
    ) by {
        if i < made.len() {
            assert(all[i] == made[i]);
        }
    }
    assert forall|i: int| 0 <= i < all.len() - 1 implies goes_on(#[trigger] all[i]) by {
        assert(all[i] == made[i]);
    }
}

/// A number of rounds has two calls for each round.
proof fn lemma_rounds_len(busy_level: bool, n: nat)
    ensures
        rounds(busy_level, n).len() == 2 * n,
    decreases n,
{
    if n > 0 {
        lemma_rounds_len(busy_level, (n - 1) as nat);
    }
}

/// Driver of the panel's controller. It owns its bus and control lines.
///
/// The driver keeps two records, for use in contracts only. One holds the
/// calls that it has made on its handles, each with what came of it. The
/// other holds the protocol steps that it has carried out: a step enters it
/// when the driver has made the calls that the step stands for and goes on
/// after the last of them.
pub struct Epd4in2bV2<SPI, CS, DC, RST, BUSY, DELAY> {
    spi: SPI,
    cs_pin: Option<CS>,
    dc_pin: DC,
    rst_pin: RST,
    busy_pin: BUSY,
    delay: DELAY,
    dialect: Dialect,
    issued: Ghost<Seq<Op>>,
    calls: Ghost<Seq<Made>>,
}

impl<
    SPI: SoftwareSpi,
    CS: GpioPin,
    DC: GpioPin,
    RST: GpioPin,
    BUSY: InputPin,
    DELAY: DelayMs,
> Epd4in2bV2<SPI, CS, DC, RST, BUSY, DELAY> {
    /// The steps carried out so far, oldest first.
    pub closed spec fn issued(&self) -> Seq<Op> {
        self.issued@
    }

    /// The calls made on the handles so far, oldest first.
    pub closed spec fn calls(&self) -> Seq<Made> {
        self.calls@
    }

    /// Whether the driver has a chip-select line of its own.
    pub closed spec fn has_chip_select(&self) -> bool {
        self.cs_pin is Some
    }

    /// The controller revision this driver speaks to.
    pub closed spec fn spec_dialect(&self) -> Dialect {
        self.dialect
    }

    /// What no operation changes: the revision, and whether there is a
    /// chip-select line.
    pub open spec fn same_setup(&self, other: &Self) -> bool {
        &&& self.dialect() == other.dialect()
        &&& self.has_chip_select() == other.has_chip_select()
    }

    /// A driver for a controller of the current revision. Without a
    /// chip-select line the bus selects the device itself.
    pub fn new(
        spi: SPI,
        cs_pin: Option<CS>,
        dc_pin: DC,
        rst_pin: RST,
        busy_pin: BUSY,
        delay: DELAY,
    ) -> (epd: Self)
        ensures
            epd.dialect() == Dialect::New,
            epd.issued() == Seq::<Op>::empty(),
            epd.calls() == Seq::<Made>::empty(),
            epd.has_chip_select() == cs_pin is Some,
    {
        Epd4in2bV2 {
            spi,
            cs_pin,
            dc_pin,
            rst_pin,
            busy_pin,
            delay,
            dialect: Dialect::New,
            issued: Ghost(Seq::empty()),
            calls: Ghost(Seq::empty()),
        }
    }

    /// A driver for a controller of the given revision.
    pub fn with_dialect(
        spi: SPI,
        cs_pin: Option<CS>,
        dc_pin: DC,
        rst_pin: RST,
        busy_pin: BUSY,
        delay: DELAY,
        dialect: Dialect,
    ) -> (epd: Self)
        ensures
            epd.dialect() == dialect,
            epd.issued() == Seq::<Op>::empty(),
            epd.calls() == Seq::<Made>::empty(),
            epd.has_chip_select() == cs_pin is Some,
    {
        Epd4in2bV2 {
            spi,
            cs_pin,
            dc_pin,
            rst_pin,
            busy_pin,
            delay,
            dialect,
            issued: Ghost(Seq::empty()),
            calls: Ghost(Seq::empty()),
        }
    }

    /// The controller revision this driver speaks to.
    #[verifier::when_used_as_spec(spec_dialect)]
    pub fn dialect(&self) -> (dialect: Dialect)
        ensures
            dialect == self.spec_dialect(),
    {
        self.dialect
    }

    /// Enters a call on an output line or on the bus into the record, with
    /// the result it had, and hands the result on.
    fn note(&mut self, Ghost(call): Ghost<Call>, result: Result<(), EpdError>) -> (r: Result<
        (),
        EpdError,
    >)
        ensures
            r == result,
            final(self).same_setup(old(self)),
            final(self).issued() == old(self).issued(),
            final(self).calls() == old(self).calls().push(
                Made { call, outcome: outcome_of(result) },
            ),
    {
        self.calls = Ghost(self.calls@.push(Made { call, outcome: outcome_of(result) }));
        result
    }

    /// Enters the asking for a byte into the record, with the result it
    /// had. The byte is not used, and a failure is passed over.
    fn note_read(&mut self, result: Result<u8, EpdError>)
        ensures
            final(self).same_setup(old(self)),
            final(self).issued() == old(self).issued(),
            final(self).calls() == old(self).calls().push(
                Made { call: Call::Read, outcome: read_outcome_of(result) },
            ),
    {
        self.calls = Ghost(
            self.calls@.push(Made { call: Call::Read, outcome: read_outcome_of(result) }),
        );
    }

    /// Enters a look at the BUSY line into the record, with the result it
    /// had, and hands the result on.
    fn note_look(&mut self, result: Result<bool, EpdError>) -> (r: Result<bool, EpdError>)
        ensures
            r == result,
            final(self).same_setup(old(self)),
            final(self).issued() == old(self).issued(),
            final(self).calls() == old(self).calls().push(
                Made { call: Call::Look, outcome: look_outcome_of(result) },
            ),
    {
        self.calls = Ghost(
            self.calls@.push(Made { call: Call::Look, outcome: look_outcome_of(result) }),
        );
        result
    }

    /// Drives the reset line: one call on it, whose result is the result.
    fn set_reset(&mut self, high: bool) -> (r: Result<(), EpdError>)
        ensures
            final(self).same_setup(old(self)),
            r is Ok ==> final(self).issued() == old(self).issued().push(Op::ResetLine(high)),
            r is Err ==> final(self).issued() == old(self).issued(),
            final(self).calls() == old(self).calls().push(
                Made { call: Call::ResetLine(high), outcome: outcome_of(r) },
            ),
            old(self).calls().is_prefix_of(final(self).calls()),
            carried(
                Op::ResetLine(high),
                old(self).has_chip_select(),
                old(self).dialect(),
                since(old(self).calls(), final(self).calls()),
                r,
            ),
    {
        let ghost before = self.calls();
        let called = if high {
            self.rst_pin.set_high()
        } else {
            self.rst_pin.set_low()
        };
        let r = self.note(Ghost(Call::ResetLine(high)), called);
        proof {
            let m = Made { call: Call::ResetLine(high), outcome: outcome_of(r) };
            lemma_since(before, seq![m]);
            assert(before.push(m) =~= before + seq![m]);
        }
        match r {
            Ok(()) => {
                self.issued = Ghost(self.issued@.push(Op::ResetLine(high)));
                Ok(())
            },
            Err(e) => Err(e),
        }
    }

    /// Lets `ms` milliseconds pass: one call on the clock.
    fn pause(&mut self, ms: u32)
        ensures
            final(self).same_setup(old(self)),
            final(self).issued() == old(self).issued().push(Op::Delay(ms)),
            final(self).calls() == old(self).calls().push(
                Made { call: Call::Pause(ms), outcome: Outcome::Done },
            ),
    {
        self.delay.delay_ms(ms);
        self.calls = Ghost(
            self.calls@.push(Made { call: Call::Pause(ms), outcome: Outcome::Done }),
        );
        self.issued = Ghost(self.issued@.push(Op::Delay(ms)));
    }

    /// Selects the device. Where the driver has a chip-select line, that is
    /// one call that drives it low, whose result is the result. Where it
    /// has none, no call is made and the result is `Ok`.
    fn select(&mut self) -> (r: Result<(), EpdError>)
        ensures
            final(self).same_setup(old(self)),
            final(self).issued() == old(self).issued(),
            !old(self).has_chip_select() ==> r is Ok && final(self).calls() == old(self).calls(),
            old(self).has_chip_select() ==> final(self).calls() == old(self).calls().push(
                Made { call: Call::ChipSelect(false), outcome: outcome_of(r) },
            ),
    {
        let called = match &mut self.cs_pin {
            Some(cs) => cs.set_low(),
            None => {
                return Ok(());
            },
        };
        self.note(Ghost(Call::ChipSelect(false)), called)
    }

    /// Releases the device. Where the driver has a chip-select line, that
    /// is one call that drives it high, whose result is the result. Where
    /// it has none, no call is made and the result is `Ok`.
    fn deselect(&mut self) -> (r: Result<(), EpdError>)
        ensures
            final(self).same_setup(old(self)),
            final(self).issued() == old(self).issued(),
            !old(self).has_chip_select() ==> r is Ok && final(self).calls() == old(self).calls(),
            old(self).has_chip_select() ==> final(self).calls() == old(self).calls().push(
                Made { call: Call::ChipSelect(true), outcome: outcome_of(r) },
            ),
    {
        let called = match &mut self.cs_pin {
            Some(cs) => cs.set_high(),
            None => {
                return Ok(());
            },
        };
        self.note(Ghost(Call::ChipSelect(true)), called)
    }

    /// Makes the calls that send or ask for one byte: the select line, the
    /// device selected, the transfer, the device released. The first call
    /// after which the driver does not go on ends them, and its error is
    /// the result.
    fn frame(&mut self, data: bool, transfer: Transfer) -> (r: Result<(), EpdError>)
        ensures
            final(self).same_setup(old(self)),
            final(self).issued() == old(self).issued(),
            old(self).calls().is_prefix_of(final(self).calls()),
            attempts(
                frame_calls(old(self).has_chip_select(), data, transfer.call()),
                since(old(self).calls(), final(self).calls()),
                r,
            ),
    {
        let ghost before = self.calls();
        let ghost has_cs = self.has_chip_select();
        let ghost calls = frame_calls(has_cs, data, transfer.call());
        let ghost mut made = Seq::<Made>::empty();
        assert(before =~= before + made);

        let called = if data {
            self.dc_pin.set_high()
        } else {
            self.dc_pin.set_low()
        };
        match self.note(Ghost(Call::SelectLine(data)), called) {
            Ok(()) => {
                proof {
                    let m = Made { call: Call::SelectLine(data), outcome: Outcome::Done };
                    lemma_goes_on(calls, made, m);
                    assert(before + made.push(m) =~= (before + made).push(m));
                    made = made.push(m);
                }
            },
            Err(e) => {
                proof {
                    let m = Made { call: Call::SelectLine(data), outcome: Outcome::Failed(e) };
                    lemma_ends(calls, made, m, e);
                    assert(before + made.push(m) =~= (before + made).push(m));
                    lemma_since(before, made.push(m));
                }
                return Err(e);
            },
        }

        match self.select() {
            Ok(()) => {
                proof {
                    if has_cs {
                        let m = Made { call: Call::ChipSelect(false), outcome: Outcome::Done };
                        lemma_goes_on(calls, made, m);
                        assert(before + made.push(m) =~= (before + made).push(m));
                        made = made.push(m);
                    }
                }
            },
            Err(e) => {
                proof {
                    let m = Made { call: Call::ChipSelect(false), outcome: Outcome::Failed(e) };
                    lemma_ends(calls, made, m, e);
                    assert(before + made.push(m) =~= (before + made).push(m));
                    lemma_since(before, made.push(m));
                }
                return Err(e);
            },
        }

        match transfer {
            Transfer::Write(byte) => {
                let called = self.spi.write_byte(byte);
                match self.note(Ghost(Call::Write(byte)), called) {
                    Ok(()) => {
                        proof {
                            let m = Made { call: Call::Write(byte), outcome: Outcome::Done };
                            lemma_goes_on(calls, made, m);
                            assert(before + made.push(m) =~= (before + made).push(m));
                            made = made.push(m);
                        }
                    },
                    Err(e) => {
                        proof {
                            let m = Made { call: Call::Write(byte), outcome: Outcome::Failed(e) };
                            lemma_ends(calls, made, m, e);
                            assert(before + made.push(m) =~= (before + made).push(m));
                            lemma_since(before, made.push(m));
                        }
                        return Err(e);
                    },
                }
            },
            Transfer::Read => {
                let called = self.spi.read_byte();
                proof {
                    let m = Made { call: Call::Read, outcome: read_outcome_of(called) };
                    lemma_goes_on(calls, made, m);
                    assert(before + made.push(m) =~= (before + made).push(m));
                    made = made.push(m);
                }
                self.note_read(called);
            },
        }

        match self.deselect() {
            Ok(()) => {
                proof {
                    if has_cs {
                        let m = Made { call: Call::ChipSelect(true), outcome: Outcome::Done };
                        lemma_goes_on(calls, made, m);
                        assert(before + made.push(m) =~= (before + made).push(m));
                        made = made.push(m);
                    }
                    lemma_since(before, made);
                }
                Ok(())
            },
            Err(e) => {
                proof {
                    let m = Made { call: Call::ChipSelect(true), outcome: Outcome::Failed(e) };
                    lemma_ends(calls, made, m, e);
                    assert(before + made.push(m) =~= (before + made).push(m));
                    lemma_since(before, made.push(m));
                }
                Err(e)
            },
        }
    }

    /// Sends one command byte: select line low, device selected, the byte,
    /// device released.
    pub fn send_command(&mut self, command: u8) -> (r: Result<(), EpdError>)
        ensures
            final(self).same_setup(old(self)),
            r is Ok ==> final(self).issued() == old(self).issued().push(Op::Command(command)),
            r is Err ==> final(self).issued() == old(self).issued(),
            old(self).calls().is_prefix_of(final(self).calls()),
            carried(
                Op::Command(command),
                old(self).has_chip_select(),
                old(self).dialect(),
                since(old(self).calls(), final(self).calls()),
                r,
            ),
    {
        match self.frame(false, Transfer::Write(command)) {
            Ok(()) => {
                self.issued = Ghost(self.issued@.push(Op::Command(command)));
                Ok(())
            },
            Err(e) => Err(e),
        }
    }

    /// Sends one data byte: select line high, device selected, the byte,
    /// device released.
    pub fn send_data(&mut self, data: u8) -> (r: Result<(), EpdError>)
        ensures
            final(self).same_setup(old(self)),
            r is Ok ==> final(self).issued() == old(self).issued().push(Op::Data(data)),
            r is Err ==> final(self).issued() == old(self).issued(),
            old(self).calls().is_prefix_of(final(self).calls()),
            carried(
                Op::Data(data),
                old(self).has_chip_select(),
                old(self).dialect(),
                since(old(self).calls(), final(self).calls()),
                r,
            ),
    {
        match self.frame(true, Transfer::Write(data)) {
            Ok(()) => {
                self.issued = Ghost(self.issued@.push(Op::Data(data)));
                Ok(())
            },
            Err(e) => Err(e),
        }
    }

    /// Tries to read one data byte: select line high, device selected, the
    /// read, device released. A failed read is passed over; a failure of a
    /// line is not.
    fn read_data(&mut self) -> (r: Result<(), EpdError>)
        ensures
            final(self).same_setup(old(self)),
            r is Ok ==> final(self).issued() == old(self).issued().push(Op::ReadData),
            r is Err ==> final(self).issued() == old(self).issued(),
            old(self).calls().is_prefix_of(final(self).calls()),
            carried(
                Op::ReadData,
                old(self).has_chip_select(),
                old(self).dialect(),
                since(old(self).calls(), final(self).calls()),
                r,
            ),
    {
        match self.frame(true, Transfer::Read) {
            Ok(()) => {
                self.issued = Ghost(self.issued@.push(Op::ReadData));
                Ok(())
            },
            Err(e) => Err(e),
        }
    }

    /// Waits for the controller: looks at the BUSY line, and pauses while it
    /// is at the busy level of the revision. After the longest time a wait
    /// may take the driver goes on as if the controller were ready, and
    /// says so in the result.
    pub fn read_busy(&mut self) -> (r: Result<BusyWait, EpdError>)
        ensures
            final(self).same_setup(old(self)),
            match r {
                Ok(wait) => {
                    &&& final(self).issued() == old(self).issued().push(Op::WaitBusy)
                    &&& wait.waits <= BUSY_MAX_WAITS + 1
                    &&& wait.timed_out == (wait.waits > BUSY_MAX_WAITS)
                },
                Err(_) => final(self).issued() == old(self).issued(),
            },
            old(self).calls().is_prefix_of(final(self).calls()),
            waits_for(
                old(self).dialect().commands().busy_level,
                since(old(self).calls(), final(self).calls()),
                r,
            ),
    {
        let ghost before = self.calls();
        let ghost busy = self.dialect().commands().busy_level;
        let mut waits: u32 = 0;
        assert(before =~= before + rounds(busy, 0));
        loop
            invariant
                waits <= BUSY_MAX_WAITS,
                busy == old(self).dialect().commands().busy_level,
                before == old(self).calls(),
                self.same_setup(old(self)),
                self.issued() == old(self).issued(),
                self.calls() == before + rounds(busy, waits as nat),
            decreases BUSY_MAX_WAITS - waits,
        {
            let ghost so_far = rounds(busy, waits as nat);
            proof {
                lemma_rounds_len(busy, waits as nat);
            }
            let looked = self.busy_pin.is_high();
            let level = match self.note_look(looked) {
                Ok(level) => level,
                Err(e) => {
                    proof {
                        let m = Made { call: Call::Look, outcome: Outcome::Failed(e) };
                        assert((before + so_far).push(m) =~= before + so_far.push(m));
                        lemma_since(before, so_far.push(m));
                    }
                    return Err(e);
                },
            };
            let ghost look = Made { call: Call::Look, outcome: Outcome::Level(level) };
            assert((before + so_far).push(look) =~= before + so_far.push(look));
            match after_poll(self.dialect, level, waits) {
                PollStep::Ready => {
                    proof {
                        lemma_since(before, so_far.push(look));
                    }
                    self.issued = Ghost(self.issued@.push(Op::WaitBusy));
                    return Ok(BusyWait { waits, timed_out: false });
                },
                PollStep::Retry => {
                    self.delay.delay_ms(BUSY_POLL_MS);
                    self.calls = Ghost(
                        self.calls@.push(
                            Made { call: Call::Pause(BUSY_POLL_MS), outcome: Outcome::Done },
                        ),
                    );
                    waits = waits + 1;
                    assert(self.calls() =~= before + rounds(busy, waits as nat));
                },
                PollStep::GiveUp => {
                    self.delay.delay_ms(BUSY_POLL_MS);
                    self.calls = Ghost(
                        self.calls@.push(
                            Made { call: Call::Pause(BUSY_POLL_MS), outcome: Outcome::Done },
                        ),
                    );
                    proof {
                        lemma_rounds_len(busy, (waits + 1) as nat);
                        assert(self.calls() =~= before + rounds(busy, (waits + 1) as nat));
                        lemma_since(before, rounds(busy, (waits + 1) as nat));
                    }
                    self.issued = Ghost(self.issued@.push(Op::WaitBusy));
                    return Ok(BusyWait { waits: waits + 1, timed_out: true });
                },
            }
        }
    }

    /// Carries out one step: makes the calls that the step stands for, and
    /// enters the step into the record where the driver goes on after them.
    fn execute(&mut self, op: Op) -> (r: Result<(), EpdError>)
        ensures
            final(self).same_setup(old(self)),
            r is Ok ==> final(self).issued() == old(self).issued().push(op),
            r is Err ==> final(self).issued() == old(self).issued(),
            old(self).calls().is_prefix_of(final(self).calls()),
            carried(
                op,
                old(self).has_chip_select(),
                old(self).dialect(),
                since(old(self).calls(), final(self).calls()),
                r,
            ),
    {
        let ghost before = self.calls();
        match op {
            Op::ResetLine(high) => self.set_reset(high),
            Op::Delay(ms) => {
                self.pause(ms);
                proof {
                    let m = Made { call: Call::Pause(ms), outcome: Outcome::Done };
                    assert(before.push(m) =~= before + seq![m]);
                    lemma_since(before, seq![m]);
                }
                Ok(())
            },
            Op::Command(command) => self.send_command(command),
            Op::Data(data) => self.send_data(data),
            Op::ReadData => self.read_data(),
            Op::WaitBusy => match self.read_busy() {
                Ok(_) => Ok(()),
                Err(e) => Err(e),
            },
        }
    }

    /// Carries out the steps of `ops` in order, up to the first that fails.
    fn run(&mut self, ops: &Vec<Op>) -> (r: Result<(), EpdError>)
        ensures
            final(self).dialect() == old(self).dialect(),
            follows(r is Ok, old(self).issued(), final(self).issued(), ops@),
    {
        let mut i: usize = 0;
        while i < ops.len()
            invariant
                i <= ops.len(),
                self.dialect() == old(self).dialect(),
                self.issued() == old(self).issued() + ops@.take(i as int),
            decreases ops.len() - i,
        {
            match self.execute(ops[i]) {
                Ok(()) => {},
                Err(e) => {
                    return Err(e);
                },
            }
            assert(ops@.take(i + 1) =~= ops@.take(i as int).push(ops@[i as int]));
            i += 1;
        }
        assert(ops@.take(i as int) =~= ops@);
        Ok(())
    }

    /// The reset pulse.
    pub fn reset(&mut self) -> (r: Result<(), EpdError>)
        ensures
            final(self).dialect() == old(self).dialect(),
            follows(r is Ok, old(self).issued(), final(self).issued(), reset_ops()),
    {
        let ops = reset_sequence();
        self.run(&ops)
    }

    /// Starts a refresh of the panel and waits for its end.
    pub fn turn_on_display(&mut self) -> (r: Result<(), EpdError>)
        ensures
            final(self).dialect() == old(self).dialect(),
            follows(
                r is Ok,
                old(self).issued(),
                final(self).issued(),
                refresh_ops(old(self).dialect()),
            ),
    {
        let ops = refresh_sequence(self.dialect);
        self.run(&ops)
    }

    /// Brings the controller from any state to one that takes a frame.
    pub fn init(&mut self) -> (r: Result<(), EpdError>)
        ensures
            final(self).dialect() == old(self).dialect(),
            follows(
                r is Ok,
                old(self).issued(),
                final(self).issued(),
                init_ops(old(self).dialect(), EPD_WIDTH as nat, EPD_HEIGHT as nat),
            ),
    {
        let ops = init_sequence(self.dialect, EPD_WIDTH, EPD_HEIGHT);
        self.run(&ops)
    }

    /// Shows a frame: sends both planes to the controller's RAM, the red
    /// plane with every bit inverted, and refreshes the panel. Of each
    /// plane the first `EPD_PLANE_BYTES` bytes are sent.
    ///
    /// Every call makes the panel redraw itself once.
    pub fn display(&mut self, black_buffer: &[u8], red_buffer: &[u8]) -> (r: Result<
        (),
        EpdError,
    >)
        requires
            black_buffer@.len() >= EPD_PLANE_BYTES,
            red_buffer@.len() >= EPD_PLANE_BYTES,
        ensures
            final(self).dialect() == old(self).dialect(),
            follows(
                r is Ok,
                old(self).issued(),
                final(self).issued(),
                display_ops(
                    old(self).dialect(),
                    black_buffer@.take(EPD_PLANE_BYTES as int),
                    red_buffer@.take(EPD_PLANE_BYTES as int),
                ),
            ),
    {
        let ghost ops = display_ops(
            self.dialect(),
            black_buffer@.take(EPD_PLANE_BYTES as int),
            red_buffer@.take(EPD_PLANE_BYTES as int),
        );
        proof {
            lemma_display_layout(
                self.dialect(),
                black_buffer@.take(EPD_PLANE_BYTES as int),
                red_buffer@.take(EPD_PLANE_BYTES as int),
            );
        }
        let mut i: usize = 0;
        loop
            invariant
                i <= ops.len() <= 2 * EPD_PLANE_BYTES + 11,
                black_buffer@.len() >= EPD_PLANE_BYTES,
                red_buffer@.len() >= EPD_PLANE_BYTES,
                self.dialect() == old(self).dialect(),
                ops == display_ops(
                    old(self).dialect(),
                    black_buffer@.take(EPD_PLANE_BYTES as int),
                    red_buffer@.take(EPD_PLANE_BYTES as int),
                ),
                self.issued() == old(self).issued() + ops.take(i as int),
            decreases ops.len() - i,
        {
            match display_step(self.dialect, black_buffer, red_buffer, EPD_PLANE_BYTES, i) {
                None => {
                    assert(ops.take(i as int) =~= ops);
                    return Ok(());
                },
                Some(op) => {
                    match self.execute(op) {
                        Ok(()) => {},
                        Err(e) => {
                            return Err(e);
                        },
                    }
                    assert(ops.take(i + 1) =~= ops.take(i as int).push(op));
                    i += 1;
                },
            }
        }
    }

    /// The same as `display`, under the name of the sequence it follows.
    pub fn display_c_test_sequence(&mut self, black_buffer: &[u8], red_buffer: &[u8]) -> (r:
        Result<(), EpdError>)
        requires
            black_buffer@.len() >= EPD_PLANE_BYTES,
            red_buffer@.len() >= EPD_PLANE_BYTES,
        ensures
            final(self).dialect() == old(self).dialect(),
            follows(
                r is Ok,
                old(self).issued(),
                final(self).issued(),
                display_ops(
                    old(self).dialect(),
                    black_buffer@.take(EPD_PLANE_BYTES as int),
                    red_buffer@.take(EPD_PLANE_BYTES as int),
                ),
            ),
    {
        self.display(black_buffer, red_buffer)
    }

    /// Shows a white frame, and waits once more for the controller, so
    /// that what is written next cannot meet a refresh under way.
    pub fn clear(&mut self) -> (r: Result<(), EpdError>)
        ensures
            final(self).dialect() == old(self).dialect(),
            follows(
                r is Ok,
                old(self).issued(),
                final(self).issued(),
                clear_ops(old(self).dialect(), EPD_PLANE_BYTES as nat),
            ),
    {
        let ghost before = self.issued();
        let ghost white = solid_plane(EPD_PLANE_BYTES as nat, 0xFF);
        let ghost none = solid_plane(EPD_PLANE_BYTES as nat, 0x00);
        let ghost shown = display_ops(self.dialect(), white, none);
        let ghost whole = clear_ops(self.dialect(), EPD_PLANE_BYTES as nat);
        let black_buffer: Vec<u8> = vec![0xFFu8; EPD_PLANE_BYTES];
        let red_buffer: Vec<u8> = vec![0x00u8; EPD_PLANE_BYTES];
        assert(black_buffer@.take(EPD_PLANE_BYTES as int) =~= white);
        assert(red_buffer@.take(EPD_PLANE_BYTES as int) =~= none);
        match self.display(black_buffer.as_slice(), red_buffer.as_slice()) {
            Ok(()) => {},
            Err(e) => {
                proof {
                    let done = Seq::<Op>::empty();
                    assert(before =~= before + done);
                    assert((done + shown).is_prefix_of(whole));
                    lemma_breaks_off_within(before, before, self.issued(), done, shown, whole);
                }
                return Err(e);
            },
        }
        let ghost mid = self.issued();
        match self.read_busy() {
            Ok(_) => {},
            Err(e) => {
                proof {
                    lemma_breaks_off_single(mid, Op::WaitBusy);
                    assert((shown + seq![Op::WaitBusy]).is_prefix_of(whole));
                    lemma_breaks_off_within(
                        before,
                        mid,
                        self.issued(),
                        shown,
                        seq![Op::WaitBusy],
                        whole,
                    );
                }
                return Err(e);
            },
        }
        assert(self.issued() =~= before + whole);
        Ok(())
    }

    /// Puts the controller into deep sleep, for a shutdown after which the
    /// image need not last.
    pub fn sleep(&mut self) -> (r: Result<(), EpdError>)
        ensures
            final(self).dialect() == old(self).dialect(),
            follows(r is Ok, old(self).issued(), final(self).issued(), sleep_ops()),
    {
        let ops = sleep_sequence();
        self.run(&ops)
    }

    /// Powers the panel off and puts the controller into the deep sleep in
    /// which the panel keeps its image without power. A later `init` or
    /// `clear` wipes that image.
    pub fn power_off_and_deep_sleep(&mut self) -> (r: Result<(), EpdError>)
        ensures
            final(self).dialect() == old(self).dialect(),
            follows(r is Ok, old(self).issued(), final(self).issued(), power_off_ops()),
    {
        let ops = power_off_sequence();
        self.run(&ops)
    }
}

} // verus!
