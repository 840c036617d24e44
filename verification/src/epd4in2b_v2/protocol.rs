use super::dialect::Dialect;
use vstd::prelude::*;

verus! {

/// Panel width in pixels.
pub const EPD_WIDTH: u32 = 400;

/// Panel height in pixels.
pub const EPD_HEIGHT: u32 = 300;

/// Bytes of one plane of the panel.
pub const EPD_PLANE_BYTES: usize = 15000;

/// Time between two looks at the BUSY line, in milliseconds.
pub const BUSY_POLL_MS: u32 = 10;

/// Pauses that a wait for the BUSY line may make before the driver gives
/// up after one more.
pub const BUSY_MAX_WAITS: u32 = 500;

/// One step of the conversation with the controller.
#[derive(Clone, Copy, Debug, PartialEq, Eq, Structural)]
pub enum Op {
    /// Drive the reset line high (`true`) or low (`false`).
    ResetLine(bool),
    /// Let so many milliseconds pass.
    Delay(u32),
    /// Send one byte as a command: select line low, device selected for
    /// the byte.
    Command(u8),
    /// Send one byte as data: select line high, device selected for the
    /// byte.
    Data(u8),
    /// Try to read one byte as data. A failed read is passed over.
    ReadData,
    /// Wait until the BUSY line leaves its busy level, or for the longest
    /// time a wait may take.
    WaitBusy,
}

/// The reset pulse: high, low and high again, with the time the controller
/// needs after each edge.
pub open spec fn reset_ops() -> Seq<Op> {
    seq![
        Op::ResetLine(true),
        Op::Delay(200),
        Op::ResetLine(false),
        Op::Delay(2),
        Op::ResetLine(true),
        Op::Delay(200),
    ]
}

/// The question for the controller's revision, and the attempt to read the
/// answer.
pub open spec fn probe_ops() -> Seq<Op> {
    seq![Op::Command(0x2F), Op::Delay(50), Op::ReadData, Op::Delay(50)]
}

/// Sets both RAM address counters to the origin.
pub open spec fn home_ops() -> Seq<Op> {
    seq![Op::Command(0x4E), Op::Data(0x00), Op::Command(0x4F), Op::Data(0x00), Op::Data(0x00)]
}

/// Sizes for which the RAM window fits its parameter bytes: one byte for
/// the last column group, two for the last row.
pub open spec fn geometry_ok(width: nat, height: nat) -> bool {
    8 <= width < 2056 && 1 <= height <= 65536
}

/// The last column group of the RAM window.
pub open spec fn x_end(width: nat) -> u8
    recommends
        8 <= width < 2056,
{
    (width / 8 - 1) as u8
}

/// Low byte of the last row of the RAM window.
pub open spec fn y_end_low(height: nat) -> u8
    recommends
        1 <= height <= 65536,
{
    ((height - 1) % 256) as u8
}

/// High byte of the last row of the RAM window.
pub open spec fn y_end_high(height: nat) -> u8
    recommends
        1 <= height <= 65536,
{
    ((height - 1) / 256) as u8
}

/// Sets the RAM window to the whole panel.
pub open spec fn window_ops(width: nat, height: nat) -> Seq<Op> {
    seq![
        Op::Command(0x44),
        Op::Data(0x00),
        Op::Data(x_end(width)),
        Op::Command(0x45),
        Op::Data(0x00),
        Op::Data(0x00),
        Op::Data(y_end_low(height)),
        Op::Data(y_end_high(height)),
    ]
}

/// What follows reset and probe when the controller is initialised. A
/// revision with a power-on command gets that command and a wait. The
/// others get a software reset and a wait, border waveform, temperature
/// sensor, data entry mode, the RAM window, the address counters at the
/// origin, and a last wait.
pub open spec fn setup_ops(dialect: Dialect, width: nat, height: nat) -> Seq<Op> {
    match dialect.commands().power_on {
        Some(command) => seq![Op::Command(command), Op::WaitBusy],
        None => seq![
            Op::Command(0x12),
            Op::WaitBusy,
            Op::Command(0x3C),
            Op::Data(0x05),
            Op::Command(0x18),
            Op::Data(0x80),
            Op::Command(0x11),
            Op::Data(0x03),
        ] + window_ops(width, height) + home_ops() + seq![Op::WaitBusy],
    }
}

/// Initialisation: reset, probe, setup.
pub open spec fn init_ops(dialect: Dialect, width: nat, height: nat) -> Seq<Op> {
    reset_ops() + probe_ops() + setup_ops(dialect, width, height)
}

/// Starts a refresh and waits for its end.
pub open spec fn refresh_ops(dialect: Dialect) -> Seq<Op> {
    let set = dialect.commands();
    match set.activation {
        Some(setting) => seq![
            Op::Command(setting.command),
            Op::Data(setting.parameter),
            Op::Command(set.refresh),
            Op::WaitBusy,
        ],
        None => seq![Op::Command(set.refresh), Op::WaitBusy],
    }
}

/// Each byte as one data step.
pub open spec fn data_ops(bytes: Seq<u8>) -> Seq<Op> {
    Seq::new(bytes.len(), |i: int| Op::Data(bytes[i]))
}

/// Each byte with all its bits inverted.
pub open spec fn complement(bytes: Seq<u8>) -> Seq<u8> {
    Seq::new(bytes.len(), |i: int| !bytes[i])
}

/// Sends one frame to the controller's RAM: address counters at the origin,
/// the black plane as it is, the red plane with every bit inverted.
pub open spec fn transfer_ops(dialect: Dialect, black: Seq<u8>, red: Seq<u8>) -> Seq<Op> {
    home_ops() + seq![Op::Command(dialect.commands().black_write)] + data_ops(black)
        + seq![Op::Command(dialect.commands().red_write)] + data_ops(complement(red))
}

/// Sends one frame and refreshes the panel from it.
pub open spec fn display_ops(dialect: Dialect, black: Seq<u8>, red: Seq<u8>) -> Seq<Op> {
    transfer_ops(dialect, black, red) + refresh_ops(dialect)
}

/// A plane of `len` bytes that all equal `byte`.
pub open spec fn solid_plane(len: nat, byte: u8) -> Seq<u8> {
    Seq::new(len, |i: int| byte)
}

/// Shows a white frame of `len` bytes a plane, and waits once more for the
/// controller before anything else may be written.
pub open spec fn clear_ops(dialect: Dialect, len: nat) -> Seq<Op> {
    display_ops(dialect, solid_plane(len, 0xFF), solid_plane(len, 0x00)) + seq![Op::WaitBusy]
}

/// Deep sleep for an ordinary shutdown.
pub open spec fn sleep_ops() -> Seq<Op> {
    seq![Op::Command(0x10), Op::Data(0x03), Op::Delay(2000)]
}

/// The shutdown after which the panel keeps its image without power:
/// power off, wait, deep sleep with mode 1, wait.
pub open spec fn power_off_ops() -> Seq<Op> {
    seq![Op::Command(0x02), Op::WaitBusy, Op::Command(0x10), Op::Data(0x01), Op::WaitBusy]
}

/// The steps of `reset_ops`.
pub fn reset_sequence() -> (ops: Vec<Op>)
    ensures
        ops@ == reset_ops(),
{
    let ops = vec![
        Op::ResetLine(true),
        Op::Delay(200),
        Op::ResetLine(false),
        Op::Delay(2),
        Op::ResetLine(true),
        Op::Delay(200),
    ];
    assert(ops@ =~= reset_ops());
    ops
}

/// The steps of `init_ops`.
pub fn init_sequence(dialect: Dialect, width: u32, height: u32) -> (ops: Vec<Op>)
    requires
        geometry_ok(width as nat, height as nat),
    ensures
        ops@ == init_ops(dialect, width as nat, height as nat),
{
    let mut ops = vec![
        Op::ResetLine(true),
        Op::Delay(200),
        Op::ResetLine(false),
        Op::Delay(2),
        Op::ResetLine(true),
        Op::Delay(200),
        Op::Command(0x2F),
        Op::Delay(50),
        Op::ReadData,
        Op::Delay(50),
    ];
    assert(ops@ =~= reset_ops() + probe_ops());
    match dialect.command_set().power_on {
        Some(command) => {
            ops.push(Op::Command(command));
            ops.push(Op::WaitBusy);
        },
        None => {
            ops.push(Op::Command(0x12));
            ops.push(Op::WaitBusy);
            ops.push(Op::Command(0x3C));
            ops.push(Op::Data(0x05));
            ops.push(Op::Command(0x18));
            ops.push(Op::Data(0x80));
            ops.push(Op::Command(0x11));
            ops.push(Op::Data(0x03));
            ops.push(Op::Command(0x44));
            ops.push(Op::Data(0x00));
            ops.push(Op::Data((width / 8 - 1) as u8));
            ops.push(Op::Command(0x45));
            ops.push(Op::Data(0x00));
            ops.push(Op::Data(0x00));
            ops.push(Op::Data(((height - 1) % 256) as u8));
            ops.push(Op::Data(((height - 1) / 256) as u8));
            ops.push(Op::Command(0x4E));
            ops.push(Op::Data(0x00));
            ops.push(Op::Command(0x4F));
            ops.push(Op::Data(0x00));
            ops.push(Op::Data(0x00));
            ops.push(Op::WaitBusy);
        },
    }
    assert(ops@ =~= init_ops(dialect, width as nat, height as nat));
    ops
}

/// The steps of `refresh_ops`.
pub fn refresh_sequence(dialect: Dialect) -> (ops: Vec<Op>)
    ensures
        ops@ == refresh_ops(dialect),
{
    let set = dialect.command_set();
    let mut ops: Vec<Op> = Vec::new();
    match set.activation {
        Some(setting) => {
            ops.push(Op::Command(setting.command));
            ops.push(Op::Data(setting.parameter));
        },
        None => {},
    }
    ops.push(Op::Command(set.refresh));
    ops.push(Op::WaitBusy);
    assert(ops@ =~= refresh_ops(dialect));
    ops
}

/// The steps of `sleep_ops`.
pub fn sleep_sequence() -> (ops: Vec<Op>)
    ensures
        ops@ == sleep_ops(),
{
    let ops = vec![Op::Command(0x10), Op::Data(0x03), Op::Delay(2000)];
    assert(ops@ =~= sleep_ops());
    ops
}

/// The steps of `power_off_ops`.
pub fn power_off_sequence() -> (ops: Vec<Op>)
    ensures
        ops@ == power_off_ops(),
{
    let ops = vec![
        Op::Command(0x02),
        Op::WaitBusy,
        Op::Command(0x10),
        Op::Data(0x01),
        Op::WaitBusy,
    ];
    assert(ops@ =~= power_off_ops());
    ops
}

/// The step at place `i` of a list of steps, if it has one there.
pub open spec fn step_at(ops: Seq<Op>, i: int) -> Option<Op> {
    if 0 <= i < ops.len() {
        Some(ops[i])
    } else {
        None
    }
}

/// The step at place `i` of `display_ops` for the first `len` bytes of each
/// plane, if there is one: the driver asks for one step after the other
/// until there is none.
pub fn display_step(dialect: Dialect, black: &[u8], red: &[u8], len: usize, i: usize) -> (step:
    Option<Op>)
    requires
        black@.len() >= len,
        red@.len() >= len,
        2 * len + 11 <= usize::MAX,
    ensures
        step == step_at(
            display_ops(dialect, black@.take(len as int), red@.take(len as int)),
            i as int,
        ),
{
    let set = dialect.command_set();
    proof {
        lemma_display_layout(dialect, black@.take(len as int), red@.take(len as int));
    }
    let ghost ops = display_ops(dialect, black@.take(len as int), red@.take(len as int));
    if i < 5 {
        assert(ops[i as int] == ops.subrange(0, 5)[i as int]);
        if i == 0 {
            Some(Op::Command(0x4E))
        } else if i == 2 {
            Some(Op::Command(0x4F))
        } else {
            Some(Op::Data(0x00))
        }
    } else if i == 5 {
        Some(Op::Command(set.black_write))
    } else if i < 6 + len {
        assert(ops[6 + (i - 6)] == Op::Data(black@.take(len as int)[i - 6]));
        Some(Op::Data(black[i - 6]))
    } else if i == 6 + len {
        Some(Op::Command(set.red_write))
    } else if i < 7 + 2 * len {
        assert(ops[7 + len + (i - 7 - len)] == Op::Data(!red@.take(len as int)[i - 7 - len]));
        Some(Op::Data(!red[i - 7 - len]))
    } else {
        let rest: usize = i - 7 - 2 * len;
        let ghost tail = ops.subrange(7 + 2 * len, ops.len() as int);
        assert(rest < tail.len() ==> ops[i as int] == tail[rest as int]);
        match set.activation {
            Some(setting) => {
                if rest == 0 {
                    Some(Op::Command(setting.command))
                } else if rest == 1 {
                    Some(Op::Data(setting.parameter))
                } else if rest == 2 {
                    Some(Op::Command(set.refresh))
                } else if rest == 3 {
                    Some(Op::WaitBusy)
                } else {
                    None
                }
            },
            None => {
                if rest == 0 {
                    Some(Op::Command(set.refresh))
                } else if rest == 1 {
                    Some(Op::WaitBusy)
                } else {
                    None
                }
            },
        }
    }
}

/// What a look at the BUSY line leads to.
#[derive(Clone, Copy, Debug, PartialEq, Eq, Structural)]
pub enum PollStep {
    /// The controller is ready: the wait is over.
    Ready,
    /// The controller is busy: pause, then look again.
    Retry,
    /// The controller is busy and has been for the longest time a wait may
    /// take: pause, then go on as if it were ready.
    GiveUp,
}

/// What a look at the BUSY line leads to, where the look found the line at
/// `level` after `waits` pauses.
pub open spec fn poll_step(dialect: Dialect, level: bool, waits: nat) -> PollStep {
    if level != dialect.commands().busy_level {
        PollStep::Ready
    } else if waits < BUSY_MAX_WAITS {
        PollStep::Retry
    } else {
        PollStep::GiveUp
    }
}

/// Decides how a wait for the controller goes on after a look at the BUSY
/// line.
pub fn after_poll(dialect: Dialect, level: bool, waits: u32) -> (step: PollStep)
    ensures
        step == poll_step(dialect, level, waits as nat),
{
    if level != dialect.command_set().busy_level {
        PollStep::Ready
    } else if waits < BUSY_MAX_WAITS {
        PollStep::Retry
    } else {
        PollStep::GiveUp
    }
}

/// The frame that `display` sends has the black plane's bytes and the red
/// plane's complements, each plane after its write command and in its own
/// order, between the homing of the address counters and the refresh.
pub proof fn lemma_display_layout(dialect: Dialect, black: Seq<u8>, red: Seq<u8>)
    ensures
        display_ops(dialect, black, red).len() == 7 + black.len() + red.len() + refresh_ops(
            dialect,
        ).len(),
        display_ops(dialect, black, red).subrange(0, 5) == home_ops(),
        display_ops(dialect, black, red)[5] == Op::Command(dialect.commands().black_write),
        forall|i: int|
            0 <= i < black.len() ==> #[trigger] display_ops(dialect, black, red)[6 + i]
                == Op::Data(black[i]),
        display_ops(dialect, black, red)[6 + black.len() as int] == Op::Command(
            dialect.commands().red_write,
        ),
        forall|i: int|
            0 <= i < red.len() ==> #[trigger] display_ops(dialect, black, red)[7 + black.len() + i]
                == Op::Data(!red[i]),
        display_ops(dialect, black, red).subrange(
            7 + black.len() as int + red.len() as int,
            display_ops(dialect, black, red).len() as int,
        ) == refresh_ops(dialect),
{
    let ops = display_ops(dialect, black, red);
    assert(ops.subrange(0, 5) =~= home_ops());
    assert(ops.subrange(7 + black.len() as int + red.len() as int, ops.len() as int) =~= refresh_ops(dialect));
}

/// Inverting a red-plane byte turns `0b1011_0000` into `0b0100_1111`.
pub proof fn lemma_complement_example()
    ensures
        !0b1011_0000u8 == 0b0100_1111u8,
        complement(seq![0b1011_0000u8]) == seq![0b0100_1111u8],
{
    assert(!0b1011_0000u8 == 0b0100_1111u8) by (bit_vector);
    assert(complement(seq![0b1011_0000u8]) =~= seq![0b0100_1111u8]);
}

/// On the 400 by 300 panel the RAM window ends at column group 49 and at
/// row 299, sent as low byte `0x2B` and high byte `0x01`.
pub proof fn lemma_window_of_panel()
    ensures
        window_ops(400, 300) == seq![
            Op::Command(0x44),
            Op::Data(0x00),
            Op::Data(0x31),
            Op::Command(0x45),
            Op::Data(0x00),
            Op::Data(0x00),
            Op::Data(0x2B),
            Op::Data(0x01),
        ],
        init_ops(Dialect::New, 400, 300).subrange(18, 26) == window_ops(400, 300),
{
    assert(init_ops(Dialect::New, 400, 300).subrange(18, 26) =~= window_ops(400, 300));
}

} // verus!
