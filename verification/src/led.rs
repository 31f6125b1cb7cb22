//! The keyboard LEDs: which packets a command sends, and which it saves.
//!
//! A command is carried out in steps. [`LedWriter::do_command`] starts it; each
//! step lists the actions to perform, in order, and then either finishes or asks
//! for one thing that the aura protocol knows. The answer goes to
//! [`LedWriter::resume`]. How a single write ends does not change what follows.

use crate::bytes::has_byte;
use crate::config::Config;
use vstd::prelude::*;
use vstd::pervasive::unreached;
use vstd::slice::slice_to_vec;

verus! {

pub const LED_INIT1: [u8; 2] = [0x5d, 0xb9];

/// `]ASUS Tech.Inc.`; the first character is 0x5d.
pub const LED_INIT2: [u8; 15] = [
    0x5d, 0x41, 0x53, 0x55, 0x53, 0x20, 0x54, 0x65, 0x63, 0x68, 0x2e, 0x49, 0x6e, 0x63, 0x2e,
];

pub const LED_INIT3: [u8; 6] = [0x5d, 0x05, 0x20, 0x31, 0, 0x08];

/// `^ASUS Tech.Inc.`; the first character is 0x5e.
pub const LED_INIT4: [u8; 15] = [
    0x5e, 0x41, 0x53, 0x55, 0x53, 0x20, 0x54, 0x65, 0x63, 0x68, 0x2e, 0x49, 0x6e, 0x63, 0x2e,
];

pub const LED_INIT5: [u8; 6] = [0x5e, 0x05, 0x20, 0x31, 0, 0x08];

// Only these two packets must be 17 bytes
pub const LED_APPLY: [u8; 17] = [0x5d, 0xb4, 0, 0, 0, 0, 0, 0, 0, 0, 0, 0, 0, 0, 0, 0, 0];

pub const LED_SET: [u8; 17] = [0x5d, 0xb5, 0, 0, 0, 0, 0, 0, 0, 0, 0, 0, 0, 0, 0, 0, 0];

/// How long a write of one packet may take, in milliseconds.
pub const WRITE_TIMEOUT_MS: u64 = 5;

/// How long a write of one row of an effect may take, in milliseconds.
pub const EFFECT_TIMEOUT_MS: u64 = 1;

/// Second byte of a packet that belongs to an effect.
pub const EFFECT_PACKET: u8 = 0xbc;

/// Second byte of a packet that sets the brightness.
pub const BRIGHTNESS_PACKET: u8 = 0xba;

/// What the LEDs can be asked to do.
#[derive(Debug, PartialEq, Eq)]
pub enum AuraCommand {
    BrightInc,
    BrightDec,
    BuiltinNext,
    BuiltinPrev,
    WriteBytes(Vec<u8>),
    WriteEffect(Vec<Vec<u8>>),
    ReloadLast,
}

/// Why a command was refused.
#[derive(Clone, Copy, Debug, PartialEq, Eq, Structural)]
pub enum AuraError {
    NotSupported,
}

/// The packets that bring up the LEDs, in their order.
#[derive(Clone, Copy, Debug, PartialEq, Eq, Structural)]
pub enum SetupSequence {
    /// `LED_INIT1` to `LED_INIT5`, one after the other.
    Common,
    /// What the GX502GW gets: `LED_INIT1`, `LED_INIT3`, `LED_INIT4`,
    /// `LED_INIT2` and `LED_INIT4` again.
    Gx502gw,
}

/// A way through the supported modes.
#[derive(Clone, Copy, Debug, PartialEq, Eq, Structural)]
pub enum Direction {
    Next,
    Prev,
}

/// One thing to do to the device or to the settings. `B` is `Vec<u8>` in code
/// and `Seq<u8>` in contracts, here and in the types below.
#[derive(Debug, PartialEq, Eq)]
pub enum LedAction<B> {
    /// Write the message to the endpoint's interrupt.
    Write { endpoint: u8, message: B, timeout_ms: u64 },
    /// Take over into the settings what the packet sets, and write them out.
    Save { bytes: B },
}

/// What only the aura protocol knows.
#[derive(Clone, Copy, Debug, PartialEq, Eq, Structural)]
pub enum LedQuery {
    /// The mode, as its byte, that a byte of a packet names.
    Mode(u8),
    /// The packet that sets a brightness.
    BrightnessBytes(u8),
    /// The packet that the settings hold for the mode of the given byte.
    BuiltinBytes(u8),
}

/// The answer to a query.
#[derive(Debug, PartialEq, Eq)]
pub enum LedAnswer<B> {
    Mode(u8),
    Packet(B),
}

/// What the answer to a query is for.
#[derive(Debug, PartialEq, Eq)]
pub enum LedPending<B> {
    /// The mode in use, from which to go on to the next or the previous one.
    CurrentMode(Direction),
    /// A packet to set and save.
    Packet,
    /// The mode of a packet to set and save.
    PacketMode(B),
    /// The packet of the mode in use, to set and save once more.
    Reload,
}

/// How a step ends.
#[derive(Debug, PartialEq, Eq)]
pub enum LedNext<B> {
    /// The command is over.
    Finished(Result<(), AuraError>),
    /// An answer is needed to go on.
    Ask { query: LedQuery, pending: LedPending<B> },
}

/// One step of a command.
#[derive(Debug, PartialEq, Eq)]
pub struct LedStep {
    pub actions: Vec<LedAction<Vec<u8>>>,
    pub next: LedNext<Vec<u8>>,
}

/// An action as contracts see it.
pub type LedOp = LedAction<Seq<u8>>;

/// A step as contracts see it.
pub ghost struct LedStepModel {
    pub ops: Seq<LedOp>,
    pub next: LedNext<Seq<u8>>,
}

/// What a writer knows, as contracts see it.
pub ghost struct LedModel {
    pub endpoint: u8,
    pub bright_min: u8,
    pub bright_max: u8,
    pub modes: Seq<u8>,
    pub setup: SetupSequence,
    pub initialised: bool,
}

impl View for LedAction<Vec<u8>> {
    type V = LedAction<Seq<u8>>;

    open spec fn view(&self) -> LedAction<Seq<u8>> {
        match *self {
            LedAction::Write { endpoint, message, timeout_ms } => LedAction::Write {
                endpoint,
                message: message@,
                timeout_ms,
            },
            LedAction::Save { bytes } => LedAction::Save { bytes: bytes@ },
        }
    }
}

impl View for LedAnswer<Vec<u8>> {
    type V = LedAnswer<Seq<u8>>;

    open spec fn view(&self) -> LedAnswer<Seq<u8>> {
        match *self {
            LedAnswer::Mode(mode) => LedAnswer::Mode(mode),
            LedAnswer::Packet(bytes) => LedAnswer::Packet(bytes@),
        }
    }
}

impl View for LedPending<Vec<u8>> {
    type V = LedPending<Seq<u8>>;

    open spec fn view(&self) -> LedPending<Seq<u8>> {
        match *self {
            LedPending::CurrentMode(direction) => LedPending::CurrentMode(direction),
            LedPending::Packet => LedPending::Packet,
            LedPending::PacketMode(bytes) => LedPending::PacketMode(bytes@),
            LedPending::Reload => LedPending::Reload,
        }
    }
}

impl View for LedNext<Vec<u8>> {
    type V = LedNext<Seq<u8>>;

    open spec fn view(&self) -> LedNext<Seq<u8>> {
        match *self {
            LedNext::Finished(result) => LedNext::Finished(result),
            LedNext::Ask { query, pending } => LedNext::Ask { query, pending: pending@ },
        }
    }
}

/// The actions as contracts see them.
pub open spec fn ops(actions: Seq<LedAction<Vec<u8>>>) -> Seq<LedOp> {
    Seq::new(actions.len(), |i: int| actions[i]@)
}

/// The contents of a list of byte strings.
pub open spec fn contents(rows: Seq<Vec<u8>>) -> Seq<Seq<u8>> {
    Seq::new(rows.len(), |i: int| rows[i]@)
}

impl View for LedStep {
    type V = LedStepModel;

    open spec fn view(&self) -> LedStepModel {
        LedStepModel { ops: ops(self.actions@), next: self.next@ }
    }
}

/// The write of one packet.
pub open spec fn write_op(m: LedModel, message: Seq<u8>) -> LedOp {
    LedAction::Write { endpoint: m.endpoint, message, timeout_ms: WRITE_TIMEOUT_MS }
}

/// The packets that a device gets before its first command.
pub open spec fn init_ops(m: LedModel) -> Seq<LedOp> {
    match m.setup {
        SetupSequence::Common => seq![
            write_op(m, LED_INIT1@),
            write_op(m, LED_INIT2@),
            write_op(m, LED_INIT3@),
            write_op(m, LED_INIT4@),
            write_op(m, LED_INIT5@),
        ],
        SetupSequence::Gx502gw => seq![
            write_op(m, LED_INIT1@),
            write_op(m, LED_INIT3@),
            write_op(m, LED_INIT4@),
            write_op(m, LED_INIT2@),
            write_op(m, LED_INIT4@),
        ],
    }
}

/// What a command sends before anything else.
pub open spec fn startup_ops(m: LedModel) -> Seq<LedOp> {
    if m.initialised {
        seq![]
    } else {
        init_ops(m)
    }
}

/// What a writer knows once a command was started: the device is up.
pub open spec fn model_after(m: LedModel) -> LedModel {
    LedModel { initialised: true, ..m }
}

/// Each message followed by a set packet.
pub open spec fn message_ops(m: LedModel, messages: Seq<Seq<u8>>) -> Seq<LedOp> {
    Seq::new(
        2 * messages.len(),
        |i: int|
            if i % 2 == 0 {
                write_op(m, messages[i / 2])
            } else {
                write_op(m, LED_SET@)
            },
    )
}

/// Each message followed by a set packet, and one apply packet at the end.
pub open spec fn array_ops(m: LedModel, messages: Seq<Seq<u8>>) -> Seq<LedOp> {
    message_ops(m, messages).push(write_op(m, LED_APPLY@))
}

/// A packet that is written, set, applied and saved.
pub open spec fn saved_ops(m: LedModel, bytes: Seq<u8>) -> Seq<LedOp> {
    array_ops(m, seq![bytes]).push(LedAction::Save { bytes })
}

/// The rows of an effect, each written by itself.
pub open spec fn effect_ops(m: LedModel, rows: Seq<Seq<u8>>) -> Seq<LedOp> {
    Seq::new(
        rows.len(),
        |i: int|
            LedAction::Write {
                endpoint: m.endpoint,
                message: rows[i],
                timeout_ms: EFFECT_TIMEOUT_MS,
            },
    )
}

/// What the start of a command does besides bringing up the device: an effect is
/// written at once, everything else waits for an answer.
pub open spec fn own_ops(m: LedModel, command: AuraCommand) -> Seq<LedOp> {
    match command {
        AuraCommand::WriteEffect(rows) => effect_ops(m, contents(rows@)),
        _ => seq![],
    }
}

/// What setting and saving a packet of the given mode does: a packet of an
/// effect is only written; one of a supported mode, or one that sets the
/// brightness, is written, set, applied and saved; any other is refused.
pub open spec fn set_and_save_ops(m: LedModel, bytes: Seq<u8>, mode: u8) -> Result<
    Seq<LedOp>,
    AuraError,
> {
    if bytes[1] == EFFECT_PACKET {
        Ok(seq![write_op(m, bytes)])
    } else if m.modes.contains(mode) || bytes[1] == BRIGHTNESS_PACKET {
        Ok(saved_ops(m, bytes))
    } else {
        Err(AuraError::NotSupported)
    }
}

/// A step that ends the command.
pub open spec fn finished(ops: Seq<LedOp>, result: Result<(), AuraError>) -> LedStepModel {
    LedStepModel { ops, next: LedNext::Finished(result) }
}

/// A step that needs an answer.
pub open spec fn asking(
    ops: Seq<LedOp>,
    query: LedQuery,
    pending: LedPending<Seq<u8>>,
) -> LedStepModel {
    LedStepModel { ops, next: LedNext::Ask { query, pending } }
}

/// The index after or before `i` in a list of `len` entries, where the last
/// and the first are neighbours too.
pub open spec fn neighbour(i: int, len: int, direction: Direction) -> int {
    match direction {
        Direction::Next => if i < len - 1 {
            i + 1
        } else {
            0
        },
        Direction::Prev => if i > 0 {
            i - 1
        } else {
            len - 1
        },
    }
}

/// The bytes never decrease.
pub open spec fn sorted(s: Seq<u8>) -> bool {
    forall|i: int, j: int| 0 <= i <= j < s.len() ==> s[i] <= s[j]
}

/// The inputs on which a command can be started: the bytes that it looks at
/// are there.
pub open spec fn startable(command: AuraCommand, config: Config) -> bool {
    match command {
        AuraCommand::BuiltinNext | AuraCommand::BuiltinPrev | AuraCommand::ReloadLast =>
            config.current_mode@.len() > 3,
        AuraCommand::WriteBytes(bytes) => bytes@.len() > 3,
        _ => true,
    }
}

/// The brightness after a command was started.
pub open spec fn brightness_after(m: LedModel, command: AuraCommand, brightness: u8) -> u8 {
    match command {
        AuraCommand::BrightInc if brightness < m.bright_max => (brightness + 1) as u8,
        AuraCommand::BrightDec if brightness > m.bright_min => (brightness - 1) as u8,
        _ => brightness,
    }
}

/// The first step of a command.
pub open spec fn first_step(
    m: LedModel,
    command: AuraCommand,
    config: Config,
) -> LedStepModel {
    let start = startup_ops(m);
    let brightness = brightness_after(m, command, config.brightness);
    match command {
        AuraCommand::BrightInc | AuraCommand::BrightDec => if brightness != config.brightness {
            asking(start, LedQuery::BrightnessBytes(brightness), LedPending::Packet)
        } else {
            finished(start, Ok(()))
        },
        AuraCommand::BuiltinNext => asking(
            start,
            LedQuery::Mode(config.current_mode@[3]),
            LedPending::CurrentMode(Direction::Next),
        ),
        AuraCommand::BuiltinPrev => asking(
            start,
            LedQuery::Mode(config.current_mode@[3]),
            LedPending::CurrentMode(Direction::Prev),
        ),
        AuraCommand::WriteBytes(bytes) => asking(
            start,
            LedQuery::Mode(bytes@[3]),
            LedPending::PacketMode(bytes@),
        ),
        AuraCommand::WriteEffect(rows) => finished(
            start + effect_ops(m, contents(rows@)),
            Ok(()),
        ),
        AuraCommand::ReloadLast => asking(
            start,
            LedQuery::BuiltinBytes(config.current_mode@[3]),
            LedPending::Reload,
        ),
    }
}

/// The inputs on which a command can go on: the answer is of the kind that
/// was asked for, a packet to set is long enough to name its mode, and the
/// mode in use can be looked up among the supported ones.
pub open spec fn resumable(
    m: LedModel,
    pending: LedPending<Seq<u8>>,
    answer: LedAnswer<Seq<u8>>,
) -> bool {
    match (pending, answer) {
        (LedPending::CurrentMode(_), LedAnswer::Mode(mode)) => sorted(m.modes) && m.modes.contains(
            mode,
        ),
        (LedPending::Packet, LedAnswer::Packet(bytes)) => bytes.len() > 3,
        (LedPending::PacketMode(bytes), LedAnswer::Mode(_)) => bytes.len() > 3,
        (LedPending::Reload, LedAnswer::Packet(_)) => true,
        _ => false,
    }
}

/// The step that selects the mode at an index.
pub open spec fn builtin_step(m: LedModel, index: int) -> LedStepModel {
    asking(seq![], LedQuery::BuiltinBytes(m.modes[index]), LedPending::Packet)
}

/// The step that sets and saves a packet of the given mode.
pub open spec fn save_step(m: LedModel, bytes: Seq<u8>, mode: u8) -> LedStepModel {
    match set_and_save_ops(m, bytes, mode) {
        Ok(ops) => finished(ops, Ok(())),
        Err(e) => finished(seq![], Err(e)),
    }
}

/// `step` is what an answer leads to. Where the mode in use stands more than
/// once among the supported ones, any of its places may be the one that was
/// found.
pub open spec fn follows(
    m: LedModel,
    pending: LedPending<Seq<u8>>,
    answer: LedAnswer<Seq<u8>>,
    step: LedStepModel,
) -> bool {
    match (pending, answer) {
        (LedPending::CurrentMode(direction), LedAnswer::Mode(mode)) => exists|i: int|
            0 <= i < m.modes.len() && #[trigger] m.modes[i] == mode && step == builtin_step(
                m,
                neighbour(i, m.modes.len() as int, direction),
            ),
        (LedPending::Packet, LedAnswer::Packet(bytes)) => step == asking(
            seq![],
            LedQuery::Mode(bytes[3]),
            LedPending::PacketMode(bytes),
        ),
        (LedPending::PacketMode(bytes), LedAnswer::Mode(mode)) => step == save_step(m, bytes, mode),
        (LedPending::Reload, LedAnswer::Packet(bytes)) => step == finished(
            saved_ops(m, bytes),
            Ok(()),
        ),
        _ => false,
    }
}

/// `slice::binary_search` on bytes in order: it finds a place of the byte, any
/// one of them where there are more, or says that there is none and where the
/// byte would belong.
#[verifier::external_body]
fn binary_search(bytes: &[u8], byte: u8) -> (found: Result<usize, usize>)
    requires
        sorted(bytes@),
    ensures
        match found {
            Ok(i) => i < bytes@.len() && bytes@[i as int] == byte,
            Err(i) => {
                &&& i <= bytes@.len()
                &&& forall|j: int| 0 <= j < i ==> bytes@[j] < byte
                &&& forall|j: int| i <= j < bytes@.len() ==> bytes@[j] > byte
            },
        },
{
    bytes.binary_search(&byte)
}

/// Writes the commands for the LEDs of one device.
pub struct LedWriter {
    led_endpoint: u8,
    bright_min_max: (u8, u8),
    supported_modes: Vec<u8>,
    setup: SetupSequence,
    initialised: bool,
}

impl View for LedWriter {
    type V = LedModel;

    closed spec fn view(&self) -> LedModel {
        LedModel {
            endpoint: self.led_endpoint,
            bright_min: self.bright_min_max.0,
            bright_max: self.bright_min_max.1,
            modes: self.supported_modes@,
            setup: self.setup,
            initialised: self.initialised,
        }
    }
}

impl LedWriter {
    /// A writer for a device that has had no command yet, with the setup
    /// sequence that serves any model. The modes are given by their bytes, and
    /// their order is taken to be that of the bytes: where the next or the
    /// previous mode is asked for, the bytes have to be sorted.
    pub fn new(
        led_endpoint: u8,
        bright_min_max: (u8, u8),
        supported_modes: Vec<u8>,
    ) -> (writer: Self)
        ensures
            writer@ == (LedModel {
                endpoint: led_endpoint,
                bright_min: bright_min_max.0,
                bright_max: bright_min_max.1,
                modes: supported_modes@,
                setup: SetupSequence::Common,
                initialised: false,
            }),
    {
        LedWriter {
            led_endpoint,
            bright_min_max,
            supported_modes,
            setup: SetupSequence::Common,
            initialised: false,
        }
    }

    /// As `new`, with the setup sequence of the GX502GW.
    pub fn for_gx502gw(
        led_endpoint: u8,
        bright_min_max: (u8, u8),
        supported_modes: Vec<u8>,
    ) -> (writer: Self)
        ensures
            writer@ == (LedModel {
                endpoint: led_endpoint,
                bright_min: bright_min_max.0,
                bright_max: bright_min_max.1,
                modes: supported_modes@,
                setup: SetupSequence::Gx502gw,
                initialised: false,
            }),
    {
        LedWriter {
            led_endpoint,
            bright_min_max,
            supported_modes,
            setup: SetupSequence::Gx502gw,
            initialised: false,
        }
    }

    /// The write of one packet.
    ///
    /// Should only be used if the bytes you are writing are verified correct
    pub fn write_bytes(&self, message: &[u8]) -> (action: LedAction<Vec<u8>>)
        ensures
            action@ == write_op(self@, message@),
    {
        LedAction::Write {
            endpoint: self.led_endpoint,
            message: slice_to_vec(message),
            timeout_ms: WRITE_TIMEOUT_MS,
        }
    }

    /// Brings up the device, unless that was done before.
    pub fn initialise(&mut self) -> (actions: Vec<LedAction<Vec<u8>>>)
        ensures
            ops(actions@) == startup_ops(old(self)@),
            final(self)@ == model_after(old(self)@),
    {
        let mut actions: Vec<LedAction<Vec<u8>>> = Vec::new();
        if !self.initialised {
            match self.setup {
                SetupSequence::Common => {
                    actions.push(self.write_bytes(LED_INIT1.as_slice()));
                    actions.push(self.write_bytes(LED_INIT2.as_slice()));
                    actions.push(self.write_bytes(LED_INIT3.as_slice()));
                    actions.push(self.write_bytes(LED_INIT4.as_slice()));
                    actions.push(self.write_bytes(LED_INIT5.as_slice()));
                },
                SetupSequence::Gx502gw => {
                    actions.push(self.write_bytes(LED_INIT1.as_slice()));
                    actions.push(self.write_bytes(LED_INIT3.as_slice()));
                    actions.push(self.write_bytes(LED_INIT4.as_slice()));
                    actions.push(self.write_bytes(LED_INIT2.as_slice()));
                    actions.push(self.write_bytes(LED_INIT4.as_slice()));
                },
            }
            self.initialised = true;
        }
        assert(ops(actions@) =~= startup_ops(old(self)@));
        actions
    }

    /// Each message followed by a set packet, and then the apply packet:
    /// changes won't persist unless apply is set.
    pub fn write_array_of_bytes(&self, messages: &[&[u8]]) -> (actions: Vec<LedAction<Vec<u8>>>)
        ensures
            ops(actions@) == array_ops(
                self@,
                Seq::new(messages@.len(), |i: int| messages@[i]@),
            ),
    {
        let ghost all = Seq::new(messages@.len(), |i: int| messages@[i]@);
        let mut actions: Vec<LedAction<Vec<u8>>> = Vec::new();
        let mut i: usize = 0;
        assert(ops(actions@) =~= message_ops(self@, all.take(0)));
        while i < messages.len()
            invariant
                i <= messages@.len(),
                all == Seq::new(messages@.len(), |i: int| messages@[i]@),
                ops(actions@) == message_ops(self@, all.take(i as int)),
            decreases messages@.len() - i,
        {
            let ghost before = ops(actions@);
            actions.push(self.write_bytes(messages[i]));
            actions.push(self.write_bytes(LED_SET.as_slice()));
            assert(ops(actions@) =~= before.push(write_op(self@, all[i as int])).push(
                write_op(self@, LED_SET@),
            ));
            assert(ops(actions@) =~= message_ops(self@, all.take(i + 1)));
            i += 1;
        }
        assert(all.take(i as int) =~= all);
        let ghost before = ops(actions@);
        actions.push(self.write_bytes(LED_APPLY.as_slice()));
        assert(ops(actions@) =~= before.push(write_op(self@, LED_APPLY@)));
        actions
    }

    /// The rows of an effect block.
    ///
    /// The device has to be brought up before any effect, and only once:
    /// `initialise` does that, and `do_command` calls it.
    pub fn write_effect(&self, effect: &Vec<Vec<u8>>) -> (actions: Vec<LedAction<Vec<u8>>>)
        ensures
            ops(actions@) == effect_ops(self@, contents(effect@)),
    {
        let mut actions: Vec<LedAction<Vec<u8>>> = Vec::new();
        let mut i: usize = 0;
        while i < effect.len()
            invariant
                i <= effect@.len(),
                actions@.len() == i,
                forall|j: int|
                    0 <= j < i ==> #[trigger] actions@[j]@ == effect_ops(
                        self@,
                        contents(effect@),
                    )[j],
            decreases effect@.len() - i,
        {
            actions.push(
                LedAction::Write {
                    endpoint: self.led_endpoint,
                    message: slice_to_vec(effect[i].as_slice()),
                    timeout_ms: EFFECT_TIMEOUT_MS,
                },
            );
            i += 1;
        }
        assert(ops(actions@) =~= effect_ops(self@, contents(effect@)));
        actions
    }

    fn supports(&self, mode: u8) -> (found: bool)
        ensures
            found == self@.modes.contains(mode),
    {
        has_byte(&self.supported_modes, mode)
    }

    /// Writes, sets, applies and saves a packet.
    fn save(&self, bytes: &[u8]) -> (actions: Vec<LedAction<Vec<u8>>>)
        ensures
            ops(actions@) == saved_ops(self@, bytes@),
    {
        let messages = [bytes];
        let mut actions = self.write_array_of_bytes(messages.as_slice());
        let ghost sent = ops(actions@);
        assert(Seq::new(1, |i: int| messages@[i]@) =~= seq![bytes@]);
        actions.push(LedAction::Save { bytes: slice_to_vec(bytes) });
        assert(ops(actions@) =~= sent.push(LedAction::Save { bytes: bytes@ }));
        actions
    }

    /// Used to set a builtin mode and save the settings for it. `mode` is the
    /// mode that the fourth byte of the packet names.
    pub fn set_and_save(&self, bytes: &[u8], mode: u8) -> (actions: Result<
        Vec<LedAction<Vec<u8>>>,
        AuraError,
    >)
        requires
            bytes@.len() > 3,
        ensures
            match actions {
                Ok(actions) => set_and_save_ops(self@, bytes@, mode) == Ok::<_, AuraError>(
                    ops(actions@),
                ),
                Err(e) => set_and_save_ops(self@, bytes@, mode) == Err::<Seq<LedOp>, _>(e),
            },
    {
        // safety pass-through of possible effect write
        if bytes[1] == EFFECT_PACKET {
            let mut actions: Vec<LedAction<Vec<u8>>> = Vec::new();
            actions.push(self.write_bytes(bytes));
            assert(ops(actions@) =~= seq![write_op(self@, bytes@)]);
            Ok(actions)
        } else if self.supports(mode) || bytes[1] == BRIGHTNESS_PACKET {
            Ok(self.save(bytes))
        } else {
            Err(AuraError::NotSupported)
        }
    }

    /// Used to set a builtin mode and save the settings for it: the packet that
    /// the settings hold for the mode in use is written, set, applied and saved.
    pub fn reload_last_builtin(&self, mode: &[u8]) -> (step: LedStep)
        ensures
            step@ == finished(saved_ops(self@, mode@), Ok(())),
    {
        LedStep { actions: self.save(mode), next: LedNext::Finished(Ok(())) }
    }

    /// Selects the supported mode at an index.
    pub fn set_builtin(&self, index: usize) -> (step: LedStep)
        requires
            index < self@.modes.len(),
        ensures
            step@ == builtin_step(self@, index as int),
    {
        let actions: Vec<LedAction<Vec<u8>>> = Vec::new();
        assert(ops(actions@) =~= seq![]);
        LedStep {
            actions,
            next: LedNext::Ask {
                query: LedQuery::BuiltinBytes(self.supported_modes[index]),
                pending: LedPending::Packet,
            },
        }
    }

    /// Selects the mode next to the one in use.
    ///
    /// If the current effect is the last one then the effect selected wraps
    /// around to the first, and the other way round.
    fn step_builtin(&self, direction: Direction, mode_curr: u8) -> (step: LedStep)
        requires
            sorted(self@.modes),
            self@.modes.contains(mode_curr),
        ensures
            follows(
                self@,
                LedPending::CurrentMode(direction),
                LedAnswer::Mode(mode_curr),
                step@,
            ),
    {
        let idx: usize = match binary_search(self.supported_modes.as_slice(), mode_curr) {
            Ok(i) => i,
            Err(_) => {
                assert(self@.modes.contains(mode_curr));
                unreached()
            },
        };
        let last: usize = self.supported_modes.len() - 1;
        let idx_next: usize = match direction {
            Direction::Next => if idx < last {
                idx + 1
            } else {
                0
            },
            Direction::Prev => if idx > 0 {
                idx - 1
            } else {
                last
            },
        };
        assert(self@.modes[idx as int] == mode_curr);
        self.set_builtin(idx_next)
    }

    /// The supported modes are in order.
    fn has_sorted_modes(&self) -> (in_order: bool)
        ensures
            in_order == sorted(self@.modes),
    {
        if self.supported_modes.len() == 0 {
            return true;
        }
        let mut i: usize = 1;
        while i < self.supported_modes.len()
            invariant
                1 <= i <= self.supported_modes@.len(),
                sorted(self.supported_modes@.take(i as int)),
            decreases self.supported_modes@.len() - i,
        {
            if self.supported_modes[i - 1] > self.supported_modes[i] {
                assert(self@.modes[i - 1] > self@.modes[i as int]);
                return false;
            }
            proof {
                let done = self.supported_modes@.take(i as int);
                let more = self.supported_modes@.take(i + 1);
                assert forall|a: int, b: int| 0 <= a <= b < more.len() implies more[a] <= more[b] by {
                    if b == i && a < i {
                        assert(done[a] <= done[i - 1]);
                    } else if b < i {
                        assert(done[a] <= done[b]);
                    }
                }
            }
            i += 1;
        }
        assert(self.supported_modes@.take(i as int) =~= self.supported_modes@);
        true
    }

    /// The command can be started.
    pub fn can_start(command: &AuraCommand, config: &Config) -> (possible: bool)
        ensures
            possible == startable(*command, *config),
    {
        match command {
            AuraCommand::BuiltinNext | AuraCommand::BuiltinPrev | AuraCommand::ReloadLast => {
                config.current_mode.len() > 3
            },
            AuraCommand::WriteBytes(bytes) => bytes.len() > 3,
            _ => true,
        }
    }

    /// The command can go on with the answer.
    pub fn can_resume(&self, pending: &LedPending<Vec<u8>>, answer: &LedAnswer<Vec<u8>>) -> (possible:
        bool)
        ensures
            possible == resumable(self@, pending@, answer@),
    {
        match (pending, answer) {
            (LedPending::CurrentMode(_), LedAnswer::Mode(mode)) => {
                self.has_sorted_modes() && self.supports(*mode)
            },
            (LedPending::Packet, LedAnswer::Packet(bytes)) => bytes.len() > 3,
            (LedPending::PacketMode(bytes), LedAnswer::Mode(_)) => bytes.len() > 3,
            (LedPending::Reload, LedAnswer::Packet(_)) => true,
            _ => false,
        }
    }

    /// Starts a command.
    pub fn do_command(&mut self, command: AuraCommand, config: &mut Config) -> (step: LedStep)
        requires
            startable(command, *old(config)),
        ensures
            step@ == first_step(old(self)@, command, *old(config)),
            final(self)@ == model_after(old(self)@),
            *final(config) == (Config {
                brightness: brightness_after(old(self)@, command, old(config).brightness),
                ..*old(config)
            }),
    {
        let mut actions = self.initialise();
        let next = match command {
            AuraCommand::BrightInc => {
                let mut bright: u8 = config.brightness;
                if bright < self.bright_min_max.1 {
                    bright += 1;
                    config.brightness = bright;
                    LedNext::Ask {
                        query: LedQuery::BrightnessBytes(bright),
                        pending: LedPending::Packet,
                    }
                } else {
                    LedNext::Finished(Ok(()))
                }
            },
            AuraCommand::BrightDec => {
                let mut bright: u8 = config.brightness;
                if bright > self.bright_min_max.0 {
                    bright -= 1;
                    config.brightness = bright;
                    LedNext::Ask {
                        query: LedQuery::BrightnessBytes(bright),
                        pending: LedPending::Packet,
                    }
                } else {
                    LedNext::Finished(Ok(()))
                }
            },
            AuraCommand::BuiltinNext => LedNext::Ask {
                query: LedQuery::Mode(config.current_mode[3]),
                pending: LedPending::CurrentMode(Direction::Next),
            },
            AuraCommand::BuiltinPrev => LedNext::Ask {
                query: LedQuery::Mode(config.current_mode[3]),
                pending: LedPending::CurrentMode(Direction::Prev),
            },
            AuraCommand::WriteBytes(bytes) => LedNext::Ask {
                query: LedQuery::Mode(bytes[3]),
                pending: LedPending::PacketMode(bytes),
            },
            AuraCommand::WriteEffect(effect) => {
                let mut rows = self.write_effect(&effect);
                let ghost start = actions@;
                let ghost sent = rows@;
                actions.append(&mut rows);
                assert(ops(actions@) =~= ops(start) + ops(sent));
                LedNext::Finished(Ok(()))
            },
            AuraCommand::ReloadLast => LedNext::Ask {
                query: LedQuery::BuiltinBytes(config.current_mode[3]),
                pending: LedPending::Reload,
            },
        };
        LedStep { actions, next }
    }

    /// Goes on with a command when the answer that it asked for is there.
    pub fn resume(&self, pending: LedPending<Vec<u8>>, answer: LedAnswer<Vec<u8>>) -> (step: LedStep)
        requires
            resumable(self@, pending@, answer@),
        ensures
            follows(self@, pending@, answer@, step@),
    {
        match (pending, answer) {
            (LedPending::CurrentMode(direction), LedAnswer::Mode(mode)) => self.step_builtin(
                direction,
                mode,
            ),
            (LedPending::Packet, LedAnswer::Packet(bytes)) => {
                let actions: Vec<LedAction<Vec<u8>>> = Vec::new();
                assert(ops(actions@) =~= seq![]);
                LedStep {
                    actions,
                    next: LedNext::Ask {
                        query: LedQuery::Mode(bytes[3]),
                        pending: LedPending::PacketMode(bytes),
                    },
                }
            },
            (LedPending::PacketMode(bytes), LedAnswer::Mode(mode)) => {
                match self.set_and_save(bytes.as_slice(), mode) {
                    Ok(actions) => LedStep { actions, next: LedNext::Finished(Ok(())) },
                    Err(e) => {
                        let actions: Vec<LedAction<Vec<u8>>> = Vec::new();
                        assert(ops(actions@) =~= seq![]);
                        LedStep { actions, next: LedNext::Finished(Err(e)) }
                    },
                }
            },
            (LedPending::Reload, LedAnswer::Packet(bytes)) => self.reload_last_builtin(
                bytes.as_slice(),
            ),
            _ => unreached(),
        }
    }
}

/// Whatever is saved was written, set and applied right before.
pub open spec fn saves_are_applied(m: LedModel, ops: Seq<LedOp>) -> bool {
    forall|k: int|
        #![trigger ops[k]]
        0 <= k < ops.len() && ops[k] is Save ==> {
            &&& k >= 3
            &&& ops[k - 3] == write_op(m, ops[k]->bytes)
            &&& ops[k - 2] == write_op(m, LED_SET@)
            &&& ops[k - 1] == write_op(m, LED_APPLY@)
        }
}

/// How many answers a command may still need.
pub open spec fn answers_left(next: LedNext<Seq<u8>>) -> nat {
    match next {
        LedNext::Finished(_) => 0,
        LedNext::Ask { query: _, pending } => answers_for(pending),
    }
}

/// How many answers a command may still need, the pending one included.
pub open spec fn answers_for(pending: LedPending<Seq<u8>>) -> nat {
    match pending {
        LedPending::CurrentMode(_) => 3,
        LedPending::Packet => 2,
        LedPending::PacketMode(_) => 1,
        LedPending::Reload => 1,
    }
}

/// A question fits what its answer is for: a mode is asked for where a mode is
/// pending, namely that of the packet's fourth byte where it is that of a
/// packet, and a packet where a packet is pending.
pub open spec fn well_asked(next: LedNext<Seq<u8>>) -> bool {
    match next {
        LedNext::Finished(_) => true,
        LedNext::Ask { query, pending } => match pending {
            LedPending::CurrentMode(_) => query is Mode,
            LedPending::Packet => query is BrightnessBytes || query is BuiltinBytes,
            LedPending::PacketMode(bytes) => bytes.len() > 3 && query == LedQuery::Mode(bytes[3]),
            LedPending::Reload => query is BuiltinBytes,
        },
    }
}

/// All writes go to the endpoint of the LEDs.
pub open spec fn writes_to_leds(m: LedModel, ops: Seq<LedOp>) -> bool {
    forall|k: int|
        0 <= k < ops.len() ==> (#[trigger] ops[k] matches LedAction::Write {
            endpoint,
            message: _,
            timeout_ms: _,
        } ==> endpoint == m.endpoint)
}

/// The index after `k` steps from `i` in one direction.
pub open spec fn steps(i: int, len: int, direction: Direction, k: nat) -> int
    decreases k,
{
    if k == 0 {
        i
    } else {
        neighbour(steps(i, len, direction, (k - 1) as nat), len, direction)
    }
}

/// At least one step and at most as many as there are entries lead from `i` to `j`.
pub open spec fn comes_to(i: int, len: int, direction: Direction, j: int) -> bool {
    exists|k: nat| 1 <= k <= len && #[trigger] steps(i, len, direction, k) == j
}

/// The index `k` places on from `i` in one direction, counted round.
pub open spec fn places_on(i: int, len: int, direction: Direction, k: nat) -> int {
    match direction {
        Direction::Next => (i + k) % len,
        Direction::Prev => (i - k) % len,
    }
}

/// The bytes are in order and none stands twice.
pub open spec fn strictly_sorted(s: Seq<u8>) -> bool {
    forall|i: int, j: int| 0 <= i < j < s.len() ==> s[i] < s[j]
}

/// Each step asks for what its answer is for.
pub proof fn law_questions_fit(
    m: LedModel,
    command: AuraCommand,
    config: Config,
    pending: LedPending<Seq<u8>>,
    answer: LedAnswer<Seq<u8>>,
    step: LedStepModel,
)
    ensures
        startable(command, config) ==> well_asked(first_step(m, command, config).next),
        resumable(m, pending, answer) && follows(m, pending, answer, step) ==> well_asked(
            step.next,
        ),
{
}

/// No step writes anywhere but to the endpoint of the LEDs.
pub proof fn law_writes_go_to_the_leds(
    m: LedModel,
    command: AuraCommand,
    config: Config,
    pending: LedPending<Seq<u8>>,
    answer: LedAnswer<Seq<u8>>,
    step: LedStepModel,
)
    ensures
        writes_to_leds(m, first_step(m, command, config).ops),
        follows(m, pending, answer, step) ==> writes_to_leds(m, step.ops),
{
}

/// Starting a command saves nothing.
pub proof fn law_start_saves_nothing(m: LedModel, command: AuraCommand, config: Config)
    ensures
        forall|k: int|
            0 <= k < first_step(m, command, config).ops.len() ==> #[trigger] first_step(
                m,
                command,
                config,
            ).ops[k] is Write,
{
}

/// Changes won't persist unless apply is set: no step saves a packet without
/// having written, set and applied it.
pub proof fn law_saves_are_applied(
    m: LedModel,
    pending: LedPending<Seq<u8>>,
    answer: LedAnswer<Seq<u8>>,
    step: LedStepModel,
)
    requires
        follows(m, pending, answer, step),
    ensures
        saves_are_applied(m, step.ops),
{
}

/// Every command comes to an end: it starts with at most three answers to
/// go, and each answer leaves fewer.
pub proof fn law_commands_end(
    m: LedModel,
    command: AuraCommand,
    config: Config,
    pending: LedPending<Seq<u8>>,
    answer: LedAnswer<Seq<u8>>,
    step: LedStepModel,
)
    ensures
        answers_left(first_step(m, command, config).next) <= 3,
        follows(m, pending, answer, step) ==> answers_left(step.next) < answers_for(pending),
{
}

/// Bringing up the device comes before everything else that its first command
/// does, and changes nothing about that. A device that is up is not brought up
/// again: then a command starts with its own writes alone.
pub proof fn law_startup_comes_first(m: LedModel, command: AuraCommand, config: Config)
    ensures
        first_step(m, command, config).ops == startup_ops(m) + own_ops(m, command),
        first_step(m, command, config).next == first_step(model_after(m), command, config).next,
        !m.initialised ==> first_step(m, command, config).ops == init_ops(m) + own_ops(m, command),
        m.initialised ==> first_step(m, command, config).ops == own_ops(m, command),
{
    assert(first_step(m, command, config).ops =~= startup_ops(m) + own_ops(m, command));
    if m.initialised {
        assert(first_step(m, command, config).ops =~= own_ops(m, command));
    }
}

/// A brightness within the limits stays within them.
pub proof fn law_brightness_stays_in_limits(m: LedModel, command: AuraCommand, brightness: u8)
    requires
        m.bright_min <= brightness <= m.bright_max,
    ensures
        m.bright_min <= brightness_after(m, command, brightness) <= m.bright_max,
{
}

/// Below the upper limit a step down undoes a step up, and above the lower
/// limit a step up undoes a step down.
pub proof fn law_brightness_steps_undo(m: LedModel, brightness: u8)
    requires
        m.bright_min <= brightness <= m.bright_max,
    ensures
        brightness < m.bright_max ==> brightness_after(
            m,
            AuraCommand::BrightDec,
            brightness_after(m, AuraCommand::BrightInc, brightness),
        ) == brightness,
        brightness > m.bright_min ==> brightness_after(
            m,
            AuraCommand::BrightInc,
            brightness_after(m, AuraCommand::BrightDec, brightness),
        ) == brightness,
{
}

/// At a limit a step beyond it does nothing but bring up the device.
pub proof fn law_brightness_limits(m: LedModel, config: Config)
    ensures
        config.brightness >= m.bright_max ==> first_step(m, AuraCommand::BrightInc, config)
            == finished(startup_ops(m), Ok(())),
        config.brightness <= m.bright_min ==> first_step(m, AuraCommand::BrightDec, config)
            == finished(startup_ops(m), Ok(())),
{
}

/// A change of brightness is never refused: the packet that sets it is written,
/// set, applied and saved, whatever mode its fourth byte names.
pub proof fn law_brightness_is_saved(
    m: LedModel,
    bytes: Seq<u8>,
    packet: LedStepModel,
    pending: LedPending<Seq<u8>>,
    query: LedQuery,
    mode: u8,
    saved: LedStepModel,
)
    requires
        follows(m, LedPending::Packet, LedAnswer::Packet(bytes), packet),
        packet.next == (LedNext::Ask { query, pending }),
        follows(m, pending, LedAnswer::Mode(mode), saved),
        bytes[1] == BRIGHTNESS_PACKET,
    ensures
        saved == finished(saved_ops(m, bytes), Ok(())),
{
}

/// The neighbours of an entry are entries, and a step back undoes a step
/// forward and the other way round.
pub proof fn law_neighbours_undo(i: int, len: int)
    requires
        0 <= i < len,
    ensures
        0 <= neighbour(i, len, Direction::Next) < len,
        0 <= neighbour(i, len, Direction::Prev) < len,
        neighbour(neighbour(i, len, Direction::Next), len, Direction::Prev) == i,
        neighbour(neighbour(i, len, Direction::Prev), len, Direction::Next) == i,
{
}

proof fn lemma_remainder(x: int, len: int, q: int, r: int)
    requires
        0 <= r < len,
        x == q * len + r,
    ensures
        x % len == r,
{
    vstd::arithmetic::div_mod::lemma_fundamental_div_mod_converse(x, len, q, r);
}

/// `k` steps lead `k` places on, counted round.
pub proof fn law_steps_are_counted_round(i: int, len: int, direction: Direction, k: nat)
    requires
        0 <= i < len,
    ensures
        steps(i, len, direction, k) == places_on(i, len, direction, k),
    decreases k,
{
    if k == 0 {
        lemma_remainder(i, len, 0, i);
    } else {
        law_steps_are_counted_round(i, len, direction, (k - 1) as nat);
        let x = match direction {
            Direction::Next => i + (k - 1),
            Direction::Prev => i - (k - 1),
        };
        let (q, r) = (x / len, x % len);
        assert(x == q * len + r && 0 <= r < len) by (nonlinear_arith)
            requires
                len > 0,
                q == x / len,
                r == x % len,
        ;
        assert((q + 1) * len == q * len + len && (q - 1) * len == q * len - len)
            by (nonlinear_arith);
        match direction {
            Direction::Next => if r < len - 1 {
                lemma_remainder(x + 1, len, q, r + 1);
            } else {
                lemma_remainder(x + 1, len, q + 1, 0);
            },
            Direction::Prev => if r > 0 {
                lemma_remainder(x - 1, len, q, r - 1);
            } else {
                lemma_remainder(x - 1, len, q - 1, len - 1);
            },
        }
    }
}

/// As many steps as there are entries lead once round: they come to every entry,
/// to no entry twice, and end where they started.
pub proof fn law_full_circle(i: int, len: int, direction: Direction)
    requires
        0 <= i < len,
    ensures
        steps(i, len, direction, len as nat) == i,
        forall|j: int| 0 <= j < len ==> #[trigger] comes_to(i, len, direction, j),
        forall|k: nat, l: nat|
            1 <= k < l <= len ==> #[trigger] steps(i, len, direction, k) != #[trigger] steps(
                i,
                len,
                direction,
                l,
            ),
{
    assert forall|k: nat| 1 <= k <= len implies #[trigger] steps(i, len, direction, k) == (
    match direction {
        Direction::Next => if i + k < len {
            i + k
        } else {
            i + k - len
        },
        Direction::Prev => if i - k >= 0 {
            i - k
        } else {
            i - k + len
        },
    }) by {
        law_steps_are_counted_round(i, len, direction, k);
        match direction {
            Direction::Next => if i + k < len {
                lemma_remainder(i + k, len, 0, i + k);
            } else {
                lemma_remainder(i + k, len, 1, i + k - len);
            },
            Direction::Prev => if i - k >= 0 {
                lemma_remainder(i - k, len, 0, i - k);
            } else {
                lemma_remainder(i - k, len, -1, i - k + len);
            },
        }
    }
    assert forall|j: int| 0 <= j < len implies #[trigger] comes_to(i, len, direction, j) by {
        let d = match direction {
            Direction::Next => j - i,
            Direction::Prev => i - j,
        };
        let k = (if d > 0 {
            d
        } else {
            d + len
        }) as nat;
        assert(steps(i, len, direction, k) == j);
    }
}

/// Each direction leads to the packet of a mode that the device supports.
pub proof fn law_builtin_is_supported(
    m: LedModel,
    direction: Direction,
    mode: u8,
    step: LedStepModel,
)
    requires
        follows(m, LedPending::CurrentMode(direction), LedAnswer::Mode(mode), step),
    ensures
        step.next matches LedNext::Ask {
            query: LedQuery::BuiltinBytes(chosen),
            pending: LedPending::Packet,
        } && m.modes.contains(chosen),
{
    let len = m.modes.len() as int;
    let i = choose|i: int|
        0 <= i < len && #[trigger] m.modes[i] == mode && step == builtin_step(
            m,
            neighbour(i, len, direction),
        );
    law_neighbours_undo(i, len);
    assert(m.modes.contains(m.modes[neighbour(i, len, direction)]));
}

/// Going on to another mode never ends in a refusal: where the packet held for
/// the chosen mode is of that mode, it is written, set, applied and saved,
/// unless it belongs to an effect.
pub proof fn law_builtin_is_saved(
    m: LedModel,
    direction: Direction,
    mode: u8,
    step: LedStepModel,
    chosen: u8,
    bytes: Seq<u8>,
    saved: LedStepModel,
)
    requires
        follows(m, LedPending::CurrentMode(direction), LedAnswer::Mode(mode), step),
        step.next == (LedNext::Ask {
            query: LedQuery::BuiltinBytes(chosen),
            pending: LedPending::<Seq<u8>>::Packet,
        }),
        follows(m, LedPending::PacketMode(bytes), LedAnswer::Mode(chosen), saved),
        bytes[1] != EFFECT_PACKET,
    ensures
        saved == finished(saved_ops(m, bytes), Ok(())),
{
    law_builtin_is_supported(m, direction, mode, step);
}

/// Where no supported mode stands twice, going one mode on and then one mode
/// back, or the other way round, leads to the mode that was in use.
pub proof fn law_builtin_steps_undo(
    m: LedModel,
    there: Direction,
    back: Direction,
    mode: u8,
    step: LedStepModel,
    chosen: u8,
    undone: LedStepModel,
)
    requires
        strictly_sorted(m.modes),
        there != back,
        follows(m, LedPending::CurrentMode(there), LedAnswer::Mode(mode), step),
        step.next == (LedNext::Ask {
            query: LedQuery::BuiltinBytes(chosen),
            pending: LedPending::<Seq<u8>>::Packet,
        }),
        follows(m, LedPending::CurrentMode(back), LedAnswer::Mode(chosen), undone),
    ensures
        undone.next == (LedNext::Ask {
            query: LedQuery::BuiltinBytes(mode),
            pending: LedPending::<Seq<u8>>::Packet,
        }),
{
    let len = m.modes.len() as int;
    let i = choose|i: int|
        0 <= i < len && #[trigger] m.modes[i] == mode && step == builtin_step(
            m,
            neighbour(i, len, there),
        );
    let j = choose|j: int|
        0 <= j < len && #[trigger] m.modes[j] == chosen && undone == builtin_step(
            m,
            neighbour(j, len, back),
        );
    law_neighbours_undo(i, len);
    let k = neighbour(i, len, there);
    assert(m.modes[k] == chosen);
    assert(j == k) by {
        if j < k {
            assert(m.modes[j] < m.modes[k]);
        } else if k < j {
            assert(m.modes[k] < m.modes[j]);
        }
    }
}

/// A reload is never refused: the packet that the settings hold for the mode in
/// use is written, set, applied and saved.
pub proof fn law_reload_is_saved(
    m: LedModel,
    command: AuraCommand,
    config: Config,
    bytes: Seq<u8>,
    saved: LedStepModel,
)
    requires
        command is ReloadLast,
        follows(m, LedPending::Reload, LedAnswer::Packet(bytes), saved),
    ensures
        first_step(m, command, config).next == (LedNext::Ask {
            query: LedQuery::BuiltinBytes(config.current_mode@[3]),
            pending: LedPending::<Seq<u8>>::Reload,
        }),
        saved == finished(saved_ops(m, bytes), Ok(())),
{
}

/// A packet is refused exactly if it belongs to no effect, sets no
/// brightness and is of a mode that is not supported; then nothing is written
/// and nothing is saved.
pub proof fn law_refusals(m: LedModel, bytes: Seq<u8>, mode: u8, step: LedStepModel)
    requires
        follows(m, LedPending::PacketMode(bytes), LedAnswer::Mode(mode), step),
    ensures
        step.next is Finished,
        step.next->0 is Err <==> bytes[1] != EFFECT_PACKET && bytes[1] != BRIGHTNESS_PACKET
            && !m.modes.contains(mode),
        step.next->0 is Err ==> step.ops == Seq::<LedOp>::empty(),
{
}

/// A packet of an effect is passed through: written once and never saved.
pub proof fn law_effects_pass_through(m: LedModel, bytes: Seq<u8>, mode: u8, step: LedStepModel)
    requires
        follows(m, LedPending::PacketMode(bytes), LedAnswer::Mode(mode), step),
        bytes[1] == EFFECT_PACKET,
    ensures
        step == finished(seq![write_op(m, bytes)], Ok(())),
{
}

/// Contracts see every action of a list, in its place and with all that it
/// holds.
pub proof fn law_actions_are_seen_in_full(actions: Seq<LedAction<Vec<u8>>>)
    ensures
        ops(actions).len() == actions.len(),
        forall|k: int|
            0 <= k < actions.len() ==> match #[trigger] actions[k] {
                LedAction::Write { endpoint, message, timeout_ms } => ops(actions)[k]
                    == (LedAction::Write { endpoint, message: message@, timeout_ms }),
                LedAction::Save { bytes } => ops(actions)[k] == (LedAction::Save { bytes: bytes@ }),
            },
{
}

/// Contracts see all of a step: every action in its place, and how it ends with
/// all that this holds.
pub proof fn law_steps_are_seen_in_full(step: LedStep)
    ensures
        step@.ops.len() == step.actions@.len(),
        forall|k: int|
            0 <= k < step.actions@.len() ==> match #[trigger] step.actions@[k] {
                LedAction::Write { endpoint, message, timeout_ms } => step@.ops[k]
                    == (LedAction::Write { endpoint, message: message@, timeout_ms }),
                LedAction::Save { bytes } => step@.ops[k] == (LedAction::Save { bytes: bytes@ }),
            },
        match step.next {
            LedNext::Finished(result) => step@.next == LedNext::<Seq<u8>>::Finished(result),
            LedNext::Ask { query, pending } => step@.next == (LedNext::Ask {
                query,
                pending: pending@,
            }),
        },
{
}

/// Contracts see all of an answer and of what it is for.
pub proof fn law_answers_are_seen_in_full(
    pending: LedPending<Vec<u8>>,
    answer: LedAnswer<Vec<u8>>,
)
    ensures
        match pending {
            LedPending::CurrentMode(direction) => pending@ == LedPending::<Seq<u8>>::CurrentMode(
                direction,
            ),
            LedPending::Packet => pending@ == LedPending::<Seq<u8>>::Packet,
            LedPending::PacketMode(bytes) => pending@ == LedPending::PacketMode(bytes@),
            LedPending::Reload => pending@ == LedPending::<Seq<u8>>::Reload,
        },
        match answer {
            LedAnswer::Mode(mode) => answer@ == LedAnswer::<Seq<u8>>::Mode(mode),
            LedAnswer::Packet(bytes) => answer@ == LedAnswer::Packet(bytes@),
        },
{
}

/// Starting a command changes nothing that the writer knows but that the device
/// is up.
pub proof fn law_start_changes_nothing_else(m: LedModel)
    ensures
        model_after(m).endpoint == m.endpoint,
        model_after(m).bright_min == m.bright_min,
        model_after(m).bright_max == m.bright_max,
        model_after(m).modes == m.modes,
        model_after(m).setup == m.setup,
        model_after(m).initialised,
{
}

/// A command can be started exactly if the fourth byte that it looks at is
/// there: that of the packet to write, or that of the mode in use.
pub proof fn law_what_can_be_started(command: AuraCommand, config: Config)
    ensures
        command is BrightInc || command is BrightDec || command is WriteEffect ==> startable(
            command,
            config,
        ),
        command is BuiltinNext || command is BuiltinPrev || command is ReloadLast ==> (startable(
            command,
            config,
        ) <==> config.current_mode@.len() >= 4),
        command matches AuraCommand::WriteBytes(bytes) ==> (startable(command, config)
            <==> bytes@.len() >= 4),
{
}

/// A command can go on exactly with a mode where a mode is pending and with a
/// packet where a packet is pending. Packets to set and save have a fourth byte.
/// The mode in use is one of the supported ones, and those are in order.
pub proof fn law_what_can_be_resumed(
    m: LedModel,
    pending: LedPending<Seq<u8>>,
    direction: Direction,
    mode: u8,
    packet: Seq<u8>,
    answer: Seq<u8>,
)
    ensures
        resumable(m, LedPending::CurrentMode(direction), LedAnswer::Mode(mode)) <==> (exists|i: int|
            0 <= i < m.modes.len() && m.modes[i] == mode) && (forall|i: int, j: int|
            0 <= i <= j < m.modes.len() ==> m.modes[i] <= m.modes[j]),
        resumable(m, LedPending::PacketMode(packet), LedAnswer::Mode(mode)) <==> packet.len() >= 4,
        resumable(m, LedPending::Packet, LedAnswer::Packet(answer)) <==> answer.len() >= 4,
        resumable(m, LedPending::Reload, LedAnswer::Packet(answer)),
        pending is Packet || pending is Reload ==> !resumable(m, pending, LedAnswer::Mode(mode)),
        pending is CurrentMode || pending is PacketMode ==> !resumable(
            m,
            pending,
            LedAnswer::Packet(answer),
        ),
{
}

/// A device that is not up gets its five setup packets, in the order of its
/// model; one that is up gets none.
pub proof fn law_setup_packets(m: LedModel)
    ensures
        m.initialised ==> startup_ops(m).len() == 0,
        !m.initialised ==> {
            let packets = match m.setup {
                SetupSequence::Common => seq![
                    LED_INIT1@,
                    LED_INIT2@,
                    LED_INIT3@,
                    LED_INIT4@,
                    LED_INIT5@,
                ],
                SetupSequence::Gx502gw => seq![
                    LED_INIT1@,
                    LED_INIT3@,
                    LED_INIT4@,
                    LED_INIT2@,
                    LED_INIT4@,
                ],
            };
            &&& startup_ops(m).len() == 5
            &&& forall|k: int|
                0 <= k < 5 ==> #[trigger] startup_ops(m)[k] == (LedAction::Write {
                    endpoint: m.endpoint,
                    message: packets[k],
                    timeout_ms: 5,
                })
        },
{
}

/// A command that writes no effect starts with the setup packets, if the device
/// is not up, and with no other action.
pub proof fn law_other_commands_start_without_writes(
    m: LedModel,
    command: AuraCommand,
    config: Config,
)
    requires
        !(command is WriteEffect),
    ensures
        m.initialised ==> first_step(m, command, config).ops.len() == 0,
        !m.initialised ==> first_step(m, command, config).ops.len() == 5,
        first_step(m, command, config).ops == startup_ops(m),
{
}

/// An effect is written row by row: on a device that is up there are as many
/// actions as rows, and each writes its row, all of it, to the LEDs. On a device
/// that is not up the setup packets come before them. Then the command is over.
pub proof fn law_every_row_is_written(m: LedModel, rows: Vec<Vec<u8>>, config: Config)
    ensures
        ({
            let step = first_step(m, AuraCommand::WriteEffect(rows), config);
            let before: int = if m.initialised {
                0
            } else {
                5
            };
            &&& step.ops.len() == before + rows@.len()
            &&& step.ops.take(before) == startup_ops(m)
            &&& forall|k: int|
                0 <= k < rows@.len() ==> step.ops[before + k] == (LedAction::Write {
                    endpoint: m.endpoint,
                    message: (#[trigger] rows@[k])@,
                    timeout_ms: 1,
                })
            &&& step.next == LedNext::<Seq<u8>>::Finished(Ok(()))
        }),
        effect_ops(m, contents(rows@)).len() == rows@.len(),
        forall|k: int|
            0 <= k < rows@.len() ==> effect_ops(m, contents(rows@))[k] == (LedAction::Write {
                endpoint: m.endpoint,
                message: (#[trigger] rows@[k])@,
                timeout_ms: 1,
            }),
{
    let step = first_step(m, AuraCommand::WriteEffect(rows), config);
    assert(step.ops.take(startup_ops(m).len() as int) =~= startup_ops(m));
}

/// A list of messages is written in order, each message with the set packet right
/// after it, and the apply packet once, at the end.
pub proof fn law_every_message_is_set(m: LedModel, messages: Seq<Seq<u8>>)
    ensures
        array_ops(m, messages).len() == 2 * messages.len() + 1,
        forall|k: int|
            0 <= k < messages.len() ==> {
                &&& array_ops(m, messages)[2 * k] == (LedAction::Write {
                    endpoint: m.endpoint,
                    message: #[trigger] messages[k],
                    timeout_ms: 5,
                })
                &&& array_ops(m, messages)[2 * k + 1] == (LedAction::Write {
                    endpoint: m.endpoint,
                    message: LED_SET@,
                    timeout_ms: 5,
                })
            },
        array_ops(m, messages).last() == (LedAction::Write {
            endpoint: m.endpoint,
            message: LED_APPLY@,
            timeout_ms: 5,
        }),
{
}

/// A single packet is written as it is, to the LEDs.
pub proof fn law_packet_is_written_as_it_is(m: LedModel, message: Seq<u8>)
    ensures
        write_op(m, message) == (LedAction::Write {
            endpoint: m.endpoint,
            message,
            timeout_ms: 5,
        }),
{
}

proof fn lemma_saved_ops(m: LedModel, bytes: Seq<u8>)
    ensures
        saved_ops(m, bytes) == seq![
            LedAction::Write { endpoint: m.endpoint, message: bytes, timeout_ms: 5 },
            LedAction::Write { endpoint: m.endpoint, message: LED_SET@, timeout_ms: 5 },
            LedAction::Write { endpoint: m.endpoint, message: LED_APPLY@, timeout_ms: 5 },
            LedAction::Save { bytes },
        ],
{
    let messages = seq![bytes];
    law_every_message_is_set(m, messages);
    assert(messages[0] == bytes);
    assert(array_ops(m, messages)[0] == write_op(m, bytes));
    assert(array_ops(m, messages)[1] == write_op(m, LED_SET@));
    assert(saved_ops(m, bytes) =~= seq![
        LedAction::Write { endpoint: m.endpoint, message: bytes, timeout_ms: 5 },
        LedAction::Write { endpoint: m.endpoint, message: LED_SET@, timeout_ms: 5 },
        LedAction::Write { endpoint: m.endpoint, message: LED_APPLY@, timeout_ms: 5 },
        LedAction::Save { bytes },
    ]);
}

/// A packet that belongs to no effect, and that is of a supported mode or sets the
/// brightness, is written, set, applied and saved, whatever else it holds: four
/// actions, of which the first and the last carry the packet itself. Then the
/// command is over, with success.
pub proof fn law_packet_is_set_and_saved(m: LedModel, bytes: Seq<u8>, mode: u8, step: LedStepModel)
    requires
        follows(m, LedPending::PacketMode(bytes), LedAnswer::Mode(mode), step),
        bytes[1] != 0xbc,
        m.modes.contains(mode) || bytes[1] == 0xba,
    ensures
        step.ops == seq![
            LedAction::Write { endpoint: m.endpoint, message: bytes, timeout_ms: 5 },
            LedAction::Write { endpoint: m.endpoint, message: LED_SET@, timeout_ms: 5 },
            LedAction::Write { endpoint: m.endpoint, message: LED_APPLY@, timeout_ms: 5 },
            LedAction::Save { bytes },
        ],
        step.next == LedNext::<Seq<u8>>::Finished(Ok(())),
        set_and_save_ops(m, bytes, mode) == Ok::<_, AuraError>(step.ops),
{
    lemma_saved_ops(m, bytes);
}

/// A packet of an effect is written once, as it is, and nothing else is done; the
/// command succeeds, whatever mode the packet names.
pub proof fn law_effect_packet_is_only_written(
    m: LedModel,
    bytes: Seq<u8>,
    mode: u8,
    step: LedStepModel,
)
    requires
        follows(m, LedPending::PacketMode(bytes), LedAnswer::Mode(mode), step),
        bytes[1] == 0xbc,
    ensures
        step.ops == seq![
            LedAction::Write { endpoint: m.endpoint, message: bytes, timeout_ms: 5 },
        ],
        step.next == LedNext::<Seq<u8>>::Finished(Ok(())),
        set_and_save_ops(m, bytes, mode) == Ok::<_, AuraError>(step.ops),
{
}

/// Any other packet is refused, and nothing is done.
pub proof fn law_other_packet_is_refused(m: LedModel, bytes: Seq<u8>, mode: u8, step: LedStepModel)
    requires
        follows(m, LedPending::PacketMode(bytes), LedAnswer::Mode(mode), step),
        bytes[1] != 0xbc,
        bytes[1] != 0xba,
        !m.modes.contains(mode),
    ensures
        step.ops.len() == 0,
        step.next == LedNext::<Seq<u8>>::Finished(Err(AuraError::NotSupported)),
        set_and_save_ops(m, bytes, mode) == Err::<Seq<LedOp>, _>(AuraError::NotSupported),
{
}

/// A packet to set and save is kept as it is while the mode that its fourth byte
/// names is asked for; nothing is done before the answer.
pub proof fn law_mode_of_the_packet_is_asked(m: LedModel, bytes: Seq<u8>, step: LedStepModel)
    requires
        follows(m, LedPending::Packet, LedAnswer::Packet(bytes), step),
    ensures
        step.ops.len() == 0,
        step.next == (LedNext::Ask {
            query: LedQuery::Mode(bytes[3]),
            pending: LedPending::PacketMode(bytes),
        }),
{
}

/// A reload writes, sets, applies and saves the stored packet, whatever it holds,
/// and succeeds.
pub proof fn law_reload_sets_the_stored_packet(m: LedModel, bytes: Seq<u8>, step: LedStepModel)
    requires
        follows(m, LedPending::Reload, LedAnswer::Packet(bytes), step),
    ensures
        step.ops == seq![
            LedAction::Write { endpoint: m.endpoint, message: bytes, timeout_ms: 5 },
            LedAction::Write { endpoint: m.endpoint, message: LED_SET@, timeout_ms: 5 },
            LedAction::Write { endpoint: m.endpoint, message: LED_APPLY@, timeout_ms: 5 },
            LedAction::Save { bytes },
        ],
        step.next == LedNext::<Seq<u8>>::Finished(Ok(())),
        step.ops == saved_ops(m, bytes),
{
    lemma_saved_ops(m, bytes);
}

proof fn lemma_neighbour_is_one_place_on(i: int, len: int)
    requires
        0 <= i < len,
    ensures
        neighbour(i, len, Direction::Next) == (i + 1) % len,
        neighbour(i, len, Direction::Prev) == (i - 1) % len,
{
    if i < len - 1 {
        lemma_remainder(i + 1, len, 0, i + 1);
    } else {
        lemma_remainder(i + 1, len, 1, 0);
    }
    if i > 0 {
        lemma_remainder(i - 1, len, 0, i - 1);
    } else {
        lemma_remainder(i - 1, len, -1, len - 1);
    }
}

/// From the mode in use a step leads to the stored packet of the mode one place
/// on, or one place back, counted round, where `i` is the place of the mode in use;
/// nothing is done before the answer.
pub proof fn law_neighbouring_mode_is_asked(
    m: LedModel,
    direction: Direction,
    mode: u8,
    step: LedStepModel,
) -> (i: int)
    requires
        follows(m, LedPending::CurrentMode(direction), LedAnswer::Mode(mode), step),
    ensures
        step.ops.len() == 0,
        0 <= i < m.modes.len(),
        m.modes[i] == mode,
        direction == Direction::Next ==> step.next == (LedNext::Ask {
            query: LedQuery::BuiltinBytes(m.modes[(i + 1) % (m.modes.len() as int)]),
            pending: LedPending::<Seq<u8>>::Packet,
        }),
        direction == Direction::Prev ==> step.next == (LedNext::Ask {
            query: LedQuery::BuiltinBytes(m.modes[(i - 1) % (m.modes.len() as int)]),
            pending: LedPending::<Seq<u8>>::Packet,
        }),
{
    let len = m.modes.len() as int;
    let i = choose|i: int|
        0 <= i < len && #[trigger] m.modes[i] == mode && step == builtin_step(
            m,
            neighbour(i, len, direction),
        );
    lemma_neighbour_is_one_place_on(i, len);
    i
}

/// Selecting the mode at an index asks for the packet stored for that mode.
pub proof fn law_mode_at_an_index(m: LedModel, index: int)
    ensures
        builtin_step(m, index).ops.len() == 0,
        builtin_step(m, index).next == (LedNext::Ask {
            query: LedQuery::BuiltinBytes(m.modes[index]),
            pending: LedPending::<Seq<u8>>::Packet,
        }),
{
}

/// An answer of the wrong kind leads nowhere.
pub proof fn law_wrong_answers_lead_nowhere(
    m: LedModel,
    pending: LedPending<Seq<u8>>,
    answer: LedAnswer<Seq<u8>>,
    step: LedStepModel,
)
    requires
        follows(m, pending, answer, step),
    ensures
        answer is Mode <==> pending is CurrentMode || pending is PacketMode,
{
}

/// A step up in brightness below the upper limit raises the setting by 1 and asks
/// for the packet of the raised brightness, to set and save it; at the limit or
/// above, the setting stays and the command is over.
pub proof fn law_step_up_sends_the_raised_brightness(m: LedModel, config: Config)
    ensures
        ({
            let b = config.brightness;
            let after = brightness_after(m, AuraCommand::BrightInc, b);
            let next = first_step(m, AuraCommand::BrightInc, config).next;
            &&& b < m.bright_max ==> after == b + 1 && (next matches LedNext::Ask {
                query: LedQuery::BrightnessBytes(sent),
                pending: LedPending::Packet,
            } && sent == b + 1)
            &&& b >= m.bright_max ==> after == b && next == LedNext::<Seq<u8>>::Finished(Ok(()))
        }),
{
}

/// A step down in brightness above the lower limit lowers the setting by 1 and
/// asks for the packet of the lowered brightness, to set and save it; at the limit
/// or below, the setting stays and the command is over.
pub proof fn law_step_down_sends_the_lowered_brightness(m: LedModel, config: Config)
    ensures
        ({
            let b = config.brightness;
            let after = brightness_after(m, AuraCommand::BrightDec, b);
            let next = first_step(m, AuraCommand::BrightDec, config).next;
            &&& b > m.bright_min ==> after == b - 1 && (next matches LedNext::Ask {
                query: LedQuery::BrightnessBytes(sent),
                pending: LedPending::Packet,
            } && sent == b - 1)
            &&& b <= m.bright_min ==> after == b && next == LedNext::<Seq<u8>>::Finished(Ok(()))
        }),
{
}

/// The other commands leave the brightness as it is. Going to another mode asks
/// for the mode in use, a packet to write for the mode that its fourth byte names,
/// and a reload for the packet stored for the mode in use.
pub proof fn law_what_other_commands_ask(m: LedModel, command: AuraCommand, config: Config)
    requires
        !(command is BrightInc),
        !(command is BrightDec),
    ensures
        brightness_after(m, command, config.brightness) == config.brightness,
        match command {
            AuraCommand::BuiltinNext => first_step(m, command, config).next == (LedNext::Ask {
                query: LedQuery::Mode(config.current_mode@[3]),
                pending: LedPending::<Seq<u8>>::CurrentMode(Direction::Next),
            }),
            AuraCommand::BuiltinPrev => first_step(m, command, config).next == (LedNext::Ask {
                query: LedQuery::Mode(config.current_mode@[3]),
                pending: LedPending::<Seq<u8>>::CurrentMode(Direction::Prev),
            }),
            AuraCommand::WriteBytes(bytes) => first_step(m, command, config).next == (LedNext::Ask {
                query: LedQuery::Mode(bytes@[3]),
                pending: LedPending::PacketMode(bytes@),
            }),
            AuraCommand::ReloadLast => first_step(m, command, config).next == (LedNext::Ask {
                query: LedQuery::BuiltinBytes(config.current_mode@[3]),
                pending: LedPending::<Seq<u8>>::Reload,
            }),
            _ => first_step(m, command, config).next == LedNext::<Seq<u8>>::Finished(Ok(())),
        },
{
}

} // verus!
