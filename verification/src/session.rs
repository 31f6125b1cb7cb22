//! Whole commands for the LEDs, and sequences of them, one after the other on
//! the same writer.

use crate::config::Config;
use crate::led::{
    AuraCommand, AuraError, Direction, LedAnswer, LedModel, LedNext, LedOp, LedQuery, LedStepModel,
};
use vstd::prelude::*;

verus! {

/// One command: what it was started with, the answers that it got, and the
/// steps that came of them. The first step is that of `LedWriter::do_command`,
/// each later one that of `LedWriter::resume`. The command may not be over.
pub ghost struct LedRun {
    pub command: AuraCommand,
    pub config: Config,
    pub answers: Seq<LedAnswer<Seq<u8>>>,
    pub steps: Seq<LedStepModel>,
}

/// What the queries are answered from.
pub ghost struct Protocol {
    /// The mode, as its byte, that a byte of a packet names.
    pub mode_of: spec_fn(u8) -> u8,
    /// The packet that sets a brightness.
    pub brightness_bytes: spec_fn(u8) -> Seq<u8>,
    /// The packet that the settings hold for a mode.
    pub stored: spec_fn(u8) -> Seq<u8>,
}

/// The answer to a query.
pub open spec fn answer_to(p: Protocol, query: LedQuery) -> LedAnswer<Seq<u8>> {
    match query {
        LedQuery::Mode(byte) => LedAnswer::Mode((p.mode_of)(byte)),
        LedQuery::BrightnessBytes(b) => LedAnswer::Packet((p.brightness_bytes)(b)),
        LedQuery::BuiltinBytes(mode) => LedAnswer::Packet((p.stored)(mode)),
    }
}

/// The steps are those of the command on a writer that starts out as `m`.
pub open spec fn valid_run(m: LedModel, run: LedRun) -> bool {
    &&& crate::led::startable(run.command, run.config)
    &&& run.steps.len() == run.answers.len() + 1
    &&& run.steps[0] == crate::led::first_step(m, run.command, run.config)
    &&& forall|i: int|
        #![trigger run.answers[i]]
        0 <= i < run.answers.len() ==> valid_resume(
            crate::led::model_after(m),
            run.steps[i],
            run.answers[i],
            run.steps[i + 1],
        )
}

/// `next` is what an answer to the query of `step` leads to.
pub open spec fn valid_resume(
    m: LedModel,
    step: LedStepModel,
    answer: LedAnswer<Seq<u8>>,
    next: LedStepModel,
) -> bool {
    step.next matches LedNext::Ask { query: _, pending } && crate::led::resumable(
        m,
        pending,
        answer,
    ) && crate::led::follows(m, pending, answer, next)
}

/// Every query was answered from the protocol.
pub open spec fn answered_by(p: Protocol, run: LedRun) -> bool {
    forall|i: int|
        #![trigger run.answers[i]]
        0 <= i < run.answers.len() ==> (run.steps[i].next matches LedNext::Ask {
            query,
            pending: _,
        } ==> run.answers[i] == answer_to(p, query))
}

/// The command is over, with the given result.
pub open spec fn ended(run: LedRun, result: Result<(), AuraError>) -> bool {
    run.steps.last().next == LedNext::<Seq<u8>>::Finished(result)
}

/// The writer before the command at index `k` of a sequence.
pub open spec fn model_before(m: LedModel, k: nat) -> LedModel
    decreases k,
{
    if k == 0 {
        m
    } else {
        crate::led::model_after(model_before(m, (k - 1) as nat))
    }
}

/// The runs are of commands that were given one after the other to a writer that
/// starts out as `m`.
pub open spec fn valid_session(m: LedModel, runs: Seq<LedRun>) -> bool {
    forall|k: int| 0 <= k < runs.len() ==> valid_run(model_before(m, k as nat), #[trigger] runs[k])
}

/// Every command is over, and every query was answered from the protocol.
pub open spec fn served_by(p: Protocol, runs: Seq<LedRun>) -> bool {
    forall|k: int|
        #![trigger runs[k]]
        0 <= k < runs.len() ==> answered_by(p, runs[k]) && runs[k].steps.last().next is Finished
}

/// All that the steps do, in order.
pub open spec fn all_ops(steps: Seq<LedStepModel>) -> Seq<LedOp>
    decreases steps.len(),
{
    if steps.len() == 0 {
        seq![]
    } else {
        steps[0].ops + all_ops(steps.drop_first())
    }
}

/// All that a sequence of commands does, in order.
pub open spec fn session_ops(runs: Seq<LedRun>) -> Seq<LedOp>
    decreases runs.len(),
{
    if runs.len() == 0 {
        seq![]
    } else {
        all_ops(runs[0].steps) + session_ops(runs.drop_first())
    }
}

/// All that a command does besides bringing up the device.
pub open spec fn own_run_ops(m: LedModel, run: LedRun) -> Seq<LedOp> {
    crate::led::own_ops(m, run.command) + all_ops(run.steps.drop_first())
}

/// All that a sequence of commands does besides bringing up the device.
pub open spec fn own_session_ops(m: LedModel, runs: Seq<LedRun>) -> Seq<LedOp>
    decreases runs.len(),
{
    if runs.len() == 0 {
        seq![]
    } else {
        own_run_ops(m, runs[0]) + own_session_ops(m, runs.drop_first())
    }
}

proof fn lemma_model_before(m: LedModel, k: nat)
    ensures
        k > 0 ==> model_before(m, k) == crate::led::model_after(m),
        crate::led::model_after(model_before(m, k)) == crate::led::model_after(m),
    decreases k,
{
    if k > 0 {
        lemma_model_before(m, (k - 1) as nat);
    }
}

proof fn lemma_run_ops(m: LedModel, run: LedRun)
    requires
        valid_run(m, run),
    ensures
        all_ops(run.steps) == crate::led::startup_ops(m) + own_run_ops(m, run),
{
    crate::led::law_startup_comes_first(m, run.command, run.config);
    assert(all_ops(run.steps) =~= crate::led::startup_ops(m) + own_run_ops(m, run));
}

proof fn lemma_own_ops_do_not_change(m: LedModel, run: LedRun)
    ensures
        own_run_ops(crate::led::model_after(m), run) == own_run_ops(m, run),
{
    assert(crate::led::own_ops(crate::led::model_after(m), run.command) =~= crate::led::own_ops(
        m,
        run.command,
    ));
}

/// On a device that is up, a sequence of commands brings up nothing.
proof fn lemma_session_of_up_device(m: LedModel, runs: Seq<LedRun>)
    requires
        forall|k: int|
            0 <= k < runs.len() ==> valid_run(crate::led::model_after(m), #[trigger] runs[k]),
    ensures
        session_ops(runs) == own_session_ops(m, runs),
    decreases runs.len(),
{
    if runs.len() > 0 {
        let up = crate::led::model_after(m);
        assert(valid_run(up, runs[0]));
        lemma_run_ops(up, runs[0]);
        lemma_own_ops_do_not_change(m, runs[0]);
        assert(all_ops(runs[0].steps) =~= own_run_ops(m, runs[0]));
        let rest = runs.drop_first();
        assert forall|k: int| 0 <= k < rest.len() implies valid_run(up, #[trigger] rest[k]) by {
            assert(rest[k] == runs[k + 1]);
        }
        lemma_session_of_up_device(m, rest);
    }
}

/// The device is brought up first and only once: over any sequence of commands,
/// with whatever answers and results, all packets that bring it up come before
/// everything else, during the first command, and no later command sends them.
pub proof fn law_setup_comes_first_and_once(m: LedModel, runs: Seq<LedRun>)
    requires
        valid_session(m, runs),
        runs.len() > 0,
    ensures
        session_ops(runs) == crate::led::startup_ops(m) + own_session_ops(m, runs),
        !m.initialised ==> session_ops(runs).take(5) == crate::led::init_ops(m),
        all_ops(runs[0].steps) == crate::led::startup_ops(m) + own_run_ops(m, runs[0]),
        forall|k: int|
            1 <= k < runs.len() ==> all_ops((#[trigger] runs[k]).steps) == own_run_ops(m, runs[k]),
{
    let up = crate::led::model_after(m);
    let rest = runs.drop_first();
    assert(valid_run(model_before(m, 0), runs[0]));
    lemma_run_ops(m, runs[0]);
    assert forall|k: int| 0 <= k < rest.len() implies valid_run(up, #[trigger] rest[k]) by {
        assert(rest[k] == runs[k + 1]);
        lemma_model_before(m, (k + 1) as nat);
    }
    lemma_session_of_up_device(m, rest);
    assert(session_ops(runs) =~= crate::led::startup_ops(m) + own_session_ops(m, runs));
    assert forall|k: int| 1 <= k < runs.len() implies all_ops((#[trigger] runs[k]).steps)
        == own_run_ops(m, runs[k]) by {
        assert(rest[k - 1] == runs[k]);
        lemma_run_ops(up, runs[k]);
        lemma_own_ops_do_not_change(m, runs[k]);
        assert(all_ops(runs[k].steps) =~= own_run_ops(m, runs[k]));
    }
    if !m.initialised {
        assert(session_ops(runs).take(5) =~= crate::led::init_ops(m));
    }
}

/// The brightness after the first `k` of some commands.
pub open spec fn brightness_at(
    m: LedModel,
    commands: Seq<AuraCommand>,
    brightness: u8,
    k: nat,
) -> u8
    decreases k,
{
    if k == 0 {
        brightness
    } else {
        crate::led::brightness_after(
            m,
            commands[k - 1],
            brightness_at(m, commands, brightness, (k - 1) as nat),
        )
    }
}

/// Over any sequence of commands a brightness within the limits stays within
/// them, and no command moves it by more than 1.
pub proof fn law_brightness_moves_within_limits(
    m: LedModel,
    commands: Seq<AuraCommand>,
    brightness: u8,
    k: nat,
)
    requires
        m.bright_min <= brightness <= m.bright_max,
        k <= commands.len(),
    ensures
        m.bright_min <= brightness_at(m, commands, brightness, k) <= m.bright_max,
        k > 0 ==> -1 <= brightness_at(m, commands, brightness, k) - brightness_at(
            m,
            commands,
            brightness,
            (k - 1) as nat,
        ) <= 1,
    decreases k,
{
    if k > 0 {
        law_brightness_moves_within_limits(m, commands, brightness, (k - 1) as nat);
    }
}

/// Steps up raise the brightness by 1 each until they reach the upper limit, and
/// steps down lower it until they reach the lower one; there they stay.
pub proof fn law_brightness_reaches_its_limits(
    m: LedModel,
    commands: Seq<AuraCommand>,
    brightness: u8,
    k: nat,
)
    requires
        m.bright_min <= brightness <= m.bright_max,
        k <= commands.len(),
    ensures
        (forall|j: int| 0 <= j < k ==> #[trigger] commands[j] is BrightInc) ==> brightness_at(
            m,
            commands,
            brightness,
            k,
        ) == vstd::math::min(brightness + k, m.bright_max as int),
        (forall|j: int| 0 <= j < k ==> #[trigger] commands[j] is BrightDec) ==> brightness_at(
            m,
            commands,
            brightness,
            k,
        ) == vstd::math::max(brightness - k, m.bright_min as int),
    decreases k,
{
    if k > 0 {
        law_brightness_reaches_its_limits(m, commands, brightness, (k - 1) as nat);
        if (forall|j: int| 0 <= j < k ==> #[trigger] commands[j] is BrightInc) {
            assert(commands[k - 1] is BrightInc);
        }
        if (forall|j: int| 0 <= j < k ==> #[trigger] commands[j] is BrightDec) {
            assert(commands[k - 1] is BrightDec);
        }
    }
}

/// The commands of some runs.
pub open spec fn commands_of(runs: Seq<LedRun>) -> Seq<AuraCommand> {
    Seq::new(runs.len(), |k: int| runs[k].command)
}

/// All commands change the brightness.
pub open spec fn brightness_commands(runs: Seq<LedRun>) -> bool {
    forall|k: int|
        #![trigger runs[k]]
        0 <= k < runs.len() ==> runs[k].command is BrightInc || runs[k].command is BrightDec
}

/// Each command finds the brightness that the one before left in the settings.
pub open spec fn brightness_is_kept(m: LedModel, runs: Seq<LedRun>) -> bool {
    forall|k: int|
        #![trigger runs[k]]
        1 <= k < runs.len() ==> runs[k].config.brightness == crate::led::brightness_after(
            m,
            runs[k - 1].command,
            runs[k - 1].config.brightness,
        )
}

/// The packets that set a brightness are marked as such.
pub open spec fn marks_brightness(p: Protocol) -> bool {
    forall|b: u8| (#[trigger] (p.brightness_bytes)(b))[1] == crate::led::BRIGHTNESS_PACKET
}

proof fn lemma_brightness_run(m: LedModel, p: Protocol, run: LedRun)
    requires
        valid_run(m, run),
        answered_by(p, run),
        run.steps.last().next is Finished,
        run.command is BrightInc || run.command is BrightDec,
        marks_brightness(p),
    ensures
        ended(run, Ok(())),
{
    let b = crate::led::brightness_after(m, run.command, run.config.brightness);
    if b != run.config.brightness {
        assert(run.answers.len() > 0);
        let first = run.answers[0];
        assert(first == LedAnswer::Packet((p.brightness_bytes)(b)));
        assert(run.steps[1].next is Ask);
        assert(run.answers.len() > 1);
        let second = run.answers[1];
        assert(run.steps[2].next == LedNext::<Seq<u8>>::Finished(Ok(())));
        if run.answers.len() > 2 {
            let third = run.answers[2];
            assert(false);
        }
    } else if run.answers.len() > 0 {
        let first = run.answers[0];
        assert(false);
    }
}

/// A sequence of steps up and down in brightness, each on the brightness that the
/// one before left: each command finds the brightness that counting the steps
/// gives, it is within the limits, and every command succeeds, provided that the
/// protocol marks the packets that set a brightness as such.
pub proof fn law_brightness_commands_succeed(m: LedModel, p: Protocol, runs: Seq<LedRun>, k: nat)
    requires
        valid_session(m, runs),
        served_by(p, runs),
        brightness_commands(runs),
        brightness_is_kept(m, runs),
        marks_brightness(p),
        k < runs.len(),
        m.bright_min <= runs[0].config.brightness <= m.bright_max,
    ensures
        runs[k as int].config.brightness == brightness_at(
            m,
            commands_of(runs),
            runs[0].config.brightness,
            k,
        ),
        m.bright_min <= runs[k as int].config.brightness <= m.bright_max,
        ended(runs[k as int], Ok(())),
    decreases k,
{
    let run = runs[k as int];
    lemma_brightness_run(model_before(m, k), p, run);
    law_brightness_moves_within_limits(m, commands_of(runs), runs[0].config.brightness, k);
    if k > 0 {
        law_brightness_commands_succeed(m, p, runs, (k - 1) as nat);
        assert(commands_of(runs)[k - 1] == runs[k - 1].command);
    }
}

/// A step in brightness and then one the other way both succeed and leave the
/// brightness as it was, where the first one is not held up by its limit and the
/// protocol marks the packets that set a brightness as such.
pub proof fn law_brightness_round_trip(m: LedModel, p: Protocol, runs: Seq<LedRun>)
    requires
        valid_session(m, runs),
        served_by(p, runs),
        brightness_is_kept(m, runs),
        marks_brightness(p),
        runs.len() == 2,
        m.bright_min <= runs[0].config.brightness <= m.bright_max,
        ({
            ||| {
                &&& runs[0].command is BrightInc
                &&& runs[1].command is BrightDec
                &&& runs[0].config.brightness < m.bright_max
            }
            ||| {
                &&& runs[0].command is BrightDec
                &&& runs[1].command is BrightInc
                &&& runs[0].config.brightness > m.bright_min
            }
        }),
    ensures
        ended(runs[0], Ok(())),
        ended(runs[1], Ok(())),
        brightness_at(m, commands_of(runs), runs[0].config.brightness, 2)
            == runs[0].config.brightness,
{
    law_brightness_commands_succeed(m, p, runs, 0);
    law_brightness_commands_succeed(m, p, runs, 1);
    reveal_with_fuel(brightness_at, 3);
    assert(commands_of(runs)[0] == runs[0].command);
    assert(commands_of(runs)[1] == runs[1].command);
}

/// The command goes to the next or the previous mode.
pub open spec fn goes(command: AuraCommand, direction: Direction) -> bool {
    match direction {
        Direction::Next => command is BuiltinNext,
        Direction::Prev => command is BuiltinPrev,
    }
}

/// The mode that a command to go to another one selects.
pub open spec fn selected(run: LedRun) -> u8 {
    run.steps[1].next->query->BuiltinBytes_0
}

/// For every mode of the device the settings hold a packet that names that mode
/// and belongs to no effect.
pub open spec fn stores_modes(p: Protocol, m: LedModel) -> bool {
    forall|mode: u8|
        #![trigger (p.stored)(mode)]
        m.modes.contains(mode) ==> {
            &&& (p.stored)(mode)[1] != crate::led::EFFECT_PACKET
            &&& (p.mode_of)((p.stored)(mode)[3]) == mode
        }
}

/// All commands go in one direction, and saving a packet makes its mode the one
/// in use: each command finds the mode that the one before selected.
pub open spec fn goes_on(p: Protocol, runs: Seq<LedRun>, direction: Direction) -> bool {
    &&& forall|k: int| 0 <= k < runs.len() ==> goes((#[trigger] runs[k]).command, direction)
    &&& forall|k: int|
        #![trigger runs[k]]
        1 <= k < runs.len() ==> runs[k].config.current_mode@[3] == (p.stored)(
            selected(runs[k - 1]),
        )[3]
}

proof fn lemma_builtin_run(m: LedModel, p: Protocol, run: LedRun, direction: Direction, i: int)
    requires
        crate::led::strictly_sorted(m.modes),
        valid_run(m, run),
        answered_by(p, run),
        run.steps.last().next is Finished,
        goes(run.command, direction),
        stores_modes(p, m),
        0 <= i < m.modes.len(),
        (p.mode_of)(run.config.current_mode@[3]) == m.modes[i],
    ensures
        selected(run) == m.modes[crate::led::neighbour(i, m.modes.len() as int, direction)],
        m.modes.contains(selected(run)),
        run.steps.last() == crate::led::finished(
            crate::led::saved_ops(crate::led::model_after(m), (p.stored)(selected(run))),
            Ok(()),
        ),
{
    let up = crate::led::model_after(m);
    let len = m.modes.len() as int;
    let mode = m.modes[i];
    assert(run.answers.len() > 0);
    let first = run.answers[0];
    assert(first == LedAnswer::<Seq<u8>>::Mode(mode));
    let j = choose|j: int|
        0 <= j < len && #[trigger] up.modes[j] == mode && run.steps[1]
            == crate::led::builtin_step(up, crate::led::neighbour(j, len, direction));
    assert(j == i) by {
        if j < i {
            assert(m.modes[j] < m.modes[i]);
        } else if i < j {
            assert(m.modes[i] < m.modes[j]);
        }
    }
    crate::led::law_neighbours_undo(i, len);
    let chosen = m.modes[crate::led::neighbour(i, len, direction)];
    assert(m.modes.contains(chosen));
    let bytes = (p.stored)(chosen);
    assert(run.answers.len() > 1);
    let second = run.answers[1];
    assert(second == LedAnswer::Packet(bytes));
    assert(run.answers.len() > 2);
    let third = run.answers[2];
    assert(third == LedAnswer::<Seq<u8>>::Mode(chosen));
    assert(run.steps[3] == crate::led::save_step(up, bytes, chosen));
    if run.answers.len() > 3 {
        let fourth = run.answers[3];
        assert(false);
    }
}

/// Commands that all go in one direction, each from the mode that the one before
/// selected, go through the supported modes in order and round: where no mode
/// stands twice and the mode in use is at first the one at `i`, the command at
/// index `k` selects the mode `k + 1` places on. Its packet is written, set,
/// applied and saved, and the command succeeds.
pub proof fn law_builtin_modes_go_round(
    m: LedModel,
    p: Protocol,
    runs: Seq<LedRun>,
    direction: Direction,
    i: int,
    k: nat,
)
    requires
        crate::led::strictly_sorted(m.modes),
        valid_session(m, runs),
        served_by(p, runs),
        goes_on(p, runs, direction),
        stores_modes(p, m),
        k < runs.len(),
        0 <= i < m.modes.len(),
        (p.mode_of)(runs[0].config.current_mode@[3]) == m.modes[i],
    ensures
        selected(runs[k as int]) == m.modes[crate::led::places_on(
            i,
            m.modes.len() as int,
            direction,
            k + 1,
        )],
        runs[k as int].steps.last() == crate::led::finished(
            crate::led::saved_ops(
                crate::led::model_after(m),
                (p.stored)(selected(runs[k as int])),
            ),
            Ok(()),
        ),
    decreases k,
{
    let len = m.modes.len() as int;
    let before = model_before(m, k);
    lemma_model_before(m, k);
    let at = crate::led::places_on(i, len, direction, k);
    crate::led::law_steps_are_counted_round(i, len, direction, k);
    crate::led::law_steps_are_counted_round(i, len, direction, (k + 1) as nat);
    if k > 0 {
        law_builtin_modes_go_round(m, p, runs, direction, i, (k - 1) as nat);
        let previous = selected(runs[k - 1]);
        assert(at == crate::led::places_on(i, len, direction, ((k - 1) as nat) + 1));
        assert(m.modes.contains(m.modes[at]));
        assert((p.mode_of)((p.stored)(previous)[3]) == previous);
    }
    assert(goes(runs[k as int].command, direction));
    lemma_builtin_run(before, p, runs[k as int], direction, at);
}

/// A command among some selects the mode.
pub open spec fn selects(runs: Seq<LedRun>, mode: u8) -> bool {
    exists|k: int| 0 <= k < runs.len() && selected(#[trigger] runs[k]) == mode
}

proof fn lemma_once_round(modes: Seq<u8>, direction: Direction, i: int, chosen: Seq<u8>)
    requires
        crate::led::strictly_sorted(modes),
        0 <= i < modes.len(),
        chosen.len() == modes.len(),
        forall|k: int|
            0 <= k < chosen.len() ==> #[trigger] chosen[k] == modes[crate::led::steps(
                i,
                modes.len() as int,
                direction,
                (k + 1) as nat,
            )],
    ensures
        chosen.last() == modes[i],
        forall|mode: u8| modes.contains(mode) ==> #[trigger] chosen.contains(mode),
        forall|k: int, l: int| 0 <= k < l < chosen.len() ==> chosen[k] != chosen[l],
{
    let len = modes.len() as int;
    crate::led::law_full_circle(i, len, direction);
    assert forall|mode: u8| modes.contains(mode) implies #[trigger] chosen.contains(mode) by {
        let j = choose|j: int| 0 <= j < len && modes[j] == mode;
        assert(crate::led::comes_to(i, len, direction, j));
        let k = choose|k: nat|
            1 <= k <= len && #[trigger] crate::led::steps(i, len, direction, k) == j;
        assert(chosen[k - 1] == mode);
    }
    assert forall|k: int, l: int| 0 <= k < l < chosen.len() implies chosen[k] != chosen[l] by {
        let a = crate::led::steps(i, len, direction, (k + 1) as nat);
        let b = crate::led::steps(i, len, direction, (l + 1) as nat);
        assert(a != b);
        crate::led::law_steps_are_counted_round(i, len, direction, (k + 1) as nat);
        crate::led::law_steps_are_counted_round(i, len, direction, (l + 1) as nat);
        assert(chosen[k] == modes[a] && chosen[l] == modes[b]);
        if a < b {
            assert(modes[a] < modes[b]);
        } else {
            assert(modes[b] < modes[a]);
        }
    }
}

/// As many commands in one direction as there are modes select every supported
/// mode, none of them twice, and come back to the mode that was in use at first.
pub proof fn law_every_mode_is_selected_once(
    m: LedModel,
    p: Protocol,
    runs: Seq<LedRun>,
    direction: Direction,
    i: int,
)
    requires
        crate::led::strictly_sorted(m.modes),
        valid_session(m, runs),
        served_by(p, runs),
        goes_on(p, runs, direction),
        stores_modes(p, m),
        runs.len() == m.modes.len(),
        0 <= i < m.modes.len(),
        (p.mode_of)(runs[0].config.current_mode@[3]) == m.modes[i],
    ensures
        selected(runs.last()) == m.modes[i],
        forall|mode: u8| m.modes.contains(mode) ==> #[trigger] selects(runs, mode),
        forall|k: int, l: int|
            0 <= k < l < runs.len() ==> selected(#[trigger] runs[k]) != selected(
                #[trigger] runs[l],
            ),
{
    let len = m.modes.len() as int;
    let chosen = Seq::new(runs.len(), |k: int| selected(runs[k]));
    assert forall|k: int| 0 <= k < chosen.len() implies #[trigger] chosen[k]
        == m.modes[crate::led::steps(i, len, direction, (k + 1) as nat)] by {
        law_builtin_modes_go_round(m, p, runs, direction, i, k as nat);
        crate::led::law_steps_are_counted_round(i, len, direction, (k + 1) as nat);
    }
    lemma_once_round(m.modes, direction, i, chosen);
    assert forall|mode: u8| m.modes.contains(mode) implies #[trigger] selects(runs, mode) by {
        assert(chosen.contains(mode));
        let k = choose|k: int| 0 <= k < chosen.len() && chosen[k] == mode;
        assert(selected(runs[k]) == mode);
    }
    assert forall|k: int, l: int| 0 <= k < l < runs.len() implies selected(#[trigger] runs[k])
        != selected(#[trigger] runs[l]) by {
        assert(chosen[k] != chosen[l]);
    }
}

} // verus!
