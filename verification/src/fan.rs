//! Fan levels and the processor limits that go with them.

use crate::config::{Config, ModePerformance, PowerProfile};
use crate::text::decimal_line;
use crate::usb::RogCore;
use std::num::ParseIntError;
use vstd::prelude::*;
use vstd::std_specs::convert::FromSpecImpl;

verus! {

pub const FAN_TYPE_1_PATH: &'static str = "/sys/devices/platform/asus-nb-wmi/throttle_thermal_policy";

pub const FAN_TYPE_2_PATH: &'static str = "/sys/devices/platform/asus-nb-wmi/fan_boost_mode";

/// How hard the fans work.
#[derive(Clone, Copy, Debug, PartialEq, Eq, Structural)]
pub enum FanLevel {
    Normal,
    Boost,
    Silent,
}

/// The level that a number stands for; a number without a level of its own
/// stands for the normal one.
pub open spec fn level_of(n: u8) -> FanLevel {
    match n {
        1 => FanLevel::Boost,
        2 => FanLevel::Silent,
        _ => FanLevel::Normal,
    }
}

/// The number of a level.
pub open spec fn number_of(level: FanLevel) -> u8 {
    match level {
        FanLevel::Normal => 0,
        FanLevel::Boost => 1,
        FanLevel::Silent => 2,
    }
}

impl From<u8> for FanLevel {
    fn from(n: u8) -> (level: Self) {
        match n {
            0 => FanLevel::Normal,
            1 => FanLevel::Boost,
            2 => FanLevel::Silent,
            _ => FanLevel::Normal,
        }
    }
}

impl FromSpecImpl<u8> for FanLevel {
    open spec fn obeys_from_spec() -> bool {
        true
    }

    open spec fn from_spec(n: u8) -> Self {
        level_of(n)
    }
}

impl From<FanLevel> for u8 {
    fn from(n: FanLevel) -> (number: Self) {
        match n {
            FanLevel::Normal => 0,
            FanLevel::Boost => 1,
            FanLevel::Silent => 2,
        }
    }
}

impl FromSpecImpl<FanLevel> for u8 {
    open spec fn obeys_from_spec() -> bool {
        true
    }

    open spec fn from_spec(n: FanLevel) -> Self {
        number_of(n)
    }
}

/// One thing to do when the fan level changes. `S` is `String` in code and
/// `Seq<char>` in contracts. The first action that fails ends the change, as
/// `plan::next_action` says.
#[derive(Debug, PartialEq, Eq)]
pub enum FanAction<S> {
    /// Write the line to the fan control file.
    WriteControl(S),
    /// Put the limits of the level on the processor.
    SetPState(FanLevel),
    /// Make the number the fan mode of the settings.
    StoreFanMode(u8),
    /// Write the settings out.
    WriteConfig,
}

/// One limit to put on the processor. The first that fails ends the change, as
/// `plan::next_action` says.
#[derive(Clone, Copy, Debug, PartialEq, Eq, Structural)]
pub enum PStateAction {
    SetMinPerfPct(u8),
    SetMaxPerfPct(u8),
    SetNoTurbo(bool),
}

impl View for FanAction<String> {
    type V = FanAction<Seq<char>>;

    open spec fn view(&self) -> FanAction<Seq<char>> {
        match *self {
            FanAction::WriteControl(line) => FanAction::WriteControl(line@),
            FanAction::SetPState(level) => FanAction::SetPState(level),
            FanAction::StoreFanMode(n) => FanAction::StoreFanMode(n),
            FanAction::WriteConfig => FanAction::WriteConfig,
        }
    }
}

/// The actions as contracts see them.
pub open spec fn fan_ops(actions: Seq<FanAction<String>>) -> Seq<FanAction<Seq<char>>> {
    Seq::new(actions.len(), |i: int| actions[i]@)
}

/// The line that tells the fan control a mode.
pub open spec fn control_line(n: u8) -> Seq<char> {
    crate::text::decimal(n as nat).push('\n')
}

/// The mode that a fan control file holds, if it holds one.
pub open spec fn control_mode(text: Seq<char>) -> Option<u8> {
    crate::text::parsed_u8(crate::text::trimmed_end(text), 10)
}

/// The mode after `n`; the numbers go round.
pub open spec fn mode_after(n: u8) -> u8 {
    if n < 2 {
        (n + 1) as u8
    } else {
        0
    }
}

/// What brings a saved mode back.
pub open spec fn reload_ops(n: u8) -> Seq<FanAction<Seq<char>>> {
    seq![FanAction::WriteControl(control_line(n)), FanAction::SetPState(level_of(n))]
}

/// What changes to a mode and keeps it.
pub open spec fn change_ops(n: u8) -> Seq<FanAction<Seq<char>>> {
    seq![
        FanAction::WriteControl(control_line(n)),
        FanAction::SetPState(level_of(n)),
        FanAction::StoreFanMode(n),
        FanAction::WriteConfig,
    ]
}

/// The limits for a level.
pub open spec fn profile_of(performance: ModePerformance, level: FanLevel) -> PowerProfile {
    match level {
        FanLevel::Normal => performance.normal,
        FanLevel::Boost => performance.boost,
        FanLevel::Silent => performance.silent,
    }
}

/// What puts limits on the processor.
pub open spec fn pstate_ops(profile: PowerProfile) -> Seq<PStateAction> {
    seq![
        PStateAction::SetMinPerfPct(profile.min_percentage),
        PStateAction::SetMaxPerfPct(profile.max_percentage),
        PStateAction::SetNoTurbo(profile.no_turbo),
    ]
}

/// The fan control file, given which of the two kinds there is.
pub fn fan_control_path(type_1_exists: bool, type_2_exists: bool) -> (path: Option<&'static str>)
    ensures
        match path {
            Some(path) => if type_1_exists {
                path@ == FAN_TYPE_1_PATH@
            } else {
                type_2_exists && path@ == FAN_TYPE_2_PATH@
            },
            None => !type_1_exists && !type_2_exists,
        },
{
    if type_1_exists {
        Some(FAN_TYPE_1_PATH)
    } else if type_2_exists {
        Some(FAN_TYPE_2_PATH)
    } else {
        None
    }
}

impl RogCore {
    /// What brings the saved fan mode back: nothing where there is no fan
    /// control file.
    pub fn reload(&self, control_found: bool, config: &Config) -> (actions: Vec<FanAction<String>>)
        ensures
            fan_ops(actions@) == if control_found {
                reload_ops(config.fan_mode)
            } else {
                Seq::empty()
            },
    {
        let mut actions: Vec<FanAction<String>> = Vec::new();
        if control_found {
            actions.push(FanAction::WriteControl(decimal_line(config.fan_mode)));
            actions.push(FanAction::SetPState(FanLevel::from(config.fan_mode)));
            assert(fan_ops(actions@) =~= reload_ops(config.fan_mode));
        } else {
            assert(fan_ops(actions@) =~= Seq::empty());
        }
        actions
    }

    /// What goes on to the next fan mode, given what the fan control file
    /// holds, or `None` where there is no such file or it could not be read.
    pub fn fan_mode_step(&self, control: Option<&str>) -> (actions: Result<
        Vec<FanAction<String>>,
        ParseIntError,
    >)
        ensures
            match control {
                None => actions matches Ok(actions) && fan_ops(actions@) == Seq::<
                    FanAction<Seq<char>>,
                >::empty(),
                Some(text) => match control_mode(text@) {
                    Some(n) => actions matches Ok(actions) && fan_ops(actions@) == change_ops(
                        mode_after(n),
                    ),
                    None => actions == Err::<Vec<FanAction<String>>, _>(
                        crate::text::parse_error(crate::text::trimmed_end(text@), 10),
                    ),
                },
            },
    {
        let mut actions: Vec<FanAction<String>> = Vec::new();
        if let Some(text) = control {
            let mut n: u8 = match u8::from_str_radix(text.trim_end(), 10) {
                Ok(n) => n,
                Err(e) => return Err(e),
            };
            // wrap around the step number
            if n < 2 {
                n += 1;
            } else {
                n = 0;
            }
            actions.push(FanAction::WriteControl(decimal_line(n)));
            actions.push(FanAction::SetPState(FanLevel::from(n)));
            actions.push(FanAction::StoreFanMode(n));
            actions.push(FanAction::WriteConfig);
            assert(fan_ops(actions@) =~= change_ops(n));
        } else {
            assert(fan_ops(actions@) =~= Seq::<FanAction<Seq<char>>>::empty());
        }
        Ok(actions)
    }

    /// The limits for a fan level, from the settings as they were read again
    /// once the processor's limits were found to be adjustable, or none where
    /// they are not.
    pub fn set_pstate_for_fan_mode(&self, mode: FanLevel, reread: Option<&Config>) -> (actions: Vec<
        PStateAction,
    >)
        ensures
            actions@ == match reread {
                Some(config) => pstate_ops(profile_of(config.mode_performance, mode)),
                None => Seq::<PStateAction>::empty(),
            },
            reread is None ==> actions@.len() == 0,
            reread matches Some(config) ==> {
                let profile = match mode {
                    FanLevel::Normal => config.mode_performance.normal,
                    FanLevel::Boost => config.mode_performance.boost,
                    FanLevel::Silent => config.mode_performance.silent,
                };
                &&& actions@.len() == 3
                &&& actions@[0] == PStateAction::SetMinPerfPct(profile.min_percentage)
                &&& actions@[1] == PStateAction::SetMaxPerfPct(profile.max_percentage)
                &&& actions@[2] == PStateAction::SetNoTurbo(profile.no_turbo)
            },
    {
        let mut actions: Vec<PStateAction> = Vec::new();
        if let Some(config) = reread {
            let profile = match mode {
                FanLevel::Normal => config.mode_performance.normal,
                FanLevel::Boost => config.mode_performance.boost,
                FanLevel::Silent => config.mode_performance.silent,
            };
            actions.push(PStateAction::SetMinPerfPct(profile.min_percentage));
            actions.push(PStateAction::SetMaxPerfPct(profile.max_percentage));
            actions.push(PStateAction::SetNoTurbo(profile.no_turbo));
            assert(actions@ =~= pstate_ops(profile));
        }
        actions
    }
}

/// A level is the one that its number stands for.
pub proof fn law_level_of_number(level: FanLevel)
    ensures
        level_of(number_of(level)) == level,
{
}

/// A number up to 2 is that of its level; any greater one stands for the
/// normal level.
pub proof fn law_number_of_level(n: u8)
    ensures
        n <= 2 ==> number_of(level_of(n)) == n,
        n > 2 ==> level_of(n) == FanLevel::Normal,
{
}

/// A step always leads to a mode with a level of its own, from such a mode to
/// another level, and three steps lead back to where they started.
pub proof fn law_modes_go_round(n: u8)
    ensures
        mode_after(n) <= 2,
        n <= 2 ==> level_of(mode_after(n)) != level_of(n),
        n <= 2 ==> mode_after(mode_after(mode_after(n))) == n,
{
}

/// The fan control reads back as the mode that was last written to it.
pub proof fn law_control_reads_back(n: u8)
    ensures
        control_mode(control_line(n)) == Some(n),
{
    crate::text::law_decimal_line_reads_back(n);
}

/// A reload after a change of mode does to the fans and the processor what
/// the change did.
pub proof fn law_reload_repeats_change(n: u8)
    ensures
        change_ops(n).take(2) == reload_ops(n),
        change_ops(n)[2] == FanAction::<Seq<char>>::StoreFanMode(n),
{
    assert(change_ops(n).take(2) =~= reload_ops(n));
}

/// The mode becomes that of the settings, and the settings are written out, only
/// after the fan control took the mode and the processor took its limits.
pub proof fn law_mode_is_kept_after_success(n: u8, succeeds: spec_fn(nat) -> bool, k: nat)
    requires
        crate::plan::tries(change_ops(n).len(), succeeds, k),
        change_ops(n)[k as int] is StoreFanMode || change_ops(n)[k as int] is WriteConfig,
    ensures
        change_ops(n)[0] == FanAction::WriteControl(control_line(n)) && succeeds(0),
        change_ops(n)[1] == FanAction::<Seq<char>>::SetPState(level_of(n)) && succeeds(1),
        change_ops(n)[k as int] is WriteConfig ==> change_ops(n)[2] == FanAction::<
            Seq<char>,
        >::StoreFanMode(n) && succeeds(2),
{
    crate::plan::law_first_failure_ends_the_run(change_ops(n).len(), succeeds, k);
}

/// A limit is put on the processor only after those before it were: the lowest
/// performance comes first, then the highest, then turbo.
pub proof fn law_limits_come_in_order(
    profile: PowerProfile,
    succeeds: spec_fn(nat) -> bool,
    k: nat,
)
    requires
        crate::plan::tries(pstate_ops(profile).len(), succeeds, k),
    ensures
        pstate_ops(profile)[k as int] is SetMaxPerfPct ==> succeeds(0),
        pstate_ops(profile)[k as int] is SetNoTurbo ==> succeeds(0) && succeeds(1),
{
    crate::plan::law_first_failure_ends_the_run(pstate_ops(profile).len(), succeeds, k);
}

/// Contracts see every action of a list, in its place and with all that it
/// holds.
pub proof fn law_fan_actions_are_seen_in_full(actions: Seq<FanAction<String>>)
    ensures
        fan_ops(actions).len() == actions.len(),
        forall|k: int|
            0 <= k < actions.len() ==> match #[trigger] actions[k] {
                FanAction::WriteControl(line) => fan_ops(actions)[k] == FanAction::WriteControl(
                    line@,
                ),
                FanAction::SetPState(level) => fan_ops(actions)[k] == FanAction::<
                    Seq<char>,
                >::SetPState(level),
                FanAction::StoreFanMode(n) => fan_ops(actions)[k] == FanAction::<
                    Seq<char>,
                >::StoreFanMode(n),
                FanAction::WriteConfig => fan_ops(actions)[k] == FanAction::<
                    Seq<char>,
                >::WriteConfig,
            },
{
}

/// The numbers 0, 1 and 2 are those of the normal, the boost and the silent level;
/// every other number stands for the normal one.
pub proof fn law_which_number_is_which_level(n: u8)
    ensures
        level_of(n) == FanLevel::Boost <==> n == 1,
        level_of(n) == FanLevel::Silent <==> n == 2,
        number_of(FanLevel::Normal) == 0,
        number_of(FanLevel::Boost) == 1,
        number_of(FanLevel::Silent) == 2,
{
}

/// A step leads to the next number as long as there is one, and else to 0.
pub proof fn law_next_mode(n: u8)
    ensures
        n == 0 || n == 1 ==> mode_after(n) == n + 1,
        n >= 2 ==> mode_after(n) == 0,
{
}

/// The limits for a level are the three fields of that level's profile, as they
/// are: the lowest performance, then the highest, then turbo.
pub proof fn law_limits_are_those_of_the_profile(performance: ModePerformance, level: FanLevel)
    ensures
        ({
            let limits = pstate_ops(profile_of(performance, level));
            &&& limits.len() == 3
            &&& level == FanLevel::Normal ==> {
                &&& limits[0] == PStateAction::SetMinPerfPct(performance.normal.min_percentage)
                &&& limits[1] == PStateAction::SetMaxPerfPct(performance.normal.max_percentage)
                &&& limits[2] == PStateAction::SetNoTurbo(performance.normal.no_turbo)
            }
            &&& level == FanLevel::Boost ==> {
                &&& limits[0] == PStateAction::SetMinPerfPct(performance.boost.min_percentage)
                &&& limits[1] == PStateAction::SetMaxPerfPct(performance.boost.max_percentage)
                &&& limits[2] == PStateAction::SetNoTurbo(performance.boost.no_turbo)
            }
            &&& level == FanLevel::Silent ==> {
                &&& limits[0] == PStateAction::SetMinPerfPct(performance.silent.min_percentage)
                &&& limits[1] == PStateAction::SetMaxPerfPct(performance.silent.max_percentage)
                &&& limits[2] == PStateAction::SetNoTurbo(performance.silent.no_turbo)
            }
        }),
{
}

/// The fan control holds the number that its text is without the white space at
/// its end, and no number where that is none.
pub proof fn law_control_is_read_without_its_end(number: Seq<char>, space: Seq<char>)
    requires
        number.len() == 0 || !crate::text::is_white_space(number.last()),
        forall|i: int| 0 <= i < space.len() ==> crate::text::is_white_space(#[trigger] space[i]),
    ensures
        control_mode(number + space) == crate::text::parsed_u8(number, 10),
{
    crate::text::law_trimmed_end(number, space);
}

/// A change of mode tells the fan control the number, as a line that reads back as
/// that number, puts the limits of its level on the processor, makes the number
/// that of the settings and writes them out: these four actions in this order.
pub proof fn law_change_tells_everyone_the_mode(n: u8)
    ensures
        change_ops(n).len() == 4,
        change_ops(n)[0] matches FanAction::WriteControl(line) && line == crate::text::decimal(
            n as nat,
        ).push('\n') && control_mode(line) == Some(n),
        change_ops(n)[1] matches FanAction::SetPState(level) && (n <= 2 ==> number_of(level) == n)
            && (n > 2 ==> level == FanLevel::Normal),
        change_ops(n)[2] == FanAction::<Seq<char>>::StoreFanMode(n),
        change_ops(n)[3] == FanAction::<Seq<char>>::WriteConfig,
{
    law_control_reads_back(n);
}

/// A reload tells the fan control the number, as a line that reads back as that
/// number, and puts the limits of its level on the processor, and nothing else.
pub proof fn law_reload_tells_the_mode(n: u8)
    ensures
        reload_ops(n).len() == 2,
        reload_ops(n)[0] matches FanAction::WriteControl(line) && line == crate::text::decimal(
            n as nat,
        ).push('\n') && control_mode(line) == Some(n),
        reload_ops(n)[1] matches FanAction::SetPState(level) && (n <= 2 ==> number_of(level) == n)
            && (n > 2 ==> level == FanLevel::Normal),
{
    law_control_reads_back(n);
}

} // verus!
