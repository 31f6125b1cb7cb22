use rog_core::config::{Config, ModePerformance, PowerProfile};
use rog_core::fan::{
    fan_control_path, FanAction, FanLevel, PStateAction, FAN_TYPE_1_PATH, FAN_TYPE_2_PATH,
};
use rog_core::plan::{next_action, Progress};
use rog_core::text::decimal_line;
use rog_core::usb::RogCore;

fn controller() -> RogCore {
    RogCore::new(&vec![], 0)
}

fn profile(n: u8) -> PowerProfile {
    PowerProfile {
        min_percentage: n,
        max_percentage: n + 50,
        no_turbo: n == 2,
    }
}

fn config(fan_mode: u8) -> Config {
    Config {
        fan_mode,
        brightness: 1,
        current_mode: vec![0x5d, 0xb3, 0, 0],
        mode_performance: ModePerformance {
            normal: profile(0),
            boost: profile(1),
            silent: profile(2),
        },
    }
}

fn change_to(n: u8, line: &str, level: FanLevel) -> Vec<FanAction<String>> {
    vec![
        FanAction::WriteControl(line.to_string()),
        FanAction::SetPState(level),
        FanAction::StoreFanMode(n),
        FanAction::WriteConfig,
    ]
}

#[test]
fn levels_and_numbers() {
    for n in 0..=2u8 {
        assert_eq!(u8::from(FanLevel::from(n)), n);
    }
    assert_eq!(FanLevel::from(1), FanLevel::Boost);
    assert_eq!(FanLevel::from(2), FanLevel::Silent);
    for n in 3..=255u8 {
        assert_eq!(FanLevel::from(n), FanLevel::Normal);
    }
}

#[test]
fn control_file_of_the_first_kind_is_preferred() {
    assert_eq!(fan_control_path(true, true), Some(FAN_TYPE_1_PATH));
    assert_eq!(fan_control_path(true, false), Some(FAN_TYPE_1_PATH));
    assert_eq!(fan_control_path(false, true), Some(FAN_TYPE_2_PATH));
    assert_eq!(fan_control_path(false, false), None);
    assert_eq!(
        FAN_TYPE_1_PATH,
        "/sys/devices/platform/asus-nb-wmi/throttle_thermal_policy"
    );
    assert_eq!(FAN_TYPE_2_PATH, "/sys/devices/platform/asus-nb-wmi/fan_boost_mode");
}

#[test]
fn steps_go_round() {
    let controller = controller();
    assert_eq!(
        controller.fan_mode_step(Some("0\n")).unwrap(),
        change_to(1, "1\n", FanLevel::Boost)
    );
    assert_eq!(
        controller.fan_mode_step(Some("1\n")).unwrap(),
        change_to(2, "2\n", FanLevel::Silent)
    );
    assert_eq!(
        controller.fan_mode_step(Some("2\n")).unwrap(),
        change_to(0, "0\n", FanLevel::Normal)
    );
    assert_eq!(
        controller.fan_mode_step(Some("255")).unwrap(),
        change_to(0, "0\n", FanLevel::Normal)
    );
}

#[test]
fn step_trims_the_end_only() {
    let controller = controller();
    let boost = change_to(1, "1\n", FanLevel::Boost);
    assert_eq!(controller.fan_mode_step(Some("0 \t\r\n\u{3000}\u{85}")).unwrap(), boost);
    assert_eq!(controller.fan_mode_step(Some("+000")).unwrap(), boost);
    assert!(controller.fan_mode_step(Some(" 0")).is_err());
    assert!(controller.fan_mode_step(Some("0\u{200b}")).is_err());
}

#[test]
fn step_refuses_what_is_no_mode() {
    let controller = controller();
    for text in ["", "\n", "+", "-0", "++1", "256", "1 1", "a", "0x1", "1_0", "999999999999"] {
        assert!(controller.fan_mode_step(Some(text)).is_err(), "{:?}", text);
    }
    assert_eq!(
        controller.fan_mode_step(Some("")).unwrap_err(),
        "".parse::<u8>().unwrap_err()
    );
    assert_eq!(
        controller.fan_mode_step(Some("300\n")).unwrap_err(),
        "300".parse::<u8>().unwrap_err()
    );
}

#[test]
fn step_without_control_does_nothing() {
    assert_eq!(controller().fan_mode_step(None), Ok(vec![]));
}

#[test]
fn reload_restores_the_saved_mode() {
    assert_eq!(
        controller().reload(true, &config(2)),
        vec![
            FanAction::WriteControl("2\n".to_string()),
            FanAction::SetPState(FanLevel::Silent),
        ]
    );
    assert_eq!(
        controller().reload(true, &config(200)),
        vec![
            FanAction::WriteControl("200\n".to_string()),
            FanAction::SetPState(FanLevel::Normal),
        ]
    );
    assert_eq!(controller().reload(false, &config(2)), vec![]);
}

#[test]
fn reload_repeats_what_a_step_did() {
    let step = controller().fan_mode_step(Some("1\n")).unwrap();
    assert_eq!(controller().reload(true, &config(2))[..], step[..2]);
}

#[test]
fn lines_read_back() {
    assert_eq!(decimal_line(0), "0\n");
    assert_eq!(decimal_line(10), "10\n");
    assert_eq!(decimal_line(105), "105\n");
    for n in 0..=255u8 {
        assert_eq!(decimal_line(n), format!("{:?}\n", n));
        let next = if n < 2 { n + 1 } else { 0 };
        let step = controller().fan_mode_step(Some(&decimal_line(n))).unwrap();
        assert_eq!(step[2], FanAction::StoreFanMode(next));
    }
}

#[test]
fn limits_come_from_the_profile_of_the_level() {
    let config = config(0);
    assert_eq!(
        controller().set_pstate_for_fan_mode(FanLevel::Normal, Some(&config)),
        vec![
            PStateAction::SetMinPerfPct(0),
            PStateAction::SetMaxPerfPct(50),
            PStateAction::SetNoTurbo(false),
        ]
    );
    assert_eq!(
        controller().set_pstate_for_fan_mode(FanLevel::Boost, Some(&config)),
        vec![
            PStateAction::SetMinPerfPct(1),
            PStateAction::SetMaxPerfPct(51),
            PStateAction::SetNoTurbo(false),
        ]
    );
    assert_eq!(
        controller().set_pstate_for_fan_mode(FanLevel::Silent, Some(&config)),
        vec![
            PStateAction::SetMinPerfPct(2),
            PStateAction::SetMaxPerfPct(52),
            PStateAction::SetNoTurbo(true),
        ]
    );
    assert_eq!(controller().set_pstate_for_fan_mode(FanLevel::Silent, None), vec![]);
}

/// The actions that are tried where the one at an index fails.
fn tried(actions: &Vec<FanAction<String>>, failing: usize) -> (usize, Progress) {
    let mut tried = 0;
    loop {
        match next_action(actions, tried, tried == failing + 1) {
            Progress::Perform(index) => {
                assert_eq!(index, tried);
                tried += 1;
            }
            end => return (tried, end),
        }
    }
}

#[test]
fn first_failure_ends_a_change() {
    let actions = controller().fan_mode_step(Some("0")).unwrap();
    // the control write fails, then the limits: the mode is not stored
    assert_eq!(tried(&actions, 0), (1, Progress::Stopped));
    assert_eq!(tried(&actions, 1), (2, Progress::Stopped));
    assert_eq!(actions[2], FanAction::StoreFanMode(1));
    assert_eq!(tried(&actions, 3), (4, Progress::Stopped));
    assert_eq!(tried(&actions, 4), (4, Progress::Finished));
    assert_eq!(next_action::<u8>(&vec![], 0, false), Progress::Finished);
    assert_eq!(next_action(&vec![1], 0, true), Progress::Stopped);
}
