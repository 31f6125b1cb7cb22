use rog_core::config::{Config, ModePerformance, PowerProfile};
use rog_core::led::{
    AuraCommand, AuraError, Direction, LedAction, LedAnswer, LedNext, LedPending, LedQuery,
    LedStep, LedWriter, LED_APPLY, LED_INIT1, LED_INIT2, LED_INIT3, LED_INIT4, LED_INIT5, LED_SET,
};

const ENDPOINT: u8 = 0x04;

fn config(brightness: u8, mode: u8) -> Config {
    let profile = PowerProfile {
        min_percentage: 0,
        max_percentage: 100,
        no_turbo: false,
    };
    Config {
        fan_mode: 0,
        brightness,
        current_mode: vec![0x5d, 0xb3, 0, mode],
        mode_performance: ModePerformance {
            normal: profile,
            boost: profile,
            silent: profile,
        },
    }
}

fn writer() -> LedWriter {
    LedWriter::new(ENDPOINT, (1, 3), vec![0, 1, 3, 10])
}

/// A writer whose device is up.
fn ready() -> LedWriter {
    let mut writer = writer();
    let step = writer.do_command(AuraCommand::WriteEffect(vec![]), &mut config(1, 0));
    assert_eq!(step.actions, startup());
    writer
}

fn write(message: &[u8]) -> LedAction<Vec<u8>> {
    LedAction::Write {
        endpoint: ENDPOINT,
        message: message.to_vec(),
        timeout_ms: 5,
    }
}

fn startup() -> Vec<LedAction<Vec<u8>>> {
    vec![
        write(&[0x5d, 0xb9]),
        write(b"]ASUS Tech.Inc."),
        write(&[0x5d, 0x05, 0x20, 0x31, 0, 0x08]),
        write(b"^ASUS Tech.Inc."),
        write(&[0x5e, 0x05, 0x20, 0x31, 0, 0x08]),
    ]
}

fn saved(bytes: &[u8]) -> Vec<LedAction<Vec<u8>>> {
    vec![
        write(bytes),
        write(&LED_SET),
        write(&LED_APPLY),
        LedAction::Save {
            bytes: bytes.to_vec(),
        },
    ]
}

fn packet(kind: u8, mode: u8) -> Vec<u8> {
    let mut bytes = vec![0u8; 17];
    bytes[0] = 0x5d;
    bytes[1] = kind;
    bytes[3] = mode;
    bytes
}

fn finished(actions: Vec<LedAction<Vec<u8>>>) -> LedStep {
    LedStep {
        actions,
        next: LedNext::Finished(Ok(())),
    }
}

fn asking(query: LedQuery, pending: LedPending<Vec<u8>>) -> LedStep {
    LedStep {
        actions: vec![],
        next: LedNext::Ask { query, pending },
    }
}

/// Runs a command to its end, with stored packets that name their mode.
fn run(writer: &mut LedWriter, command: AuraCommand, config: &mut Config) -> (Vec<LedAction<Vec<u8>>>, Result<(), AuraError>, usize) {
    let mut step = writer.do_command(command, config);
    let mut actions = vec![];
    let mut answers = 0;
    loop {
        actions.append(&mut step.actions);
        step = match step.next {
            LedNext::Finished(result) => return (actions, result, answers),
            LedNext::Ask { query, pending } => {
                answers += 1;
                let answer = match query {
                    LedQuery::Mode(byte) => LedAnswer::Mode(byte),
                    LedQuery::BrightnessBytes(b) => {
                        let mut bytes = packet(0xba, 0xc4);
                        bytes[4] = b;
                        LedAnswer::Packet(bytes)
                    }
                    LedQuery::BuiltinBytes(mode) => LedAnswer::Packet(packet(0xb3, mode)),
                };
                assert!(writer.can_resume(&pending, &answer));
                writer.resume(pending, answer)
            }
        };
    }
}

#[test]
fn packets() {
    assert_eq!(LED_INIT1, [0x5d, 0xb9]);
    assert_eq!(&LED_INIT2, b"]ASUS Tech.Inc.");
    assert_eq!(LED_INIT3, [0x5d, 0x05, 0x20, 0x31, 0, 0x08]);
    assert_eq!(&LED_INIT4, b"^ASUS Tech.Inc.");
    assert_eq!(LED_INIT5, [0x5e, 0x05, 0x20, 0x31, 0, 0x08]);
    assert_eq!(LED_APPLY.len(), 17);
    assert_eq!(LED_APPLY[..2], [0x5d, 0xb4]);
    assert_eq!(LED_SET.len(), 17);
    assert_eq!(LED_SET[..2], [0x5d, 0xb5]);
    assert!(LED_APPLY[2..].iter().chain(LED_SET[2..].iter()).all(|b| *b == 0));
}

#[test]
fn device_is_brought_up_once() {
    let mut writer = writer();
    let mut config = config(3, 0);
    let first = writer.do_command(AuraCommand::BrightInc, &mut config);
    assert_eq!(first, finished(startup()));
    let second = writer.do_command(AuraCommand::BrightInc, &mut config);
    assert_eq!(second, finished(vec![]));
}

#[test]
fn device_can_be_brought_up_by_itself() {
    let mut writer = writer();
    assert_eq!(writer.initialise(), startup());
    assert_eq!(writer.initialise(), vec![]);
    let step = writer.do_command(AuraCommand::BrightInc, &mut config(3, 0));
    assert_eq!(step, finished(vec![]));
}

#[test]
fn gx502gw_has_its_own_setup() {
    let mut writer = LedWriter::for_gx502gw(ENDPOINT, (1, 3), vec![0]);
    assert_eq!(
        writer.initialise(),
        vec![
            write(&LED_INIT1),
            write(&LED_INIT3),
            write(&LED_INIT4),
            write(&LED_INIT2),
            write(&LED_INIT4),
        ]
    );
    assert_eq!(writer.initialise(), vec![]);
}

#[test]
fn brightness_up() {
    let mut writer = ready();
    let mut config = config(1, 0);
    let step = writer.do_command(AuraCommand::BrightInc, &mut config);
    assert_eq!(step, asking(LedQuery::BrightnessBytes(2), LedPending::Packet));
    assert_eq!(config.brightness, 2);
}

#[test]
fn brightness_down() {
    let mut writer = ready();
    let mut config = config(3, 0);
    let step = writer.do_command(AuraCommand::BrightDec, &mut config);
    assert_eq!(step, asking(LedQuery::BrightnessBytes(2), LedPending::Packet));
    assert_eq!(config.brightness, 2);
}

#[test]
fn brightness_at_its_limits() {
    let mut writer = ready();
    for (brightness, command) in [
        (3, AuraCommand::BrightInc),
        (200, AuraCommand::BrightInc),
        (1, AuraCommand::BrightDec),
        (0, AuraCommand::BrightDec),
    ] {
        let mut config = config(brightness, 0);
        assert_eq!(writer.do_command(command, &mut config), finished(vec![]));
        assert_eq!(config.brightness, brightness);
    }
}

#[test]
fn brightness_steps_undo_each_other() {
    let mut writer = ready();
    let mut config = config(2, 0);
    let (actions, result, answers) = run(&mut writer, AuraCommand::BrightInc, &mut config);
    let mut bytes = packet(0xba, 0xc4);
    bytes[4] = 3;
    assert_eq!(actions, saved(&bytes));
    assert_eq!(result, Ok(()));
    assert_eq!(answers, 2);
    assert_eq!(config.brightness, 3);
    run(&mut writer, AuraCommand::BrightDec, &mut config);
    assert_eq!(config.brightness, 2);
}

#[test]
fn builtin_modes_in_both_directions() {
    let writer = writer();
    for (direction, mode, chosen) in [
        (Direction::Next, 0, 1),
        (Direction::Next, 1, 3),
        (Direction::Next, 3, 10),
        (Direction::Next, 10, 0),
        (Direction::Prev, 0, 10),
        (Direction::Prev, 10, 3),
        (Direction::Prev, 3, 1),
        (Direction::Prev, 1, 0),
    ] {
        assert_eq!(
            writer.resume(LedPending::CurrentMode(direction), LedAnswer::Mode(mode)),
            asking(LedQuery::BuiltinBytes(chosen), LedPending::Packet)
        );
    }
    let single = LedWriter::new(ENDPOINT, (0, 3), vec![7]);
    for direction in [Direction::Next, Direction::Prev] {
        assert_eq!(
            single.resume(LedPending::CurrentMode(direction), LedAnswer::Mode(7)),
            asking(LedQuery::BuiltinBytes(7), LedPending::Packet)
        );
    }
    assert_eq!(
        writer.set_builtin(2),
        asking(LedQuery::BuiltinBytes(3), LedPending::Packet)
    );
}

#[test]
fn builtin_mode_from_the_current_one() {
    let mut writer = ready();
    let mut config = config(1, 3);
    assert_eq!(
        writer.do_command(AuraCommand::BuiltinNext, &mut config),
        asking(LedQuery::Mode(3), LedPending::CurrentMode(Direction::Next))
    );
    assert_eq!(
        writer.do_command(AuraCommand::BuiltinPrev, &mut config),
        asking(LedQuery::Mode(3), LedPending::CurrentMode(Direction::Prev))
    );
    assert_eq!(
        run(&mut writer, AuraCommand::BuiltinNext, &mut config),
        (saved(&packet(0xb3, 10)), Ok(()), 3)
    );
}

#[test]
fn every_builtin_mode_is_reached() {
    let writer = writer();
    let mut mode = 0;
    let mut seen = vec![];
    for _ in 0..4 {
        seen.push(mode);
        let step = writer.resume(LedPending::CurrentMode(Direction::Next), LedAnswer::Mode(mode));
        match step.next {
            LedNext::Ask {
                query: LedQuery::BuiltinBytes(chosen),
                pending: LedPending::Packet,
            } => mode = chosen,
            _ => unreachable!(),
        }
    }
    assert_eq!(seen, vec![0, 1, 3, 10]);
    assert_eq!(mode, 0);
}

#[test]
fn bytes_of_a_supported_mode() {
    let mut writer = ready();
    let bytes = packet(0xb3, 3);
    assert_eq!(
        run(&mut writer, AuraCommand::WriteBytes(bytes.clone()), &mut config(1, 0)),
        (saved(&bytes), Ok(()), 1)
    );
}

#[test]
fn bytes_of_the_brightness() {
    let mut writer = ready();
    let bytes = packet(0xba, 0xc4);
    assert_eq!(
        run(&mut writer, AuraCommand::WriteBytes(bytes.clone()), &mut config(1, 0)),
        (saved(&bytes), Ok(()), 1)
    );
}

#[test]
fn bytes_of_an_effect_pass_through() {
    let mut writer = ready();
    for mode in [0, 2] {
        let bytes = packet(0xbc, mode);
        assert_eq!(
            run(&mut writer, AuraCommand::WriteBytes(bytes.clone()), &mut config(1, 0)),
            (vec![write(&bytes)], Ok(()), 1)
        );
    }
}

#[test]
fn bytes_of_another_mode_are_refused() {
    let mut writer = writer();
    assert_eq!(
        run(&mut writer, AuraCommand::WriteBytes(packet(0xb3, 2)), &mut config(1, 0)),
        (startup(), Err(AuraError::NotSupported), 1)
    );
    assert_eq!(
        writer.set_and_save(&packet(0xb3, 2), 2),
        Err(AuraError::NotSupported)
    );
    // the mode counts, not the byte that names it
    assert_eq!(
        writer.set_and_save(&packet(0xb3, 2), 3),
        Ok(saved(&packet(0xb3, 2)))
    );
}

#[test]
fn effects_are_written_row_by_row() {
    let mut writer = writer();
    let rows = vec![vec![1, 2, 3], vec![], vec![4]];
    let (actions, result, answers) =
        run(&mut writer, AuraCommand::WriteEffect(rows.clone()), &mut config(1, 0));
    assert_eq!(actions[..5], startup()[..]);
    let sent: Vec<LedAction<Vec<u8>>> = rows
        .into_iter()
        .map(|message| LedAction::Write {
            endpoint: ENDPOINT,
            message,
            timeout_ms: 1,
        })
        .collect();
    assert_eq!(actions[5..], sent[..]);
    assert_eq!(result, Ok(()));
    assert_eq!(answers, 0);
}

#[test]
fn reload_sets_and_saves_the_stored_packet() {
    let mut writer = ready();
    let mut config = config(1, 2);
    assert_eq!(
        writer.do_command(AuraCommand::ReloadLast, &mut config),
        asking(LedQuery::BuiltinBytes(2), LedPending::Reload)
    );
    assert_eq!(
        run(&mut writer, AuraCommand::ReloadLast, &mut config),
        (saved(&packet(0xb3, 2)), Ok(()), 1)
    );
    assert_eq!(
        writer.reload_last_builtin(&[7]),
        finished(saved(&[7]))
    );
}

#[test]
fn several_messages_are_applied_together() {
    let writer = writer();
    let one: &[u8] = &[1, 2];
    let two: &[u8] = &[3];
    assert_eq!(
        writer.write_array_of_bytes(&[one, two]),
        vec![write(one), write(&LED_SET), write(two), write(&LED_SET), write(&LED_APPLY)]
    );
    assert_eq!(writer.write_array_of_bytes(&[]), vec![write(&LED_APPLY)]);
}

#[test]
fn inputs_that_cannot_be_started() {
    let whole = config(1, 0);
    let short = Config {
        current_mode: vec![0x5d, 0xb3, 0],
        ..config(1, 0)
    };
    for command in [AuraCommand::BuiltinNext, AuraCommand::BuiltinPrev, AuraCommand::ReloadLast] {
        assert!(LedWriter::can_start(&command, &whole));
        assert!(!LedWriter::can_start(&command, &short));
    }
    assert!(LedWriter::can_start(&AuraCommand::BrightInc, &short));
    assert!(LedWriter::can_start(&AuraCommand::WriteBytes(vec![0; 4]), &short));
    assert!(!LedWriter::can_start(&AuraCommand::WriteBytes(vec![0; 3]), &whole));
}

#[test]
fn answers_that_cannot_be_used() {
    let writer = writer();
    let current = LedPending::CurrentMode(Direction::Next);
    assert!(writer.can_resume(&current, &LedAnswer::Mode(3)));
    assert!(!writer.can_resume(&current, &LedAnswer::Mode(2)));
    assert!(!writer.can_resume(&current, &LedAnswer::Packet(vec![0; 17])));
    assert!(!writer.can_resume(&LedPending::Packet, &LedAnswer::Packet(vec![0; 3])));
    assert!(writer.can_resume(&LedPending::Reload, &LedAnswer::Packet(vec![])));
    let unsorted = LedWriter::new(ENDPOINT, (0, 3), vec![0, 3, 1]);
    assert!(!unsorted.can_resume(&current, &LedAnswer::Mode(3)));
    let empty = LedWriter::new(ENDPOINT, (0, 3), vec![]);
    assert!(!empty.can_resume(&current, &LedAnswer::Mode(0)));
}

/// Takes over into the settings what the actions save.
fn take_over(actions: &[LedAction<Vec<u8>>], config: &mut Config) {
    for action in actions {
        if let LedAction::Save { bytes } = action {
            if bytes[1] == 0xba {
                config.brightness = bytes[4];
            } else {
                config.current_mode = bytes[..4].to_vec();
            }
        }
    }
}

#[test]
fn setup_comes_first_and_once_over_many_commands() {
    let mut writer = writer();
    let mut config = config(1, 0);
    let (first, result, _) =
        run(&mut writer, AuraCommand::WriteBytes(packet(0xb3, 2)), &mut config);
    assert_eq!(first, startup());
    assert_eq!(result, Err(AuraError::NotSupported));
    let mut later = vec![];
    for command in [
        AuraCommand::BrightInc,
        AuraCommand::BuiltinNext,
        AuraCommand::WriteEffect(vec![vec![1]]),
        AuraCommand::ReloadLast,
        AuraCommand::BrightDec,
    ] {
        let (actions, result, _) = run(&mut writer, command, &mut config);
        assert_eq!(result, Ok(()));
        take_over(&actions, &mut config);
        later.extend(actions);
    }
    for packet in startup() {
        assert!(!later.contains(&packet));
    }
}

#[test]
fn brightness_over_many_commands() {
    let mut writer = ready();
    let mut config = config(1, 0);
    let mut seen = vec![];
    for command in [
        AuraCommand::BrightInc,
        AuraCommand::BrightInc,
        AuraCommand::BrightInc,
        AuraCommand::BrightDec,
        AuraCommand::BrightDec,
        AuraCommand::BrightDec,
        AuraCommand::BrightInc,
    ] {
        let (actions, result, _) = run(&mut writer, command, &mut config);
        assert_eq!(result, Ok(()));
        take_over(&actions, &mut config);
        seen.push(config.brightness);
    }
    assert_eq!(seen, vec![2, 3, 3, 2, 1, 1, 2]);
}

#[test]
fn builtin_commands_go_round() {
    let mut writer = ready();
    let mut config = config(1, 1);
    let mut seen = vec![];
    for _ in 0..4 {
        let (actions, result, _) = run(&mut writer, AuraCommand::BuiltinNext, &mut config);
        assert_eq!(result, Ok(()));
        take_over(&actions, &mut config);
        seen.push(config.current_mode[3]);
    }
    assert_eq!(seen, vec![3, 10, 0, 1]);
    seen.clear();
    for _ in 0..4 {
        let (actions, result, _) = run(&mut writer, AuraCommand::BuiltinPrev, &mut config);
        assert_eq!(result, Ok(()));
        take_over(&actions, &mut config);
        seen.push(config.current_mode[3]);
    }
    assert_eq!(seen, vec![0, 10, 3, 1]);
}
