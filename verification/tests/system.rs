use rog_core::keyboard::{InterruptRead, KeyboardReader};
use rog_core::rfkill::{AirplaneMode, CommandLine, RfkillList};
use rog_core::usb::{DeviceId, Interface, InterfaceDescriptor, RogCore, UsbError};

fn controller() -> RogCore {
    RogCore::new(&vec![], 0)
}

fn line(program: &str, args: &[&str]) -> CommandLine {
    CommandLine {
        program: program.to_string(),
        args: args.iter().map(|arg| arg.to_string()).collect(),
    }
}

fn toggled(stdout: &[u8]) -> AirplaneMode {
    controller().toggle_airplane_mode(RfkillList::Ended {
        success: true,
        stdout: stdout.to_vec(),
    })
}

fn descriptor(interface_number: u8, endpoints: &[u8]) -> InterfaceDescriptor {
    InterfaceDescriptor {
        interface_number,
        endpoints: endpoints.to_vec(),
    }
}

#[test]
fn suspend_command() {
    assert_eq!(controller().suspend_with_systemd(), line("systemctl", &["suspend"]));
}

#[test]
fn airplane_mode_unblocks_where_one_is_blocked() {
    assert_eq!(controller().list_rf_devices(), line("rfkill", &["list"]));
    let unblock = AirplaneMode::Switch(line("rfkill", &["unblock", "all"]));
    assert_eq!(toggled(b"0: phy0\n\tSoft blocked: yes\n\tHard blocked: no\n"), unblock);
    assert_eq!(toggled(b": yes"), unblock);
}

#[test]
fn airplane_mode_blocks_where_none_is_blocked() {
    let block = AirplaneMode::Switch(line("rfkill", &["block", "all"]));
    assert_eq!(toggled(b"0: phy0\n\tSoft blocked: no\n\tHard blocked: no\n"), block);
    assert_eq!(toggled(b""), block);
    assert_eq!(toggled(b":yes : ye"), block);
}

#[test]
fn airplane_mode_without_a_list() {
    assert_eq!(
        controller().toggle_airplane_mode(RfkillList::NotRun),
        AirplaneMode::NotListed
    );
    assert_eq!(
        controller().toggle_airplane_mode(RfkillList::Ended {
            success: false,
            stdout: b": yes".to_vec(),
        }),
        AirplaneMode::NotListed
    );
    assert_eq!(toggled(b": yes\xff"), AirplaneMode::Unreadable);
}

#[test]
fn first_matching_device() {
    let id = |vendor, product| DeviceId { vendor, product };
    let devices = vec![id(1, 2), id(0x0b05, 0x1866), id(3, 4), id(0x0b05, 0x1866)];
    assert_eq!(RogCore::get_device(&devices, 0x0b05, 0x1866), Ok(1));
    assert_eq!(RogCore::get_device(&devices, 0x0b05, 2), Err(UsbError::NoDevice));
    assert_eq!(RogCore::get_device(&vec![], 1, 2), Err(UsbError::NoDevice));
}

#[test]
fn last_interface_with_the_endpoint() {
    let interfaces = vec![
        Interface {
            descriptors: vec![descriptor(5, &[0x81]), descriptor(6, &[0x02, 0x04])],
        },
        Interface {
            descriptors: vec![descriptor(7, &[0x83]), descriptor(8, &[0x04, 0x04])],
        },
        Interface { descriptors: vec![] },
        Interface {
            descriptors: vec![descriptor(9, &[0x05])],
        },
    ];
    assert_eq!(RogCore::new(&interfaces, 0x04).interface(), 8);
    assert_eq!(RogCore::new(&interfaces, 0x02).interface(), 6);
    assert_eq!(RogCore::new(&interfaces, 0x05).interface(), 9);
}

#[test]
fn interface_without_the_endpoint() {
    let interfaces = vec![Interface {
        descriptors: vec![descriptor(5, &[0x81])],
    }];
    assert_eq!(RogCore::new(&interfaces, 0x04).interface(), 0);
    assert_eq!(RogCore::new(&vec![], 0x04).interface(), 0);
}

#[test]
fn keyboard_read() {
    let reader = KeyboardReader::new(0x83, vec![]);
    assert_eq!(
        reader.next_read(),
        InterruptRead {
            endpoint: 0x83,
            timeout_ms: 200,
        }
    );
}

#[test]
fn keyboard_reports() {
    let reader = KeyboardReader::new(0x83, vec![0x5a, 0x02]);
    for set in 1..=4 {
        let mut report = [0u8; 32];
        report[0] = 0x02;
        report[set] = 1;
        report[31] = 9;
        assert_eq!(reader.poll_keyboard(Some(report)), Some(report));
        report[0] = 0x03;
        assert_eq!(reader.poll_keyboard(Some(report)), None);
    }
}

#[test]
fn keyboard_releases_and_failed_reads() {
    let reader = KeyboardReader::new(0x83, vec![0x5a]);
    let mut report = [0u8; 32];
    report[0] = 0x5a;
    report[5] = 1;
    assert_eq!(reader.poll_keyboard(Some(report)), None);
    assert_eq!(reader.poll_keyboard(None), None);
    let none = KeyboardReader::new(0x83, vec![]);
    report[1] = 1;
    assert_eq!(none.poll_keyboard(Some(report)), None);
}
