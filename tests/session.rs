use pico_link::codec::encode;
use pico_link::command::{uniform_motor, Command, LedCommand};
use pico_link::link::{open_link, LinkState, ReadOutcome, ReaderAction, SendError};
use pico_link::port::{find_port, PortDescriptor, PortKind, ResolveError, UsbInfo};
use pico_link::sequencer::{hold_continues, ramp_plan, RAMP_PEAK};

fn level(c: &Command) -> i8 {
    match c {
        Command::MotorCommand(m) => {
            assert!(m.a == m.b && m.b == m.c && m.c == m.d);
            m.a
        }
        _ => panic!("not a motor command"),
    }
}

fn usb(name: &str, serial: Option<&str>) -> PortDescriptor {
    PortDescriptor {
        port_name: name.to_string(),
        port_type: PortKind::UsbPort(UsbInfo {
            vid: 0x2e8a,
            pid: 0x000a,
            serial_number: serial.map(|s| s.to_string()),
            manufacturer: None,
            product: None,
            interface: None,
        }),
    }
}

fn other(name: &str, kind: PortKind) -> PortDescriptor {
    PortDescriptor { port_name: name.to_string(), port_type: kind }
}

#[test]
fn ramp_up_shape() {
    let plan = ramp_plan(1, RAMP_PEAK);
    assert_eq!(plan.len(), 202);
    let levels: Vec<i8> = plan.iter().map(level).collect();
    for i in 0..=100usize {
        assert_eq!(levels[i], i as i8);
        assert_eq!(levels[201 - i], i as i8);
    }
    assert_eq!(levels[100], levels[101]);
}

#[test]
fn ramp_down_is_negated() {
    let up = ramp_plan(1, RAMP_PEAK);
    let down = ramp_plan(-1, RAMP_PEAK);
    assert_eq!(down.len(), 202);
    for i in 0..202 {
        assert_eq!(level(&down[i]), -level(&up[i]));
    }
    assert_eq!(level(&down[100]), -100);
}

#[test]
fn ramp_steps_differ_by_one() {
    let levels: Vec<i8> = ramp_plan(1, RAMP_PEAK).iter().map(level).collect();
    for i in 1..levels.len() {
        let d = (levels[i] as i16 - levels[i - 1] as i16).abs();
        if i == 101 {
            assert_eq!(d, 0);
        } else {
            assert_eq!(d, 1);
        }
    }
}

#[test]
fn ramp_to_zero_peak() {
    let plan = ramp_plan(-1, 0);
    assert_eq!(plan, vec![uniform_motor(0), uniform_motor(0)]);
}

#[test]
fn hold_lasts_five_seconds() {
    assert!(hold_continues(0));
    assert!(hold_continues(5000));
    assert!(!hold_continues(5001));
}

#[test]
fn find_port_matches_case_insensitively() {
    let ports = vec![
        other("/dev/ttyS0", PortKind::PciPort),
        usb("/dev/ttyACM0", Some("E660583883")),
        usb("/dev/ttyACM1", Some("PicoPlayGround")),
    ];
    assert_eq!(find_port(&ports), Ok("/dev/ttyACM1".to_string()));
}

#[test]
fn find_port_takes_first_match() {
    let ports = vec![
        usb("/dev/ttyACM3", Some("picoplayground")),
        usb("/dev/ttyACM1", Some("PICOPLAYGROUND")),
    ];
    assert_eq!(find_port(&ports), Ok("/dev/ttyACM3".to_string()));
}

#[test]
fn find_port_not_found() {
    let ports = vec![
        usb("/dev/ttyACM0", None),
        usb("/dev/ttyACM1", Some("picoplayground2")),
        usb("/dev/ttyACM2", Some("")),
        other("/dev/rfcomm0", PortKind::BluetoothPort),
        other("/dev/ttyUSB0", PortKind::Unknown),
    ];
    assert_eq!(find_port(&ports), Err(ResolveError::NotFound));
    assert_eq!(find_port(&vec![]), Err(ResolveError::NotFound));
}

#[test]
fn reader_fault_does_not_block_send() {
    let (writer, mut reader) = open_link();
    assert!(matches!(reader.on_read(ReadOutcome::Failed), ReaderAction::Stop));
    assert!(!reader.running);
    let cmd = uniform_motor(3);
    assert_eq!(writer.frame(&cmd), Ok(encode(&cmd)));
}

#[test]
fn reader_surfaces_text_and_waits_on_timeout() {
    let (_, mut reader) = open_link();
    match reader.on_read(ReadOutcome::Text("boot ok".to_string())) {
        ReaderAction::Surface(t) => assert_eq!(t, "boot ok"),
        _ => panic!("text not surfaced"),
    }
    assert!(matches!(reader.on_read(ReadOutcome::TimedOut(String::new())), ReaderAction::Wait));
    assert!(matches!(reader.on_read(ReadOutcome::Text(String::new())), ReaderAction::Wait));
    match reader.on_read(ReadOutcome::TimedOut("partial".to_string())) {
        ReaderAction::Surface(t) => assert_eq!(t, "partial"),
        _ => panic!("text before a timeout not surfaced"),
    }
    assert!(reader.running);
    assert!(matches!(reader.on_read(ReadOutcome::Failed), ReaderAction::Stop));
    assert!(matches!(reader.on_read(ReadOutcome::TimedOut(String::new())), ReaderAction::Stop));
}

#[test]
fn write_failure_faults_and_close_refuses() {
    let (mut writer, _) = open_link();
    let cmd = Command::LedCommand(LedCommand { status: true });
    assert_eq!(writer.record_write(true), Ok(()));
    assert_eq!(writer.state, LinkState::Open);
    assert_eq!(writer.record_write(false), Err(SendError::Io));
    assert_eq!(writer.state, LinkState::Faulted);
    assert_eq!(writer.frame(&cmd), Ok(vec![3, 2, 1, 0]));
    writer.close();
    assert_eq!(writer.frame(&cmd), Err(SendError::Closed));
    assert_eq!(writer.record_write(true), Err(SendError::Closed));
}
