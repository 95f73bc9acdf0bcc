use gpionext::config::{DeviceRow, GpioConfig};
use gpionext::core_start::{resolve_chip, resolve_monitor, resolve_start};
use gpionext::i2c::ChipType;
use gpionext::init_sys::{
    detect_init, read_pid, run_daemon_cmd, DaemonCmd, InitMarkers,
    InitSystem, LifecycleStep,
};
use gpionext::ipc::{pins_from_words, PinState};
use gpionext::peripheral::{
    axis_command_checked, build_peripherals, device_index, device_members, mask_has, mask_held, pressed_after_window, pressed_by, released_by, parse_axis_command,
    peripheral_from_record, peripherals_from_records, AxisError, EventType, PeripheralRecord,
    RecordError,
};
use gpionext::uinput::{
    command_parts, device_fd, dispatch_press, dispatch_release, joypad_capabilities,
    joypad_identity, keyboard_capabilities, keyboard_identity, name_field, next_generation,
    press_events, release_events, repeat_events, FollowUp, InputEvent,
};

fn row(device: &str, name: &str, t: &str, cmd: &str, pins: &str) -> DeviceRow {
    DeviceRow::new(device, name, t, cmd, pins)
}

#[test]
fn device_indices() {
    assert_eq!(device_index("Joypad 1"), 0);
    assert_eq!(device_index("Joypad 4"), 3);
    assert_eq!(device_index("Keyboard"), 4);
    assert_eq!(device_index("Commands"), 5);
    assert_eq!(device_index("Mouse"), 0);
}

#[test]
fn axis_commands() {
    assert_eq!(parse_axis_command("(3, 1, -255)"), Some((3, 1, -255)));
    assert_eq!(parse_axis_command(" (1,304,1) "), Some((1, 304, 1)));
    assert_eq!(parse_axis_command("(3, 1)"), None);
    assert_eq!(axis_command_checked("(3, 1)"), Err(AxisError::Shape));
    assert_eq!(axis_command_checked("(x, 1, 2)"), Err(AxisError::EventType));
    assert_eq!(axis_command_checked("(3, y, 2)"), Err(AxisError::EventCode));
    assert_eq!(axis_command_checked("(3, 1, z)"), Err(AxisError::PressValue));
}

#[test]
fn peripherals_from_table() {
    let mut cfg = GpioConfig::default();
    cfg.devices.push(row("Joypad 1", "Button A", "BUTTON", "304", "11"));
    cfg.devices.push(row("Joypad 1", "DPAD 1 UP", "AXIS", "(3, 1, -255)", "(11, 13, 11)"));
    cfg.devices.push(row("Keyboard", "ENTER", "KEY", "28", "i2c-0x20-A0"));
    cfg.devices.push(row("Commands", "Vol", "COMMAND", "amixer", "15"));
    cfg.devices.push(row("Joypad 1", "Bad", "BUTTON", "abc", "11"));
    cfg.devices.push(row("Joypad 1", "Nopins", "BUTTON", "304", "zz"));
    cfg.devices.push(row("Joypad 1", "Weird", "MOUSE", "1", "11"));
    let ps = build_peripherals(&cfg);
    assert_eq!(ps.len(), 4);
    assert_eq!(ps[0].event_type, EventType::Button { evdev_code: 304 });
    assert_eq!(ps[0].pin_mask, [1u64 << 11, 0, 0, 0]);
    assert_eq!(ps[1].pin_count, 2);
    assert_eq!(ps[1].event_type, EventType::Axis { evdev_type: 3, evdev_code: 1, press_value: -255 });
    assert_eq!(ps[2].device_index, 4);
    assert_eq!(ps[2].pin_mask, [0, 1, 0, 0]);
    assert_eq!(ps[3].event_type, EventType::Command { bash: "amixer".to_string() });
    assert_eq!(ps[3].device_index, 5);
}

#[test]
fn peripheral_records() {
    let rec = PeripheralRecord {
        name: "Start".to_string(),
        device_index: 9,
        kind: "BUTTON".to_string(),
        command: "315".to_string(),
        pins: vec![7, 7, 200],
    };
    let p = peripheral_from_record(&rec).ok().unwrap();
    assert_eq!(p.device_index, 5);
    assert_eq!(p.pin_count, 2);
    assert_eq!(p.pin_mask, [1u64 << 7, 0, 0, 1u64 << 8]);
    let bad = PeripheralRecord {
        name: "x".to_string(),
        device_index: 0,
        kind: "AXIS".to_string(),
        command: "(1, 2)".to_string(),
        pins: vec![],
    };
    assert_eq!(peripheral_from_record(&bad).err(), Some(RecordError::BadAxis(AxisError::Shape)));
    let unknown = PeripheralRecord {
        name: "x".to_string(),
        device_index: 0,
        kind: "WHEEL".to_string(),
        command: "1".to_string(),
        pins: vec![],
    };
    let list = vec![rec, unknown];
    assert_eq!(peripherals_from_records(&list).err(), Some(RecordError::UnknownKind));
}

#[test]
fn press_and_release_events() {
    let b = EventType::Button { evdev_code: 304 };
    assert_eq!(press_events(&b), vec![
        InputEvent { kind: 1, code: 304, value: 1 },
        InputEvent { kind: 0, code: 0, value: 0 },
    ]);
    assert_eq!(release_events(&b)[0], InputEvent { kind: 1, code: 304, value: 0 });
    let a = EventType::Axis { evdev_type: 3, evdev_code: 1, press_value: -255 };
    assert_eq!(press_events(&a)[0], InputEvent { kind: 3, code: 1, value: -255 });
    assert_eq!(release_events(&a)[0], InputEvent { kind: 3, code: 1, value: 0 });
    let c = EventType::Command { bash: "x".to_string() };
    assert_eq!(press_events(&c).len(), 0);
    assert_eq!(repeat_events(28)[0], InputEvent { kind: 1, code: 28, value: 2 });
    // codes are taken modulo 2^16
    assert_eq!(press_events(&EventType::Key { evdev_code: 65536 + 5 })[0].code, 5);
}

#[test]
fn shell_command_parts() {
    assert_eq!(command_parts("a ||| b|||  ||| c d "), vec!["a", "b", "c d"]);
    assert_eq!(command_parts("single"), vec!["single"]);
    assert_eq!(command_parts("   "), Vec::<String>::new());
    assert_eq!(command_parts("a||||b"), vec!["a", "|b"]);
}

#[test]
fn press_bookkeeping() {
    let mut pressed = false;
    let b = EventType::Button { evdev_code: 304 };
    let plan = dispatch_press(&mut pressed, &b);
    assert!(pressed);
    assert_eq!(plan.send.len(), 2);
    assert!(matches!(plan.follow_up, FollowUp::AwaitRelease));
    let again = dispatch_press(&mut pressed, &b);
    assert!(again.send.is_empty());
    assert!(matches!(again.follow_up, FollowUp::Nothing));
    let rel = dispatch_release(&mut pressed, &b);
    assert!(!pressed);
    assert_eq!(rel[0].value, 0);
    assert!(dispatch_release(&mut pressed, &b).is_empty());
    let k = EventType::Key { evdev_code: 28 };
    assert!(matches!(dispatch_press(&mut pressed, &k).follow_up, FollowUp::Repeat(28)));
    let mut p2 = false;
    let c = EventType::Command { bash: "a|||b".to_string() };
    let plan = dispatch_press(&mut p2, &c);
    assert!(!p2);
    match plan.follow_up {
        FollowUp::RunCommands(parts) => assert_eq!(parts, vec!["a", "b"]),
        _ => panic!("commands expected"),
    }
    assert_eq!(next_generation(u64::MAX), 0);
}

#[test]
fn device_setup() {
    let j = joypad_identity(2);
    assert_eq!(j.name, "GPIOnext Joypad 3");
    assert_eq!((j.vendor, j.product), (0x9999, 0x8888));
    assert_eq!(keyboard_identity().name, "GPIOnext Keyboard");
    let f = name_field("GPIOnext Keyboard".as_bytes());
    assert_eq!(f.len(), 80);
    assert_eq!(f[0], b'G');
    assert_eq!(f[17], 0);
    let long = vec![b'x'; 100];
    let g = name_field(&long);
    assert_eq!(g.len(), 80);
    assert_eq!(g[78], b'x');
    assert_eq!(g[79], 0);
    assert_eq!(joypad_identity(9).name, "GPIOnext Joypad 10");
    let mut cfg = GpioConfig::default();
    cfg.devices.push(row("Joypad 1", "A", "BUTTON", "304", "11"));
    cfg.devices.push(row("Joypad 1", "UP", "AXIS", "(3, 1, -255)", "13"));
    cfg.devices.push(row("Joypad 1", "K", "AXIS", "(1, 310, 1)", "15"));
    cfg.devices.push(row("Keyboard", "ENTER", "KEY", "28", "16"));
    let ps = build_peripherals(&cfg);
    let caps = joypad_capabilities(&ps);
    assert_eq!(caps.key_codes, vec![304, 310]);
    assert_eq!(caps.abs_axes.len(), 1);
    assert_eq!(caps.abs_axes[0].code, 1);
    assert_eq!(caps.abs_axes[0].flat, 15);
    assert_eq!(keyboard_capabilities(&ps).key_codes, vec![28]);
    let fds = [3, -1, -1, -1, 9];
    assert_eq!(device_fd(&fds, 4), 9);
    assert_eq!(device_fd(&fds, 7), -1);
}

#[test]
fn pin_state_snapshot() {
    let words = [1u64 << 11, 0, 0, 1u64 << 63];
    let pins = pins_from_words(words);
    assert_eq!(pins.len(), 256);
    let mut st = PinState::new();
    assert!(!st.connected);
    st.apply_frame(pins);
    assert!(st.connected);
    assert!(st.is_pressed(11));
    assert!(st.is_pressed(255));
    assert!(!st.is_pressed(12));
    assert_eq!(st.pressed_vpins(), vec![11, 255]);
    st.mark_disconnected();
    assert!(!st.connected);
    assert_eq!(st.pressed_vpins(), vec![11, 255]);
}

#[test]
fn init_systems() {
    let m = InitMarkers { systemd_private: false, run_s6: false, run_s6_rc: true, sbin_openrc: true, usr_sbin_openrc: false };
    assert_eq!(detect_init(&m), InitSystem::S6);
    let none = InitMarkers { systemd_private: false, run_s6: false, run_s6_rc: false, sbin_openrc: false, usr_sbin_openrc: false };
    assert_eq!(detect_init(&none), InitSystem::PidFile);
    match run_daemon_cmd(InitSystem::Systemd, DaemonCmd::Reload, false, false) {
        LifecycleStep::Run(argv) => assert_eq!(argv, vec!["systemctl", "reload", "gpionext"]),
        _ => panic!("run expected"),
    }
    match run_daemon_cmd(InitSystem::S6, DaemonCmd::Stop, true, false) {
        LifecycleStep::Run(argv) => assert_eq!(argv, vec!["s6-svc", "-d", "/run/service/gpionext"]),
        _ => panic!("run expected"),
    }
    match run_daemon_cmd(InitSystem::S6, DaemonCmd::Start, false, false) {
        LifecycleStep::Run(argv) => assert_eq!(argv, vec!["s6-rc", "-u", "up", "gpionext"]),
        _ => panic!("run expected"),
    }
    match run_daemon_cmd(InitSystem::OpenRC, DaemonCmd::Start, false, false) {
        LifecycleStep::Run(argv) => assert_eq!(argv, vec!["rc-service", "gpionext", "start"]),
        _ => panic!("run expected"),
    }
    match run_daemon_cmd(InitSystem::PidFile, DaemonCmd::Reload, false, false) {
        LifecycleStep::Signal { pid_path, signal } => {
            assert_eq!(pid_path, "/run/gpionext.pid");
            assert_eq!(signal, 1);
        }
        _ => panic!("signal expected"),
    }
    match run_daemon_cmd(InitSystem::PidFile, DaemonCmd::Stop, false, false) {
        LifecycleStep::Signal { pid_path, signal } => {
            assert_eq!(pid_path, "/run/gpionext.pid");
            assert_eq!(signal, 15);
        }
        _ => panic!("signal expected"),
    }
    assert_eq!(read_pid(" 1234\n"), Some(1234));
    assert_eq!(read_pid("abc"), None);
}

#[test]
fn core_start_defaults() {
    let o = resolve_start(None, Some(200), None, None, Some(vec![7]), None);
    assert_eq!(o.combo_delay_ms, 50);
    assert_eq!(o.key_hold_delay_ms, 200);
    assert_eq!(o.debounce_ms, 1);
    assert_eq!(o.pins, vec![7]);
    assert_eq!(o.pool_size, 8);
    let m = resolve_monitor(Some(true), None, None, None);
    assert!(m.pulldown && !m.open_devices);
    assert_eq!(m.pool_size, 4);
    let c = resolve_chip(ChipType::Ads1115, None, None, Some(4));
    assert_eq!((c.bus, c.address, c.int_pin), (1, 0x48, None));
    let c = resolve_chip(ChipType::Pcf8574, Some(0), None, Some(4));
    assert_eq!((c.bus, c.address, c.int_pin), (0, 0x20, Some(4)));
}

#[test]
fn pin_masks_and_device_members() {
    let mut cfg = GpioConfig::default();
    cfg.devices.push(row("Joypad 1", "Button A", "BUTTON", "304", "(11, 13)"));
    cfg.devices.push(row("Keyboard", "ENTER", "KEY", "28", "i2c-0x20-A0"));
    cfg.devices.push(row("Joypad 1", "Button B", "BUTTON", "305", "15"));
    let ps = build_peripherals(&cfg);
    assert_eq!(device_members(&ps, 0), vec![0, 2]);
    assert_eq!(device_members(&ps, 4), vec![1]);
    assert_eq!(device_members(&ps, 3), Vec::<usize>::new());
    assert!(mask_has(&ps[0].pin_mask, 11));
    assert!(mask_has(&ps[0].pin_mask, 13));
    assert!(!mask_has(&ps[0].pin_mask, 15));
    assert!(mask_has(&ps[1].pin_mask, 64));
    let mut pressed = vec![false; 256];
    pressed[11] = true;
    assert!(!mask_held(&ps[0].pin_mask, &pressed));
    pressed[13] = true;
    assert!(mask_held(&ps[0].pin_mask, &pressed));
    assert!(!mask_held(&ps[1].pin_mask, &vec![true; 10]));
    assert!(mask_held(&[0, 0, 0, 0], &Vec::new()));
    assert_eq!(pressed_by(&ps, 13, &pressed), vec![0]);
    pressed[13] = false;
    assert_eq!(pressed_by(&ps, 11, &pressed), Vec::<usize>::new());
    assert_eq!(released_by(&ps, 13), vec![0]);
    assert_eq!(released_by(&ps, 15), vec![2]);
    assert_eq!(released_by(&ps, 7), Vec::<usize>::new());
}

#[test]
fn combo_window_press() {
    let mut cfg = GpioConfig::default();
    cfg.devices.push(row("Joypad 1", "Hotkey", "BUTTON", "316", "(11, 13)"));
    cfg.devices.push(row("Joypad 1", "Button A", "BUTTON", "304", "11"));
    let ps = build_peripherals(&cfg);
    let mut pressed = vec![false; 256];
    pressed[11] = true;
    assert_eq!(pressed_after_window(&ps, 11, &pressed), vec![1]);
    pressed[13] = true;
    assert_eq!(pressed_after_window(&ps, 11, &pressed), vec![0, 1]);
    assert_eq!(pressed_after_window(&ps, 13, &pressed), vec![0]);
    pressed[11] = false;
    assert_eq!(pressed_after_window(&ps, 11, &pressed), Vec::<usize>::new());
    assert_eq!(pressed_after_window(&ps, 11, &Vec::new()), Vec::<usize>::new());
}
