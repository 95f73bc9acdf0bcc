use gpionext::config::{upsert_mapping, DeviceRow, GpioConfig};
use gpionext::i2c::ChipType;
use gpionext::ui::app_state::{App, ExportError, ImportError, Request};
use gpionext::ui::i2c_table::{apply_i2c_entry, i2c_row_label, i2c_rows_count, remove_i2c_by_index};
use gpionext::ui::keys::{Key, ModalAction, TabIndex};
use gpionext::ui::modals::{
    AddI2cModal, CommandInputModal, ConfirmModal, I2cEntry, I2cStep, MultiSelectModal,
    PinCaptureModal, SingleSelectModal, TextInputModal,
};
use gpionext::ui::wizard::{launch_add_wizard, pins_string, Modal, ModalKind, Purpose};

fn ch(c: char) -> Key {
    Key::Char { c, ctrl: false }
}

fn select_items(m: &Modal) -> Vec<String> {
    match &m.kind {
        ModalKind::SingleSelect(s) => s.items.clone(),
        _ => panic!("not a selection list"),
    }
}

#[test]
fn confirm_answers() {
    let m = ConfirmModal::new("T", "M");
    assert_eq!(m.answer(ch('y')), Some(true));
    assert_eq!(m.answer(ch('Y')), Some(true));
    assert_eq!(m.answer(ch('n')), Some(false));
    assert_eq!(m.answer(Key::Esc), Some(false));
    assert_eq!(m.answer(ch('x')), None);
    assert_eq!(m.answer(Key::Enter), None);
}

#[test]
fn text_input_editing() {
    let mut t = TextInputModal::new("Export", "Path:", "/tmp/a");
    assert_eq!(t.handle_key(Key::Backspace), None);
    assert_eq!(t.handle_key(ch('b')), None);
    assert_eq!(t.value, "/tmp/b");
    t.handle_key(ch('z'));
    t.handle_key(Key::Backspace);
    assert_eq!(t.value, "/tmp/b");
    assert_eq!(t.handle_key(Key::Enter), Some(Some("/tmp/b".to_string())));
    let mut e = TextInputModal::new("Export", "Path:", "");
    assert_eq!(e.handle_key(Key::Backspace), None);
    assert_eq!(e.handle_key(Key::Enter), Some(None));
    assert_eq!(e.handle_key(Key::Esc), Some(None));
}

#[test]
fn command_input_fields() {
    let mut c = CommandInputModal::new("Enter Command");
    assert_eq!(c.handle_key(Key::Enter), None);
    for k in "ls".chars() {
        c.handle_key(ch(k));
    }
    c.handle_key(Key::Tab);
    c.handle_key(Key::Backspace);
    c.handle_key(ch('x'));
    c.handle_key(ch('3'));
    c.handle_key(ch('0'));
    assert_eq!(c.timeout, "30");
    assert_eq!(c.handle_key(Key::Enter), Some(Some(("ls".to_string(), 30))));
    assert_eq!(c.handle_key(Key::Esc), Some(None));
}

#[test]
fn single_select_moves() {
    let mut s = SingleSelectModal::new("S", vec!["a".into(), "b".into(), "c".into()]);
    assert_eq!(s.selected, Some(0));
    s.handle_key(Key::Up);
    assert_eq!(s.selected, Some(0));
    s.handle_key(Key::Down);
    s.handle_key(ch('j'));
    s.handle_key(ch('j'));
    assert_eq!(s.selected, Some(2));
    s.handle_key(ch('k'));
    assert_eq!(s.handle_key(Key::Enter), Some(Some(1)));
    assert_eq!(s.handle_key(Key::Esc), Some(None));
    let empty = SingleSelectModal::new("S", Vec::new());
    assert_eq!(empty.selected, None);
}

#[test]
fn multi_select_toggles() {
    let mut m = MultiSelectModal::new("M", vec!["a".into(), "b".into(), "c".into()], vec![2, 9]);
    assert_eq!(m.checked, vec![false, false, true]);
    m.handle_key(ch(' '));
    m.handle_key(Key::Down);
    m.handle_key(Key::Down);
    m.handle_key(Key::Down);
    assert_eq!(m.cursor, 2);
    m.handle_key(ch(' '));
    assert_eq!(m.handle_key(Key::Enter), Some(vec![0]));
    assert_eq!(m.handle_key(Key::Esc), Some(Vec::new()));
}

#[test]
fn pin_capture_hold() {
    let mut c = PinCaptureModal::new("Hold pin for Button A");
    c.tick(false, vec![11], 0);
    assert_eq!(c.hold_pins, None);
    c.tick(true, vec![11], 100);
    assert_eq!(c.hold_since, Some(100));
    c.tick(true, vec![11], 900);
    assert_eq!(c.hold_since, Some(100));
    assert!(!c.hold_complete(1099));
    assert!(c.hold_complete(1100));
    assert_eq!(c.hold_progress_ms(50), 0);
    assert_eq!(c.hold_progress_ms(600), 500);
    assert_eq!(c.hold_progress_ms(5000), 1000);
    c.tick(true, vec![11, 13], 1200);
    assert_eq!(c.hold_since, Some(1200));
    assert!(!c.hold_complete(1300));
    c.tick(true, Vec::new(), 1300);
    assert_eq!(c.hold_pins, None);
    assert!(c.cancels(Key::Esc));
    assert!(!c.cancels(Key::Enter));
}

#[test]
fn add_i2c_dialog_steps() {
    let mut a = AddI2cModal::new();
    assert!(a.handle_key(Key::Down).is_none());
    assert!(a.handle_key(Key::Enter).is_none());
    assert_eq!(a.step, I2cStep::Bus);
    assert_eq!(a.address, "0x48");
    a.handle_key(Key::Backspace);
    a.handle_key(ch('3'));
    a.handle_key(Key::Enter);
    a.handle_key(Key::Backspace);
    a.handle_key(ch('9'));
    let done = a.handle_key(Key::Enter);
    match done {
        Some(Some(e)) => {
            assert_eq!(e.chip, ChipType::Ads1115);
            assert_eq!(e.bus, 3);
            assert_eq!(e.address, "0x49");
            assert_eq!(e.int_pin, "");
        }
        _ => panic!("dialog should have finished"),
    }
    let mut b = AddI2cModal::new();
    b.handle_key(Key::Enter);
    b.handle_key(Key::Enter);
    b.handle_key(Key::Enter);
    assert_eq!(b.step, I2cStep::IntPin);
    b.handle_key(ch('7'));
    match b.handle_key(Key::Enter) {
        Some(Some(e)) => {
            assert_eq!(e.chip, ChipType::Mcp23017);
            assert_eq!(e.bus, 1);
            assert_eq!(e.address, "0x20");
            assert_eq!(e.int_pin, "7");
        }
        _ => panic!("dialog should have finished"),
    }
    assert!(matches!(AddI2cModal::new().handle_key(Key::Esc), Some(None)));
}

#[test]
fn i2c_table_rows() {
    let mut cfg = GpioConfig::default();
    apply_i2c_entry(
        I2cEntry { chip: ChipType::Mcp23017, bus: 1, address: "0x20".into(), int_pin: "".into() },
        &mut cfg,
    );
    apply_i2c_entry(
        I2cEntry { chip: ChipType::Ads1115, bus: 1, address: "0x48".into(), int_pin: "7".into() },
        &mut cfg,
    );
    apply_i2c_entry(
        I2cEntry { chip: ChipType::Pcf8574, bus: 2, address: "0x21".into(), int_pin: "11".into() },
        &mut cfg,
    );
    assert_eq!(i2c_rows_count(&cfg), 3);
    assert_eq!(cfg.i2c.pcf8574[0].int_pin, "11");
    let labels: Vec<String> = (0..3).map(|i| i2c_row_label(&cfg, i)).collect();
    assert_eq!(labels, vec!["MCP23017 0x20", "ADS1115 0x48", "PCF8574 0x21"]);
    remove_i2c_by_index(&mut cfg, 1);
    assert_eq!(i2c_rows_count(&cfg), 2);
    assert_eq!(cfg.i2c.ads1115.len(), 0);
    remove_i2c_by_index(&mut cfg, 0);
    assert_eq!(cfg.i2c.mcp23017.len(), 0);
    assert_eq!(cfg.i2c.pcf8574.len(), 1);
}

#[test]
fn captured_pins_text() {
    assert_eq!(pins_string(&vec![11]), "11");
    assert_eq!(pins_string(&vec![11, 13]), "(11, 13)");
    assert_eq!(pins_string(&vec![64, 130, 7]), "(64, 130, 7)");
}

#[test]
fn wizard_adds_joypad_button() {
    let mut cfg = GpioConfig::default();
    let m = launch_add_wizard("Joypad 1".to_string()).expect("joypad wizard");
    assert_eq!(select_items(&m), vec!["Axis (D-Pad direction)".to_string(), "Button".to_string()]);
    let (m, a, quit) = m.handle_key(Key::Down, &mut cfg);
    assert!(a.is_none() && !quit);
    let (m, _, _) = m.unwrap().handle_key(Key::Enter, &mut cfg);
    let m = m.expect("button list");
    assert_eq!(select_items(&m)[0], "Start Button");
    let (m, _, _) = m.handle_key(Key::Enter, &mut cfg);
    let m = m.expect("pin capture");
    match &m.kind {
        ModalKind::PinCapture(c) => assert_eq!(c.title, "Hold pin for Start Button"),
        _ => panic!("expected a pin capture"),
    }
    let (m, a) = m.tick(true, vec![11], 0, &mut cfg);
    assert!(a.is_none());
    let (m, a) = m.unwrap().tick(true, vec![11], 1000, &mut cfg);
    assert!(m.is_none());
    assert!(matches!(a, Some(ModalAction::Save)));
    assert_eq!(cfg.devices, vec![DeviceRow::new("Joypad 1", "Start Button", "BUTTON", "315", "11")]);
}

#[test]
fn wizard_adds_axis_combo() {
    let mut cfg = GpioConfig::default();
    let m = launch_add_wizard("Joypad 2".to_string()).unwrap();
    let (m, _, _) = m.handle_key(Key::Enter, &mut cfg);
    let m = m.unwrap();
    assert_eq!(select_items(&m), vec!["UP", "DOWN", "LEFT", "RIGHT"]);
    let (m, _, _) = m.handle_key(Key::Down, &mut cfg);
    let (m, _, _) = m.unwrap().handle_key(Key::Enter, &mut cfg);
    let (m, _) = m.unwrap().tick(true, vec![11, 13], 5, &mut cfg);
    let (m, a) = m.unwrap().tick(true, vec![11, 13], 1005, &mut cfg);
    assert!(m.is_none());
    assert!(matches!(a, Some(ModalAction::Save)));
    assert_eq!(
        cfg.devices,
        vec![DeviceRow::new("Joypad 2", "DPAD 1 DOWN", "AXIS", "(3, 1, 255)", "(11, 13)")]
    );
}

#[test]
fn wizard_custom_command() {
    let mut cfg = GpioConfig::default();
    let m = launch_add_wizard("Commands".to_string()).unwrap();
    let items = select_items(&m);
    assert_eq!(items.len(), 7);
    assert_eq!(items[0], "Volume Up");
    assert_eq!(items[6], "Custom command...");
    let mut m = m;
    for _ in 0..6 {
        m = m.handle_key(Key::Down, &mut cfg).0.unwrap();
    }
    let (m, _, _) = m.handle_key(Key::Enter, &mut cfg);
    let mut m = m.unwrap();
    assert!(matches!(m.kind, ModalKind::CommandInput(_)));
    for k in "echo hi".chars() {
        m = m.handle_key(ch(k), &mut cfg).0.unwrap();
    }
    let (m, _, _) = m.handle_key(Key::Enter, &mut cfg);
    let m = m.unwrap();
    let (m, _) = m.tick(true, vec![7, 11], 0, &mut cfg);
    let (m, a) = m.unwrap().tick(true, vec![7, 11], 2000, &mut cfg);
    assert!(m.is_none());
    assert!(matches!(a, Some(ModalAction::Save)));
    assert_eq!(cfg.devices, vec![DeviceRow::new("Commands", "echo hi", "COMMAND", "echo hi", "7")]);
}

#[test]
fn wizard_capture_cancel_and_other_devices() {
    let mut cfg = GpioConfig::default();
    upsert_mapping(&mut cfg, DeviceRow::new("Keyboard", "ENTER", "KEY", "28", "13"));
    let before = cfg.devices.clone();
    let m = launch_add_wizard("Keyboard".to_string()).unwrap();
    assert_eq!(select_items(&m)[4], "ENTER");
    let (m, _, _) = m.handle_key(Key::Enter, &mut cfg);
    let (m, a, _) = m.unwrap().handle_key(Key::Esc, &mut cfg);
    assert!(m.is_none());
    assert!(matches!(a, Some(ModalAction::Save)));
    assert_eq!(cfg.devices, before);
    assert!(launch_add_wizard("Mouse".to_string()).is_none());
}

#[test]
fn app_tabs_quit_and_save() {
    let mut cfg = GpioConfig::default();
    let mut app = App::new(&cfg, 4);
    assert_eq!(app.tab, TabIndex::Devices);
    for _ in 0..4 {
        assert!(matches!(app.handle_key(Key::Tab, &mut cfg), (false, None)));
    }
    assert_eq!(app.tab, TabIndex::Devices);
    app.handle_key(Key::BackTab, &mut cfg);
    assert_eq!(app.tab, TabIndex::PresetsConfig);
    assert!(matches!(app.handle_key(ch('s'), &mut cfg), (false, Some(Request::Save))));
    assert!(app.handle_key(ch('q'), &mut cfg).0);
}

#[test]
fn app_device_delete_flow() {
    let mut cfg = GpioConfig::default();
    upsert_mapping(&mut cfg, DeviceRow::new("Joypad 1", "Button A", "BUTTON", "304", "11"));
    upsert_mapping(&mut cfg, DeviceRow::new("Keyboard", "ENTER", "KEY", "28", "13"));
    let mut app = App::new(&cfg, 4);
    app.handle_key(ch('d'), &mut cfg);
    match &app.modal {
        Some(Modal { kind: ModalKind::Confirm(c), purpose: Purpose::DeleteDevice(d) }) => {
            assert_eq!(c.message, "Delete all mappings for 'Joypad 1'?");
            assert_eq!(d, "Joypad 1");
        }
        _ => panic!("expected the delete question"),
    }
    app.handle_key(ch('x'), &mut cfg);
    assert!(app.modal.is_some());
    app.handle_key(ch('y'), &mut cfg);
    assert!(app.modal.is_none());
    assert_eq!(cfg.devices.len(), 1);
    assert_eq!(cfg.devices[0].device, "Keyboard");
    assert_eq!(app.devices_tab.selected, 0);
}

#[test]
fn app_mapping_flow() {
    let mut cfg = GpioConfig::default();
    upsert_mapping(&mut cfg, DeviceRow::new("Joypad 1", "Button A", "BUTTON", "304", "11"));
    upsert_mapping(&mut cfg, DeviceRow::new("Joypad 1", "Button B", "BUTTON", "305", "13"));
    let mut app = App::new(&cfg, 4);
    app.handle_key(Key::Right, &mut cfg);
    app.handle_key(Key::Left, &mut cfg);
    app.handle_key(Key::Enter, &mut cfg);
    assert_eq!(app.tab, TabIndex::Mappings);
    assert_eq!(app.mappings_tab.selected_device.as_deref(), Some("Joypad 1"));
    app.handle_key(Key::Down, &mut cfg);
    assert_eq!(app.mappings_tab.selected, Some(1));
    app.handle_key(Key::Down, &mut cfg);
    assert_eq!(app.mappings_tab.selected, Some(1));
    app.handle_key(ch('d'), &mut cfg);
    match &app.modal {
        Some(Modal { kind: ModalKind::Confirm(c), .. }) => {
            assert_eq!(c.message, "Delete 'Button B' from Joypad 1?")
        }
        _ => panic!("expected the delete question"),
    }
    let (quit, req) = app.handle_key(ch('y'), &mut cfg);
    assert!(!quit);
    assert!(matches!(req, Some(Request::Save)));
    assert_eq!(cfg.devices.len(), 1);
    assert_eq!(cfg.devices[0].name, "Button A");
}

#[test]
fn app_reports() {
    let mut cfg = GpioConfig::default();
    let mut app = App::new(&cfg, 4);
    app.save_done(None);
    assert_eq!(app.status_msg.as_deref(), Some("Saved."));
    app.save_done(Some("disk full".into()));
    assert_eq!(app.status_msg.as_deref(), Some("Save failed: disk full"));
    app.daemon_done(Some("no systemctl".into()));
    assert_eq!(app.status_msg.as_deref(), Some("Daemon error: no systemctl"));
    app.export_done("/tmp/x.json", Ok(()));
    assert_eq!(app.status_msg.as_deref(), Some("Exported to /tmp/x.json"));
    app.export_done("/tmp/x.json", Err(ExportError::Write("denied".into())));
    assert_eq!(app.status_msg.as_deref(), Some("Export failed: denied"));
    app.export_done("/tmp/x.json", Err(ExportError::Serialise("bad".into())));
    assert_eq!(app.status_msg.as_deref(), Some("Serialise error: bad"));
    assert!(app.import_done(Err(ImportError::Parse("eof".into())), &mut cfg).is_none());
    assert_eq!(app.status_msg.as_deref(), Some("Parse error: eof"));
    assert!(app.import_done(Err(ImportError::Read("missing".into())), &mut cfg).is_none());
    assert_eq!(app.status_msg.as_deref(), Some("Read error: missing"));
    let mut other = GpioConfig::default();
    other.daemon.debounce = 9;
    assert!(matches!(app.import_done(Ok(other), &mut cfg), Some(Request::Save)));
    assert_eq!(cfg.daemon.debounce, 9);
    let r = app.apply_modal_action(ModalAction::StatusMsg("hello".into()), &cfg);
    assert!(r.is_none());
    assert_eq!(app.status_msg.as_deref(), Some("hello"));
    let r = app.apply_modal_action(ModalAction::ExportConfig("/tmp/e.json".into()), &cfg);
    assert!(matches!(r, Some(Request::Export(p)) if p == "/tmp/e.json"));
    assert!(app.tab_hint().starts_with("n: add device"));
}

#[test]
fn chip_added_then_removed() {
    let mut cfg = GpioConfig::default();
    apply_i2c_entry(
        I2cEntry { chip: ChipType::Mcp23017, bus: 1, address: "0x20".into(), int_pin: "".into() },
        &mut cfg,
    );
    apply_i2c_entry(
        I2cEntry { chip: ChipType::Pcf8574, bus: 1, address: "0x21".into(), int_pin: "".into() },
        &mut cfg,
    );
    assert_eq!(i2c_rows_count(&cfg), 2);
    remove_i2c_by_index(&mut cfg, 1);
    assert_eq!(cfg.i2c.mcp23017.len(), 1);
    assert_eq!(cfg.i2c.mcp23017[0].address, "0x20");
    assert_eq!(cfg.i2c.pcf8574.len(), 0);
    assert_eq!(i2c_rows_count(&cfg), 1);
}

#[test]
fn removing_chip_drops_its_label() {
    let mut cfg = GpioConfig::default();
    apply_i2c_entry(
        I2cEntry { chip: ChipType::Mcp23017, bus: 1, address: "0x20".into(), int_pin: "".into() },
        &mut cfg,
    );
    apply_i2c_entry(
        I2cEntry { chip: ChipType::Mcp23017, bus: 1, address: "0x21".into(), int_pin: "".into() },
        &mut cfg,
    );
    apply_i2c_entry(
        I2cEntry { chip: ChipType::Ads1115, bus: 1, address: "0x48".into(), int_pin: "".into() },
        &mut cfg,
    );
    apply_i2c_entry(
        I2cEntry { chip: ChipType::Pcf8574, bus: 1, address: "0x22".into(), int_pin: "".into() },
        &mut cfg,
    );
    let before: Vec<String> = (0..i2c_rows_count(&cfg)).map(|i| i2c_row_label(&cfg, i)).collect();
    assert_eq!(before, vec!["MCP23017 0x20", "MCP23017 0x21", "ADS1115 0x48", "PCF8574 0x22"]);
    let devices = cfg.devices.clone();
    remove_i2c_by_index(&mut cfg, 1);
    let after: Vec<String> = (0..i2c_rows_count(&cfg)).map(|i| i2c_row_label(&cfg, i)).collect();
    assert_eq!(after, vec!["MCP23017 0x20", "ADS1115 0x48", "PCF8574 0x22"]);
    assert_eq!(cfg.devices, devices);
    remove_i2c_by_index(&mut cfg, 3);
    assert_eq!(i2c_rows_count(&cfg), 3);
}

#[test]
fn app_adds_chip_through_dialog() {
    let mut cfg = GpioConfig::default();
    let mut app = App::new(&cfg, 3);
    app.handle_key(Key::Tab, &mut cfg);
    app.handle_key(Key::Tab, &mut cfg);
    assert_eq!(app.tab, TabIndex::I2cSettings);
    app.handle_key(Key::F(2), &mut cfg);
    assert!(matches!(app.handle_key(ch('a'), &mut cfg), (false, None)));
    assert!(matches!(app.modal, Some(Modal { kind: ModalKind::AddI2c(_), .. })));
    app.handle_key(Key::Down, &mut cfg);
    app.handle_key(Key::Enter, &mut cfg);
    app.handle_key(Key::Enter, &mut cfg);
    assert!(app.modal.is_some());
    assert!(cfg.i2c.ads1115.is_empty());
    assert!(matches!(app.handle_key(Key::Enter, &mut cfg), (false, Some(Request::Save))));
    assert!(app.modal.is_none());
    assert_eq!(app.tab, TabIndex::I2cSettings);
    assert_eq!(cfg.i2c.ads1115.len(), 1);
    assert_eq!(cfg.i2c.ads1115[0].bus, 1);
    assert_eq!(cfg.i2c.ads1115[0].address, "0x48");
    assert!(app.handle_key(ch('q'), &mut cfg).0);
    assert!(app.modal.is_none());
    assert_eq!(app.tab, TabIndex::I2cSettings);
}
