use gpionext::config::{
    parse_pins_to_vpins, pin_to_vpin, upsert_mapping, Ads1115Entry, DeviceRow, GpioConfig,
    Mcp23017Entry, Pcf8574Entry,
};
use gpionext::constants::{ads1115_pin_id, available_pins, mcp23017_pin_id, pcf8574_pin_id};
use gpionext::ui::wizard::pins_string;
use gpionext::daemon::{
    apply_command, default_config_path, finish_reload, i2c_pin_warnings, i2c_start_plan,
    parse_args, parse_config_arg, status_response, DaemonCmd, RuntimeSettings,
};
use gpionext::i2c::ChipType;
use gpionext::ipc::PinState;
use gpionext::log::{days_to_ymd, log_line, logs_anything, timestamp};
use gpionext::presets::{apply_preset, axis_rows, btn, get_preset_names, get_preset_rows, presets};
use gpionext::ui::counts::{
    build_count_map, build_joypad_count_map, device_cell_lines_joypad, device_count_text,
    group_key,
};
use gpionext::ui::live_pins::{
    ads1115_vpin, build_mapping_label_map, live_rows, mcp23017_vpin, parse_addr, pcf8574_vpin,
    total_rows,
};

fn strs(v: &[&str]) -> Vec<String> {
    v.iter().map(|s| s.to_string()).collect()
}

#[test]
fn preset_names_and_rows() {
    assert_eq!(
        get_preset_names(),
        vec!["Adafruit Retrogame Bonnet", "Pimoroni Picade HAT", "Generic NES/SNES Pinout"]
    );
    let keys: Vec<&str> = presets().iter().map(|p| p.key).collect();
    assert_eq!(keys, vec!["adafruit_bonnet", "pimoroni_picade", "generic_nes"]);
    let rows = get_preset_rows("adafruit_bonnet");
    assert_eq!(rows.len(), 10);
    assert_eq!(rows[0], DeviceRow::new("Joypad 1", "DPAD 1 UP", "AXIS", "(3, 1, -255)", "11"));
    assert_eq!(rows[4], DeviceRow::new("Joypad 1", "Button A", "BUTTON", "304", "7"));
    assert_eq!(get_preset_rows("pimoroni_picade").len(), 13);
    let nes = get_preset_rows("generic_nes");
    assert_eq!(nes.len(), 8);
    assert_eq!(nes[7], DeviceRow::new("Joypad 1", "Select Button", "BUTTON", "314", "31"));
    assert!(get_preset_rows("unknown").is_empty());
}

#[test]
fn preset_row_helpers() {
    let a = axis_rows("Joypad 2", "DPAD 2", 1, 2, 3, 4);
    assert_eq!(a[3], DeviceRow::new("Joypad 2", "DPAD 2 RIGHT", "AXIS", "(3, 0, 255)", "4"));
    assert_eq!(btn("Joypad 1", "Button A", 304, 7), DeviceRow::new("Joypad 1", "Button A", "BUTTON", "304", "7"));
}

#[test]
fn preset_replaces_joypad_one_only() {
    let mut cfg = GpioConfig::default();
    upsert_mapping(&mut cfg, DeviceRow::new("Joypad 1", "Old", "BUTTON", "304", "40"));
    upsert_mapping(&mut cfg, DeviceRow::new("Keyboard", "ENTER", "KEY", "28", "13"));
    apply_preset(&mut cfg, "generic_nes");
    assert_eq!(cfg.devices.len(), 9);
    assert_eq!(cfg.devices[0].device, "Keyboard");
    assert!(cfg.devices.iter().all(|r| r.name != "Old"));
    apply_preset(&mut cfg, "nothing");
    assert_eq!(cfg.devices.len(), 1);
}

#[test]
fn calendar_dates() {
    assert_eq!(days_to_ymd(0), (1970, 1, 1));
    assert_eq!(days_to_ymd(59), (1970, 3, 1));
    assert_eq!(days_to_ymd(11016), (2000, 2, 29));
    assert_eq!(days_to_ymd(19737), (2024, 1, 15));
    assert_eq!(days_to_ymd(19782), (2024, 2, 29));
    assert_eq!(days_to_ymd(19783), (2024, 3, 1));
    assert_eq!(days_to_ymd(10956), (1999, 12, 31));
    assert_eq!(days_to_ymd(10957), (2000, 1, 1));
    assert_eq!(days_to_ymd(47540), (2100, 2, 28));
    assert_eq!(days_to_ymd(47541), (2100, 3, 1));
}

#[test]
fn log_timestamps_and_lines() {
    assert_eq!(timestamp(0), "1970-01-01 12:00:00AM");
    assert_eq!(timestamp(1705329045), "2024-01-15 02:30:45PM");
    assert_eq!(timestamp(43200), "1970-01-01 12:00:00PM");
    assert_eq!(timestamp(3599), "1970-01-01 12:59:59AM");
    assert_eq!(log_line("T", "started"), "T SYSTEM - started\n");
    assert!(logs_anything(true, false));
    assert!(logs_anything(false, true));
    assert!(!logs_anything(false, false));
}

#[test]
fn daemon_arguments() {
    let a = parse_args(&strs(&[]));
    assert_eq!(a.config_path, "/opt/gpionext/config/gpionext.json");
    assert_eq!(default_config_path(), "/opt/gpionext/config/gpionext.json");
    let a = parse_args(&strs(&[
        "--config", "/tmp/c.json", "--combo_delay", "80", "--debounce", "x", "--pins", "7,11",
        "--pulldown", "--dev", "--bogus", "--key_hold_delay",
    ]));
    assert_eq!(a.config_path, "/tmp/c.json");
    assert_eq!(a.combo_delay, Some(80));
    assert_eq!(a.debounce, None);
    assert_eq!(a.key_hold_delay, None);
    assert_eq!(a.pins.as_deref(), Some("7,11"));
    assert!(a.pulldown && a.dev && !a.debug && !a.use_i2c);
    assert_eq!(a.unknown, strs(&["--bogus"]));
}

#[test]
fn config_tool_argument() {
    assert_eq!(parse_config_arg(&strs(&["--config", "/a.json"])), Some("/a.json".to_string()));
    assert_eq!(parse_config_arg(&strs(&["x", "--config=/b.json"])), Some("/b.json".to_string()));
    assert_eq!(parse_config_arg(&strs(&["--config"])), None);
    assert_eq!(parse_config_arg(&strs(&[])), None);
}

#[test]
fn runtime_settings_merge() {
    let mut cfg = GpioConfig::default();
    cfg.daemon.pulldown = true;
    let args = parse_args(&strs(&["--combo_delay", "10", "--pins", "7, 11"]));
    let rt = RuntimeSettings::from(&cfg, &args);
    assert_eq!(rt.combo_delay, 10);
    assert_eq!(rt.key_hold_delay, 350);
    assert_eq!(rt.debounce, 1);
    assert_eq!(rt.pins, vec![7, 11]);
    assert!(rt.pulldown);
    assert!(!rt.use_i2c);
    cfg.i2c.ads1115.push(Ads1115Entry { bus: 1, address: "0x48".into() });
    let rt = RuntimeSettings::from(&cfg, &parse_args(&strs(&[])));
    assert!(rt.use_i2c);
    assert_eq!(rt.pins.len(), 19);
}

#[test]
fn i2c_warnings_and_plan() {
    assert_eq!(i2c_pin_warnings(&vec![3, 7, 5, 11]), vec![3, 5]);
    let mut cfg = GpioConfig::default();
    cfg.i2c.mcp23017.push(Mcp23017Entry { bus: 1, address: "0x20".into(), int_pin: "7".into() });
    cfg.i2c.mcp23017.push(Mcp23017Entry { bus: 1, address: "bad".into(), int_pin: "".into() });
    cfg.i2c.ads1115.push(Ads1115Entry { bus: 2, address: "0x49".into() });
    cfg.i2c.pcf8574.push(Pcf8574Entry { bus: 1, address: "0x21".into(), int_pin: "".into() });
    let plan = i2c_start_plan(&cfg);
    assert_eq!(plan.len(), 3);
    assert_eq!(plan[0].kind, ChipType::Mcp23017);
    assert_eq!(plan[0].address, 0x20);
    assert_eq!(plan[0].int_pin, Some(7));
    assert_eq!(plan[1].kind, ChipType::Pcf8574);
    assert_eq!(plan[1].address_text, "0x21");
    assert_eq!(plan[1].int_pin, None);
    assert_eq!(plan[2].kind, ChipType::Ads1115);
    assert_eq!(plan[2].bus, 2);
    assert_eq!(plan[2].address, 0x49);
}

#[test]
fn control_commands() {
    let mut cfg = GpioConfig::default();
    let mut rt = RuntimeSettings::from(&cfg, &parse_args(&strs(&[])));
    assert_eq!(status_response("1.2.0", 42), r#"{"ok":true,"version":"1.2.0","uptime_s":42}"#);
    let o = apply_command(DaemonCmd::Status, &mut rt, &mut cfg, "1.2.0", 7);
    assert_eq!(o.response.as_deref(), Some(r#"{"ok":true,"version":"1.2.0","uptime_s":7}"#));
    let o = apply_command(DaemonCmd::Stop, &mut rt, &mut cfg, "v", 0);
    assert!(o.stop);
    assert_eq!(o.response.as_deref(), Some(r#"{"ok":true,"msg":"Stopping"}"#));
    let o = apply_command(DaemonCmd::SetComboDelay(75), &mut rt, &mut cfg, "v", 0);
    assert!(o.save_config && o.restart);
    assert_eq!(rt.combo_delay, 75);
    assert_eq!(cfg.daemon.combo_delay, 75);
    assert_eq!(o.response.as_deref(), Some(r#"{"ok":true,"msg":"combo_delay=75ms"}"#));
    assert_eq!(o.log.as_deref(), Some("combo_delay set to 75ms"));
    let o = apply_command(DaemonCmd::SetDebounce(4), &mut rt, &mut cfg, "v", 0);
    assert_eq!(o.response.as_deref(), Some(r#"{"ok":true,"msg":"debounce=4ms"}"#));
    let o = apply_command(DaemonCmd::SetPins(vec![7, 11, 13]), &mut rt, &mut cfg, "v", 0);
    assert_eq!(o.response.as_deref(), Some(r#"{"ok":true,"msg":"pins=[7,11,13]"}"#));
    assert_eq!(cfg.daemon.pins, "7,11,13");
    assert_eq!(rt.pins, vec![7, 11, 13]);
    let o = apply_command(DaemonCmd::UseI2c(true), &mut rt, &mut cfg, "v", 0);
    assert!(rt.use_i2c && o.restart && !o.save_config);
    assert_eq!(o.response.as_deref(), Some(r#"{"ok":true,"msg":"use_i2c=true"}"#));
    let o = apply_command(DaemonCmd::Reload, &mut rt, &mut cfg, "v", 0);
    assert!(o.reload && o.response.is_none() && !o.restart);
}

#[test]
fn reload_results() {
    let args = parse_args(&strs(&[]));
    let mut cfg = GpioConfig::default();
    let mut rt = RuntimeSettings::from(&cfg, &args);
    let o = finish_reload(Err("no such file".into()), &args, &mut rt, &mut cfg);
    assert!(!o.restart);
    assert_eq!(o.response.as_deref(), Some(r#"{"ok":false,"msg":"load error: no such file"}"#));
    let mut loaded = GpioConfig::default();
    loaded.daemon.pins = "7,11".into();
    let o = finish_reload(Ok(loaded), &args, &mut rt, &mut cfg);
    assert!(o.restart);
    assert_eq!(o.response.as_deref(), Some(r#"{"ok":true,"msg":"Config reloaded"}"#));
    assert_eq!(o.log.as_deref(), Some("Reloaded via IPC"));
    assert_eq!(cfg.daemon.pins, "7,11");
    assert_eq!(rt.pins, vec![7, 11]);
}

#[test]
fn device_counts() {
    let mut cfg = GpioConfig::default();
    upsert_mapping(&mut cfg, DeviceRow::new("Joypad 1", "DPAD 1 UP", "AXIS", "(3, 1, -255)", "11"));
    upsert_mapping(&mut cfg, DeviceRow::new("Joypad 1", "DPAD 1 DOWN", "AXIS", "(3, 1, 255)", "13"));
    upsert_mapping(&mut cfg, DeviceRow::new("Joypad 1", "DPAD 2 UP", "AXIS", "(3, 1, -255)", "15"));
    upsert_mapping(&mut cfg, DeviceRow::new("Joypad 1", "Button A", "BUTTON", "304", "7"));
    upsert_mapping(&mut cfg, DeviceRow::new("Keyboard", "ENTER", "KEY", "28", "16"));
    upsert_mapping(&mut cfg, DeviceRow::new("Mouse", "X", "KEY", "1", "18"));
    assert_eq!(build_count_map(&cfg), vec![4, 0, 0, 0, 1, 0]);
    assert_eq!(build_joypad_count_map(&cfg), vec![(2, 1), (0, 0), (0, 0), (0, 0)]);
    assert_eq!(group_key("  DPAD 3  LEFT"), "DPAD 3");
    assert_eq!(group_key("Solo"), "Solo");
    assert_eq!(group_key(""), "");
    assert_eq!(device_cell_lines_joypad(0, 0), strs(&["", "(no mappings)"]));
    assert_eq!(device_cell_lines_joypad(1, 1), strs(&["", "1 Dpad/joystick", "1 button"]));
    assert_eq!(device_cell_lines_joypad(2, 0), strs(&["", "2 Dpads/joysticks"]));
    assert_eq!(device_cell_lines_joypad(0, 6), strs(&["", "6 buttons"]));
    assert_eq!(device_count_text(0), "(no mappings)");
    assert_eq!(device_count_text(1), "1 mapping");
    assert_eq!(device_count_text(12), "12 mappings");
}

#[test]
fn live_pin_numbers() {
    assert_eq!(parse_addr("0x21"), 0x21);
    assert_eq!(parse_addr("zz"), 0x20);
    assert_eq!(mcp23017_vpin(0x20, 'A', 0), 64);
    assert_eq!(mcp23017_vpin(0x20, 'B', 3), 75);
    assert_eq!(mcp23017_vpin(0x27, 'B', 7), 191);
    assert_eq!(mcp23017_vpin(0x30, 'A', 0), 255);
    assert_eq!(mcp23017_vpin(0x10, 'A', 1), 65);
    assert_eq!(ads1115_vpin(0x48, 2), 130);
    assert_eq!(ads1115_vpin(0x49, 0), 132);
    assert_eq!(pcf8574_vpin(0x21, 3), 203);
}

#[test]
fn live_monitor_rows() {
    let mut cfg = GpioConfig::default();
    upsert_mapping(&mut cfg, DeviceRow::new("Joypad 1", "Button A", "BUTTON", "304", "3"));
    upsert_mapping(&mut cfg, DeviceRow::new("Joypad 1", "Button B", "BUTTON", "305", "i2c-0x48-ch1"));
    cfg.i2c.ads1115.push(Ads1115Entry { bus: 1, address: "0x48".into() });
    let labels = build_mapping_label_map(&cfg);
    assert_eq!(labels.get(&3).map(|s| s.as_str()), Some("Joypad 1 / Button A"));
    assert_eq!(labels.get(&129).map(|s| s.as_str()), Some("Joypad 1 / Button B"));
    assert_eq!(total_rows(&cfg, 4), 26 + 4);
    assert_eq!(total_rows(&cfg, 1), 17 + 4);
    let mut state = PinState::new();
    let mut pins = vec![false; 256];
    pins[3] = true;
    pins[129] = true;
    state.apply_frame(pins);
    let rows = live_rows(&cfg, 4, &state);
    assert_eq!(rows.len(), 30);
    assert_eq!(rows[0].pin, "3");
    assert_eq!(rows[0].label, "GPIO2");
    assert!(rows[0].pressed);
    assert_eq!(rows[0].mapped, "Joypad 1 / Button A");
    assert_eq!(rows[1].mapped, "unmapped");
    assert!(!rows[1].pressed);
    assert_eq!(rows[27].pin, "129");
    assert_eq!(rows[27].label, "i2c-0x48-ch1");
    assert!(rows[27].pressed);
    assert_eq!(rows[27].mapped, "Joypad 1 / Button B");
}

#[test]
fn pin_ids_read_back() {
    assert_eq!(pin_to_vpin(&mcp23017_pin_id(0x21, 'B', 3)), Some(mcp23017_vpin(0x21, 'B', 3)));
    assert_eq!(mcp23017_vpin(0x21, 'B', 3), 91);
    assert_eq!(pin_to_vpin(&ads1115_pin_id(0x4a, 1)), Some(ads1115_vpin(0x4a, 1)));
    assert_eq!(pin_to_vpin(&pcf8574_pin_id(0x22, 5)), Some(pcf8574_vpin(0x22, 5)));
    assert_eq!(parse_pins_to_vpins(&pins_string(&vec![11, 13, 64])), vec![11, 13, 64]);
    assert_eq!(parse_pins_to_vpins(&pins_string(&vec![7])), vec![7]);
}

#[test]
fn preset_layout_shapes() {
    let modern = available_pins(3);
    for (key, n) in [("adafruit_bonnet", 10), ("pimoroni_picade", 13), ("generic_nes", 8)] {
        let rows = get_preset_rows(key);
        assert_eq!(rows.len(), n);
        for (i, r) in rows.iter().enumerate() {
            assert_eq!(r.device, "Joypad 1");
            let pin: u8 = r.pins.parse().unwrap();
            assert!(modern.contains(&pin));
            for q in &rows[..i] {
                assert_ne!(q.name, r.name);
                assert_ne!(q.pins, r.pins);
            }
        }
        let mut cfg = GpioConfig::default();
        upsert_mapping(&mut cfg, DeviceRow::new("Joypad 1", "Old", "BUTTON", "304", "40"));
        upsert_mapping(&mut cfg, DeviceRow::new("Keyboard", "ENTER", "KEY", "28", "13"));
        apply_preset(&mut cfg, key);
        let joypad: Vec<DeviceRow> = cfg.devices.iter().filter(|r| r.device == "Joypad 1").cloned().collect();
        assert_eq!(joypad, rows);
        assert_eq!(cfg.devices[0], DeviceRow::new("Keyboard", "ENTER", "KEY", "28", "13"));
    }
}
