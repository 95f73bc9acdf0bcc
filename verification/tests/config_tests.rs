use gpionext::config::{
    delete_device, delete_mapping, effective_pins, parse_hex_addr, parse_int_pin, parse_pins,
    parse_pins_to_vpins, pin_to_vpin, upsert_mapping, DaemonSettings, DeviceRow, GpioConfig,
    PinSpec,
};
use gpionext::constants::{ads1115_pin_id, mcp23017_pin_id, pcf8574_pin_id};

#[test]
fn upsert_replaces() {
    let mut cfg = GpioConfig::default();
    upsert_mapping(&mut cfg, DeviceRow::new("Joypad 1", "Button A", "BUTTON", "304", "11"));
    upsert_mapping(&mut cfg, DeviceRow::new("Joypad 1", "Button A", "BUTTON", "304", "15"));
    assert_eq!(cfg.devices.len(), 1);
    assert_eq!(cfg.devices[0].pins, "15");
}

#[test]
fn delete_mapping_works() {
    let mut cfg = GpioConfig::default();
    upsert_mapping(&mut cfg, DeviceRow::new("Joypad 1", "Button A", "BUTTON", "304", "11"));
    upsert_mapping(&mut cfg, DeviceRow::new("Joypad 1", "Button B", "BUTTON", "305", "13"));
    delete_mapping(&mut cfg, "Joypad 1", "Button A");
    assert_eq!(cfg.devices.len(), 1);
    assert_eq!(cfg.devices[0].name, "Button B");
}

#[test]
fn parse_pins_variants() {
    assert_eq!(parse_pins("11"), PinSpec::Single(11));
    assert_eq!(parse_pins("(11, 13)"), PinSpec::Combo(vec![11, 13]));
    assert_eq!(parse_pins("i2c-0x20-A0"), PinSpec::I2c("i2c-0x20-A0".into()));
}

#[test]
fn pin_to_vpin_board() {
    assert_eq!(pin_to_vpin("11"), Some(11));
}

#[test]
fn pin_to_vpin_mcp23017() {
    assert_eq!(pin_to_vpin("i2c-0x20-A0"), Some(64));
    assert_eq!(pin_to_vpin("i2c-0x20-B3"), Some(75));
}

#[test]
fn pin_to_vpin_ads1115() {
    assert_eq!(pin_to_vpin("i2c-0x48-ch2"), Some(130));
}

#[test]
fn pin_to_vpin_pcf8574_and_combo() {
    assert_eq!(pin_to_vpin("i2c-0x21-P3"), Some(192 + 8 + 3));
    assert_eq!(pin_to_vpin("(11, 13)"), None);
    assert_eq!(pin_to_vpin("i2c-0x20-Q1"), None);
}

#[test]
fn upsert_appends_new_key() {
    let mut cfg = GpioConfig::default();
    upsert_mapping(&mut cfg, DeviceRow::new("Joypad 1", "Button A", "BUTTON", "304", "11"));
    upsert_mapping(&mut cfg, DeviceRow::new("Joypad 2", "Button A", "BUTTON", "304", "13"));
    assert_eq!(cfg.devices.len(), 2);
    assert_eq!(cfg.devices[1].device, "Joypad 2");
}

#[test]
fn delete_device_removes_all_rows() {
    let mut cfg = GpioConfig::default();
    upsert_mapping(&mut cfg, DeviceRow::new("Joypad 1", "Button A", "BUTTON", "304", "11"));
    upsert_mapping(&mut cfg, DeviceRow::new("Keyboard", "ENTER", "KEY", "28", "13"));
    upsert_mapping(&mut cfg, DeviceRow::new("Joypad 1", "Button B", "BUTTON", "305", "15"));
    delete_device(&mut cfg, "Joypad 1");
    assert_eq!(cfg.devices.len(), 1);
    assert_eq!(cfg.devices[0].device, "Keyboard");
}

#[test]
fn pins_to_vpins_forms() {
    assert_eq!(parse_pins_to_vpins("(11, 13)"), vec![11, 13]);
    assert_eq!(parse_pins_to_vpins(" 7 "), vec![7]);
    assert_eq!(parse_pins_to_vpins("i2c-0x20-B3"), vec![75]);
    assert_eq!(parse_pins_to_vpins("nonsense"), Vec::<u8>::new());
}

#[test]
fn effective_pins_default_and_list() {
    let mut d = DaemonSettings::default();
    assert_eq!(effective_pins(&d).len(), 19);
    assert!(!effective_pins(&d).contains(&19));
    d.pins = "11, 13,x,15".to_string();
    assert_eq!(effective_pins(&d), vec![11, 13, 15]);
    d.pins = " DEFAULT ".to_string();
    assert_eq!(effective_pins(&d)[0], 7);
}

#[test]
fn hex_addr_and_int_pin() {
    assert_eq!(parse_hex_addr("0x20"), Some(0x20));
    assert_eq!(parse_hex_addr("0X48"), Some(0x48));
    assert_eq!(parse_hex_addr("zz"), None);
    assert_eq!(parse_int_pin(" 7 "), Some(7));
    assert_eq!(parse_int_pin(""), None);
    assert_eq!(parse_int_pin("x"), None);
}

#[test]
fn chip_pin_ids_name_their_vpins() {
    for a in 0x20u8..=0x27 {
        for b in 0u8..8 {
            assert_eq!(pin_to_vpin(&mcp23017_pin_id(a, 'A', b)), Some(64 + (a - 0x20) * 16 + b));
            assert_eq!(pin_to_vpin(&mcp23017_pin_id(a, 'B', b)), Some(64 + (a - 0x20) * 16 + 8 + b));
            assert_eq!(pin_to_vpin(&pcf8574_pin_id(a, b)), Some(192 + (a - 0x20) * 8 + b));
        }
    }
    for e in 0x48u8..=0x4B {
        for c in 0u8..4 {
            assert_eq!(pin_to_vpin(&ads1115_pin_id(e, c)), Some(128 + (e - 0x48) * 4 + c));
        }
    }
    assert_eq!(pin_to_vpin("(11, 13)"), None);
    assert_eq!(pin_to_vpin(" (7, 11, 13) "), None);
}

#[test]
fn pin_readers_agree() {
    for s in ["11", " 7 ", "(11, 13)", "(11)", " (3, x, 5) ", "i2c-0x20-B3", " i2c-0x48-ch1 ", "i2c-0x20-Q1"] {
        let named: Vec<u8> = match parse_pins(s) {
            PinSpec::Single(n) => vec![n],
            PinSpec::Combo(v) => v,
            PinSpec::I2c(id) => pin_to_vpin(&id).into_iter().collect(),
        };
        assert_eq!(parse_pins_to_vpins(s), named, "field {s:?}");
    }
}
