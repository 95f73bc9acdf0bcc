use gpionext::constants::{
    ads1115_pin_id, available_i2c_pins, available_pins, available_pins_string, board_to_gpio,
    button_list, command_presets, device_list, key_list, mcp23017_pin_id, pcf8574_pin_id,
    pi_revision_from_cpuinfo, revision_class,
};
use gpionext::gpio::{bcm_to_board, board_to_bcm, edge_event, find_gpio_chip, plan_lines, GpioConfig, GpioError};
use gpionext::i2c::{
    mcp23017_changes, pcf8574_changes, scan_addresses, Ads1115, Ads1115Channel, ChipType, I2cError,
    IoPin, Mcp23017, Mcp23017Pin, Pcf8574, Pcf8574Pin,
};

#[test]
fn board_bcm_table() {
    assert_eq!(board_to_bcm(3), Some(2));
    assert_eq!(board_to_bcm(7), Some(4));
    assert_eq!(board_to_bcm(11), Some(17));
    assert_eq!(board_to_bcm(40), Some(21));
    assert_eq!(board_to_bcm(1), None);
    assert_eq!(board_to_bcm(41), None);
    assert_eq!(bcm_to_board(17), Some(11));
    assert_eq!(bcm_to_board(2), Some(3));
    assert_eq!(bcm_to_board(99), None);
}

#[test]
fn board_bcm_round_trip_all_pins() {
    for pin in 0u8..=60 {
        if let Some(bcm) = board_to_bcm(pin) {
            assert_eq!(bcm_to_board(bcm), Some(pin));
        }
    }
}

#[test]
fn edge_events_follow_bias() {
    assert_eq!(edge_event(17, false, false), Some((11, true)));
    assert_eq!(edge_event(17, true, false), Some((11, false)));
    assert_eq!(edge_event(17, true, true), Some((11, true)));
    assert_eq!(edge_event(200, true, true), None);
}

#[test]
fn gpio_chip_choice() {
    let mut lines: [Option<u32>; 10] = [None; 10];
    assert_eq!(find_gpio_chip(&lines), None);
    lines[3] = Some(16);
    assert_eq!(find_gpio_chip(&lines), None);
    lines[5] = Some(54);
    assert_eq!(find_gpio_chip(&lines), Some("/dev/gpiochip5".to_string()));
    lines[3] = Some(27);
    assert_eq!(find_gpio_chip(&lines), Some("/dev/gpiochip3".to_string()));
    lines[0] = Some(4);
    assert_eq!(find_gpio_chip(&lines), Some("/dev/gpiochip0".to_string()));
    assert_eq!(find_gpio_chip(&[]), None);
}

#[test]
fn line_plan_sorts_pins() {
    let cfg = GpioConfig { pins: vec![3, 7, 1, 11, 13], pulldown: true, debounce_ms: 1 };
    let plan = plan_lines(&cfg, &[13]);
    assert_eq!(plan.lines, vec![(7, 4), (11, 17)]);
    assert_eq!(plan.conflicts, vec![3]);
    assert_eq!(plan.unmapped, vec![1]);
    let cfg = GpioConfig { pins: vec![3, 5], pulldown: false, debounce_ms: 1 };
    let plan = plan_lines(&cfg, &[]);
    assert_eq!(plan.lines, vec![(3, 2), (5, 3)]);
}

#[test]
fn gpio_error_messages() {
    let e = GpioError::PinRequestFailed { pin: 7, reason: "busy".to_string() };
    assert_eq!(e.message(), "BOARD pin 7: cannot request edge detection (busy). Is the pin already in use?");
    let e = GpioError::ChipOpenFailed("nope".to_string());
    assert!(e.message().starts_with("Cannot open GPIO chip: nope."));
    let e = GpioError::I2cPinPulldownConflict { pin: 3 };
    assert!(e.message().starts_with("BOARD pin 3 is an i2c pin"));
}

#[test]
fn mcp23017_pins_and_ids() {
    let p = Mcp23017Pin::new(1, 0x20, 'B', 3);
    assert_eq!(p.vpin, 75);
    assert_eq!(p.pin_id(), "i2c-0x20-B3");
    assert_eq!(p.virtual_pin(), 75);
    assert!(p.pressed_in(0b1111_0111));
    assert!(!p.pressed_in(0xff));
    let chip = Mcp23017::new(1, 0x21, Some(7));
    assert_eq!(chip.pins.len(), 16);
    assert_eq!(chip.pins[0].vpin, 80);
    assert_eq!(chip.pins[15].vpin, 95);
    assert_eq!(chip.int_pin, Some(7));
}

#[test]
fn pcf8574_and_ads1115_pins() {
    let p = Pcf8574Pin::new(1, 0x21, 2);
    assert_eq!(p.vpin, 202);
    assert_eq!(p.pin_id(), "i2c-0x21-P2");
    let chip = Pcf8574::new(1, 0x20, None);
    assert_eq!(chip.pins.len(), 8);
    assert_eq!(chip.pins[7].vpin, 199);
    let ch = Ads1115Channel::new(1, 0x49, 2, 100);
    assert_eq!(ch.vpin, 134);
    assert_eq!(ch.pin_id(), "i2c-0x49-ch2");
    assert!(ch.pressed_at(-150));
    assert!(!ch.pressed_at(100));
    let ads = Ads1115::new(1, 0x48).ok().unwrap();
    assert_eq!(ads.channels.len(), 4);
    assert_eq!(ads.channels[3].vpin, 131);
}

#[test]
fn axis_scaling() {
    assert_eq!(Ads1115Channel::scale_to_axis(32767), 255);
    assert_eq!(Ads1115Channel::scale_to_axis(-32768), -255);
    assert_eq!(Ads1115Channel::scale_to_axis(0), 0);
    assert_eq!(Ads1115Channel::scale_to_axis(16384), 127);
    assert_eq!(Ads1115Channel::scale_to_axis(-16384), -127);
}

#[test]
fn register_changes_become_events() {
    // bit 0 goes low (press), bit 9 goes high (release)
    let last: u16 = 0b1111_1101_1111_1111;
    let state: u16 = 0b1111_1111_1111_1110;
    assert_eq!(mcp23017_changes(0x20, last, state), vec![(64, true), (73, false)]);
    assert_eq!(mcp23017_changes(0x20, state, state), vec![]);
    assert_eq!(pcf8574_changes(0x21, 0xff, 0xfd), vec![(201, true)]);
}

#[test]
fn chip_scan_and_labels() {
    assert_eq!(scan_addresses(ChipType::Ads1115), vec![0x48, 0x49, 0x4a, 0x4b]);
    assert_eq!(scan_addresses(ChipType::Pcf8574).len(), 8);
    assert_eq!(ChipType::Mcp23017.label(), "MCP23017 (16-bit GPIO expander)");
    assert_eq!(
        I2cError::DeviceNotFound { bus: 1, address: 0x2a }.message(),
        "No i2c device at address 0x2A on bus 1. Check wiring and 'i2cdetect -y 1'."
    );
}

#[test]
fn pi_revision_classes() {
    assert_eq!(revision_class(0x2), 1);
    assert_eq!(revision_class(0xf), 2);
    assert_eq!(revision_class(0xa02082), 3);
    assert_eq!(pi_revision_from_cpuinfo("processor\t: 0\nRevision\t: 0003\n"), 1);
    assert_eq!(pi_revision_from_cpuinfo("Revision\t: a02082\n"), 3);
    assert_eq!(pi_revision_from_cpuinfo("nothing here\n"), 3);
}

#[test]
fn pin_lists() {
    assert_eq!(available_pins(1).len(), 17);
    assert_eq!(available_pins(3).len(), 26);
    assert!(available_pins_string(1).starts_with("3, 5, 7"));
    assert_eq!(board_to_gpio(3).get(&13), Some(&27));
    assert_eq!(board_to_gpio(1).get(&13), Some(&21));
    assert_eq!(mcp23017_pin_id(0x2a, 'A', 0), "i2c-0x2A-A0");
    assert_eq!(ads1115_pin_id(0x48, 3), "i2c-0x48-ch3");
    assert_eq!(pcf8574_pin_id(0x27, 7), "i2c-0x27-P7");
    let ids = available_i2c_pins(&[0x20], &[0x48], &[]);
    assert_eq!(ids.len(), 20);
    assert_eq!(ids[16], "i2c-0x48-ch0");
}

#[test]
fn wizard_tables() {
    assert_eq!(device_list(), vec!["Joypad 1", "Joypad 2", "Joypad 3", "Joypad 4", "Keyboard", "Commands"]);
    assert_eq!(button_list().len(), 35);
    assert_eq!(button_list()[0], ("Start Button", 315));
    assert_eq!(key_list().len(), 98);
    assert_eq!(key_list()[0], ("\u{2191} UP", 103));
    assert_eq!(command_presets()[3], ("Reboot System", "sudo reboot"));
}

#[test]
fn pin_lists_have_gpio_lines() {
    for class in [1u32, 3] {
        let table = board_to_gpio(class);
        let pins = available_pins(class);
        for (i, p) in pins.iter().enumerate() {
            assert!(table.contains_key(p));
            assert!(!pins[..i].contains(p));
        }
    }
    let modern = board_to_gpio(3);
    assert_eq!(modern.len(), 28);
    for b in 0u8..=40 {
        assert_eq!(modern.get(&b).map(|g| *g as u32), board_to_bcm(b));
    }
    assert_eq!(modern[&3], 2);
    assert_eq!(modern[&13], 27);
}
