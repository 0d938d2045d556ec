use vibe_gba::args::{apply_headless_input, button_from_index, parse_args, run_headless, ArgError, Command};
use vibe_gba::host::Host;
use vibe_gba::cli::{
    buttons_held_at, parse_button, parse_input_script, parse_u32, parse_u64, CliError,
};
use vibe_gba::gba::{Button, Gba};

fn strings(items: &[&str]) -> Vec<String> {
    items.iter().map(|s| s.to_string()).collect()
}

fn chars(s: &str) -> Vec<char> {
    s.chars().collect()
}

#[test]
fn hex_addresses_take_an_optional_prefix() {
    assert_eq!(parse_u32("0x08000000"), Ok(0x0800_0000));
    assert_eq!(parse_u32("0X1f"), Ok(0x1f));
    assert_eq!(parse_u32("ff"), Ok(0xff));
    assert_eq!(parse_u32("+10"), Ok(0x10));
    assert_eq!(parse_u32("ffffffff"), Ok(0xffff_ffff));
    assert_eq!(parse_u32("100000000"), Err(CliError::BadNumber));
    assert_eq!(parse_u32("0x"), Err(CliError::BadNumber));
    assert_eq!(parse_u32("zz"), Err(CliError::BadNumber));
    assert_eq!(parse_u32("-1"), Err(CliError::BadNumber));
}

#[test]
fn decimal_numbers_fit_in_64_bits() {
    assert_eq!(parse_u64(&chars("42")), Ok(42));
    assert_eq!(parse_u64(&chars("18446744073709551615")), Ok(u64::MAX));
    assert_eq!(parse_u64(&chars("18446744073709551616")), Err(CliError::BadNumber));
    assert_eq!(parse_u64(&chars("")), Err(CliError::BadNumber));
    assert_eq!(parse_u64(&chars("4a")), Err(CliError::BadNumber));
}

#[test]
fn key_names_ignore_case_and_spaces() {
    assert_eq!(parse_button(&chars(" Start ")), Ok(Button::Start));
    assert_eq!(parse_button(&chars("SELECT")), Ok(Button::Select));
    assert_eq!(parse_button(&chars("l")), Ok(Button::L));
    assert_eq!(parse_button(&chars("x")), Err(CliError::UnknownButton));
}

#[test]
fn input_scripts_list_events_with_keys() {
    let events = parse_input_script("10:5:a+start,20:1: B").unwrap();
    assert_eq!(events.len(), 2);
    assert_eq!(events[0].start, 10);
    assert_eq!(events[0].duration, 5);
    assert_eq!(events[0].buttons, vec![Button::A, Button::Start]);
    assert_eq!(events[1].start, 20);
    assert_eq!(events[1].buttons, vec![Button::B]);
    assert!(parse_input_script("   ").unwrap().is_empty());
    // Numbers are not trimmed, key names are.
    assert_eq!(parse_input_script("1:2:a, 3:4:b").unwrap_err(), CliError::BadNumber);
}

#[test]
fn input_script_errors_name_the_fault() {
    assert_eq!(parse_input_script("1").unwrap_err(), CliError::MissingDuration);
    assert_eq!(parse_input_script("1:2").unwrap_err(), CliError::MissingButtons);
    assert_eq!(parse_input_script("1:2:a:3").unwrap_err(), CliError::TooManySeparators);
    assert_eq!(parse_input_script("1:2:jump").unwrap_err(), CliError::UnknownButton);
    assert_eq!(parse_input_script("x:2:a").unwrap_err(), CliError::BadNumber);
}

#[test]
fn held_keys_follow_events_and_hold_options() {
    let events = parse_input_script("10:5:a+up,18446744073709551610:100:r").unwrap();
    let before = buttons_held_at(&events, 9, false, true);
    assert_eq!(before, [false, false, false, true, false, false, false, false, false, false]);
    let during = buttons_held_at(&events, 14, false, false);
    assert_eq!(during, [true, false, false, false, false, false, true, false, false, false]);
    let after = buttons_held_at(&events, 15, false, false);
    assert_eq!(after, [false; 10]);
    let saturated = buttons_held_at(&events, u64::MAX - 1, false, false);
    assert!(saturated[8]);
}

#[test]
fn key_indices_follow_keyinput_bits() {
    let expected = [
        Button::A,
        Button::B,
        Button::Select,
        Button::Start,
        Button::Right,
        Button::Left,
        Button::Up,
        Button::Down,
        Button::R,
        Button::L,
    ];
    for (idx, button) in expected.iter().enumerate() {
        assert_eq!(button_from_index(idx), *button);
        assert_eq!(button.bit() as usize, idx);
    }
}

#[test]
fn a_full_command_line_is_read() {
    let cmd = parse_args(&strings(&[
        "game.gba",
        "--frames",
        "120",
        "--hold-a",
        "--stop-pc",
        "0x08000100",
        "--input-script",
        "3:2:b",
        "--save",
        "game.sav",
        "--turbo",
    ]))
    .unwrap();
    let Command::Run(args) = cmd else {
        panic!("expected options");
    };
    assert_eq!(args.rom, "game.gba");
    assert_eq!(args.frames, Some(120));
    assert!(args.hold_a);
    assert!(!args.hold_start);
    assert!(args.turbo);
    assert_eq!(args.stop_pc, Some(0x0800_0100));
    assert_eq!(args.save.as_deref(), Some("game.sav"));
    assert_eq!(args.stop_hit, 1);
    assert_eq!(args.max_steps, 50_000_000);
    assert_eq!(args.input_script.len(), 1);
    assert_eq!(args.input_script[0].buttons, vec![Button::B]);
}

#[test]
fn a_path_flag_without_value_clears_the_option() {
    let Command::Run(args) = parse_args(&strings(&["--save", "a.sav", "rom", "--save"])).unwrap()
    else {
        panic!("expected options");
    };
    assert_eq!(args.rom, "rom");
    assert_eq!(args.save, None);
}

#[test]
fn help_wins_over_later_errors() {
    assert!(matches!(
        parse_args(&strings(&["-h", "--bogus"])),
        Ok(Command::Help)
    ));
    assert!(matches!(parse_args(&strings(&["rom", "--help"])), Ok(Command::Help)));
}

#[test]
fn command_line_errors_point_at_the_argument() {
    let err = |items: &[&str]| parse_args(&strings(items)).unwrap_err();
    assert_eq!(err(&[]), ArgError { kind: CliError::NoRom, at: 0 });
    assert_eq!(err(&["--trace"]), ArgError { kind: CliError::NoRom, at: 1 });
    assert_eq!(err(&["a", "b"]), ArgError { kind: CliError::TooManyRoms, at: 1 });
    assert_eq!(err(&["rom", "--bogus"]), ArgError { kind: CliError::UnknownFlag, at: 1 });
    assert_eq!(err(&["rom", "--frames"]), ArgError { kind: CliError::MissingValue, at: 1 });
    assert_eq!(err(&["rom", "--frames", "ten"]), ArgError { kind: CliError::BadNumber, at: 2 });
    assert_eq!(
        err(&["--input-script", "1:2:z", "rom"]),
        ArgError { kind: CliError::UnknownButton, at: 1 }
    );
    assert_eq!(err(&["--stop-pc", "xyz"]), ArgError { kind: CliError::BadNumber, at: 1 });
}

#[test]
fn a_single_dash_argument_is_a_rom_path() {
    let Command::Run(args) = parse_args(&strings(&["-rom.gba"])).unwrap() else {
        panic!("expected options");
    };
    assert_eq!(args.rom, "-rom.gba");
}

#[test]
fn headless_input_sets_every_key_for_the_frame() {
    let Command::Run(args) =
        parse_args(&strings(&["rom", "--hold-start", "--input-script", "0:2:left"])).unwrap()
    else {
        panic!("expected options");
    };
    let mut gba = Gba::new(vec![0; 0x200], None, false);
    apply_headless_input(&mut gba, &args, 1);
    // KEYINPUT is active low: Start (bit 3) and Left (bit 5) are down.
    assert_eq!(gba.bus.read16(0x0400_0130), 0x03ff & !(1 << 3) & !(1 << 5));
    apply_headless_input(&mut gba, &args, 2);
    assert_eq!(gba.bus.read16(0x0400_0130), 0x03ff & !(1 << 3));
}

struct NoHost;

impl Host for NoHost {
    fn arc_tan(&self, _x: i16) -> i16 {
        0
    }
    fn arc_tan2(&self, _x: i16, _y: i16) -> i16 {
        0
    }
    fn affine_params(&self, _sx: i16, _sy: i16, _theta: u16) -> (i16, i16, i16, i16) {
        (0, 0, 0, 0)
    }
    fn midi_key_to_freq(&self, base: u32, _semitones: i32) -> u32 {
        base
    }
    fn trace(&self, _pc: u32, _instr: u32, _thumb: bool) {}
    fn frame_guard_tripped(&self, _pc: u32) {}
}

#[test]
fn a_headless_run_sets_keys_then_runs_each_frame() {
    let Command::Run(args) =
        parse_args(&strings(&["rom", "--input-script", "1:1:a,2:5:up"])).unwrap()
    else {
        panic!("expected options");
    };
    let mut gba = Gba::new(vec![0; 0x200], None, false);
    run_headless(&mut gba, &args, 3, &NoHost);
    assert_eq!(gba.bus.frame_count(), 3);
    // The keys of the last frame (frame 2): Up held, A released.
    assert_eq!(gba.bus.read16(0x0400_0130), 0x03ff & !(1 << 6));
}
