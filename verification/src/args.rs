//! The emulator's command line: flags, their values and the ROM path, and
//! the keys a headless run presses on each frame.

use vstd::prelude::*;
use crate::bus::BusView;
use crate::cli::{
    CliError, EventSpec, InputEvent, buttons_held_at, held_at, parse_input_script, parse_u32,
    parse_u64, spec_parse_script, spec_parse_u32, spec_parse_u64,
};
use crate::cpu::CpuView;
use crate::gba::{Button, Gba, button_bit, frame_run};
use crate::host::Host;
use crate::text::chars_of;

verus! {

/// The options of one run.
#[derive(Debug, Clone)]
pub struct Args {
    pub rom: String,
    pub save: Option<String>,
    pub screenshot: Option<String>,
    pub save_state: Option<String>,
    pub load_state: Option<String>,
    pub frames: Option<u64>,
    pub turbo: bool,
    pub trace: bool,
    pub dump_state: bool,
    pub stop_pc: Option<u32>,
    pub stop_invalid: bool,
    pub stop_hit: u64,
    pub max_steps: u64,
    pub hold_a: bool,
    pub hold_start: bool,
    pub input_script: Vec<InputEvent>,
}

/// What the command line asks for.
#[derive(Debug, Clone)]
pub enum Command {
    /// Print the usage text and stop.
    Help,
    /// Run the emulator.
    Run(Args),
}

/// A refused command line: what is wrong, and the position of the argument
/// at fault (the number of arguments when the ROM path is missing).
#[derive(Debug, Clone, Copy, PartialEq, Eq, Structural)]
pub struct ArgError {
    pub kind: CliError,
    pub at: usize,
}

/// The options as plain values; `rom` is absent until a path is seen.
pub ghost struct ArgsModel {
    pub rom: Option<Seq<char>>,
    pub save: Option<Seq<char>>,
    pub screenshot: Option<Seq<char>>,
    pub save_state: Option<Seq<char>>,
    pub load_state: Option<Seq<char>>,
    pub frames: Option<u64>,
    pub turbo: bool,
    pub trace: bool,
    pub dump_state: bool,
    pub stop_pc: Option<u32>,
    pub stop_invalid: bool,
    pub stop_hit: u64,
    pub max_steps: u64,
    pub hold_a: bool,
    pub hold_start: bool,
    pub input_script: Seq<EventSpec>,
}

pub open spec fn opt_text(o: Option<String>) -> Option<Seq<char>> {
    match o {
        Some(s) => Some(s@),
        None => None,
    }
}

pub open spec fn events_model(v: Seq<InputEvent>) -> Seq<EventSpec> {
    v.map_values(|e: InputEvent| e.spec())
}

impl Args {
    pub open spec fn model(&self) -> ArgsModel {
        ArgsModel {
            rom: Some(self.rom@),
            save: opt_text(self.save),
            screenshot: opt_text(self.screenshot),
            save_state: opt_text(self.save_state),
            load_state: opt_text(self.load_state),
            frames: self.frames,
            turbo: self.turbo,
            trace: self.trace,
            dump_state: self.dump_state,
            stop_pc: self.stop_pc,
            stop_invalid: self.stop_invalid,
            stop_hit: self.stop_hit,
            max_steps: self.max_steps,
            hold_a: self.hold_a,
            hold_start: self.hold_start,
            input_script: events_model(self.input_script@),
        }
    }
}

/// The options before any argument is read.
pub open spec fn default_args() -> ArgsModel {
    ArgsModel {
        rom: None,
        save: None,
        screenshot: None,
        save_state: None,
        load_state: None,
        frames: None,
        turbo: false,
        trace: false,
        dump_state: false,
        stop_pc: None,
        stop_invalid: false,
        stop_hit: 1,
        max_steps: 50_000_000,
        hold_a: false,
        hold_start: false,
        input_script: Seq::empty(),
    }
}

/// The argument after position `i`, when there is one.
pub open spec fn value_after(args: Seq<Seq<char>>, i: nat) -> Option<Seq<char>> {
    if i + 1 < args.len() {
        Some(args[i + 1 as int])
    } else {
        None
    }
}

/// A flag that takes a number: its value parsed, or the error and where.
pub open spec fn number_after(args: Seq<Seq<char>>, i: nat) -> Result<u64, (CliError, nat)> {
    match value_after(args, i) {
        None => Err((CliError::MissingValue, i)),
        Some(t) => match spec_parse_u64(t) {
            Ok(v) => Ok(v),
            Err(e) => Err((e, i + 1)),
        },
    }
}

pub open spec fn is_flag(t: Seq<char>) -> bool {
    t.len() >= 2 && t[0] == '-' && t[1] == '-'
}

/// The options that a flag without a value sets, or `None` when `t` is no
/// such flag.
pub open spec fn switch_step(t: Seq<char>, st: ArgsModel) -> Option<ArgsModel> {
    if t == "--turbo"@ {
        Some(ArgsModel { turbo: true, ..st })
    } else if t == "--trace"@ {
        Some(ArgsModel { trace: true, ..st })
    } else if t == "--dump-state"@ {
        Some(ArgsModel { dump_state: true, ..st })
    } else if t == "--hold-a"@ {
        Some(ArgsModel { hold_a: true, ..st })
    } else if t == "--hold-start"@ {
        Some(ArgsModel { hold_start: true, ..st })
    } else if t == "--stop-invalid"@ {
        Some(ArgsModel { stop_invalid: true, ..st })
    } else {
        None
    }
}

/// The options that a flag with a path after it sets (no path clears the
/// option), or `None` when `args[i]` is no such flag.
pub open spec fn path_step(args: Seq<Seq<char>>, i: nat, st: ArgsModel) -> Option<ArgsModel> {
    let t = args[i as int];
    let v = value_after(args, i);
    if t == "--save"@ {
        Some(ArgsModel { save: v, ..st })
    } else if t == "--screenshot"@ {
        Some(ArgsModel { screenshot: v, ..st })
    } else if t == "--save-state"@ {
        Some(ArgsModel { save_state: v, ..st })
    } else if t == "--load-state"@ {
        Some(ArgsModel { load_state: v, ..st })
    } else {
        None
    }
}

/// The options that a flag with a number, an address or a key script after
/// it sets, the error and its position, or `None` when `args[i]` is no such
/// flag.
pub open spec fn value_step(args: Seq<Seq<char>>, i: nat, st: ArgsModel) -> Option<
    Result<ArgsModel, (CliError, nat)>,
> {
    let t = args[i as int];
    if t == "--frames"@ {
        Some(
            match number_after(args, i) {
                Err(e) => Err(e),
                Ok(v) => Ok(ArgsModel { frames: Some(v), ..st }),
            },
        )
    } else if t == "--stop-hit"@ {
        Some(
            match number_after(args, i) {
                Err(e) => Err(e),
                Ok(v) => Ok(ArgsModel { stop_hit: v, ..st }),
            },
        )
    } else if t == "--max-steps"@ {
        Some(
            match number_after(args, i) {
                Err(e) => Err(e),
                Ok(v) => Ok(ArgsModel { max_steps: v, ..st }),
            },
        )
    } else if t == "--input-script"@ {
        Some(
            match value_after(args, i) {
                None => Err((CliError::MissingValue, i)),
                Some(v) => match spec_parse_script(v) {
                    Err(e) => Err((e, i + 1)),
                    Ok(evs) => Ok(ArgsModel { input_script: evs, ..st }),
                },
            },
        )
    } else if t == "--stop-pc"@ {
        Some(
            match value_after(args, i) {
                None => Err((CliError::MissingValue, i)),
                Some(v) => match spec_parse_u32(v) {
                    Err(e) => Err((e, i + 1)),
                    Ok(pc) => Ok(ArgsModel { stop_pc: Some(pc), ..st }),
                },
            },
        )
    } else {
        None
    }
}

/// Reading the argument at `i < args.len()`: `Ok(None)` for a request for
/// help, `Ok(Some((j, s)))` to go on at `j` with the options `s`, or the
/// error and its position.
pub open spec fn arg_step(args: Seq<Seq<char>>, i: nat, st: ArgsModel) -> Result<
    Option<(nat, ArgsModel)>,
    (CliError, nat),
> {
    let t = args[i as int];
    let skip = if i + 1 < args.len() {
        i + 2
    } else {
        args.len()
    };
    match switch_step(t, st) {
        Some(s) => Ok(Some((i + 1, s))),
        None => match path_step(args, i, st) {
            Some(s) => Ok(Some((skip, s))),
            None => match value_step(args, i, st) {
                Some(Ok(s)) => Ok(Some((i + 2, s))),
                Some(Err(e)) => Err(e),
                None => if t == "--help"@ || t == "-h"@ {
                    Ok(None)
                } else if is_flag(t) {
                    Err((CliError::UnknownFlag, i))
                } else if st.rom is Some {
                    Err((CliError::TooManyRoms, i))
                } else {
                    Ok(Some((i + 1, ArgsModel { rom: Some(t), ..st })))
                },
            },
        },
    }
}

/// The result of reading `args` from position `i` on, with the options
/// `st` gathered so far: `Ok(None)` for a request for help, `Ok(Some(..))`
/// for a complete set of options, or the first error and its position.
pub open spec fn parse_from(args: Seq<Seq<char>>, i: nat, st: ArgsModel) -> Result<
    Option<ArgsModel>,
    (CliError, nat),
>
    decreases args.len() - i,
{
    if i >= args.len() {
        match st.rom {
            None => Err((CliError::NoRom, args.len())),
            Some(_) => Ok(Some(st)),
        }
    } else {
        match arg_step(args, i, st) {
            Err(e) => Err(e),
            Ok(None) => Ok(None),
            Ok(Some((j, s))) => if i < j {
                parse_from(args, j, s)
            } else {
                Ok(None)
            },
        }
    }
}

/// The command line `args` (without the program name) as plain values.
pub open spec fn spec_parse_args(args: Seq<Seq<char>>) -> Result<Option<ArgsModel>, (CliError, nat)> {
    parse_from(args, 0, default_args())
}

pub open spec fn texts(args: Seq<String>) -> Seq<Seq<char>> {
    args.map_values(|s: String| s@)
}

fn text_is(t: &Vec<char>, lit: &str) -> (r: bool)
    ensures
        r == (t@ == lit@),
{
    let l = chars_of(lit);
    if t.len() != l.len() {
        return false;
    }
    let mut k: usize = 0;
    while k < t.len()
        invariant
            k <= t@.len(),
            t@.len() == l@.len(),
            l@ == lit@,
            forall|j: int| 0 <= j < k ==> t@[j] == l@[j],
        decreases t@.len() - k,
    {
        if t[k] != l[k] {
            return false;
        }
        k = k + 1;
    }
    assert(t@ =~= l@);
    true
}

/// The options gathered while reading the command line.
struct Draft {
    rom: Option<String>,
    save: Option<String>,
    screenshot: Option<String>,
    save_state: Option<String>,
    load_state: Option<String>,
    frames: Option<u64>,
    turbo: bool,
    trace: bool,
    dump_state: bool,
    stop_pc: Option<u32>,
    stop_invalid: bool,
    stop_hit: u64,
    max_steps: u64,
    hold_a: bool,
    hold_start: bool,
    input_script: Vec<InputEvent>,
}

impl Draft {
    spec fn model(&self) -> ArgsModel {
        ArgsModel {
            rom: opt_text(self.rom),
            save: opt_text(self.save),
            screenshot: opt_text(self.screenshot),
            save_state: opt_text(self.save_state),
            load_state: opt_text(self.load_state),
            frames: self.frames,
            turbo: self.turbo,
            trace: self.trace,
            dump_state: self.dump_state,
            stop_pc: self.stop_pc,
            stop_invalid: self.stop_invalid,
            stop_hit: self.stop_hit,
            max_steps: self.max_steps,
            hold_a: self.hold_a,
            hold_start: self.hold_start,
            input_script: events_model(self.input_script@),
        }
    }
}

fn value_at(args: &Vec<String>, i: usize) -> (r: Option<String>)
    requires
        i < args@.len(),
    ensures
        opt_text(r) == value_after(texts(args@), i as nat),
{
    if args.len() - i >= 2 {
        Some(args[i + 1].clone())
    } else {
        None
    }
}

fn number_at(args: &Vec<String>, i: usize) -> (r: Result<u64, ArgError>)
    requires
        i < args@.len(),
    ensures
        match r {
            Ok(v) => number_after(texts(args@), i as nat) == Ok::<u64, (CliError, nat)>(v),
            Err(e) => number_after(texts(args@), i as nat) == Err::<u64, (CliError, nat)>(
                (e.kind, e.at as nat),
            ),
        },
{
    if args.len() - i < 2 {
        return Err(ArgError { kind: CliError::MissingValue, at: i });
    }
    let t = chars_of(args[i + 1].as_str());
    match parse_u64(&t) {
        Ok(v) => Ok(v),
        Err(e) => Err(ArgError { kind: e, at: i + 1 }),
    }
}

fn switch_exec(t: &Vec<char>, d: &mut Draft) -> (r: bool)
    ensures
        r == switch_step(t@, old(d).model()) is Some,
        r ==> final(d).model() == switch_step(t@, old(d).model())->0,
        !r ==> final(d).model() == old(d).model(),
{
    if text_is(t, "--turbo") {
        d.turbo = true;
    } else if text_is(t, "--trace") {
        d.trace = true;
    } else if text_is(t, "--dump-state") {
        d.dump_state = true;
    } else if text_is(t, "--hold-a") {
        d.hold_a = true;
    } else if text_is(t, "--hold-start") {
        d.hold_start = true;
    } else if text_is(t, "--stop-invalid") {
        d.stop_invalid = true;
    } else {
        return false;
    }
    true
}

fn path_exec(args: &Vec<String>, i: usize, t: &Vec<char>, d: &mut Draft) -> (r: bool)
    requires
        i < args@.len(),
        t@ == texts(args@)[i as int],
    ensures
        r == path_step(texts(args@), i as nat, old(d).model()) is Some,
        r ==> final(d).model() == path_step(texts(args@), i as nat, old(d).model())->0,
        !r ==> final(d).model() == old(d).model(),
{
    if text_is(t, "--save") {
        d.save = value_at(args, i);
    } else if text_is(t, "--screenshot") {
        d.screenshot = value_at(args, i);
    } else if text_is(t, "--save-state") {
        d.save_state = value_at(args, i);
    } else if text_is(t, "--load-state") {
        d.load_state = value_at(args, i);
    } else {
        return false;
    }
    true
}

fn value_exec(args: &Vec<String>, i: usize, t: &Vec<char>, d: &mut Draft) -> (r: Option<
    Result<(), ArgError>,
>)
    requires
        i < args@.len(),
        t@ == texts(args@)[i as int],
    ensures
        r matches Some(Ok(())) ==> i + 1 < args@.len(),
        match r {
            None => value_step(texts(args@), i as nat, old(d).model()) is None && final(d).model()
                == old(d).model(),
            Some(Ok(())) => value_step(texts(args@), i as nat, old(d).model()) == Some(
                Ok::<ArgsModel, (CliError, nat)>(final(d).model()),
            ),
            Some(Err(e)) => value_step(texts(args@), i as nat, old(d).model()) == Some(
                Err::<ArgsModel, (CliError, nat)>((e.kind, e.at as nat)),
            ),
        },
{
    if text_is(t, "--frames") {
        match number_at(args, i) {
            Ok(v) => {
                d.frames = Some(v);
            },
            Err(e) => {
                return Some(Err(e));
            },
        }
    } else if text_is(t, "--stop-hit") {
        match number_at(args, i) {
            Ok(v) => {
                d.stop_hit = v;
            },
            Err(e) => {
                return Some(Err(e));
            },
        }
    } else if text_is(t, "--max-steps") {
        match number_at(args, i) {
            Ok(v) => {
                d.max_steps = v;
            },
            Err(e) => {
                return Some(Err(e));
            },
        }
    } else if text_is(t, "--input-script") {
        if args.len() - i < 2 {
            return Some(Err(ArgError { kind: CliError::MissingValue, at: i }));
        }
        match parse_input_script(args[i + 1].as_str()) {
            Ok(evs) => {
                d.input_script = evs;
            },
            Err(e) => {
                return Some(Err(ArgError { kind: e, at: i + 1 }));
            },
        }
    } else if text_is(t, "--stop-pc") {
        if args.len() - i < 2 {
            return Some(Err(ArgError { kind: CliError::MissingValue, at: i }));
        }
        match parse_u32(args[i + 1].as_str()) {
            Ok(pc) => {
                d.stop_pc = Some(pc);
            },
            Err(e) => {
                return Some(Err(ArgError { kind: e, at: i + 1 }));
            },
        }
    } else {
        return None;
    }
    Some(Ok(()))
}

/// Reads the argument at `i`: `Ok(None)` for a request for help, the
/// position of the next argument, or an error.
fn step_exec(args: &Vec<String>, i: usize, d: &mut Draft) -> (r: Result<Option<usize>, ArgError>)
    requires
        i < args@.len(),
    ensures
        match r {
            Ok(None) => arg_step(texts(args@), i as nat, old(d).model()) == Ok::<
                Option<(nat, ArgsModel)>,
                (CliError, nat),
            >(None),
            Ok(Some(j)) => arg_step(texts(args@), i as nat, old(d).model()) == Ok::<
                Option<(nat, ArgsModel)>,
                (CliError, nat),
            >(Some((j as nat, final(d).model()))),
            Err(e) => arg_step(texts(args@), i as nat, old(d).model()) == Err::<
                Option<(nat, ArgsModel)>,
                (CliError, nat),
            >((e.kind, e.at as nat)),
        },
{
    let n = args.len();
    let t = chars_of(args[i].as_str());
    assert(t@ == texts(args@)[i as int]);
    if switch_exec(&t, d) {
        return Ok(Some(i + 1));
    }
    if path_exec(args, i, &t, d) {
        if args.len() - i >= 2 {
            return Ok(Some(i + 2));
        }
        return Ok(Some(args.len()));
    }
    match value_exec(args, i, &t, d) {
        Some(Ok(())) => {
            return Ok(Some(i + 2));
        },
        Some(Err(e)) => {
            return Err(e);
        },
        None => {},
    }
    if text_is(&t, "--help") || text_is(&t, "-h") {
        Ok(None)
    } else if t.len() >= 2 && t[0] == '-' && t[1] == '-' {
        Err(ArgError { kind: CliError::UnknownFlag, at: i })
    } else if d.rom.is_some() {
        Err(ArgError { kind: CliError::TooManyRoms, at: i })
    } else {
        d.rom = Some(args[i].clone());
        Ok(Some(i + 1))
    }
}

/// Reads the command line `args` (without the program name): `Help` when
/// `--help` or `-h` comes before any error, the options otherwise, or the
/// first error met from left to right.
pub fn parse_args(args: &Vec<String>) -> (r: Result<Command, ArgError>)
    ensures
        match r {
            Ok(Command::Help) => spec_parse_args(texts(args@)) == Ok::<
                Option<ArgsModel>,
                (CliError, nat),
            >(None),
            Ok(Command::Run(a)) => spec_parse_args(texts(args@)) == Ok::<
                Option<ArgsModel>,
                (CliError, nat),
            >(Some(a.model())),
            Err(e) => spec_parse_args(texts(args@)) == Err::<Option<ArgsModel>, (CliError, nat)>(
                (e.kind, e.at as nat),
            ),
        },
{
    let ghost a = texts(args@);
    let mut d = Draft {
        rom: None,
        save: None,
        screenshot: None,
        save_state: None,
        load_state: None,
        frames: None,
        turbo: false,
        trace: false,
        dump_state: false,
        stop_pc: None,
        stop_invalid: false,
        stop_hit: 1,
        max_steps: 50_000_000,
        hold_a: false,
        hold_start: false,
        input_script: Vec::new(),
    };
    proof {
        assert(events_model(d.input_script@) =~= Seq::<EventSpec>::empty());
        assert(d.model() == default_args());
    }
    let mut i: usize = 0;
    while i < args.len()
        invariant
            i <= args@.len(),
            a == texts(args@),
            spec_parse_args(a) == parse_from(a, i as nat, d.model()),
        decreases args@.len() - i,
    {
        match step_exec(args, i, &mut d) {
            Ok(None) => {
                return Ok(Command::Help);
            },
            Err(e) => {
                return Err(e);
            },
            Ok(Some(j)) => {
                i = j;
            },
        }
    }
    match d.rom {
        None => Err(ArgError { kind: CliError::NoRom, at: args.len() }),
        Some(rom) => Ok(
            Command::Run(
                Args {
                    rom,
                    save: d.save,
                    screenshot: d.screenshot,
                    save_state: d.save_state,
                    load_state: d.load_state,
                    frames: d.frames,
                    turbo: d.turbo,
                    trace: d.trace,
                    dump_state: d.dump_state,
                    stop_pc: d.stop_pc,
                    stop_invalid: d.stop_invalid,
                    stop_hit: d.stop_hit,
                    max_steps: d.max_steps,
                    hold_a: d.hold_a,
                    hold_start: d.hold_start,
                    input_script: d.input_script,
                },
            ),
        ),
    }
}

/// The key on KEYINPUT bit `idx`.
pub fn button_from_index(idx: usize) -> (b: Button)
    requires
        idx < 10,
    ensures
        button_bit(b) == idx,
{
    match idx {
        0 => Button::A,
        1 => Button::B,
        2 => Button::Select,
        3 => Button::Start,
        4 => Button::Right,
        5 => Button::Left,
        6 => Button::Up,
        7 => Button::Down,
        8 => Button::R,
        _ => Button::L,
    }
}

/// Which keys are down during `frame` of a headless run, by KEYINPUT bit.
pub open spec fn keys_at(m: ArgsModel, frame: u64) -> Seq<bool> {
    Seq::new(10, |bit: int| held_at(m.input_script, frame, m.hold_a, m.hold_start, bit))
}

/// The bus after setting the first `n` keys, bit by bit, to `keys`.
pub open spec fn press_keys(b: BusView, keys: Seq<bool>, n: nat) -> BusView
    decreases n,
{
    if n == 0 {
        b
    } else {
        press_keys(b, keys, (n - 1) as nat).set_button((n - 1) as u16, keys[n - 1])
    }
}

/// Sets every key for `frame` of a headless run: held by `--hold-a` or
/// `--hold-start`, or by an input event active in that frame; released
/// otherwise.
pub fn apply_headless_input(gba: &mut Gba, args: &Args, frame: u64)
    requires
        old(gba).wf(),
    ensures
        final(gba).wf(),
        final(gba).cpu@ == old(gba).cpu@,
        final(gba).bus@ == press_keys(old(gba).bus@, keys_at(args.model(), frame), 10),
{
    let pressed = buttons_held_at(&args.input_script, frame, args.hold_a, args.hold_start);
    proof {
        assert(pressed@ =~= keys_at(args.model(), frame));
    }
    set_keys(gba, &pressed);
}

/// Sets every key, in KEYINPUT bit order, to pressed or released.
fn set_keys(gba: &mut Gba, pressed: &[bool; 10])
    requires
        old(gba).wf(),
        pressed@.len() == 10,
    ensures
        final(gba).wf(),
        final(gba).cpu@ == old(gba).cpu@,
        final(gba).bus@ == press_keys(old(gba).bus@, pressed@, 10),
{
    let ghost b0 = gba.bus@;
    let ghost c0 = gba.cpu@;
    let mut idx: usize = 0;
    while idx < 10
        invariant
            idx <= 10,
            gba.wf(),
            gba.cpu@ == c0,
            pressed@.len() == 10,
            gba.bus@ == press_keys(b0, pressed@, idx as nat),
        decreases 10 - idx,
    {
        gba.set_button(button_from_index(idx), pressed[idx]);
        idx = idx + 1;
    }
}

/// The keyboard keys the window reads.
#[derive(Clone, Copy)]
pub struct WindowKeys {
    pub z: bool,
    pub a: bool,
    pub x: bool,
    pub s: bool,
    pub backspace: bool,
    pub enter: bool,
    pub right: bool,
    pub left: bool,
    pub up: bool,
    pub down: bool,
    pub e: bool,
    pub q: bool,
}

/// The console keys held for keyboard keys `k`, in KEYINPUT bit order: A on
/// Z or A, B on X or S, Select on Backspace, Start on Enter, the arrows, R on
/// E and L on Q.
pub open spec fn window_buttons(k: WindowKeys) -> Seq<bool> {
    seq![k.z || k.a, k.x || k.s, k.backspace, k.enter, k.right, k.left, k.up, k.down, k.e, k.q]
}

/// Sets every console key from the keyboard keys held in the window.
pub fn apply_window_keys(gba: &mut Gba, keys: &WindowKeys)
    requires
        old(gba).wf(),
    ensures
        final(gba).wf(),
        final(gba).cpu@ == old(gba).cpu@,
        final(gba).bus@ == press_keys(old(gba).bus@, window_buttons(*keys), 10),
{
    let pressed = [
        keys.z || keys.a,
        keys.x || keys.s,
        keys.backspace,
        keys.enter,
        keys.right,
        keys.left,
        keys.up,
        keys.down,
        keys.e,
        keys.q,
    ];
    proof {
        assert(pressed@ =~= window_buttons(*keys));
    }
    set_keys(gba, &pressed);
}

/// Whether `states` is a headless run under `m`: before frame `k` the keys
/// are set for that frame, then the frame runs, giving state `k + 1`.
pub open spec fn headless_run(m: ArgsModel, states: Seq<(CpuView, BusView)>) -> bool {
    forall|k: int|
        0 <= k < states.len() - 1 ==> #[trigger] frame_run(
            states[k].0,
            press_keys(states[k].1, keys_at(m, k as u64), 10),
            states[k + 1].0,
            states[k + 1].1,
        )
}

/// Runs `frames` frames headless: before each the keys are set from the
/// command line's held keys and input script, then the frame runs.
pub fn run_headless<H: Host>(gba: &mut Gba, args: &Args, frames: u64, host: &H)
    requires
        old(gba).wf(),
    ensures
        final(gba).wf(),
        exists|states: Seq<(CpuView, BusView)>|
            #[trigger] headless_run(args.model(), states) && states.len() == frames + 1
                && states[0] == (old(gba).cpu@, old(gba).bus@) && states.last() == (
                final(gba).cpu@,
                final(gba).bus@,
            ),
{
    let ghost mut states: Seq<(CpuView, BusView)> = seq![(gba.cpu@, gba.bus@)];
    let mut frame: u64 = 0;
    while frame < frames
        invariant
            gba.wf(),
            frame <= frames,
            states.len() == frame + 1,
            states[0] == (old(gba).cpu@, old(gba).bus@),
            states.last() == (gba.cpu@, gba.bus@),
            headless_run(args.model(), states),
        decreases frames - frame,
    {
        let ghost prev = states;
        apply_headless_input(gba, args, frame);
        gba.run_frame(host);
        proof {
            states = states.push((gba.cpu@, gba.bus@));
            assert forall|k: int| 0 <= k < states.len() - 1 implies #[trigger] frame_run(
                states[k].0,
                press_keys(states[k].1, keys_at(args.model(), k as u64), 10),
                states[k + 1].0,
                states[k + 1].1,
            ) by {
                if k < prev.len() - 1 {
                    assert(states[k] == prev[k] && states[k + 1] == prev[k + 1]);
                    assert(frame_run(
                        prev[k].0,
                        press_keys(prev[k].1, keys_at(args.model(), k as u64), 10),
                        prev[k + 1].0,
                        prev[k + 1].1,
                    ));
                } else {
                    assert(k == frame);
                    assert(states[k] == prev.last());
                }
            }
        }
        frame = frame + 1;
    }
}

} // verus!
