//! The command line's little languages: hexadecimal addresses, key names,
//! and scripted key presses (`start:duration:key+key,...`).

use vstd::prelude::*;
use crate::gba::{Button, button_bit};
use crate::text::{is_space, is_space_exec, parse_unsigned, parse_unsigned_exec, chars_of};

verus! {

/// What is wrong with a command-line value.
#[derive(Debug, Clone, Copy, PartialEq, Eq, Structural)]
pub enum CliError {
    /// Not a number of the expected base and range.
    BadNumber,
    /// An input event without a duration.
    MissingDuration,
    /// An input event without keys.
    MissingButtons,
    /// An input event with more than three `:`-separated parts.
    TooManySeparators,
    /// A key name that is none of the console's keys.
    UnknownButton,
    /// A flag that takes a value, last on the command line.
    MissingValue,
    /// A `--` argument that is no known flag.
    UnknownFlag,
    /// A second ROM path.
    TooManyRoms,
    /// No ROM path at all.
    NoRom,
}

/// Keys held from frame `start` for `duration` frames.
#[derive(Debug, Clone)]
pub struct InputEvent {
    pub start: u64,
    pub duration: u64,
    pub buttons: Vec<Button>,
}

/// An input event as plain values.
pub ghost struct EventSpec {
    pub start: u64,
    pub duration: u64,
    pub buttons: Seq<Button>,
}

impl InputEvent {
    pub open spec fn spec(&self) -> EventSpec {
        EventSpec { start: self.start, duration: self.duration, buttons: self.buttons@ }
    }
}

/// The first position of `c` in `s`.
pub open spec fn index_of(s: Seq<char>, c: char, from: nat) -> Option<nat>
    decreases s.len() - from,
{
    if from >= s.len() {
        None
    } else if s[from as int] == c {
        Some(from)
    } else {
        index_of(s, c, from + 1)
    }
}

/// The pieces of `s` between the occurrences of `sep` (one piece when there
/// is none).
pub open spec fn split_on(s: Seq<char>, sep: char) -> Seq<Seq<char>>
    decreases s.len(),
{
    match index_of(s, sep, 0) {
        None => seq![s],
        Some(i) => {
            if i < s.len() {
                seq![s.subrange(0, i as int)] + split_on(s.subrange(i + 1 as int, s.len() as int), sep)
            } else {
                seq![s]
            }
        },
    }
}

/// `s` without leading and trailing white space.
pub open spec fn trim(s: Seq<char>) -> Seq<char> {
    let a = lead_space(s, 0);
    if a >= s.len() {
        Seq::empty()
    } else {
        s.subrange(a as int, trail_end(s, s.len()) as int)
    }
}

/// The first position at or after `from` that is not white space.
pub open spec fn lead_space(s: Seq<char>, from: nat) -> nat
    decreases s.len() - from,
{
    if from >= s.len() {
        from
    } else if is_space(s[from as int]) {
        lead_space(s, from + 1)
    } else {
        from
    }
}

/// One past the last position before `end` that is not white space.
pub open spec fn trail_end(s: Seq<char>, end: nat) -> nat
    decreases end,
{
    if end == 0 {
        0
    } else if end <= s.len() && is_space(s[end - 1]) {
        trail_end(s, (end - 1) as nat)
    } else {
        end
    }
}

/// ASCII letters in lower case; everything else unchanged.
pub open spec fn lower(s: Seq<char>) -> Seq<char> {
    Seq::new(
        s.len(),
        |i: int|
            if 'A' <= s[i] <= 'Z' {
                ((s[i] as u32) + 32) as char
            } else {
                s[i]
            },
    )
}

/// The key a (trimmed, lower-cased) name denotes.
pub open spec fn button_named(name: Seq<char>) -> Option<Button> {
    if name == "a"@ {
        Some(Button::A)
    } else if name == "b"@ {
        Some(Button::B)
    } else if name == "select"@ {
        Some(Button::Select)
    } else if name == "start"@ {
        Some(Button::Start)
    } else if name == "right"@ {
        Some(Button::Right)
    } else if name == "left"@ {
        Some(Button::Left)
    } else if name == "up"@ {
        Some(Button::Up)
    } else if name == "down"@ {
        Some(Button::Down)
    } else if name == "r"@ {
        Some(Button::R)
    } else if name == "l"@ {
        Some(Button::L)
    } else {
        None
    }
}

pub open spec fn spec_parse_button(text: Seq<char>) -> Result<Button, CliError> {
    match button_named(lower(trim(text))) {
        Some(b) => Ok(b),
        None => Err(CliError::UnknownButton),
    }
}

pub open spec fn spec_parse_u64(text: Seq<char>) -> Result<u64, CliError> {
    match parse_unsigned(text, 10, u64::MAX as nat) {
        Some(v) => Ok(v as u64),
        None => Err(CliError::BadNumber),
    }
}

/// `text` without one leading `0x` or `0X`.
pub open spec fn strip_hex_prefix(text: Seq<char>) -> Seq<char> {
    if text.len() >= 2 && text[0] == '0' && (text[1] == 'x' || text[1] == 'X') {
        text.subrange(2, text.len() as int)
    } else {
        text
    }
}

pub open spec fn spec_parse_u32(text: Seq<char>) -> Result<u32, CliError> {
    match parse_unsigned(strip_hex_prefix(text), 16, u32::MAX as nat) {
        Some(v) => Ok(v as u32),
        None => Err(CliError::BadNumber),
    }
}

/// The keys `names` denote, or the first error.
pub open spec fn spec_parse_buttons(names: Seq<Seq<char>>) -> Result<Seq<Button>, CliError>
    decreases names.len(),
{
    if names.len() == 0 {
        Ok(Seq::empty())
    } else {
        match spec_parse_button(names[0]) {
            Err(e) => Err(e),
            Ok(b) => match spec_parse_buttons(names.drop_first()) {
                Err(e) => Err(e),
                Ok(rest) => Ok(seq![b] + rest),
            },
        }
    }
}

/// One `start:duration:keys` event.
pub open spec fn spec_parse_event(text: Seq<char>) -> Result<EventSpec, CliError> {
    let parts = split_on(text, ':');
    match spec_parse_u64(parts[0]) {
        Err(e) => Err(e),
        Ok(start) => if parts.len() < 2 {
            Err(CliError::MissingDuration)
        } else {
            match spec_parse_u64(parts[1]) {
                Err(e) => Err(e),
                Ok(duration) => if parts.len() < 3 {
                    Err(CliError::MissingButtons)
                } else {
                    match spec_parse_buttons(split_on(parts[2], '+')) {
                        Err(e) => Err(e),
                        Ok(buttons) => if parts.len() > 3 {
                            Err(CliError::TooManySeparators)
                        } else {
                            Ok(EventSpec { start, duration, buttons })
                        },
                    }
                },
            }
        },
    }
}

/// The events of `pieces`, or the first error.
pub open spec fn spec_parse_events(pieces: Seq<Seq<char>>) -> Result<Seq<EventSpec>, CliError>
    decreases pieces.len(),
{
    if pieces.len() == 0 {
        Ok(Seq::empty())
    } else {
        match spec_parse_event(pieces[0]) {
            Err(e) => Err(e),
            Ok(ev) => match spec_parse_events(pieces.drop_first()) {
                Err(e) => Err(e),
                Ok(rest) => Ok(seq![ev] + rest),
            },
        }
    }
}

/// A whole input script: nothing for a blank one, else its comma-separated
/// events.
pub open spec fn spec_parse_script(text: Seq<char>) -> Result<Seq<EventSpec>, CliError> {
    if trim(text).len() == 0 {
        Ok(Seq::empty())
    } else {
        spec_parse_events(split_on(text, ','))
    }
}

/// Whether event `e` holds its keys during `frame`.
pub open spec fn event_active(e: EventSpec, frame: u64) -> bool {
    e.start <= frame && frame < (if e.start + e.duration > u64::MAX {
        u64::MAX as int
    } else {
        e.start + e.duration
    })
}

/// Whether key bit `bit` is held during `frame`.
pub open spec fn held_at(events: Seq<EventSpec>, frame: u64, hold_a: bool, hold_start: bool, bit: int) -> bool {
    ||| (bit == 0 && hold_a)
    ||| (bit == 3 && hold_start)
    ||| exists|k: int, j: int|
        0 <= k < events.len() && event_active(events[k], frame) && 0 <= j < events[k].buttons.len()
            && button_bit(#[trigger] events[k].buttons[j]) == bit
}

// ---------------------------------------------------------------------------

fn index_of_exec(s: &Vec<char>, c: char, from: usize) -> (r: Option<usize>)
    requires
        from <= s@.len(),
    ensures
        match r {
            Some(i) => index_of(s@, c, from as nat) == Some(i as nat) && i < s@.len(),
            None => index_of(s@, c, from as nat) is None,
        },
{
    let mut i = from;
    while i < s.len()
        invariant
            from <= i <= s@.len(),
            index_of(s@, c, from as nat) == index_of(s@, c, i as nat),
        decreases s@.len() - i,
    {
        if s[i] == c {
            return Some(i);
        }
        i = i + 1;
    }
    None
}

fn slice_chars(s: &Vec<char>, a: usize, b: usize) -> (r: Vec<char>)
    requires
        a <= b <= s@.len(),
    ensures
        r@ == s@.subrange(a as int, b as int),
{
    let mut r: Vec<char> = Vec::new();
    let mut k = a;
    while k < b
        invariant
            a <= k <= b <= s@.len(),
            r@ == s@.subrange(a as int, k as int),
        decreases b - k,
    {
        r.push(s[k]);
        k = k + 1;
    }
    r
}

/// The pieces of `s` between the occurrences of `sep`.
pub fn split_chars(s: &Vec<char>, sep: char) -> (r: Vec<Vec<char>>)
    ensures
        r@.len() == split_on(s@, sep).len(),
        forall|i: int| 0 <= i < r@.len() ==> (#[trigger] r@[i])@ == split_on(s@, sep)[i],
{
    let mut out: Vec<Vec<char>> = Vec::new();
    let mut start: usize = 0;
    let n = s.len();
    proof {
        assert(s@.subrange(0, s@.len() as int) =~= s@);
        assert(out@.map_values(|v: Vec<char>| v@) + split_on(s@, sep) =~= split_on(s@, sep));
    }
    loop
        invariant
            n == s@.len(),
            start <= s@.len(),
            split_on(s@, sep) == out@.map_values(|v: Vec<char>| v@) + split_on(
                s@.subrange(start as int, s@.len() as int),
                sep,
            ),
        decreases s@.len() - start,
    {
        let ghost rest = s@.subrange(start as int, s@.len() as int);
        match index_of_exec(s, sep, start) {
            None => {
                proof {
                    lemma_index_of_shift(s@, sep, start as nat, 0);
                    assert(split_on(rest, sep) == seq![rest]);
                }
                let piece = slice_chars(s, start, s.len());
                out.push(piece);
                proof {
                    assert(out@.map_values(|v: Vec<char>| v@) =~= split_on(s@, sep));
                }
                return out;
            },
            Some(i) => {
                proof {
                    lemma_index_of_shift(s@, sep, start as nat, 0);
                    assert(index_of(rest, sep, 0) == Some((i - start) as nat));
                    assert(rest.subrange(0, i - start) =~= s@.subrange(start as int, i as int));
                    assert(rest.subrange(i - start + 1, rest.len() as int) =~= s@.subrange(
                        i + 1,
                        s@.len() as int,
                    ));
                }
                let piece = slice_chars(s, start, i);
                out.push(piece);
                proof {
                    assert(out@.map_values(|v: Vec<char>| v@) =~= out@.drop_last().map_values(
                        |v: Vec<char>| v@,
                    ).push(s@.subrange(start as int, i as int)));
                }
                start = i + 1;
            },
        }
    }
}

/// `index_of` on a suffix is `index_of` on the whole, shifted.
proof fn lemma_index_of_shift(s: Seq<char>, c: char, start: nat, from: nat)
    requires
        start <= s.len(),
        from <= s.len() - start,
    ensures
        index_of(s.subrange(start as int, s.len() as int), c, from) == match index_of(
            s,
            c,
            start + from,
        ) {
            Some(i) => Some((i - start) as nat),
            None => None,
        },
        match index_of(s, c, start + from) {
            Some(i) => i >= start + from,
            None => true,
        },
    decreases s.len() - start - from,
{
    if start + from < s.len() {
        lemma_index_of_shift(s, c, start, from + 1);
    }
}

/// `s` without leading and trailing white space.
pub fn trim_chars(s: &Vec<char>) -> (r: Vec<char>)
    ensures
        r@ == trim(s@),
{
    let mut a: usize = 0;
    while a < s.len() && is_space_exec(s[a])
        invariant
            a <= s@.len(),
            lead_space(s@, 0) == lead_space(s@, a as nat),
        decreases s@.len() - a,
    {
        a = a + 1;
    }
    if a >= s.len() {
        return Vec::new();
    }
    let mut b: usize = s.len();
    while b > 0 && is_space_exec(s[b - 1])
        invariant
            b <= s@.len(),
            a < s@.len(),
            !is_space(s@[a as int]),
            a < b,
            trail_end(s@, s@.len()) == trail_end(s@, b as nat),
        decreases b,
    {
        b = b - 1;
    }
    slice_chars(s, a, b)
}

/// ASCII letters in lower case.
pub fn lower_chars(s: &Vec<char>) -> (r: Vec<char>)
    ensures
        r@ == lower(s@),
{
    let mut r: Vec<char> = Vec::new();
    let mut k: usize = 0;
    while k < s.len()
        invariant
            k <= s@.len(),
            r@ == lower(s@).subrange(0, k as int),
        decreases s@.len() - k,
    {
        let c = s[k];
        let d = if 'A' <= c && c <= 'Z' {
            ((c as u32) + 32) as u8 as char
        } else {
            c
        };
        proof {
            if 'A' <= c <= 'Z' {
                assert(((c as u32) + 32) as u8 as char == ((c as u32) + 32) as char);
            }
        }
        r.push(d);
        k = k + 1;
        proof {
            assert(r@ =~= lower(s@).subrange(0, k as int));
        }
    }
    proof {
        assert(r@ =~= lower(s@));
    }
    r
}

fn chars_eq(s: &Vec<char>, lit: &str) -> (r: bool)
    ensures
        r == (s@ == lit@),
{
    let t = chars_of(lit);
    if s.len() != t.len() {
        return false;
    }
    let mut k: usize = 0;
    while k < s.len()
        invariant
            s@.len() == t@.len(),
            t@ == lit@,
            k <= s@.len(),
            forall|j: int| 0 <= j < k ==> s@[j] == t@[j],
        decreases s@.len() - k,
    {
        if s[k] != t[k] {
            return false;
        }
        k = k + 1;
    }
    proof {
        assert(s@ =~= t@);
    }
    true
}

/// The key a name denotes (case and surrounding white space ignored).
pub fn parse_button(text: &Vec<char>) -> (r: Result<Button, CliError>)
    ensures
        r == spec_parse_button(text@),
{
    let name = lower_chars(&trim_chars(text));
    if chars_eq(&name, "a") {
        Ok(Button::A)
    } else if chars_eq(&name, "b") {
        Ok(Button::B)
    } else if chars_eq(&name, "select") {
        Ok(Button::Select)
    } else if chars_eq(&name, "start") {
        Ok(Button::Start)
    } else if chars_eq(&name, "right") {
        Ok(Button::Right)
    } else if chars_eq(&name, "left") {
        Ok(Button::Left)
    } else if chars_eq(&name, "up") {
        Ok(Button::Up)
    } else if chars_eq(&name, "down") {
        Ok(Button::Down)
    } else if chars_eq(&name, "r") {
        Ok(Button::R)
    } else if chars_eq(&name, "l") {
        Ok(Button::L)
    } else {
        Err(CliError::UnknownButton)
    }
}

/// A decimal `u64`.
pub fn parse_u64(text: &Vec<char>) -> (r: Result<u64, CliError>)
    ensures
        r == spec_parse_u64(text@),
{
    match parse_unsigned_exec(text, 10, u64::MAX) {
        Some(v) => Ok(v),
        None => Err(CliError::BadNumber),
    }
}

/// A hexadecimal address, with or without a `0x` prefix.
pub fn parse_u32(text: &str) -> (r: Result<u32, CliError>)
    ensures
        r == spec_parse_u32(text@),
{
    let t = chars_of(text);
    let digits = if t.len() >= 2 && t[0] == '0' && (t[1] == 'x' || t[1] == 'X') {
        slice_chars(&t, 2, t.len())
    } else {
        t
    };
    match parse_unsigned_exec(&digits, 16, 0xffff_ffff) {
        Some(v) => Ok(v as u32),
        None => Err(CliError::BadNumber),
    }
}

fn parse_buttons(names: &Vec<Vec<char>>) -> (r: Result<Vec<Button>, CliError>)
    ensures
        match r {
            Ok(v) => spec_parse_buttons(names@.map_values(|n: Vec<char>| n@)) == Ok::<
                Seq<Button>,
                CliError,
            >(v@),
            Err(e) => spec_parse_buttons(names@.map_values(|n: Vec<char>| n@)) == Err::<
                Seq<Button>,
                CliError,
            >(e),
        },
{
    let ghost all = names@.map_values(|n: Vec<char>| n@);
    let mut out: Vec<Button> = Vec::new();
    let mut k: usize = 0;
    proof {
        assert(all.subrange(0, all.len() as int) =~= all);
        match spec_parse_buttons(all) {
            Ok(r0) => {
                assert(out@ + r0 =~= r0);
            },
            Err(_) => {},
        }
    }
    while k < names.len()
        invariant
            k <= names@.len(),
            all == names@.map_values(|n: Vec<char>| n@),
            spec_parse_buttons(all) == match spec_parse_buttons(all.subrange(k as int, all.len() as int)) {
                Ok(rest) => Ok(out@ + rest),
                Err(e) => Err(e),
            },
        decreases names@.len() - k,
    {
        let ghost rest = all.subrange(k as int, all.len() as int);
        let ghost out0 = out@;
        proof {
            assert(rest[0] == names@[k as int]@);
            assert(rest.drop_first() =~= all.subrange(k + 1, all.len() as int));
        }
        match parse_button(&names[k]) {
            Ok(b) => {
                out.push(b);
                proof {
                    assert(spec_parse_buttons(rest) == match spec_parse_buttons(rest.drop_first()) {
                        Err(e) => Err(e),
                        Ok(r2) => Ok(seq![b] + r2),
                    });
                    match spec_parse_buttons(all.subrange(k + 1, all.len() as int)) {
                        Ok(r2) => {
                            assert(out@ + r2 =~= out0 + (seq![b] + r2));
                        },
                        Err(_) => {},
                    }
                }
            },
            Err(e) => {
                return Err(e);
            },
        }
        k = k + 1;
    }
    proof {
        assert(all.subrange(k as int, all.len() as int) =~= Seq::<Seq<char>>::empty());
        assert(out@ + Seq::<Button>::empty() =~= out@);
    }
    Ok(out)
}

fn parse_event(text: &Vec<char>) -> (r: Result<InputEvent, CliError>)
    ensures
        match r {
            Ok(ev) => spec_parse_event(text@) == Ok::<EventSpec, CliError>(ev.spec()),
            Err(e) => spec_parse_event(text@) == Err::<EventSpec, CliError>(e),
        },
{
    let parts = split_chars(text, ':');
    proof {
        lemma_split_nonempty(text@, ':');
    }
    let start = match parse_u64(&parts[0]) {
        Ok(v) => v,
        Err(e) => {
            return Err(e);
        },
    };
    if parts.len() < 2 {
        return Err(CliError::MissingDuration);
    }
    let duration = match parse_u64(&parts[1]) {
        Ok(v) => v,
        Err(e) => {
            return Err(e);
        },
    };
    if parts.len() < 3 {
        return Err(CliError::MissingButtons);
    }
    let names = split_chars(&parts[2], '+');
    proof {
        assert(names@.map_values(|n: Vec<char>| n@) =~= split_on(parts@[2]@, '+'));
    }
    let buttons = match parse_buttons(&names) {
        Ok(b) => b,
        Err(e) => {
            return Err(e);
        },
    };
    if parts.len() > 3 {
        return Err(CliError::TooManySeparators);
    }
    Ok(InputEvent { start, duration, buttons })
}

proof fn lemma_split_nonempty(s: Seq<char>, sep: char)
    ensures
        split_on(s, sep).len() >= 1,
    decreases s.len(),
{
    match index_of(s, sep, 0) {
        None => {},
        Some(i) => {
            if i < s.len() {
                lemma_split_nonempty(s.subrange(i + 1 as int, s.len() as int), sep);
            }
        },
    }
}

/// Parses a key script: comma-separated `start:duration:key+key` events,
/// or nothing for a blank script.
pub fn parse_input_script(text: &str) -> (r: Result<Vec<InputEvent>, CliError>)
    ensures
        match r {
            Ok(v) => spec_parse_script(text@) == Ok::<Seq<EventSpec>, CliError>(
                v@.map_values(|e: InputEvent| e.spec()),
            ),
            Err(e) => spec_parse_script(text@) == Err::<Seq<EventSpec>, CliError>(e),
        },
{
    let t = chars_of(text);
    let trimmed = trim_chars(&t);
    if trimmed.len() == 0 {
        proof {
            assert(Seq::<InputEvent>::empty().map_values(|e: InputEvent| e.spec()) =~= Seq::<
                EventSpec,
            >::empty());
        }
        return Ok(Vec::new());
    }
    let pieces = split_chars(&t, ',');
    let ghost all = split_on(t@, ',');
    let mut events: Vec<InputEvent> = Vec::new();
    let mut k: usize = 0;
    proof {
        assert(all.subrange(0, all.len() as int) =~= all);
        match spec_parse_events(all) {
            Ok(r0) => {
                assert(events@.map_values(|e: InputEvent| e.spec()) + r0 =~= r0);
            },
            Err(_) => {},
        }
    }
    while k < pieces.len()
        invariant
            k <= pieces@.len(),
            pieces@.len() == all.len(),
            spec_parse_script(text@) == spec_parse_events(all),
            forall|i: int| 0 <= i < pieces@.len() ==> (#[trigger] pieces@[i])@ == all[i],
            spec_parse_events(all) == match spec_parse_events(all.subrange(k as int, all.len() as int)) {
                Ok(rest) => Ok(events@.map_values(|e: InputEvent| e.spec()) + rest),
                Err(e) => Err(e),
            },
        decreases pieces@.len() - k,
    {
        let ghost rest = all.subrange(k as int, all.len() as int);
        let ghost before = events@.map_values(|e: InputEvent| e.spec());
        proof {
            assert(rest[0] == all[k as int]);
            assert(rest.drop_first() =~= all.subrange(k + 1, all.len() as int));
        }
        match parse_event(&pieces[k]) {
            Ok(ev) => {
                events.push(ev);
                proof {
                    assert(spec_parse_events(rest) == match spec_parse_events(rest.drop_first()) {
                        Err(e) => Err(e),
                        Ok(r2) => Ok(seq![ev.spec()] + r2),
                    });
                    assert(events@.map_values(|e: InputEvent| e.spec()) =~= before.push(ev.spec()));
                    match spec_parse_events(all.subrange(k + 1, all.len() as int)) {
                        Ok(r2) => {
                            assert(before.push(ev.spec()) + r2 =~= before + (seq![ev.spec()] + r2));
                        },
                        Err(_) => {},
                    }
                }
            },
            Err(e) => {
                proof {
                    assert(spec_parse_events(rest) == Err::<Seq<EventSpec>, CliError>(e));
                }
                return Err(e);
            },
        }
        k = k + 1;
    }
    proof {
        assert(all.subrange(k as int, all.len() as int) =~= Seq::<Seq<char>>::empty());
        assert(events@.map_values(|e: InputEvent| e.spec()) + Seq::<EventSpec>::empty()
            =~= events@.map_values(|e: InputEvent| e.spec()));
    }
    Ok(events)
}

/// Which keys the script and the hold options press during `frame`, by
/// KEYINPUT bit.
pub fn buttons_held_at(events: &Vec<InputEvent>, frame: u64, hold_a: bool, hold_start: bool) -> (r: [bool; 10])
    ensures
        forall|bit: int|
            0 <= bit < 10 ==> r@[bit] == held_at(
                events@.map_values(|e: InputEvent| e.spec()),
                frame,
                hold_a,
                hold_start,
                bit,
            ),
{
    let ghost evs = events@.map_values(|e: InputEvent| e.spec());
    let mut pressed = [false; 10];
    pressed[0] = hold_a;
    pressed[3] = hold_start;
    let mut k: usize = 0;
    while k < events.len()
        invariant
            k <= events@.len(),
            evs == events@.map_values(|e: InputEvent| e.spec()),
            forall|bit: int|
                0 <= bit < 10 ==> pressed@[bit] == ((bit == 0 && hold_a) || (bit == 3 && hold_start)
                    || exists|k2: int, j: int|
                    0 <= k2 < k && event_active(evs[k2], frame) && 0 <= j
                        < evs[k2].buttons.len() && button_bit(#[trigger] evs[k2].buttons[j])
                        == bit),
        decreases events@.len() - k,
    {
        let ev = &events[k];
        let active = frame >= ev.start && frame < ev.start.saturating_add(ev.duration);
        proof {
            assert(evs[k as int] == ev.spec());
            assert(active == event_active(evs[k as int], frame));
        }
        if active {
            let mut j: usize = 0;
            while j < ev.buttons.len()
                invariant
                    k < events@.len(),
                    j <= ev.buttons@.len(),
                    evs[k as int] == ev.spec(),
                    event_active(evs[k as int], frame),
                    forall|bit: int|
                        0 <= bit < 10 ==> pressed@[bit] == ((bit == 0 && hold_a) || (bit == 3
                            && hold_start) || (exists|k2: int, j2: int|
                            0 <= k2 < k && event_active(evs[k2], frame) && 0 <= j2
                                < evs[k2].buttons.len() && button_bit(
                                #[trigger] evs[k2].buttons[j2],
                            ) == bit) || (exists|j2: int|
                            0 <= j2 < j && button_bit(#[trigger] evs[k as int].buttons[j2])
                                == bit)),
                decreases ev.buttons@.len() - j,
            {
                let b = ev.buttons[j].bit() as usize;
                pressed[b] = true;
                proof {
                    assert(button_bit(evs[k as int].buttons[j as int]) == b);
                }
                j = j + 1;
            }
        }
        k = k + 1;
    }
    pressed
}

} // verus!
