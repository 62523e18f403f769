//! Rack components as an operator's console names them: an identifier
//! per sled, switch or power-shelf controller, power states, and the
//! states an update pass through that console displays.

use vstd::prelude::*;

verus! {

/// The component type and its slot.
#[derive(Clone, Copy, Debug, PartialEq, Eq, Structural, PartialOrd, Ord, Hash)]
pub enum ComponentId {
    Sled(u8),
    Switch(u8),
    Psc(u8),
}

/// The decimal digits of a number, as characters.
pub open spec fn spec_dec_chars(n: int) -> Seq<char>
    decreases n,
{
    if n <= 0 {
        seq!['0']
    } else if n < 10 {
        seq![spec_digit_char(n)]
    } else {
        spec_dec_chars(n / 10).push(spec_digit_char(n % 10))
    }
}

/// The character of one decimal digit.
pub open spec fn spec_digit_char(d: int) -> char {
    if d == 0 {
        '0'
    } else if d == 1 {
        '1'
    } else if d == 2 {
        '2'
    } else if d == 3 {
        '3'
    } else if d == 4 {
        '4'
    } else if d == 5 {
        '5'
    } else if d == 6 {
        '6'
    } else if d == 7 {
        '7'
    } else if d == 8 {
        '8'
    } else {
        '9'
    }
}

/// The displayed name of a component.
pub open spec fn spec_component_name(c: ComponentId) -> Seq<char> {
    match c {
        ComponentId::Sled(i) => seq!['S', 'L', 'E', 'D', ' '] + spec_dec_chars(i as int),
        ComponentId::Switch(i) => seq!['S', 'W', 'I', 'T', 'C', 'H', ' '] + spec_dec_chars(
            i as int,
        ),
        ComponentId::Psc(i) => seq!['P', 'S', 'C', ' '] + spec_dec_chars(i as int),
    }
}

/// The string of one decimal digit.
fn digit_str(d: u8) -> (r: &'static str)
    requires
        d < 10,
    ensures
        r@ == seq![spec_digit_char(d as int)],
{
    proof {
        reveal_strlit("0");
        reveal_strlit("1");
        reveal_strlit("2");
        reveal_strlit("3");
        reveal_strlit("4");
        reveal_strlit("5");
        reveal_strlit("6");
        reveal_strlit("7");
        reveal_strlit("8");
        reveal_strlit("9");
    }
    let r = match d {
        0 => "0",
        1 => "1",
        2 => "2",
        3 => "3",
        4 => "4",
        5 => "5",
        6 => "6",
        7 => "7",
        8 => "8",
        _ => "9",
    };
    proof {
        assert(r@ =~= seq![spec_digit_char(d as int)]);
    }
    r
}

/// Append the decimal digits of `n` onto `out`.
fn push_dec_chars(n: u8, out: &mut String)
    ensures
        final(out)@ == old(out)@ + spec_dec_chars(n as int),
    decreases n,
{
    if n < 10 {
        let d = digit_str(n);
        out.append(d);
        proof {
            assert(final(out)@ =~= old(out)@ + spec_dec_chars(n as int));
        }
    } else {
        push_dec_chars(n / 10, out);
        let d = digit_str(n % 10);
        out.append(d);
        proof {
            assert(final(out)@ =~= old(out)@ + spec_dec_chars(n as int));
        }
    }
}

impl ComponentId {
    /// The displayed name: the component type in capitals, a space, and
    /// the slot.
    pub fn name(&self) -> (r: String)
        ensures
            r@ == spec_component_name(*self),
    {
        proof {
            reveal_strlit("SLED ");
            reveal_strlit("SWITCH ");
            reveal_strlit("PSC ");
        }
        let mut out: String;
        let slot: u8;
        match self {
            ComponentId::Sled(i) => {
                out = String::from_str("SLED ");
                slot = *i;
                proof {
                    assert(out@ =~= seq!['S', 'L', 'E', 'D', ' ']);
                }
            },
            ComponentId::Switch(i) => {
                out = String::from_str("SWITCH ");
                slot = *i;
                proof {
                    assert(out@ =~= seq!['S', 'W', 'I', 'T', 'C', 'H', ' ']);
                }
            },
            ComponentId::Psc(i) => {
                out = String::from_str("PSC ");
                slot = *i;
                proof {
                    assert(out@ =~= seq!['P', 'S', 'C', ' ']);
                }
            },
        }
        push_dec_chars(slot, &mut out);
        out
    }

    /// Parse an identifier from its type name and slot, as the console's
    /// route parameters carry them.
    ///
    /// The slot must be a plain numeral of at most three digits; the type
    /// must be one of the three known names, with the slot in the type's
    /// range: sleds up to thirty-one, switches and power shelves up to
    /// one. Exactly those inputs parse; everything else is rejected.
    pub fn try_from(value: ParsableComponentId<'_>) -> (r: Result<ComponentId, ()>)
        ensures
            value.sp_type@ == "sled"@ && u8_numeral(value.i@) && str_dec_value(value.i@) <= 31
                ==> r == Ok::<_, ()>(ComponentId::Sled(str_dec_value(value.i@) as u8)),
            value.sp_type@ == "switch"@ && u8_numeral(value.i@) && str_dec_value(value.i@)
                <= 1 ==> r == Ok::<_, ()>(ComponentId::Switch(str_dec_value(value.i@) as u8)),
            value.sp_type@ == "power"@ && u8_numeral(value.i@) && str_dec_value(value.i@) <= 1
                ==> r == Ok::<_, ()>(ComponentId::Psc(str_dec_value(value.i@) as u8)),
            r matches Ok(c) ==> match c {
                ComponentId::Sled(i) => value.sp_type@ == "sled"@ && u8_numeral(value.i@)
                    && i == str_dec_value(value.i@) && i <= 31,
                ComponentId::Switch(i) => value.sp_type@ == "switch"@ && u8_numeral(value.i@)
                    && i == str_dec_value(value.i@) && i <= 1,
                ComponentId::Psc(i) => value.sp_type@ == "power"@ && u8_numeral(value.i@)
                    && i == str_dec_value(value.i@) && i <= 1,
            },
    {
        let i = match parse_u8_str(value.i) {
            Some(v) => v,
            None => {
                return Err(());
            },
        };
        proof {
            reveal_strlit("sled");
            reveal_strlit("switch");
            reveal_strlit("power");
            assert("sled"@.len() == 4 && "switch"@.len() == 6 && "power"@.len() == 5);
            assert("sled"@ != "switch"@ && "sled"@ != "power"@ && "switch"@ != "power"@);
        }
        if str_eq(value.sp_type, "sled") && i <= 31 {
            Ok(ComponentId::Sled(i))
        } else if str_eq(value.sp_type, "switch") && i <= 1 {
            Ok(ComponentId::Switch(i))
        } else if str_eq(value.sp_type, "power") && i <= 1 {
            Ok(ComponentId::Psc(i))
        } else {
            Err(())
        }
    }
}

/// The numeric value of one decimal digit character, or ten for any
/// other character.
pub open spec fn spec_char_digit(c: char) -> int {
    if c == '0' {
        0
    } else if c == '1' {
        1
    } else if c == '2' {
        2
    } else if c == '3' {
        3
    } else if c == '4' {
        4
    } else if c == '5' {
        5
    } else if c == '6' {
        6
    } else if c == '7' {
        7
    } else if c == '8' {
        8
    } else if c == '9' {
        9
    } else {
        10
    }
}

/// All characters of `s` are decimal digits.
pub open spec fn str_all_digits(s: Seq<char>) -> bool {
    forall|i: int| 0 <= i < s.len() ==> spec_char_digit(#[trigger] s[i]) < 10
}

/// The number a string of digit characters denotes.
pub open spec fn str_dec_value(s: Seq<char>) -> int
    decreases s.len(),
{
    if s.len() == 0 {
        0
    } else {
        str_dec_value(s.drop_last()) * 10 + spec_char_digit(s.last())
    }
}

/// The numerals the route parser accepts for a slot: one to three
/// decimal digits denoting at most two hundred and fifty-five.
pub open spec fn u8_numeral(s: Seq<char>) -> bool {
    1 <= s.len() <= 3 && str_all_digits(s) && str_dec_value(s) <= 255
}

/// A component identifier still in its textual pieces.
pub struct ParsableComponentId<'a> {
    pub sp_type: &'a str,
    pub i: &'a str,
}

/// Whether two strings hold the same characters.
fn str_eq(a: &str, b: &str) -> (r: bool)
    ensures
        r == (a@ == b@),
{
    let na = a.unicode_len();
    let nb = b.unicode_len();
    if na != nb {
        return false;
    }
    let mut k: usize = 0;
    while k < na
        invariant
            k <= na,
            na == a@.len(),
            nb == b@.len(),
            na == nb,
            forall|q: int| 0 <= q < k ==> a@[q] == b@[q],
        decreases na - k,
    {
        if a.get_char(k) != b.get_char(k) {
            return false;
        }
        k += 1;
    }
    proof {
        assert(a@ =~= b@);
    }
    true
}

/// Parse a slot numeral: one to three decimal digits denoting at most
/// two hundred and fifty-five. Exactly those strings parse.
fn parse_u8_str(s: &str) -> (r: Option<u8>)
    ensures
        match r {
            Some(v) => u8_numeral(s@) && v == str_dec_value(s@),
            None => !u8_numeral(s@),
        },
{
    let n = s.unicode_len();
    if n == 0 || n > 3 {
        return None;
    }
    let mut acc: u32 = 0;
    let mut k: usize = 0;
    proof {
        assert(s@.take(0) =~= Seq::<char>::empty());
    }
    while k < n
        invariant
            k <= n,
            n == s@.len(),
            1 <= n <= 3,
            str_all_digits(s@.take(k as int)),
            acc == str_dec_value(s@.take(k as int)),
            k == 0 ==> acc == 0,
            k == 1 ==> acc < 10,
            k == 2 ==> acc < 100,
            k == 3 ==> acc < 1000,
        decreases n - k,
    {
        let c = s.get_char(k);
        let d: u32 = match c {
            '0' => 0,
            '1' => 1,
            '2' => 2,
            '3' => 3,
            '4' => 4,
            '5' => 5,
            '6' => 6,
            '7' => 7,
            '8' => 8,
            '9' => 9,
            _ => {
                proof {
                    assert(spec_char_digit(s@[k as int]) == 10);
                }
                return None;
            },
        };
        proof {
            let t1 = s@.take(k as int + 1);
            assert(t1.drop_last() =~= s@.take(k as int));
            assert(t1.last() == c);
            assert(str_all_digits(t1)) by {
                assert(forall|w: int| 0 <= w < k ==> t1[w] == s@.take(k as int)[w]);
            }
            assert(spec_char_digit(c) == d);
        }
        acc = acc * 10 + d;
        k += 1;
    }
    proof {
        assert(s@.take(k as int) =~= s@);
    }
    if acc > 255 {
        None
    } else {
        Some(acc as u8)
    }
}

/// A host power state.
#[derive(Clone, Copy, Debug, PartialEq, Eq, Structural, Hash)]
pub enum PowerState {
    /// Working.
    A0,
    /// Sojourning.
    A1,
    /// Quiescent.
    A2,
    /// Commanded off.
    A3,
    /// Mechanical off.
    A4,
}

impl PowerState {
    /// A short description of the state.
    pub fn description(&self) -> (r: &'static str)
        ensures
            self == PowerState::A0 ==> r@ == "working"@,
            self == PowerState::A1 ==> r@ == "sojourning"@,
            self == PowerState::A2 ==> r@ == "quiescent"@,
            self == PowerState::A3 ==> r@ == "commanded off"@,
            self == PowerState::A4 ==> r@ == "mechanical off (unplugged)"@,
    {
        match self {
            PowerState::A0 => "working",
            PowerState::A1 => "sojourning",
            PowerState::A2 => "quiescent",
            PowerState::A3 => "commanded off",
            PowerState::A4 => "mechanical off (unplugged)",
        }
    }
}

/// The externally visible state of one component's update.
#[derive(Clone, Copy, Debug, PartialEq, Eq, Structural)]
pub enum UpdateState {
    NotStarted,
    Starting,
    FailedToStart,
    Running(UpdateRunningState),
}

/// The state of one component while its update runs.
#[derive(Clone, Copy, Debug, PartialEq, Eq, Structural, Hash)]
pub enum UpdateRunningState {
    Waiting,
    Updated,
    Updating,
    Skipped,
    Failed,
    Aborted,
}

impl UpdateRunningState {
    /// The console's label for the state.
    pub fn label(&self) -> (r: &'static str)
        ensures
            self == UpdateRunningState::Waiting ==> r@ == "WAITING"@,
            self == UpdateRunningState::Updated ==> r@ == "UPDATED"@,
            self == UpdateRunningState::Updating ==> r@ == "UPDATING"@,
            self == UpdateRunningState::Skipped ==> r@ == "SKIPPED"@,
            self == UpdateRunningState::Failed ==> r@ == "FAILED"@,
            self == UpdateRunningState::Aborted ==> r@ == "ABORTED"@,
    {
        match self {
            UpdateRunningState::Waiting => "WAITING",
            UpdateRunningState::Updated => "UPDATED",
            UpdateRunningState::Updating => "UPDATING",
            UpdateRunningState::Skipped => "SKIPPED",
            UpdateRunningState::Failed => "FAILED",
            UpdateRunningState::Aborted => "ABORTED",
        }
    }
}

impl UpdateState {
    /// The console's label for the state.
    pub fn label(&self) -> (r: &'static str)
        ensures
            self == UpdateState::NotStarted ==> r@ == "NOT STARTED"@,
            self == UpdateState::Starting ==> r@ == "STARTING"@,
            self == UpdateState::FailedToStart ==> r@ == "FAILED TO START"@,
    {
        match self {
            UpdateState::NotStarted => "NOT STARTED",
            UpdateState::Starting => "STARTING",
            UpdateState::FailedToStart => "FAILED TO START",
            UpdateState::Running(inner) => inner.label(),
        }
    }
}

} // verus!
