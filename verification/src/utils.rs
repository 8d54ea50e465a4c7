use std::time::Duration;
use vstd::prelude::*;
use vstd::string::StringExecFns;

verus! {

/// `x + 1`, wrapping around at `usize::MAX` as an atomic counter does.
pub open spec fn wrap_inc(x: usize) -> usize {
    if x == usize::MAX {
        0
    } else {
        (x + 1) as usize
    }
}

/// `x - 1`, wrapping around at zero as an atomic counter does.
pub open spec fn wrap_dec(x: usize) -> usize {
    if x == 0 {
        usize::MAX
    } else {
        (x - 1) as usize
    }
}

/// `x + y`, wrapping around past `usize::MAX` as an atomic counter does.
pub open spec fn wrap_add(x: usize, y: usize) -> usize {
    if x + y > usize::MAX {
        (x + y - usize::MAX - 1) as usize
    } else {
        (x + y) as usize
    }
}

/// Adding one as `wrap_inc` does is adding one modulo `usize::MAX + 1`.
pub proof fn lemma_wrap_inc_mod(x: int)
    ensures
        wrap_inc((x % (usize::MAX + 1)) as usize) == ((x + 1) % (usize::MAX + 1)) as usize,
{
    let m = usize::MAX + 1;
    let v = x % m;
    vstd::arithmetic::div_mod::lemma_add_mod_noop(x, 1, m);
    vstd::arithmetic::div_mod::lemma_small_mod(1, m as nat);
    if v == usize::MAX {
        vstd::arithmetic::div_mod::lemma_mod_self_0(m);
    } else {
        vstd::arithmetic::div_mod::lemma_small_mod((v + 1) as nat, m as nat);
    }
}

/// Taking one away as `wrap_dec` does is subtracting one modulo `usize::MAX + 1`.
pub proof fn lemma_wrap_dec_mod(x: int)
    ensures
        wrap_dec((x % (usize::MAX + 1)) as usize) == ((x - 1) % (usize::MAX + 1)) as usize,
{
    let m = usize::MAX + 1;
    let v = x % m;
    vstd::arithmetic::div_mod::lemma_sub_mod_noop(x, 1, m);
    vstd::arithmetic::div_mod::lemma_small_mod(1, m as nat);
    if v == 0 {
        vstd::arithmetic::div_mod::lemma_mod_add_multiples_vanish(-1, m);
        vstd::arithmetic::div_mod::lemma_small_mod((m - 1) as nat, m as nat);
    } else {
        vstd::arithmetic::div_mod::lemma_small_mod((v - 1) as nat, m as nat);
    }
}

/// The character of a decimal digit.
pub open spec fn digit_char(d: nat) -> char {
    if d == 0 {
        '0'
    } else if d == 1 {
        '1'
    } else if d == 2 {
        '2'
    } else if d == 3 {
        '3'
    } else if d == 4 {
        '4'
    } else if d == 5 {
        '5'
    } else if d == 6 {
        '6'
    } else if d == 7 {
        '7'
    } else if d == 8 {
        '8'
    } else {
        '9'
    }
}

/// The decimal text of a number, without leading zeros.
pub open spec fn decimal(n: nat) -> Seq<char>
    decreases n,
{
    if n < 10 {
        seq![digit_char(n)]
    } else {
        decimal(n / 10) + seq![digit_char(n % 10)]
    }
}

fn digit_str(d: u64) -> (s: &'static str)
    requires
        d < 10,
    ensures
        s@ == seq![digit_char(d as nat)],
{
    proof {
        reveal_strlit("0");
        reveal_strlit("1");
        reveal_strlit("2");
        reveal_strlit("3");
        reveal_strlit("4");
        reveal_strlit("5");
        reveal_strlit("6");
        reveal_strlit("7");
        reveal_strlit("8");
        reveal_strlit("9");
    }
    if d == 0 {
        "0"
    } else if d == 1 {
        "1"
    } else if d == 2 {
        "2"
    } else if d == 3 {
        "3"
    } else if d == 4 {
        "4"
    } else if d == 5 {
        "5"
    } else if d == 6 {
        "6"
    } else if d == 7 {
        "7"
    } else if d == 8 {
        "8"
    } else {
        "9"
    }
}

/// Writes a number in decimal, as `to_string` does.
pub fn u64_to_decimal(n: u64) -> (s: String)
    ensures
        s@ == decimal(n as nat),
    decreases n,
{
    if n < 10 {
        String::from_str(digit_str(n))
    } else {
        let mut s = u64_to_decimal(n / 10);
        s.append(digit_str(n % 10));
        s
    }
}

/// Words joined by single spaces.
pub open spec fn join_words(parts: Seq<Seq<char>>) -> Seq<char>
    decreases parts.len(),
{
    if parts.len() == 0 {
        Seq::empty()
    } else if parts.len() == 1 {
        parts[0]
    } else {
        join_words(parts.drop_last()) + " "@ + parts.last()
    }
}

/// `parts` with `part` appended when `cond` holds.
pub open spec fn push_if(parts: Seq<Seq<char>>, cond: bool, part: Seq<char>) -> Seq<Seq<char>> {
    if cond {
        parts.push(part)
    } else {
        parts
    }
}

/// The parts of a duration of `secs` seconds: days, hours, minutes and seconds, each only
/// where it is not zero, and the seconds also where nothing else was written.
pub open spec fn duration_parts(secs: nat) -> Seq<Seq<char>> {
    let days = secs / 86_400;
    let hours = (secs % 86_400) / 3600;
    let minutes = (secs % 3600) / 60;
    let seconds = secs % 60;
    let p1 = push_if(Seq::empty(), days > 0, decimal(days) + " days"@);
    let p2 = push_if(p1, hours > 0, decimal(hours) + " h"@);
    let p3 = push_if(p2, minutes > 0, decimal(minutes) + " min"@);
    push_if(p3, seconds > 0 || p3.len() == 0, decimal(seconds) + " s"@)
}

/// A duration of whole seconds for people, such as "1 days 1 h 1 min 1 s" or "0 s".
pub open spec fn human_duration_text(secs: nat) -> Seq<char> {
    join_words(duration_parts(secs))
}

/// A duration is never written as nothing: at least the seconds are there.
pub proof fn lemma_human_duration_nonempty(secs: nat)
    ensures
        human_duration_text(secs).len() > 0,
{
    let parts = duration_parts(secs);
    assert(parts.len() > 0);
    let last = parts.last();
    assert(last.len() > 0) by {
        reveal_strlit(" days");
        reveal_strlit(" h");
        reveal_strlit(" min");
        reveal_strlit(" s");
    }
    if parts.len() > 1 {
        assert(join_words(parts) == join_words(parts.drop_last()) + " "@ + last);
    }
}

/// Appends one part, with a space before it unless it is the first.
fn push_part(
    out: &mut String,
    ghost_parts: Ghost<Seq<Seq<char>>>,
    first: bool,
    value: u64,
    unit: &str,
) -> (parts: Ghost<Seq<Seq<char>>>)
    requires
        old(out)@ == join_words(ghost_parts@),
        first == (ghost_parts@.len() == 0),
    ensures
        parts@ == ghost_parts@.push(decimal(value as nat) + unit@),
        final(out)@ == join_words(parts@),
{
    let ghost before = ghost_parts@;
    let ghost part = decimal(value as nat) + unit@;
    proof {
        reveal_strlit(" ");
        assert(before.push(part).drop_last() =~= before);
    }
    if !first {
        out.append(" ");
    }
    let digits = u64_to_decimal(value);
    out.append(digits.as_str());
    out.append(unit);
    proof {
        if before.len() == 0 {
            assert(out@ =~= part);
        } else {
            assert(out@ =~= join_words(before) + " "@ + part);
        }
    }
    Ghost(before.push(part))
}

/// The whole seconds of a duration.
pub uninterp spec fn duration_whole_secs(d: Duration) -> u64;

/// `Duration::as_secs`: the whole seconds of the duration, the fraction dropped. The
/// contract names the result; it depends on the duration alone.
#[verifier::external_body]
fn duration_as_secs(d: &Duration) -> (secs: u64)
    ensures
        secs == duration_whole_secs(*d),
{
    d.as_secs()
}

/// The length of a duration in nanoseconds, as `Duration::as_nanos` gives it.
pub uninterp spec fn duration_nanos(d: Duration) -> nat;

/// `Duration::as_nanos`: the whole length of the duration in nanoseconds (it always fits in
/// a `u128`). The contract names the result.
#[verifier::external_body]
pub(crate) fn duration_as_nanos(d: &Duration) -> (n: u128)
    ensures
        n == duration_nanos(*d),
{
    d.as_nanos()
}

/// `Duration::from_secs`: a duration of `secs` whole seconds.
#[verifier::external_body]
pub(crate) fn duration_from_secs(secs: u64) -> (d: Duration)
    ensures
        duration_nanos(d) == secs * 1_000_000_000,
        duration_whole_secs(d) == secs,
{
    Duration::from_secs(secs)
}

/// Writes a duration for people, by its whole seconds: "1 days 2 h 3 min 4 s", leaving
/// out the parts that are zero; "0 s" for less than a second.
pub fn human_duration(d: Duration) -> (s: String)
    ensures
        s@ == human_duration_text(duration_whole_secs(d) as nat),
{
    let secs = duration_as_secs(&d);
    human_duration_secs(secs)
}

/// Writes a duration of `total_secs` whole seconds for people: "1 days 2 h 3 min 4 s",
/// leaving out the parts that are zero; "0 s" for no time at all.
pub fn human_duration_secs(total_secs: u64) -> (s: String)
    ensures
        s@ == human_duration_text(total_secs as nat),
{
    let days = total_secs / 86_400;
    let hours = (total_secs % 86_400) / 3600;
    let minutes = (total_secs % 3600) / 60;
    let seconds = total_secs % 60;
    let mut out = String::new();
    let mut parts: Ghost<Seq<Seq<char>>> = Ghost(Seq::empty());
    let mut first = true;
    proof {
        reveal_strlit(" days");
        reveal_strlit(" h");
        reveal_strlit(" min");
        reveal_strlit(" s");
    }
    if days > 0 {
        parts = push_part(&mut out, parts, first, days, " days");
        first = false;
    }
    if hours > 0 {
        parts = push_part(&mut out, parts, first, hours, " h");
        first = false;
    }
    if minutes > 0 {
        parts = push_part(&mut out, parts, first, minutes, " min");
        first = false;
    }
    if seconds > 0 || first {
        parts = push_part(&mut out, parts, first, seconds, " s");
    }
    assert(parts@ == duration_parts(total_secs as nat));
    out
}


/// The unit that `human_number` writes a count in.
#[derive(Clone, Copy, Debug, PartialEq, Eq, Structural)]
pub enum NumberScale {
    Units,
    Thousands,
    Millions,
    Billions,
    Trillions,
    Quadrillions,
}

/// The largest unit that the count reaches: thousands from 1 000 on, millions from
/// 1 000 000 on, and so on up to quadrillions from 10^15 on.
pub open spec fn spec_number_scale(n: u64) -> NumberScale {
    if n >= 1_000_000_000_000_000 {
        NumberScale::Quadrillions
    } else if n >= 1_000_000_000_000 {
        NumberScale::Trillions
    } else if n >= 1_000_000_000 {
        NumberScale::Billions
    } else if n >= 1_000_000 {
        NumberScale::Millions
    } else if n >= 1_000 {
        NumberScale::Thousands
    } else {
        NumberScale::Units
    }
}

/// Chooses the unit that `human_number` writes a count in.
pub fn human_number_scale(n: u64) -> (s: NumberScale)
    ensures
        s == spec_number_scale(n),
{
    if n >= 1_000_000_000_000_000 {
        NumberScale::Quadrillions
    } else if n >= 1_000_000_000_000 {
        NumberScale::Trillions
    } else if n >= 1_000_000_000 {
        NumberScale::Billions
    } else if n >= 1_000_000 {
        NumberScale::Millions
    } else if n >= 1_000 {
        NumberScale::Thousands
    } else {
        NumberScale::Units
    }
}

impl NumberScale {
    /// How many units one of this unit is.
    pub fn divisor(&self) -> (d: u64)
        ensures
            d == match *self {
                NumberScale::Units => 1u64,
                NumberScale::Thousands => 1_000u64,
                NumberScale::Millions => 1_000_000u64,
                NumberScale::Billions => 1_000_000_000u64,
                NumberScale::Trillions => 1_000_000_000_000u64,
                NumberScale::Quadrillions => 1_000_000_000_000_000u64,
            },
    {
        match self {
            NumberScale::Units => 1,
            NumberScale::Thousands => 1_000,
            NumberScale::Millions => 1_000_000,
            NumberScale::Billions => 1_000_000_000,
            NumberScale::Trillions => 1_000_000_000_000,
            NumberScale::Quadrillions => 1_000_000_000_000_000,
        }
    }

    /// The letter written after a count in this unit; none for plain units.
    pub fn suffix(&self) -> (s: &'static str)
        ensures
            s@ == match *self {
                NumberScale::Units => ""@,
                NumberScale::Thousands => "K"@,
                NumberScale::Millions => "M"@,
                NumberScale::Billions => "B"@,
                NumberScale::Trillions => "T"@,
                NumberScale::Quadrillions => "Q"@,
            },
    {
        match self {
            NumberScale::Units => "",
            NumberScale::Thousands => "K",
            NumberScale::Millions => "M",
            NumberScale::Billions => "B",
            NumberScale::Trillions => "T",
            NumberScale::Quadrillions => "Q",
        }
    }
}

} // verus!
