//! The failure log of a run.
use vstd::prelude::*;

use crate::item::Item;
use crate::text::joined;

verus! {

/// The moment a run started, in calendar fields.
#[derive(Clone, Copy, Debug, PartialEq, Eq, Structural)]
pub struct RunTimestamp {
    pub year: u32,
    pub month: u32,
    pub day: u32,
    pub hour: u32,
    pub minute: u32,
    pub second: u32,
}

/// The decimal digit `d`.
pub open spec fn digit_char(d: nat) -> char {
    if d == 0 {
        '0'
    } else if d == 1 {
        '1'
    } else if d == 2 {
        '2'
    } else if d == 3 {
        '3'
    } else if d == 4 {
        '4'
    } else if d == 5 {
        '5'
    } else if d == 6 {
        '6'
    } else if d == 7 {
        '7'
    } else if d == 8 {
        '8'
    } else {
        '9'
    }
}

/// `n` in exactly two decimal digits.
pub open spec fn two_digits(n: nat) -> Seq<char> {
    seq![digit_char((n / 10) % 10), digit_char(n % 10)]
}

/// `n` in exactly four decimal digits.
pub open spec fn four_digits(n: nat) -> Seq<char> {
    seq![digit_char((n / 1000) % 10), digit_char((n / 100) % 10)] + two_digits(n)
}

/// The timestamp as `YYYY-MM-DD_HH-MM-SS`.
pub open spec fn stamp_text(t: RunTimestamp) -> Seq<char> {
    four_digits(t.year as nat) + seq!['-'] + two_digits(t.month as nat) + seq!['-'] + two_digits(
        t.day as nat,
    ) + seq!['_'] + two_digits(t.hour as nat) + seq!['-'] + two_digits(t.minute as nat) + seq![
        '-',
    ] + two_digits(t.second as nat)
}

/// The name of the failure log of a run: `log_<stamp>.txt`.
pub open spec fn log_name_text(t: RunTimestamp) -> Seq<char> {
    seq!['l', 'o', 'g', '_'] + stamp_text(t) + seq!['.', 't', 'x', 't']
}

/// The line that identifies a failed item: its title, or its key when the title is empty.
pub open spec fn log_line_text(item: Item) -> Seq<char> {
    if item.title@.len() > 0 { item.title@ } else { item.key@ }
}

/// The written decimal digit `d`.
fn digit_str(d: u32) -> (r: &'static str)
    requires
        d < 10,
    ensures
        r@ == seq![digit_char(d as nat)],
{
    proof {
        reveal_strlit("0");
        reveal_strlit("1");
        reveal_strlit("2");
        reveal_strlit("3");
        reveal_strlit("4");
        reveal_strlit("5");
        reveal_strlit("6");
        reveal_strlit("7");
        reveal_strlit("8");
        reveal_strlit("9");
    }
    match d {
        0 => "0",
        1 => "1",
        2 => "2",
        3 => "3",
        4 => "4",
        5 => "5",
        6 => "6",
        7 => "7",
        8 => "8",
        _ => "9",
    }
}

/// Appends `n` in two decimal digits.
fn push_two_digits(s: &mut String, n: u32)
    ensures
        final(s)@ == old(s)@ + two_digits(n as nat),
{
    s.append(digit_str((n / 10) % 10));
    s.append(digit_str(n % 10));
}

/// Appends the separator `sep`.
fn push_str(s: &mut String, sep: &str)
    ensures
        final(s)@ == old(s)@ + sep@,
{
    s.append(sep);
}

/// The timestamp as `YYYY-MM-DD_HH-MM-SS`.
pub fn stamp(t: &RunTimestamp) -> (r: String)
    ensures
        r@ == stamp_text(*t),
{
    let mut s = String::new();
    s.append(digit_str((t.year / 1000) % 10));
    s.append(digit_str((t.year / 100) % 10));
    push_two_digits(&mut s, t.year);
    push_str(&mut s, "-");
    push_two_digits(&mut s, t.month);
    push_str(&mut s, "-");
    push_two_digits(&mut s, t.day);
    push_str(&mut s, "_");
    push_two_digits(&mut s, t.hour);
    push_str(&mut s, "-");
    push_two_digits(&mut s, t.minute);
    push_str(&mut s, "-");
    push_two_digits(&mut s, t.second);
    proof {
        reveal_strlit("-");
        reveal_strlit("_");
        assert(s@ =~= stamp_text(*t));
    }
    s
}

/// The file name of the failure log of the run started at `t`.
pub fn log_file_name(t: &RunTimestamp) -> (r: String)
    ensures
        r@ == log_name_text(*t),
{
    let st = stamp(t);
    let name = joined("log_", st.as_str());
    let name = joined(name.as_str(), ".txt");
    proof {
        reveal_strlit("log_");
        reveal_strlit(".txt");
        assert(name@ =~= log_name_text(*t));
    }
    name
}

/// The line of the failure log that identifies `item`.
pub fn log_line(item: &Item) -> (r: String)
    ensures
        r@ == log_line_text(*item),
{
    if item.title.as_str().unicode_len() > 0 {
        item.title.clone()
    } else {
        item.key.clone()
    }
}

/// What is to be written for a run with failures.
#[derive(Clone, Debug)]
pub struct FailureReport {
    /// Where the log goes: `<log_dir>/log_<stamp>.txt`.
    pub path: String,
    /// One line per failed item, in the order of the failures.
    pub lines: Vec<String>,
}

/// The failure log of a run started at `t`, to go under `log_dir`: `None`
/// when nothing failed, so that a fully successful run writes nothing.
pub fn report(failed: &Vec<Item>, log_dir: &str, t: &RunTimestamp) -> (r: Option<FailureReport>)
    ensures
        r.is_none() <==> failed@.len() == 0,
        r.is_some() ==> {
            &&& r.unwrap().path@ == log_dir@ + seq!['/'] + log_name_text(*t)
            &&& r.unwrap().lines@.len() == failed@.len()
            &&& forall|i: int|
                0 <= i < failed@.len() ==> (#[trigger] r.unwrap().lines@[i])@ == log_line_text(
                    failed@[i],
                )
        },
{
    if failed.len() == 0 {
        return None;
    }
    let dir = joined(log_dir, "/");
    let name = log_file_name(t);
    let path = joined(dir.as_str(), name.as_str());
    proof {
        reveal_strlit("/");
    }
    let mut lines: Vec<String> = Vec::new();
    let mut i: usize = 0;
    while i < failed.len()
        invariant
            i <= failed@.len(),
            lines@.len() == i,
            forall|j: int| 0 <= j < i ==> (#[trigger] lines@[j])@ == log_line_text(failed@[j]),
        decreases failed@.len() - i,
    {
        lines.push(log_line(&failed[i]));
        i += 1;
    }
    Some(FailureReport { path, lines })
}

} // verus!
