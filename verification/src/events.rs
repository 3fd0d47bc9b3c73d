//! The JSON text of the job events and reports that the bridge sends to its
//! clients.  Numbers are written in decimal and strings are escaped as JSON
//! requires (`"`, `\` and control characters).

use vstd::prelude::*;

use crate::text::{chars_of, push_str, string_from_chars};

verus! {

/// The decimal digit for `d < 10`.
pub open spec fn digit_char(d: nat) -> char {
    seq!['0', '1', '2', '3', '4', '5', '6', '7', '8', '9'][d as int]
}

/// The lowercase hexadecimal digit for `d < 16`.
pub open spec fn hex_char(d: nat) -> char {
    seq!['0', '1', '2', '3', '4', '5', '6', '7', '8', '9', 'a', 'b', 'c', 'd', 'e', 'f'][d as int]
}

/// `n` written in decimal, without leading zeros.
pub open spec fn decimal(n: nat) -> Seq<char>
    decreases n,
{
    if n < 10 {
        seq![digit_char(n)]
    } else {
        decimal(n / 10).push(digit_char(n % 10))
    }
}

fn digit(d: usize) -> (c: char)
    requires
        d < 10,
    ensures
        c == digit_char(d as nat),
{
    match d {
        0 => '0',
        1 => '1',
        2 => '2',
        3 => '3',
        4 => '4',
        5 => '5',
        6 => '6',
        7 => '7',
        8 => '8',
        _ => '9',
    }
}

fn hex(d: u32) -> (c: char)
    requires
        d < 16,
    ensures
        c == hex_char(d as nat),
{
    match d {
        0 => '0',
        1 => '1',
        2 => '2',
        3 => '3',
        4 => '4',
        5 => '5',
        6 => '6',
        7 => '7',
        8 => '8',
        9 => '9',
        10 => 'a',
        11 => 'b',
        12 => 'c',
        13 => 'd',
        14 => 'e',
        _ => 'f',
    }
}

/// Appends `n` in decimal to `buf`.
pub fn push_decimal(buf: &mut Vec<char>, n: usize)
    ensures
        final(buf)@ == old(buf)@ + decimal(n as nat),
    decreases n,
{
    if n >= 10 {
        push_decimal(buf, n / 10);
    }
    buf.push(digit(n % 10));
    proof {
        if n >= 10 {
            assert(final(buf)@ =~= old(buf)@ + decimal(n as nat));
        } else {
            assert(final(buf)@ =~= old(buf)@ + decimal(n as nat));
        }
    }
}

/// How JSON writes the character `c` inside a string.
pub open spec fn escape_char(c: char) -> Seq<char> {
    let u = c as u32;
    if c == '"' {
        seq!['\\', '"']
    } else if c == '\\' {
        seq!['\\', '\\']
    } else if c == '\n' {
        seq!['\\', 'n']
    } else if c == '\r' {
        seq!['\\', 'r']
    } else if c == '\t' {
        seq!['\\', 't']
    } else if u == 0x08 {
        seq!['\\', 'b']
    } else if u == 0x0c {
        seq!['\\', 'f']
    } else if u < 0x20 {
        seq!['\\', 'u', '0', '0', hex_char((u / 16) as nat), hex_char((u % 16) as nat)]
    } else {
        seq![c]
    }
}

/// The characters of `s` escaped for a JSON string.
pub open spec fn escape_json(s: Seq<char>) -> Seq<char>
    decreases s.len(),
{
    if s.len() == 0 {
        seq![]
    } else {
        escape_json(s.drop_last()) + escape_char(s.last())
    }
}

/// `s` as a JSON string literal.
pub open spec fn json_string(s: Seq<char>) -> Seq<char> {
    seq!['"'] + escape_json(s) + seq!['"']
}

/// Appends `s` to `buf` as a JSON string literal.
pub fn push_json_string(buf: &mut Vec<char>, s: &Vec<char>)
    ensures
        final(buf)@ == old(buf)@ + json_string(s@),
{
    let ghost start = buf@;
    buf.push('"');
    let mut i: usize = 0;
    while i < s.len()
        invariant
            i <= s.len(),
            buf@ == start + seq!['"'] + escape_json(s@.take(i as int)),
        decreases s.len() - i,
    {
        let c = s[i];
        let u = c as u32;
        let ghost before = buf@;
        if c == '"' {
            buf.push('\\');
            buf.push('"');
        } else if c == '\\' {
            buf.push('\\');
            buf.push('\\');
        } else if c == '\n' {
            buf.push('\\');
            buf.push('n');
        } else if c == '\r' {
            buf.push('\\');
            buf.push('r');
        } else if c == '\t' {
            buf.push('\\');
            buf.push('t');
        } else if u == 0x08 {
            buf.push('\\');
            buf.push('b');
        } else if u == 0x0c {
            buf.push('\\');
            buf.push('f');
        } else if u < 0x20 {
            buf.push('\\');
            buf.push('u');
            buf.push('0');
            buf.push('0');
            buf.push(hex(u / 16));
            buf.push(hex(u % 16));
        } else {
            buf.push(c);
        }
        assert(buf@ =~= before + escape_char(c));
        assert(s@.take(i + 1).drop_last() =~= s@.take(i as int));
        assert(s@.take(i + 1).last() == c);
        i = i + 1;
    }
    buf.push('"');
    assert(s@.take(i as int) =~= s@);
    assert(buf@ =~= start + json_string(s@));
}

// ---------------------------------------------------------------------------
// Job events and reports
// ---------------------------------------------------------------------------

/// A `job://status` event with the given status and progress; keys in
/// sorted order, as a JSON object map writes them.
pub open spec fn status_event_text(status: Seq<char>, current: nat, total: nat) -> Seq<char> {
    "{\"event\":\"job://status\",\"payload\":{\"currentLine\":"@ + decimal(current)
        + ",\"status\":"@ + json_string(status) + ",\"totalLines\":"@ + decimal(total)
        + "},\"type\":\"event\"}"@
}

/// The `job://status` event that announces a new job: it also names the file
/// and the start line.
pub open spec fn job_started_text(path: Seq<char>, total: nat, start_line: nat) -> Seq<char> {
    "{\"event\":\"job://status\",\"payload\":{\"currentLine\":0,\"filePath\":"@ + json_string(path)
        + ",\"startLine\":"@ + decimal(start_line) + ",\"status\":\"running\",\"totalLines\":"@
        + decimal(total) + "},\"type\":\"event\"}"@
}

/// The report of a job's state that answers `get_job_status`.
pub open spec fn job_report_text(status: Seq<char>, path: Seq<char>, current: nat, total: nat) -> Seq<
    char,
> {
    "{\"currentLine\":"@ + decimal(current) + ",\"filePath\":"@ + json_string(path)
        + ",\"status\":"@ + json_string(status) + ",\"totalLines\":"@ + decimal(total) + "}"@
}

/// The text of a `job://status` event.
pub fn status_event(status: &str, current: usize, total: usize) -> (s: String)
    ensures
        s@ == status_event_text(status@, current as nat, total as nat),
{
    let mut buf: Vec<char> = Vec::new();
    push_str(&mut buf, "{\"event\":\"job://status\",\"payload\":{\"currentLine\":");
    push_decimal(&mut buf, current);
    push_str(&mut buf, ",\"status\":");
    let st = chars_of(status);
    push_json_string(&mut buf, &st);
    push_str(&mut buf, ",\"totalLines\":");
    push_decimal(&mut buf, total);
    push_str(&mut buf, "},\"type\":\"event\"}");
    assert(buf@ =~= status_event_text(status@, current as nat, total as nat));
    string_from_chars(&buf)
}

/// The text of the event that announces a new job.
pub fn job_started_event(path: &str, total: usize, start_line: usize) -> (s: String)
    ensures
        s@ == job_started_text(path@, total as nat, start_line as nat),
{
    let mut buf: Vec<char> = Vec::new();
    push_str(&mut buf, "{\"event\":\"job://status\",\"payload\":{\"currentLine\":0,\"filePath\":");
    let p = chars_of(path);
    push_json_string(&mut buf, &p);
    push_str(&mut buf, ",\"startLine\":");
    push_decimal(&mut buf, start_line);
    push_str(&mut buf, ",\"status\":\"running\",\"totalLines\":");
    push_decimal(&mut buf, total);
    push_str(&mut buf, "},\"type\":\"event\"}");
    assert(buf@ =~= job_started_text(path@, total as nat, start_line as nat));
    string_from_chars(&buf)
}

/// The text of a job report.
pub fn job_report(status: &str, path: &str, current: usize, total: usize) -> (s: String)
    ensures
        s@ == job_report_text(status@, path@, current as nat, total as nat),
{
    let mut buf: Vec<char> = Vec::new();
    push_str(&mut buf, "{\"currentLine\":");
    push_decimal(&mut buf, current);
    push_str(&mut buf, ",\"filePath\":");
    let p = chars_of(path);
    push_json_string(&mut buf, &p);
    push_str(&mut buf, ",\"status\":");
    let st = chars_of(status);
    push_json_string(&mut buf, &st);
    push_str(&mut buf, ",\"totalLines\":");
    push_decimal(&mut buf, total);
    push_str(&mut buf, "}");
    assert(buf@ =~= job_report_text(status@, path@, current as nat, total as nat));
    string_from_chars(&buf)
}

} // verus!
