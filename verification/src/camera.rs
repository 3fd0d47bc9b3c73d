//! Camera settings: reading the controls that `v4l2-ctl -L` lists and the
//! `key = value` lines of a Crowsnest configuration, and rewriting one key of
//! that configuration.

use vstd::prelude::*;

use crate::text::{
    chars_of, contains_char, copy_chars, has_prefix, join, join_chars, lines, push_str,
    split_lines, split_words, starts_with, str_eq, string_from_chars, trim, trim_chars, views,
    words, is_ws, trim_start, trim_end, lemma_trim_start_skip, lemma_trim_end_take, lines_from,
    strip_cr,
};

verus! {

// ---------------------------------------------------------------------------
// Integers
// ---------------------------------------------------------------------------

/// The value of a run of decimal digits.
pub open spec fn digits_value(ds: Seq<char>) -> int
    decreases ds.len(),
{
    if ds.len() == 0 {
        0
    } else {
        digits_value(ds.drop_last()) * 10 + (ds.last() as u32 - '0' as u32)
    }
}

/// Every character is an ASCII digit.
pub open spec fn all_digits(ds: Seq<char>) -> bool {
    forall|i: int| 0 <= i < ds.len() ==> '0' <= #[trigger] ds[i] <= '9'
}

/// `s` read as an `i32` the way `str::parse::<i32>` reads it: an optional `+`
/// or `-`, then at least one decimal digit, and nothing else; `None` when the
/// text is not of that form or the value does not fit.
pub open spec fn parse_i32_text(s: Seq<char>) -> Option<int> {
    let neg = s.len() > 0 && s[0] == '-';
    let body = signed_body(s);
    let v = if neg {
        -digits_value(body)
    } else {
        digits_value(body)
    };
    if body.len() == 0 || !all_digits(body) || v < i32::MIN || v > i32::MAX {
        None
    } else {
        Some(v)
    }
}

/// The digits of a number text after its optional sign.
pub open spec fn signed_body(s: Seq<char>) -> Seq<char> {
    if s.len() > 0 && (s[0] == '-' || s[0] == '+') {
        s.drop_first()
    } else {
        s
    }
}

proof fn lemma_digits_value_grows(ds: Seq<char>, i: int)
    requires
        0 <= i <= ds.len(),
        all_digits(ds),
    ensures
        0 <= digits_value(ds.take(i)) <= digits_value(ds),
    decreases ds.len() - i,
{
    if i == ds.len() {
        assert(ds.take(i) =~= ds);
        lemma_digits_value_nonneg(ds);
    } else {
        lemma_digits_value_grows(ds, i + 1);
        let t = ds.take(i + 1);
        assert(t.drop_last() =~= ds.take(i));
        assert(all_digits(ds.take(i))) by {
            assert forall|j: int| 0 <= j < ds.take(i).len() implies '0' <= #[trigger] ds.take(
                i,
            )[j] <= '9' by {
                assert(ds.take(i)[j] == ds[j]);
            }
        }
        lemma_digits_value_nonneg(ds.take(i));
        assert('0' <= t.last() <= '9') by {
            assert(t.last() == ds[i]);
        }
    }
}

proof fn lemma_digits_value_nonneg(ds: Seq<char>)
    requires
        all_digits(ds),
    ensures
        digits_value(ds) >= 0,
    decreases ds.len(),
{
    if ds.len() > 0 {
        assert(all_digits(ds.drop_last())) by {
            assert forall|j: int| 0 <= j < ds.drop_last().len() implies '0'
                <= #[trigger] ds.drop_last()[j] <= '9' by {
                assert(ds.drop_last()[j] == ds[j]);
            }
        }
        lemma_digits_value_nonneg(ds.drop_last());
        assert('0' <= ds.last() <= '9') by {
            assert(ds.last() == ds[ds.len() - 1]);
        }
    }
}

/// Reads `s` as an `i32`, as `str::parse::<i32>` does.
pub fn parse_i32(s: &Vec<char>) -> (r: Option<i32>)
    ensures
        match r {
            Some(v) => parse_i32_text(s@) == Some(v as int),
            None => parse_i32_text(s@) is None,
        },
{
    let neg = s.len() > 0 && s[0] == '-';
    let start: usize = if s.len() > 0 && (s[0] == '-' || s[0] == '+') {
        1
    } else {
        0
    };
    let ghost body = signed_body(s@);
    assert(body =~= s@.skip(start as int));
    if start >= s.len() {
        return None;
    }
    let mut acc: i64 = 0;
    let mut i: usize = start;
    while i < s.len()
        invariant
            start <= i <= s.len(),
            start < s.len(),
            body == s@.skip(start as int),
            body == signed_body(s@),
            neg == (s@.len() > 0 && s@[0] == '-'),
            0 <= acc <= 0x8000_0000,
            all_digits(body.take(i - start)),
            acc == digits_value(body.take(i - start)),
        decreases s.len() - i,
    {
        let c = s[i];
        if c < '0' || c > '9' {
            assert(body[i - start] == c);
            assert(!all_digits(body));
            assert(parse_i32_text(s@) is None);
            return None;
        }
        let d = (c as u32 - '0' as u32) as i64;
        let ghost t = body.take(i - start + 1);
        assert(t.drop_last() =~= body.take(i - start));
        assert(t.last() == c);
        assert(all_digits(t)) by {
            assert forall|j: int| 0 <= j < t.len() implies '0' <= #[trigger] t[j] <= '9' by {
                if j < t.len() - 1 {
                    assert(t[j] == body.take(i - start)[j]);
                }
            }
        }
        let next = acc * 10 + d;
        if next > 0x8000_0000 {
            proof {
                assert(digits_value(t) == next);
                if all_digits(body) {
                    lemma_digits_value_grows(body, i - start + 1);
                    assert(digits_value(body) >= next);
                    if neg {
                        assert(-digits_value(body) < i32::MIN);
                    } else {
                        assert(digits_value(body) > i32::MAX);
                    }
                }
                assert(parse_i32_text(s@) is None);
            }
            return None;
        }
        acc = next;
        i = i + 1;
    }
    assert(body.take(i - start) =~= body);
    if neg {
        Some((0 - acc) as i32)
    } else if acc > 0x7fff_ffff {
        None
    } else {
        Some(acc as i32)
    }
}

// ---------------------------------------------------------------------------
// Splitting on a separator
// ---------------------------------------------------------------------------

/// The pieces of `cur + rest` between occurrences of `sep`, where `cur` is
/// the start of the first piece; empty pieces are kept.
pub open spec fn pieces_from(cur: Seq<char>, rest: Seq<char>, sep: char) -> Seq<Seq<char>>
    decreases rest.len(),
{
    if rest.len() == 0 {
        seq![cur]
    } else if rest[0] == sep {
        seq![cur] + pieces_from(seq![], rest.drop_first(), sep)
    } else {
        pieces_from(cur.push(rest[0]), rest.drop_first(), sep)
    }
}

/// The pieces of `s` between occurrences of `sep`, as `str::split` gives them.
pub open spec fn pieces(s: Seq<char>, sep: char) -> Seq<Seq<char>> {
    pieces_from(seq![], s, sep)
}

/// The pieces of `s` between occurrences of `sep`.
pub fn split_on(s: &Vec<char>, sep: char) -> (out: Vec<Vec<char>>)
    ensures
        views(out@) == pieces(s@, sep),
{
    let mut out: Vec<Vec<char>> = Vec::new();
    let mut cur: Vec<char> = Vec::new();
    let mut i: usize = 0;
    assert(views(out@) =~= Seq::<Seq<char>>::empty());
    assert(s@.skip(0) =~= s@);
    while i < s.len()
        invariant
            i <= s.len(),
            views(out@) + pieces_from(cur@, s@.skip(i as int), sep) == pieces(s@, sep),
        decreases s.len() - i,
    {
        let ghost rest = s@.skip(i as int);
        let ghost before = views(out@);
        let ghost old_cur = cur@;
        assert(rest.drop_first() =~= s@.skip(i + 1));
        assert(rest[0] == s@[i as int]);
        if s[i] == sep {
            out.push(cur);
            cur = Vec::new();
            assert(views(out@) =~= before.push(old_cur));
            assert(pieces_from(old_cur, rest, sep) == seq![old_cur] + pieces_from(
                seq![],
                s@.skip(i + 1),
                sep,
            ));
            assert(views(out@) + pieces_from(cur@, s@.skip(i + 1), sep) =~= before + pieces_from(
                old_cur,
                rest,
                sep,
            ));
        } else {
            cur.push(s[i]);
        }
        i = i + 1;
    }
    let ghost before = views(out@);
    assert(s@.skip(i as int) =~= Seq::<char>::empty());
    out.push(cur);
    assert(views(out@) =~= before + pieces_from(cur@, Seq::<char>::empty(), sep));
    out
}

/// The index of the first `c` in `s`, if there is one.
fn index_of_char(s: &Vec<char>, c: char) -> (r: Option<usize>)
    ensures
        r matches Some(i) ==> i < s.len() && s@[i as int] == c && forall|j: int|
            0 <= j < i ==> s@[j] != c,
        r is None ==> !s@.contains(c),
{
    let mut i: usize = 0;
    while i < s.len()
        invariant
            i <= s.len(),
            forall|j: int| 0 <= j < i ==> s@[j] != c,
        decreases s.len() - i,
    {
        if s[i] == c {
            return Some(i);
        }
        i = i + 1;
    }
    None
}

// ---------------------------------------------------------------------------
// Settings
// ---------------------------------------------------------------------------

/// The value of a camera setting.
pub enum SettingValue {
    /// A control value that reads as an `i32`.
    Number(i32),
    /// Any other value, as text.
    Text(String),
}

/// A camera setting: its name and value.
pub struct CameraSetting {
    pub name: String,
    pub value: SettingValue,
}

/// What a setting value holds.
pub enum SettingView {
    Number(int),
    Text(Seq<char>),
}

/// What a setting holds.
pub open spec fn setting_view(s: CameraSetting) -> (Seq<char>, SettingView) {
    (
        s.name@,
        match s.value {
            SettingValue::Number(n) => SettingView::Number(n as int),
            SettingValue::Text(t) => SettingView::Text(t@),
        },
    )
}

/// What a list of settings holds.
pub open spec fn settings_view(v: Seq<CameraSetting>) -> Seq<(Seq<char>, SettingView)> {
    v.map_values(|s: CameraSetting| setting_view(s))
}

/// `s` without every leading repetition of `p` (`p` not empty), as
/// `str::trim_start_matches` gives it.
pub open spec fn strip_repeated(s: Seq<char>, p: Seq<char>) -> Seq<char>
    decreases s.len(),
{
    if p.len() > 0 && has_prefix(s, p) {
        strip_repeated(s.skip(p.len() as int), p)
    } else {
        s
    }
}

/// The value text of a control's property list: the last property that
/// starts with `value=`, without that prefix, or `0` when there is none.
pub open spec fn control_value_text(props: Seq<Seq<char>>) -> Seq<char>
    decreases props.len(),
{
    if props.len() == 0 {
        "0"@
    } else if has_prefix(props.last(), "value="@) {
        strip_repeated(props.last(), "value="@)
    } else {
        control_value_text(props.drop_last())
    }
}

/// The setting that a value text gives: a number when it reads as an `i32`.
pub open spec fn value_of_text(t: Seq<char>) -> SettingView {
    match parse_i32_text(t) {
        Some(n) => SettingView::Number(n),
        None => SettingView::Text(t),
    }
}

/// The setting that one line of `v4l2-ctl -L` gives, such as
/// `brightness 0x00980900 (int) : min=-64 max=64 step=1 default=0 value=-10`:
/// the line must hold exactly one colon; the name is the first word before
/// it, and lines without a name give none.
pub open spec fn control_line_setting(line: Seq<char>) -> Option<(Seq<char>, SettingView)> {
    let parts = pieces(line, ':');
    if parts.len() != 2 {
        None
    } else {
        let left_words = words(trim(parts[0]));
        let name = if left_words.len() > 0 {
            left_words[0]
        } else {
            seq![]
        };
        if name.len() == 0 {
            None
        } else {
            Some((name, value_of_text(control_value_text(words(trim(parts[1]))))))
        }
    }
}

/// The settings of a list of lines, each given by `f`, in order.
pub open spec fn collect_settings(
    ls: Seq<Seq<char>>,
    f: spec_fn(Seq<char>) -> Option<(Seq<char>, SettingView)>,
) -> Seq<(Seq<char>, SettingView)>
    decreases ls.len(),
{
    if ls.len() == 0 {
        seq![]
    } else {
        collect_settings(ls.drop_last(), f) + match f(ls.last()) {
            Some(e) => seq![e],
            None => seq![],
        }
    }
}

/// The settings that the output of `v4l2-ctl -L` lists.
pub open spec fn control_settings(output: Seq<char>) -> Seq<(Seq<char>, SettingView)> {
    collect_settings(lines(output), |l: Seq<char>| control_line_setting(l))
}

/// The setting that one line of a Crowsnest configuration gives: trimmed, a
/// line that is empty or starts with `#` gives none, nor does one without
/// `=`; otherwise the key and the value are the trimmed text before and after
/// the first `=`.
pub open spec fn config_line_setting(line: Seq<char>) -> Option<(Seq<char>, SettingView)> {
    let l = trim(line);
    if l.len() == 0 || l[0] == '#' || !l.contains('=') {
        None
    } else {
        let i = choose|i: int| 0 <= i < l.len() && l[i] == '=' && forall|j: int| 0 <= j < i ==> l[j] != '=';
        Some((trim(l.take(i)), SettingView::Text(trim(l.skip(i + 1)))))
    }
}

/// The settings that a Crowsnest configuration holds.
pub open spec fn config_settings(content: Seq<char>) -> Seq<(Seq<char>, SettingView)> {
    collect_settings(lines(content), |l: Seq<char>| config_line_setting(l))
}

/// `s` without every leading repetition of `p`.
fn strip_repeated_prefix(s: &Vec<char>, p: &Vec<char>) -> (out: Vec<char>)
    requires
        p.len() > 0,
    ensures
        out@ == strip_repeated(s@, p@),
{
    let mut lo: usize = 0;
    assert(s@.skip(0) =~= s@);
    while p.len() <= s.len() - lo && has_prefix_at(s, p, lo)
        invariant
            lo <= s.len(),
            p.len() > 0,
            strip_repeated(s@.skip(lo as int), p@) == strip_repeated(s@, p@),
        decreases s.len() - lo,
    {
        let ghost t = s@.skip(lo as int);
        assert(has_prefix(t, p@));
        assert(t.skip(p.len() as int) =~= s@.skip(lo + p.len()));
        lo = lo + p.len();
    }
    let out = crate::text::slice_chars(s, lo, s.len());
    proof {
        let t = s@.skip(lo as int);
        assert(out@ =~= t);
        if p.len() <= s.len() - lo {
            assert(!has_prefix(t, p@));
        } else {
            assert(!has_prefix(t, p@));
        }
    }
    out
}

/// Whether `p` is a prefix of `s` from index `lo` on.
fn has_prefix_at(s: &Vec<char>, p: &Vec<char>, lo: usize) -> (r: bool)
    requires
        lo + p.len() <= s.len(),
    ensures
        r == has_prefix(s@.skip(lo as int), p@),
{
    let mut i: usize = 0;
    while i < p.len()
        invariant
            lo + p.len() <= s.len(),
            i <= p.len(),
            forall|j: int| 0 <= j < i ==> s@[lo + j] == p@[j],
        decreases p.len() - i,
    {
        if s[lo + i] != p[i] {
            assert(s@.skip(lo as int).take(p.len() as int)[i as int] != p@[i as int]);
            return false;
        }
        i = i + 1;
    }
    assert(s@.skip(lo as int).take(p.len() as int) =~= p@);
    true
}

/// The setting that one line of `v4l2-ctl -L` gives, if any.
fn control_line(line: &Vec<char>) -> (r: Option<CameraSetting>)
    ensures
        match r {
            Some(s) => control_line_setting(line@) == Some(setting_view(s)),
            None => control_line_setting(line@) is None,
        },
{
    let parts = split_on(line, ':');
    if parts.len() != 2 {
        return None;
    }
    let left = trim_chars(&parts[0]);
    let right = trim_chars(&parts[1]);
    let left_words = split_words(&left);
    if left_words.len() == 0 || left_words[0].len() == 0 {
        return None;
    }
    let name = copy_chars(&left_words[0]);
    let props = split_words(&right);
    let prefix = chars_of("value=");
    let mut value = chars_of("0");
    let mut i: usize = 0;
    while i < props.len()
        invariant
            i <= props.len(),
            prefix@ == "value="@,
            value@ == control_value_text(views(props@).take(i as int)),
        decreases props.len() - i,
    {
        let ghost t = views(props@).take(i + 1);
        assert(t.drop_last() =~= views(props@).take(i as int));
        assert(t.last() == props@[i as int]@);
        if starts_with(&props[i], &prefix) {
            assert(prefix@.len() > 0) by {
                reveal_strlit("value=");
            }
            value = strip_repeated_prefix(&props[i], &prefix);
        }
        i = i + 1;
    }
    assert(views(props@).take(i as int) =~= views(props@));
    let v = match parse_i32(&value) {
        Some(n) => SettingValue::Number(n),
        None => SettingValue::Text(string_from_chars(&value)),
    };
    Some(CameraSetting { name: string_from_chars(&name), value: v })
}

/// The setting that one line of a Crowsnest configuration gives, if any.
fn config_line(line: &Vec<char>) -> (r: Option<CameraSetting>)
    ensures
        match r {
            Some(s) => config_line_setting(line@) == Some(setting_view(s)),
            None => config_line_setting(line@) is None,
        },
{
    let l = trim_chars(line);
    if l.len() == 0 || l[0] == '#' {
        return None;
    }
    match index_of_char(&l, '=') {
        None => None,
        Some(i) => {
            let key = trim_chars(&crate::text::slice_chars(&l, 0, i));
            let val = trim_chars(&crate::text::slice_chars(&l, i + 1, l.len()));
            proof {
                let li = l@;
                let k = choose|k: int|
                    0 <= k < li.len() && li[k] == '=' && forall|j: int| 0 <= j < k ==> li[j] != '=';
                assert(0 <= i < li.len() && li[i as int] == '=' && forall|j: int|
                    0 <= j < i ==> li[j] != '=');
                if k < i {
                    assert(li[k] != '=');
                }
                if i < k {
                    assert(li[i as int] != '=');
                }
                assert(k == i);
                assert(li.take(i as int) =~= li.subrange(0, i as int));
                assert(li.skip(i + 1) =~= li.subrange(i + 1, li.len() as int));
            }
            Some(
                CameraSetting { name: string_from_chars(&key), value: SettingValue::Text(string_from_chars(&val)) },
            )
        },
    }
}

/// The settings that the output of `v4l2-ctl -L` lists, in order.
pub fn parse_control_list(output: &str) -> (settings: Vec<CameraSetting>)
    ensures
        settings_view(settings@) == control_settings(output@),
{
    let cs = chars_of(output);
    let ls = split_lines(&cs);
    let ghost lv = views(ls@);
    let mut out: Vec<CameraSetting> = Vec::new();
    let mut i: usize = 0;
    let ghost f = |l: Seq<char>| control_line_setting(l);
    assert(settings_view(out@) =~= collect_settings(lv.take(0), f));
    while i < ls.len()
        invariant
            i <= ls.len(),
            lv == views(ls@),
            lv == lines(output@),
            f == (|l: Seq<char>| control_line_setting(l)),
            settings_view(out@) == collect_settings(lv.take(i as int), f),
        decreases ls.len() - i,
    {
        let ghost t = lv.take(i + 1);
        assert(t.drop_last() =~= lv.take(i as int));
        assert(t.last() == ls@[i as int]@);
        let ghost before = settings_view(out@);
        match control_line(&ls[i]) {
            Some(s) => {
                out.push(s);
                assert(settings_view(out@) =~= before + seq![f(t.last()).unwrap()]);
            },
            None => {
                assert(settings_view(out@) =~= before);
            },
        }
        i = i + 1;
    }
    assert(lv.take(i as int) =~= lv);
    out
}

/// The settings that a Crowsnest configuration holds, in order.
pub fn parse_config_settings(content: &str) -> (settings: Vec<CameraSetting>)
    ensures
        settings_view(settings@) == config_settings(content@),
{
    let cs = chars_of(content);
    let ls = split_lines(&cs);
    let ghost lv = views(ls@);
    let mut out: Vec<CameraSetting> = Vec::new();
    let mut i: usize = 0;
    let ghost f = |l: Seq<char>| config_line_setting(l);
    assert(settings_view(out@) =~= collect_settings(lv.take(0), f));
    while i < ls.len()
        invariant
            i <= ls.len(),
            lv == views(ls@),
            lv == lines(content@),
            f == (|l: Seq<char>| config_line_setting(l)),
            settings_view(out@) == collect_settings(lv.take(i as int), f),
        decreases ls.len() - i,
    {
        let ghost t = lv.take(i + 1);
        assert(t.drop_last() =~= lv.take(i as int));
        assert(t.last() == ls@[i as int]@);
        let ghost before = settings_view(out@);
        match config_line(&ls[i]) {
            Some(s) => {
                out.push(s);
                assert(settings_view(out@) =~= before + seq![f(t.last()).unwrap()]);
            },
            None => {
                assert(settings_view(out@) =~= before);
            },
        }
        i = i + 1;
    }
    assert(lv.take(i as int) =~= lv);
    out
}

// ---------------------------------------------------------------------------
// Updating settings
// ---------------------------------------------------------------------------

/// The settings applied to the camera hardware through `v4l2-ctl`.
pub open spec fn is_hardware_property_name(k: Seq<char>) -> bool {
    ||| k == "brightness"@
    ||| k == "contrast"@
    ||| k == "saturation"@
    ||| k == "hue"@
    ||| k == "gamma"@
    ||| k == "gain"@
    ||| k == "exposure"@
    ||| k == "zoom"@
}

/// Whether `k` names a setting applied to the camera hardware.
pub fn is_hardware_property(k: &str) -> (r: bool)
    ensures
        r == is_hardware_property_name(k@),
{
    str_eq(k, "brightness") || str_eq(k, "contrast") || str_eq(k, "saturation") || str_eq(
        k,
        "hue",
    ) || str_eq(k, "gamma") || str_eq(k, "gain") || str_eq(k, "exposure") || str_eq(k, "zoom")
}

/// The line that sets `key` to `value` in a configuration.
pub open spec fn setting_line(key: Seq<char>, value: Seq<char>) -> Seq<char> {
    key + " = "@ + value
}

/// A configuration line that holds `key`: trimmed, it starts with `key` and
/// holds `=`.
pub open spec fn line_sets(line: Seq<char>, key: Seq<char>) -> bool {
    has_prefix(trim(line), key) && trim(line).contains('=')
}

/// The lines of a configuration after `key` is set to `value`: each line
/// that holds the key is replaced; with no value, the lines stay.
pub open spec fn rewritten_lines(ls: Seq<Seq<char>>, key: Seq<char>, value: Option<Seq<char>>) -> Seq<
    Seq<char>,
> {
    ls.map_values(
        |l: Seq<char>|
            match value {
                Some(v) => if line_sets(l, key) {
                    setting_line(key, v)
                } else {
                    l
                },
                None => l,
            },
    )
}

/// The text of a configuration after `key` is set to `value`: each line that
/// holds the key is replaced by `key = value`, or that line is added at the
/// end when none holds it; lines are joined by line feeds.  With no value
/// (the update is not text) the lines stay as they are.
pub open spec fn rewritten_config(content: Seq<char>, key: Seq<char>, value: Option<Seq<char>>) -> Seq<
    char,
> {
    let ls = lines(content);
    let replaced = value is Some && exists|i: int| 0 <= i < ls.len() && line_sets(#[trigger] ls[i], key);
    let body = rewritten_lines(ls, key, value);
    let all = match value {
        Some(v) => if replaced {
            body
        } else {
            body.push(setting_line(key, v))
        },
        None => body,
    };
    join(all, seq!['\n'])
}

/// The configuration `content` with `key` set to `value`.
pub fn rewrite_config(content: &str, key: &str, value: Option<&str>) -> (out: String)
    ensures
        out@ == rewritten_config(
            content@,
            key@,
            match value {
                Some(v) => Some(v@),
                None => None,
            },
        ),
{
    let ghost val = match value {
        Some(v) => Some(v@),
        None => None,
    };
    let cs = chars_of(content);
    let ls = split_lines(&cs);
    let k = chars_of(key);
    let mut line_text = chars_of(key);
    push_str(&mut line_text, " = ");
    let has_value = value.is_some();
    match value {
        Some(v) => push_str(&mut line_text, v),
        None => {},
    }
    let ghost lv = views(ls@);
    let mut out: Vec<Vec<char>> = Vec::new();
    let mut replaced = false;
    let mut i: usize = 0;
    while i < ls.len()
        invariant
            i <= ls.len(),
            lv == views(ls@),
            lv == lines(content@),
            k@ == key@,
            has_value == (val is Some),
            val matches Some(v) ==> line_text@ == setting_line(key@, v),
            views(out@) == rewritten_lines(lv, key@, val).take(i as int),
            replaced == (val is Some && exists|j: int| 0 <= j < i && line_sets(#[trigger] lv[j], key@)),
        decreases ls.len() - i,
    {
        let t = trim_chars(&ls[i]);
        let ghost before = views(out@);
        assert(lv[i as int] == ls@[i as int]@);
        let sets = starts_with(&t, &k) && contains_char(&t, '=');
        assert(sets == line_sets(lv[i as int], key@));
        let ghost r = rewritten_lines(lv, key@, val);
        assert(r[i as int] == match val {
            Some(v) => if line_sets(lv[i as int], key@) {
                setting_line(key@, v)
            } else {
                lv[i as int]
            },
            None => lv[i as int],
        });
        if sets && has_value {
            out.push(copy_chars(&line_text));
            replaced = true;
        } else {
            out.push(copy_chars(&ls[i]));
        }
        assert(views(out@) =~= before.push(r[i as int]));
        assert(r.take(i + 1) =~= r.take(i as int).push(r[i as int]));
        i = i + 1;
    }
    assert(rewritten_lines(lv, key@, val).take(i as int) =~= rewritten_lines(lv, key@, val));
    if !replaced && has_value {
        out.push(copy_chars(&line_text));
    }
    let sep: Vec<char> = vec!['\n'];
    assert(sep@ =~= seq!['\n']);
    let joined = join_chars(&out, &sep);
    proof {
        let body = rewritten_lines(lv, key@, val);
        let rep = val is Some && exists|j: int| 0 <= j < lv.len() && line_sets(#[trigger] lv[j], key@);
        assert(replaced == rep);
        let all = match val {
            Some(v) => if rep {
                body
            } else {
                body.push(setting_line(key@, v))
            },
            None => body,
        };
        assert(views(out@) =~= all);
    }
    string_from_chars(&joined)
}

/// An update that is not text leaves every line of the configuration as it
/// was; only line endings are normalised to line feeds.
pub proof fn law_non_text_update_keeps_lines(content: Seq<char>, key: Seq<char>)
    ensures
        rewritten_config(content, key, None) == join(lines(content), seq!['\n']),
{
    assert(rewritten_lines(lines(content), key, None) =~= lines(content));
}

// ---------------------------------------------------------------------------
// Reading back a written setting
// ---------------------------------------------------------------------------

proof fn lemma_trim_start_shrinks(s: Seq<char>)
    ensures
        trim_start(s).len() <= s.len(),
        s.len() > 0 && is_ws(s[0]) ==> trim_start(s).len() < s.len(),
        trim_start(s).len() > 0 ==> !is_ws(trim_start(s)[0]),
        trim_start(s) == s.skip(s.len() - trim_start(s).len()),
    decreases s.len(),
{
    if s.len() > 0 && is_ws(s[0]) {
        lemma_trim_start_shrinks(s.drop_first());
        let t = s.drop_first();
        assert(t.skip(t.len() - trim_start(t).len()) =~= s.skip(s.len() - trim_start(t).len()));
    } else {
        assert(s.skip(0) =~= s);
    }
}

proof fn lemma_trim_end_shrinks(s: Seq<char>)
    ensures
        trim_end(s).len() <= s.len(),
        s.len() > 0 && is_ws(s.last()) ==> trim_end(s).len() < s.len(),
        trim_end(s).len() > 0 ==> !is_ws(trim_end(s).last()),
        trim_end(s) == s.take(trim_end(s).len() as int),
    decreases s.len(),
{
    if s.len() > 0 && is_ws(s.last()) {
        lemma_trim_end_shrinks(s.drop_last());
        let t = s.drop_last();
        assert(t.take(trim_end(t).len() as int) =~= s.take(trim_end(t).len() as int));
    } else {
        assert(s.take(s.len() as int) =~= s);
    }
}

/// A trimmed, non-empty text starts and ends with characters that are not
/// whitespace.
proof fn lemma_trimmed_ends(s: Seq<char>)
    requires
        trim(s) == s,
        s.len() > 0,
    ensures
        !is_ws(s[0]),
        !is_ws(s.last()),
{
    lemma_trim_start_shrinks(s);
    lemma_trim_end_shrinks(trim_start(s));
    assert(trim_start(s) == s);
    lemma_trim_end_shrinks(s);
}

/// The trimmed text of a line starts with a character that is not
/// whitespace, and each of its prefixes that trims to a non-empty text
/// trims to a prefix of it.
proof fn lemma_trim_first(s: Seq<char>)
    ensures
        trim(s).len() > 0 ==> !is_ws(trim(s)[0]),
{
    lemma_trim_start_shrinks(s);
    let u = trim_start(s);
    lemma_trim_end_shrinks(u);
    if trim(s).len() > 0 {
        assert(trim(s)[0] == u[0]);
    }
}

/// Trimming a text that starts with a character that is not whitespace
/// gives a prefix of it.
proof fn lemma_trim_is_prefix(s: Seq<char>)
    requires
        s.len() > 0,
        !is_ws(s[0]),
    ensures
        trim(s) == s.take(trim(s).len() as int),
        trim(s).len() <= s.len(),
{
    assert(trim_start(s) == s);
    lemma_trim_end_shrinks(s);
}

proof fn lemma_trim_start_push(s: Seq<char>, c: char)
    ensures
        trim_start(s.push(c)) == if trim_start(s).len() == 0 && is_ws(c) {
            Seq::<char>::empty()
        } else {
            trim_start(s).push(c)
        },
    decreases s.len(),
{
    if s.len() > 0 && is_ws(s[0]) {
        assert(s.push(c)[0] == s[0]);
        assert(s.push(c).drop_first() =~= s.drop_first().push(c));
        lemma_trim_start_push(s.drop_first(), c);
    } else if s.len() == 0 {
        assert(s.push(c) =~= seq![c]);
        if is_ws(c) {
            assert(seq![c].drop_first() =~= Seq::<char>::empty());
            assert(trim_start(Seq::<char>::empty()) =~= Seq::<char>::empty());
        } else {
            assert(trim_start(s) =~= s);
            assert(s.push(c)[0] == c);
        }
    } else {
        assert(s.push(c)[0] == s[0]);
    }
}

/// A whitespace character at the end does not change the trimmed text.
proof fn lemma_trim_push_ws(s: Seq<char>, c: char)
    requires
        is_ws(c),
    ensures
        trim(s.push(c)) == trim(s),
{
    lemma_trim_start_push(s, c);
    if trim_start(s).len() == 0 {
        assert(trim(s) =~= Seq::<char>::empty());
    } else {
        assert(trim_start(s).push(c).drop_last() =~= trim_start(s));
    }
}

/// The first `=` of `t`, which holds one.
pub open spec fn first_eq(t: Seq<char>) -> int {
    choose|i: int| 0 <= i < t.len() && t[i] == '=' && forall|j: int| 0 <= j < i ==> t[j] != '='
}

proof fn lemma_first_eq(t: Seq<char>, i: int)
    requires
        0 <= i < t.len(),
        t[i] == '=',
        forall|j: int| 0 <= j < i ==> t[j] != '=',
    ensures
        first_eq(t) == i,
{
    let k = first_eq(t);
    assert(0 <= k < t.len() && t[k] == '=' && forall|j: int| 0 <= j < k ==> t[j] != '=');
    if k < i {
        assert(t[k] != '=');
    }
    if i < k {
        assert(t[i] != '=');
    }
}

proof fn lemma_first_eq_exists(t: Seq<char>, j: int)
    requires
        0 <= j < t.len(),
        t[j] == '=',
    ensures
        exists|i: int| 0 <= i < t.len() && t[i] == '=' && forall|k: int| 0 <= k < i ==> t[k] != '=',
    decreases j,
{
    if exists|k: int| 0 <= k < j && t[k] == '=' {
        let k = choose|k: int| 0 <= k < j && t[k] == '=';
        lemma_first_eq_exists(t, k);
    } else {
        assert(forall|k: int| 0 <= k < j ==> t[k] != '=');
    }
}

/// A line whose setting has the key `key` holds that key in the sense of
/// `line_sets`, and so does the same line with a carriage return after it.
proof fn lemma_key_means_sets(r: Seq<char>, key: Seq<char>)
    requires
        key.len() > 0,
        config_line_setting(r) is Some,
        (config_line_setting(r)->0).0 == key,
    ensures
        line_sets(r, key),
        line_sets(r.push('\r'), key),
{
    let t = trim(r);
    assert(t.contains('='));
    let j0 = choose|j: int| 0 <= j < t.len() && t[j] == '=';
    lemma_first_eq_exists(t, j0);
    let i = choose|i: int| 0 <= i < t.len() && t[i] == '=' && forall|j: int| 0 <= j < i ==> t[j] != '=';
    lemma_first_eq(t, i);
    lemma_trim_first(r);
    let head = t.take(i);
    assert(trim(head) == key);
    if i == 0 {
        assert(head =~= Seq::<char>::empty());
        assert(trim(head) =~= Seq::<char>::empty());
    }
    assert(head[0] == t[0]);
    lemma_trim_is_prefix(head);
    assert(key =~= t.take(key.len() as int)) by {
        assert forall|j: int| 0 <= j < key.len() implies key[j] == t.take(key.len() as int)[j] by {
            assert(key[j] == head[j]);
        }
    }
    assert(t[i] == '=');
    assert(t.contains('='));
    lemma_trim_push_ws(r, '\r');
}

/// A key that reads back as written: not empty, trimmed, with no `=` and
/// no line feed, and not starting a `#` comment.
pub open spec fn is_plain_key(key: Seq<char>) -> bool {
    &&& key.len() > 0
    &&& trim(key) == key
    &&& !key.contains('=')
    &&& !key.contains('\n')
    &&& key[0] != '#'
}

/// A value that reads back as written: trimmed, with no line feed.
pub open spec fn is_plain_value(value: Seq<char>) -> bool {
    trim(value) == value && !value.contains('\n')
}

proof fn lemma_setting_line_reads_back(key: Seq<char>, value: Seq<char>)
    requires
        is_plain_key(key),
        is_plain_value(value),
    ensures
        config_line_setting(setting_line(key, value)) == Some((key, SettingView::Text(value))),
        !setting_line(key, value).contains('\n'),
        setting_line(key, value).len() > 0,
        setting_line(key, value).last() != '\r',
{
    reveal_strlit(" = ");
    let n = key.len() as int;
    let l = setting_line(key, value);
    assert(l.len() == n + 3 + value.len());
    assert forall|j: int| 0 <= j < n implies l[j] == key[j] by {}
    assert(l[n] == ' ' && l[n + 1] == '=' && l[n + 2] == ' ');
    assert forall|j: int| 0 <= j < value.len() implies l[n + 3 + j] == value[j] by {}
    lemma_trimmed_ends(key);
    assert(l[0] == key[0]);
    lemma_trim_start_skip(l, 0);
    assert(l.skip(0) =~= l);
    let m = if value.len() > 0 {
        l.len() as int
    } else {
        n + 2
    };
    if value.len() > 0 {
        lemma_trimmed_ends(value);
        assert(l.last() == value.last());
    }
    lemma_trim_end_take(l, m);
    let t = trim(l);
    assert(t == l.take(m));
    assert(t[n + 1] == '=');
    assert forall|j: int| 0 <= j < n + 1 implies t[j] != '=' by {
        if j < n {
            assert(t[j] == key[j]);
            assert(key.contains(key[j]));
        }
    }
    lemma_first_eq(t, n + 1);
    assert(t.contains('='));
    let i = choose|i: int| 0 <= i < t.len() && t[i] == '=' && forall|j: int| 0 <= j < i ==> t[j] != '=';
    assert(i == n + 1);
    assert(t.take(n + 1) =~= key.push(' '));
    lemma_trim_push_ws(key, ' ');
    let rest = t.skip(n + 2);
    if value.len() > 0 {
        assert(rest =~= seq![' '] + value);
        lemma_trim_start_skip(rest, 1);
        assert(rest.skip(1) =~= value);
        lemma_trim_end_take(value, value.len() as int);
        assert(value.take(value.len() as int) =~= value);
    } else {
        assert(rest =~= Seq::<char>::empty());
        assert(trim(rest) =~= Seq::<char>::empty());
        assert(value =~= Seq::<char>::empty());
    }
    assert(!l.contains('\n')) by {
        if l.contains('\n') {
            let j = choose|j: int| 0 <= j < l.len() && l[j] == '\n';
            if j < n {
                assert(key.contains('\n'));
            } else if j >= n + 3 {
                assert(value[j - n - 3] == '\n');
                assert(value.contains('\n'));
            }
        }
    }
    if value.len() > 0 {
        lemma_trimmed_ends(value);
    }
}

/// `ws` joined by `sep`, built from the front.
spec fn join_front(ws: Seq<Seq<char>>, sep: Seq<char>) -> Seq<char>
    decreases ws.len(),
{
    if ws.len() == 0 {
        seq![]
    } else if ws.len() == 1 {
        ws[0]
    } else {
        ws[0] + sep + join_front(ws.drop_first(), sep)
    }
}

proof fn lemma_join_front_push(ws: Seq<Seq<char>>, x: Seq<char>, sep: Seq<char>)
    requires
        ws.len() > 0,
    ensures
        join_front(ws.push(x), sep) == join_front(ws, sep) + sep + x,
    decreases ws.len(),
{
    assert(ws.push(x)[0] == ws[0]);
    if ws.len() == 1 {
        assert(ws.push(x).drop_first() =~= seq![x]);
        assert(join_front(seq![x], sep) == x);
    } else {
        assert(ws.push(x).drop_first() =~= ws.drop_first().push(x));
        lemma_join_front_push(ws.drop_first(), x, sep);
        let j = join_front(ws.drop_first(), sep);
        assert(ws[0] + sep + (j + sep + x) =~= (ws[0] + sep + j) + sep + x);
    }
}

proof fn lemma_join_is_join_front(ws: Seq<Seq<char>>, sep: Seq<char>)
    ensures
        join(ws, sep) == join_front(ws, sep),
    decreases ws.len(),
{
    if ws.len() >= 2 {
        lemma_join_is_join_front(ws.drop_last(), sep);
        lemma_join_front_push(ws.drop_last(), ws.last(), sep);
        assert(ws.drop_last().push(ws.last()) =~= ws);
    }
}

/// `y` as a list of lines: none when it is empty.
spec fn opt_line(y: Seq<char>) -> Seq<Seq<char>> {
    if y.len() == 0 {
        seq![]
    } else {
        seq![y]
    }
}

proof fn lemma_lines_from_plain(cur: Seq<char>, x: Seq<char>)
    requires
        !x.contains('\n'),
    ensures
        lines_from(cur, x) == opt_line(cur + x),
    decreases x.len(),
{
    if x.len() == 0 {
        assert(cur + x =~= cur);
    } else {
        assert(x[0] != '\n') by {
            assert(x.contains(x[0]));
        }
        let t = x.drop_first();
        assert(!t.contains('\n')) by {
            if t.contains('\n') {
                let j = choose|j: int| 0 <= j < t.len() && t[j] == '\n';
                assert(x[j + 1] == '\n');
            }
        }
        lemma_lines_from_plain(cur.push(x[0]), t);
        assert(cur.push(x[0]) + t =~= cur + x);
    }
}

proof fn lemma_lines_from_break(cur: Seq<char>, x: Seq<char>, rest: Seq<char>)
    requires
        !x.contains('\n'),
    ensures
        lines_from(cur, x + seq!['\n'] + rest) == seq![strip_cr(cur + x)] + lines_from(seq![], rest),
    decreases x.len(),
{
    let all = x + seq!['\n'] + rest;
    if x.len() == 0 {
        assert(all[0] == '\n');
        assert(all.drop_first() =~= rest);
        assert(cur + x =~= cur);
    } else {
        assert(x[0] != '\n') by {
            assert(x.contains(x[0]));
        }
        let t = x.drop_first();
        assert(!t.contains('\n')) by {
            if t.contains('\n') {
                let j = choose|j: int| 0 <= j < t.len() && t[j] == '\n';
                assert(x[j + 1] == '\n');
            }
        }
        assert(all[0] == x[0]);
        assert(all.drop_first() =~= t + seq!['\n'] + rest);
        lemma_lines_from_break(cur.push(x[0]), t, rest);
        assert(cur.push(x[0]) + t =~= cur + x);
    }
}

/// The lines that `ws`, joined by line feeds, reads back as.
spec fn lines_back(ws: Seq<Seq<char>>) -> Seq<Seq<char>>
    decreases ws.len(),
{
    if ws.len() == 0 {
        seq![]
    } else if ws.len() == 1 {
        opt_line(ws[0])
    } else {
        seq![strip_cr(ws[0])] + lines_back(ws.drop_first())
    }
}

proof fn lemma_lines_of_join(ws: Seq<Seq<char>>)
    requires
        forall|i: int| 0 <= i < ws.len() ==> !(#[trigger] ws[i]).contains('\n'),
    ensures
        lines(join_front(ws, seq!['\n'])) == lines_back(ws),
    decreases ws.len(),
{
    if ws.len() == 0 {
    } else if ws.len() == 1 {
        lemma_lines_from_plain(seq![], ws[0]);
        assert(Seq::<char>::empty() + ws[0] =~= ws[0]);
    } else {
        let r = ws.drop_first();
        assert forall|i: int| 0 <= i < r.len() implies !(#[trigger] r[i]).contains('\n') by {
            assert(r[i] == ws[i + 1]);
        }
        lemma_lines_of_join(r);
        assert(!ws[0].contains('\n'));
        lemma_lines_from_break(seq![], ws[0], join_front(r, seq!['\n']));
        assert(Seq::<char>::empty() + ws[0] =~= ws[0]);
    }
}

proof fn lemma_lines_back_members(ws: Seq<Seq<char>>)
    ensures
        forall|i: int|
            0 <= i < lines_back(ws).len() ==> exists|j: int|
                0 <= j < ws.len() && (#[trigger] lines_back(ws)[i] == ws[j] || lines_back(ws)[i]
                    == strip_cr(ws[j])),
        forall|j: int|
            0 <= j < ws.len() && (#[trigger] ws[j]).len() > 0 && ws[j].last() != '\r'
                ==> lines_back(ws).contains(ws[j]),
    decreases ws.len(),
{
    if ws.len() == 1 {
        assert forall|j: int|
            0 <= j < ws.len() && (#[trigger] ws[j]).len() > 0 && ws[j].last() != '\r'
                implies lines_back(ws).contains(ws[j]) by {
            assert(lines_back(ws)[0] == ws[0]);
        }
    } else if ws.len() > 1 {
        let r = ws.drop_first();
        lemma_lines_back_members(r);
        let b = lines_back(ws);
        assert forall|i: int| 0 <= i < b.len() implies exists|j: int|
            0 <= j < ws.len() && (#[trigger] b[i] == ws[j] || b[i] == strip_cr(ws[j])) by {
            if i == 0 {
                assert(b[0] == strip_cr(ws[0]));
            } else {
                assert(b[i] == lines_back(r)[i - 1]);
                let j = choose|j: int|
                    0 <= j < r.len() && (lines_back(r)[i - 1] == r[j] || lines_back(r)[i - 1]
                        == strip_cr(r[j]));
                assert(r[j] == ws[j + 1]);
            }
        }
        assert forall|j: int|
            0 <= j < ws.len() && (#[trigger] ws[j]).len() > 0 && ws[j].last() != '\r'
                implies b.contains(ws[j]) by {
            if j == 0 {
                assert(strip_cr(ws[0]) == ws[0]);
                assert(b[0] == ws[0]);
            } else {
                assert(ws[j] == r[j - 1]);
                assert(lines_back(r).contains(r[j - 1]));
                let k = choose|k: int| 0 <= k < lines_back(r).len() && lines_back(r)[k] == r[j - 1];
                assert(b[k + 1] == lines_back(r)[k]);
            }
        }
    }
}

proof fn lemma_lines_from_no_line_feed(cur: Seq<char>, rest: Seq<char>)
    requires
        !cur.contains('\n'),
    ensures
        forall|i: int|
            0 <= i < lines_from(cur, rest).len() ==> !(#[trigger] lines_from(cur, rest)[i]).contains(
                '\n',
            ),
    decreases rest.len(),
{
    if rest.len() == 0 {
        if cur.len() > 0 {
            assert(lines_from(cur, rest) == seq![cur]);
            assert(lines_from(cur, rest)[0] == cur);
        } else {
            assert(lines_from(cur, rest) == Seq::<Seq<char>>::empty());
        }
    } else if rest[0] == '\n' {
        lemma_lines_from_no_line_feed(seq![], rest.drop_first());
        let s0 = strip_cr(cur);
        assert(!s0.contains('\n')) by {
            if s0.contains('\n') {
                let j = choose|j: int| 0 <= j < s0.len() && s0[j] == '\n';
                assert(cur[j] == '\n');
            }
        }
        let l = lines_from(cur, rest);
        let r = lines_from(seq![], rest.drop_first());
        assert forall|i: int| 0 <= i < l.len() implies !(#[trigger] l[i]).contains('\n') by {
            if i > 0 {
                assert(l[i] == r[i - 1]);
            }
        }
    } else {
        let c2 = cur.push(rest[0]);
        assert(!c2.contains('\n')) by {
            if c2.contains('\n') {
                let j = choose|j: int| 0 <= j < c2.len() && c2[j] == '\n';
                if j < cur.len() {
                    assert(cur[j] == '\n');
                }
            }
        }
        lemma_lines_from_no_line_feed(c2, rest.drop_first());
        assert(lines_from(cur, rest) == lines_from(c2, rest.drop_first()));
    }
}

/// A setting with the key `key`, if `entry` is one, has the value `value`.
pub open spec fn key_gives(entry: Option<(Seq<char>, SettingView)>, key: Seq<char>, value: SettingView) -> bool {
    match entry {
        Some(e) => e.0 == key ==> e.1 == value,
        None => true,
    }
}

/// The value of the last setting of `settings` with the key `key`.
pub open spec fn last_setting(settings: Seq<(Seq<char>, SettingView)>, key: Seq<char>) -> Option<
    SettingView,
>
    decreases settings.len(),
{
    if settings.len() == 0 {
        None
    } else if settings.last().0 == key {
        Some(settings.last().1)
    } else {
        last_setting(settings.drop_last(), key)
    }
}

proof fn lemma_last_setting(ls: Seq<Seq<char>>, key: Seq<char>, value: SettingView)
    requires
        forall|i: int|
            0 <= i < ls.len() ==> key_gives(#[trigger] config_line_setting(ls[i]), key, value),
        exists|i: int| 0 <= i < ls.len() && #[trigger] config_line_setting(ls[i]) == Some((key, value)),
    ensures
        last_setting(collect_settings(ls, |l: Seq<char>| config_line_setting(l)), key) == Some(
            value,
        ),
    decreases ls.len(),
{
    let f = |l: Seq<char>| config_line_setting(l);
    let w = choose|i: int| 0 <= i < ls.len() && #[trigger] config_line_setting(ls[i]) == Some((key, value));
    let front = ls.drop_last();
    let c0 = collect_settings(front, f);
    let last = ls.last();
    assert(last == ls[ls.len() - 1]);
    match config_line_setting(last) {
        Some(e) => {
            let c = c0 + seq![e];
            assert(collect_settings(ls, f) == c);
            if e.0 == key {
                assert(c.last() == e);
            } else {
                assert(c.drop_last() =~= c0);
                assert(w < ls.len() - 1);
                assert(front[w] == ls[w]);
                assert forall|i: int| 0 <= i < front.len() implies key_gives(
                    #[trigger] config_line_setting(front[i]),
                    key,
                    value,
                ) by {
                    assert(front[i] == ls[i]);
                }
                lemma_last_setting(front, key, value);
            }
        },
        None => {
            assert(collect_settings(ls, f) =~= c0);
            assert(w < ls.len() - 1);
            assert(front[w] == ls[w]);
            assert forall|i: int| 0 <= i < front.len() implies key_gives(
                #[trigger] config_line_setting(front[i]),
                key,
                value,
            ) by {
                assert(front[i] == ls[i]);
            }
            lemma_last_setting(front, key, value);
        },
    }
}

/// A setting written with `rewrite_config` reads back with
/// `parse_config_settings`: after `key` is set to the text `value`, the last
/// setting of the configuration with that key has that value, whatever the
/// configuration held before.  The key and value must read back as written:
/// both trimmed and without line feeds, the key not empty, without `=` and
/// not starting with `#`.
pub proof fn law_written_setting_reads_back(content: Seq<char>, key: Seq<char>, value: Seq<char>)
    requires
        is_plain_key(key),
        is_plain_value(value),
    ensures
        last_setting(config_settings(rewritten_config(content, key, Some(value))), key) == Some(
            SettingView::Text(value),
        ),
{
    let ls = lines(content);
    let sl = setting_line(key, value);
    let body = rewritten_lines(ls, key, Some(value));
    let replaced = exists|i: int| 0 <= i < ls.len() && line_sets(#[trigger] ls[i], key);
    let all = if replaced {
        body
    } else {
        body.push(sl)
    };
    assert(rewritten_config(content, key, Some(value)) == join(all, seq!['\n']));
    lemma_setting_line_reads_back(key, value);
    lemma_lines_from_no_line_feed(seq![], content);
    // Each line written is the setting line, or a line of the old content
    // that did not hold the key.
    assert forall|j: int| 0 <= j < all.len() implies (#[trigger] all[j] == sl || (
        !all[j].contains('\n') && !line_sets(all[j], key))) by {
        if j < ls.len() {
            assert(all[j] == body[j]);
        }
    }
    assert forall|j: int| 0 <= j < all.len() implies !(#[trigger] all[j]).contains('\n') by {
        if all[j] == sl {
        }
    }
    // The setting line is among them.
    assert(all.contains(sl)) by {
        if replaced {
            let i = choose|i: int| 0 <= i < ls.len() && line_sets(#[trigger] ls[i], key);
            assert(all[i] == sl);
        } else {
            assert(all[all.len() - 1] == sl);
        }
    }
    let js = choose|j: int| 0 <= j < all.len() && all[j] == sl;
    lemma_join_is_join_front(all, seq!['\n']);
    lemma_lines_of_join(all);
    let back = lines_back(all);
    assert(lines(join(all, seq!['\n'])) == back);
    lemma_lines_back_members(all);
    assert(all[js].len() > 0 && all[js].last() != '\r');
    assert(back.contains(sl));
    let ws = choose|i: int| 0 <= i < back.len() && back[i] == sl;
    assert(config_line_setting(back[ws]) == Some((key, SettingView::Text(value))));
    assert forall|i: int| 0 <= i < back.len() implies key_gives(
        #[trigger] config_line_setting(back[i]),
        key,
        SettingView::Text(value),
    ) by {
        let j = choose|j: int| 0 <= j < all.len() && (back[i] == all[j] || back[i] == strip_cr(all[j]));
        let x = all[j];
        if x == sl {
            assert(strip_cr(sl) == sl);
        } else if config_line_setting(back[i]) is Some && (config_line_setting(back[i])->0).0 == key {
            lemma_key_means_sets(back[i], key);
            if back[i] != x {
                assert(x.len() > 0 && x.last() == '\r');
                assert(back[i].push('\r') =~= x);
            }
        }
    }
    lemma_last_setting(back, key, SettingView::Text(value));
}

} // verus!
