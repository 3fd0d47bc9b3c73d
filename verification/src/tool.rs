//! What a CAM tool name tells about the tool: its kind, the text of its
//! diameter (the number before `mm`) and the texts that may give its angle
//! (a number before `deg` or `°`).  Reading those texts as numbers is left to
//! the caller.

use vstd::prelude::*;

use crate::text::{
    chars_of, find_sub, first_occurrence, has_sub, occurs_at, slice_chars,
    split_words, string_from_chars, views, words,
};

verus! {

/// What `str::to_lowercase` gives for `s`.
pub uninterp spec fn spec_to_lowercase(s: Seq<char>) -> Seq<char>;

/// What `char::is_numeric` gives for `c`.
pub uninterp spec fn spec_char_is_numeric(c: char) -> bool;

/// Every character of `s` is ASCII.
pub open spec fn is_ascii_text(s: Seq<char>) -> bool {
    forall|i: int| 0 <= i < s.len() ==> (s[i] as u32) < 128
}

/// The ASCII lowercase of `c`: `A` to `Z` become `a` to `z`; any other
/// character stays as it is.
pub open spec fn ascii_lower_char(c: char) -> char {
    if 'A' <= c && c <= 'Z' {
        ((c as u32) + 32) as char
    } else {
        c
    }
}

/// `s` with each character in ASCII lowercase.
pub open spec fn ascii_lower(s: Seq<char>) -> Seq<char> {
    s.map_values(|c: char| ascii_lower_char(c))
}

/// An ASCII decimal digit.
pub open spec fn is_ascii_digit(c: char) -> bool {
    '0' <= c && c <= '9'
}

/// `s` in lowercase, by `str::to_lowercase`.  An ASCII text lowercases to
/// its ASCII lowercase; the Unicode case mapping of other characters is not
/// stated here, only named.
#[verifier::external_body]
fn to_lowercase(s: &str) -> (lower: String)
    ensures
        lower@ == spec_to_lowercase(s@),
        is_ascii_text(s@) ==> lower@ == ascii_lower(s@),
{
    s.to_lowercase()
}

/// Whether `c` is numeric, by `char::is_numeric`.  Among ASCII characters
/// exactly the digits `0` to `9` are numeric; the Unicode number categories
/// beyond ASCII are not stated here, only named.
#[verifier::external_body]
fn is_numeric(c: char) -> (r: bool)
    ensures
        r == spec_char_is_numeric(c),
        (c as u32) < 128 ==> (r <==> is_ascii_digit(c)),
{
    c.is_numeric()
}

/// The kind of a cutting tool.
#[derive(PartialEq, Eq, Structural, Clone, Copy, Debug)]
pub enum ToolType {
    BallNose,
    FlatEndMill,
    Chamfer,
    VBit,
    BullNose,
    Surfacing,
    Unknown,
}

/// The name of a tool kind on the wire.
pub open spec fn tool_type_name(t: ToolType) -> Seq<char> {
    match t {
        ToolType::BallNose => "ballnose"@,
        ToolType::FlatEndMill => "flatendmill"@,
        ToolType::Chamfer => "chamfer"@,
        ToolType::VBit => "vbit"@,
        ToolType::BullNose => "bullnose"@,
        ToolType::Surfacing => "surfacing"@,
        ToolType::Unknown => "unknown"@,
    }
}

impl ToolType {
    /// The name of the tool kind on the wire.
    pub fn as_str(&self) -> (s: &'static str)
        ensures
            s@ == tool_type_name(*self),
    {
        match self {
            ToolType::BallNose => "ballnose",
            ToolType::FlatEndMill => "flatendmill",
            ToolType::Chamfer => "chamfer",
            ToolType::VBit => "vbit",
            ToolType::BullNose => "bullnose",
            ToolType::Surfacing => "surfacing",
            ToolType::Unknown => "unknown",
        }
    }
}

/// The kind of tool that a lowercase tool name names: flat or end mills
/// (ball-nosed when the name also says `ball`), chamfers, V-bits, bull noses
/// and surfacing or fly cutters; anything else is unknown.
pub open spec fn tool_type_of(lower: Seq<char>) -> ToolType {
    if has_sub(lower, "flat"@) || has_sub(lower, "endmill"@) {
        if has_sub(lower, "ball"@) {
            ToolType::BallNose
        } else {
            ToolType::FlatEndMill
        }
    } else if has_sub(lower, "chamfer"@) {
        ToolType::Chamfer
    } else if has_sub(lower, "v-bit"@) || has_sub(lower, "vbit"@) {
        ToolType::VBit
    } else if has_sub(lower, "bull"@) {
        ToolType::BullNose
    } else if has_sub(lower, "surfac"@) || has_sub(lower, "fly"@) || has_sub(lower, "facing"@) {
        ToolType::Surfacing
    } else {
        ToolType::Unknown
    }
}

/// The keyword table of tool kinds, read from a lowercase name in order:
/// `flat` or `endmill` names a flat end mill, or a ball nose when `ball` is
/// there too; failing those, `chamfer` a chamfer; then `v-bit` or `vbit` a
/// V-bit; then `bull` a bull nose; then `surfac`, `fly` or `facing` a
/// surfacing cutter; a name with none of them is unknown.
pub proof fn law_tool_keyword_table(lower: Seq<char>)
    ensures
        (has_sub(lower, "flat"@) || has_sub(lower, "endmill"@)) && has_sub(lower, "ball"@)
            ==> tool_type_of(lower) == ToolType::BallNose,
        (has_sub(lower, "flat"@) || has_sub(lower, "endmill"@)) && !has_sub(lower, "ball"@)
            ==> tool_type_of(lower) == ToolType::FlatEndMill,
        !has_sub(lower, "flat"@) && !has_sub(lower, "endmill"@) && has_sub(lower, "chamfer"@)
            ==> tool_type_of(lower) == ToolType::Chamfer,
        !has_sub(lower, "flat"@) && !has_sub(lower, "endmill"@) && !has_sub(lower, "chamfer"@) && (
        has_sub(lower, "v-bit"@) || has_sub(lower, "vbit"@)) ==> tool_type_of(lower)
            == ToolType::VBit,
        !has_sub(lower, "flat"@) && !has_sub(lower, "endmill"@) && !has_sub(lower, "chamfer"@)
            && !has_sub(lower, "v-bit"@) && !has_sub(lower, "vbit"@) && has_sub(lower, "bull"@)
            ==> tool_type_of(lower) == ToolType::BullNose,
        !has_sub(lower, "flat"@) && !has_sub(lower, "endmill"@) && !has_sub(lower, "chamfer"@)
            && !has_sub(lower, "v-bit"@) && !has_sub(lower, "vbit"@) && !has_sub(lower, "bull"@) && (
        has_sub(lower, "surfac"@) || has_sub(lower, "fly"@) || has_sub(lower, "facing"@))
            ==> tool_type_of(lower) == ToolType::Surfacing,
        !has_sub(lower, "flat"@) && !has_sub(lower, "endmill"@) && !has_sub(lower, "chamfer"@)
            && !has_sub(lower, "v-bit"@) && !has_sub(lower, "vbit"@) && !has_sub(lower, "bull"@)
            && !has_sub(lower, "surfac"@) && !has_sub(lower, "fly"@) && !has_sub(lower, "facing"@)
            ==> tool_type_of(lower) == ToolType::Unknown,
{
}

/// A name that holds any keyword of the table names a known kind of tool:
/// only a name with none of them is unknown.
pub proof fn law_keywords_name_a_known_tool(lower: Seq<char>)
    ensures
        (has_sub(lower, "flat"@) || has_sub(lower, "endmill"@) || has_sub(lower, "chamfer"@)
            || has_sub(lower, "v-bit"@) || has_sub(lower, "vbit"@) || has_sub(lower, "bull"@)
            || has_sub(lower, "surfac"@) || has_sub(lower, "fly"@) || has_sub(lower, "facing"@))
            <==> tool_type_of(lower) != ToolType::Unknown,
{
}

fn holds(s: &Vec<char>, p: &str) -> (r: bool)
    ensures
        r == has_sub(s@, p@),
{
    let pc = chars_of(p);
    find_sub(s, &pc).is_some()
}

/// The kind of tool that a lowercase tool name names.
pub fn classify_tool(lower: &str) -> (t: ToolType)
    ensures
        t == tool_type_of(lower@),
{
    let s = chars_of(lower);
    if holds(&s, "flat") || holds(&s, "endmill") {
        if holds(&s, "ball") {
            ToolType::BallNose
        } else {
            ToolType::FlatEndMill
        }
    } else if holds(&s, "chamfer") {
        ToolType::Chamfer
    } else if holds(&s, "v-bit") || holds(&s, "vbit") {
        ToolType::VBit
    } else if holds(&s, "bull") {
        ToolType::BullNose
    } else if holds(&s, "surfac") || holds(&s, "fly") || holds(&s, "facing") {
        ToolType::Surfacing
    } else {
        ToolType::Unknown
    }
}

// ---------------------------------------------------------------------------
// Diameter
// ---------------------------------------------------------------------------

/// The number of bytes that UTF-8 takes for `c`.
pub open spec fn utf8_width(c: char) -> nat {
    let u = c as u32;
    if u < 0x80 {
        1
    } else if u < 0x800 {
        2
    } else if u < 0x10000 {
        3
    } else {
        4
    }
}

/// The number of bytes that UTF-8 takes for `s`.
pub open spec fn utf8_len(s: Seq<char>) -> nat
    decreases s.len(),
{
    if s.len() == 0 {
        0
    } else {
        utf8_len(s.drop_last()) + utf8_width(s.last())
    }
}

/// A character that belongs to a number: numeric, or the decimal point.
pub open spec fn is_number_char(c: char) -> bool {
    spec_char_is_numeric(c) || c == '.'
}

/// The index of the last character of `s` that does not belong to a number.
pub open spec fn last_non_number(s: Seq<char>) -> Option<int>
    decreases s.len(),
{
    if s.len() == 0 {
        None
    } else if !is_number_char(s.last()) {
        Some(s.len() - 1)
    } else {
        last_non_number(s.drop_last())
    }
}

/// The index of the last character of `s` that is neither an ASCII digit
/// nor the decimal point: in an ASCII text, the last that does not belong to
/// a number.
pub open spec fn ascii_last_non_number(s: Seq<char>) -> Option<int>
    decreases s.len(),
{
    if s.len() == 0 {
        None
    } else if !(is_ascii_digit(s.last()) || s.last() == '.') {
        Some(s.len() - 1)
    } else {
        ascii_last_non_number(s.drop_last())
    }
}

/// The text before the first `mm` of a lowercase tool name.
pub open spec fn before_mm(lower: Seq<char>) -> Seq<char> {
    lower.take(choose|k: int| first_occurrence(lower, seq!['m', 'm'], k))
}

/// The text of a tool's diameter: the number that ends at the first `mm`,
/// when at least two bytes come before it; `None` when there is no such
/// text (the diameter then defaults).
pub open spec fn diameter_text_of(lower: Seq<char>) -> Option<Seq<char>> {
    if !has_sub(lower, seq!['m', 'm']) {
        None
    } else {
        let num = before_mm(lower);
        if utf8_len(num) < 2 {
            None
        } else {
            match last_non_number(num) {
                Some(j) => Some(num.skip(j + 1)),
                None => Some(num),
            }
        }
    }
}

/// The text of the diameter in an ASCII lowercase tool name: the number
/// that ends at the first `mm`, when at least two characters come before it.
pub open spec fn ascii_diameter_text(lower: Seq<char>) -> Option<Seq<char>> {
    if !has_sub(lower, seq!['m', 'm']) {
        None
    } else {
        let num = before_mm(lower);
        if num.len() < 2 {
            None
        } else {
            match ascii_last_non_number(num) {
                Some(j) => Some(num.skip(j + 1)),
                None => Some(num),
            }
        }
    }
}

/// A character of a number in an ASCII name: a digit or the decimal point.
pub open spec fn is_ascii_number_char(c: char) -> bool {
    ('0' <= c && c <= '9') || c == '.'
}

proof fn lemma_ascii_last_non_number(s: Seq<char>)
    ensures
        ascii_last_non_number(s) matches Some(j) ==> 0 <= j < s.len() && !is_ascii_number_char(s[j])
            && forall|k: int| j < k < s.len() ==> is_ascii_number_char(#[trigger] s[k]),
        ascii_last_non_number(s) is None ==> forall|k: int|
            0 <= k < s.len() ==> is_ascii_number_char(#[trigger] s[k]),
    decreases s.len(),
{
    if s.len() > 0 {
        let d = s.drop_last();
        lemma_ascii_last_non_number(d);
        assert forall|k: int| 0 <= k < d.len() implies d[k] == s[k] by {}
    }
}

/// The diameter text of an ASCII name is the number that ends right at the
/// first `mm`: it is made of digits and decimal points only, it is what
/// comes last before that `mm`, and the character before it, if any, is not
/// part of a number.  There is none exactly when the name has no `mm` or
/// fewer than two characters come before the first one.
pub proof fn law_ascii_diameter_is_the_number_before_mm(lower: Seq<char>)
    ensures
        ascii_diameter_text(lower) is None <==> (!has_sub(lower, "mm"@) || before_mm(lower).len()
            < 2),
        ascii_diameter_text(lower) matches Some(d) ==> {
            let num = before_mm(lower);
            &&& d.len() <= num.len()
            &&& d == num.skip(num.len() - d.len())
            &&& forall|i: int| 0 <= i < d.len() ==> is_ascii_number_char(#[trigger] d[i])
            &&& d.len() < num.len() ==> !is_ascii_number_char(num[num.len() - d.len() - 1])
        },
{
    reveal_strlit("mm");
    assert("mm"@ =~= seq!['m', 'm']);
    let num = before_mm(lower);
    lemma_ascii_last_non_number(num);
    if let Some(d) = ascii_diameter_text(lower) {
        match ascii_last_non_number(num) {
            Some(j) => {
                assert(d == num.skip(j + 1));
                assert(d =~= num.skip(num.len() - d.len()));
                assert forall|i: int| 0 <= i < d.len() implies is_ascii_number_char(#[trigger] d[i]) by {
                    assert(d[i] == num[j + 1 + i]);
                }
            },
            None => {
                assert(d == num);
                assert(d =~= num.skip(0));
            },
        }
    }
}

/// Taking the diameter text apart would cut a character in two: the last
/// character before `mm` that does not belong to a number takes more than
/// one byte.
pub open spec fn diameter_cut_is_invalid(lower: Seq<char>) -> bool {
    has_sub(lower, seq!['m', 'm']) && utf8_len(before_mm(lower)) >= 2 && match last_non_number(
        before_mm(lower),
    ) {
        Some(j) => before_mm(lower)[j] as u32 >= 0x80,
        None => false,
    }
}

proof fn lemma_ascii_utf8_len(s: Seq<char>)
    requires
        is_ascii_text(s),
    ensures
        utf8_len(s) == s.len(),
    decreases s.len(),
{
    if s.len() > 0 {
        let d = s.drop_last();
        assert forall|i: int| 0 <= i < d.len() implies (d[i] as u32) < 128 by {
            assert(d[i] == s[i]);
        }
        lemma_ascii_utf8_len(d);
        assert((s[s.len() - 1] as u32) < 128);
    }
}

proof fn lemma_last_non_number_in_range(s: Seq<char>)
    ensures
        last_non_number(s) matches Some(j) ==> 0 <= j < s.len(),
    decreases s.len(),
{
    if s.len() > 0 {
        lemma_last_non_number_in_range(s.drop_last());
    }
}

proof fn lemma_first_occurrence_exists(s: Seq<char>, p: Seq<char>, i: int)
    requires
        occurs_at(s, p, i),
    ensures
        exists|k: int| first_occurrence(s, p, k),
    decreases i,
{
    if exists|j: int| 0 <= j < i && occurs_at(s, p, j) {
        let j = choose|j: int| 0 <= j < i && occurs_at(s, p, j);
        lemma_first_occurrence_exists(s, p, j);
    } else {
        assert(first_occurrence(s, p, i));
    }
}

/// An ASCII lowercase name can always be taken apart.
proof fn lemma_ascii_cut_is_valid(lower: Seq<char>)
    requires
        is_ascii_text(lower),
    ensures
        !diameter_cut_is_invalid(lower),
{
    let mm = seq!['m', 'm'];
    if has_sub(lower, mm) {
        let i = choose|i: int| occurs_at(lower, mm, i);
        lemma_first_occurrence_exists(lower, mm, i);
        let k = choose|k: int| first_occurrence(lower, mm, k);
        let num = before_mm(lower);
        assert(num == lower.take(k));
        lemma_last_non_number_in_range(num);
        if let Some(j) = last_non_number(num) {
            assert(num[j] == lower[j]);
        }
    }
}

proof fn lemma_first_occurrence_unique(s: Seq<char>, p: Seq<char>, i: int, k: int)
    requires
        first_occurrence(s, p, i),
        first_occurrence(s, p, k),
    ensures
        i == k,
{
    if i < k {
        assert(!occurs_at(s, p, i));
    }
    if k < i {
        assert(!occurs_at(s, p, k));
    }
}

proof fn lemma_utf8_len_take(s: Seq<char>, i: int)
    requires
        0 <= i < s.len(),
    ensures
        utf8_len(s.take(i + 1)) == utf8_len(s.take(i)) + utf8_width(s[i]),
{
    assert(s.take(i + 1).drop_last() =~= s.take(i));
}

/// Whether `s` takes at least two bytes in UTF-8.
fn at_least_two_bytes(s: &Vec<char>) -> (r: bool)
    ensures
        r == (utf8_len(s@) >= 2),
{
    let mut bytes: usize = 0;
    let mut i: usize = 0;
    assert(s@.take(0) =~= Seq::<char>::empty());
    while i < s.len()
        invariant
            i <= s.len(),
            bytes == utf8_len(s@.take(i as int)),
            bytes < 2,
        decreases s.len() - i,
    {
        proof {
            lemma_utf8_len_take(s@, i as int);
        }
        let u = s[i] as u32;
        let w: usize = if u < 0x80 {
            1
        } else if u < 0x800 {
            2
        } else if u < 0x10000 {
            3
        } else {
            4
        };
        bytes = bytes + w;
        i = i + 1;
        if bytes >= 2 {
            proof {
                lemma_utf8_len_grows(s@, i as int);
            }
            return true;
        }
    }
    assert(s@.take(i as int) =~= s@);
    false
}

proof fn lemma_utf8_len_grows(s: Seq<char>, i: int)
    requires
        0 <= i <= s.len(),
    ensures
        utf8_len(s.take(i)) <= utf8_len(s),
    decreases s.len() - i,
{
    if i == s.len() {
        assert(s.take(i) =~= s);
    } else {
        lemma_utf8_len_grows(s, i + 1);
        lemma_utf8_len_take(s, i);
    }
}

/// The index of the last character of `s` that does not belong to a number.
fn find_last_non_number(s: &Vec<char>) -> (r: Option<usize>)
    ensures
        match r {
            Some(j) => last_non_number(s@) == Some(j as int) && j < s.len(),
            None => last_non_number(s@) is None,
        },
        is_ascii_text(s@) ==> ascii_last_non_number(s@) == last_non_number(s@),
{
    let mut i: usize = s.len();
    assert(s@.take(s.len() as int) =~= s@);
    while i > 0
        invariant
            i <= s.len(),
            last_non_number(s@) == last_non_number(s@.take(i as int)),
            is_ascii_text(s@) ==> ascii_last_non_number(s@) == ascii_last_non_number(
                s@.take(i as int),
            ),
        decreases i,
    {
        let c = s[i - 1];
        let ghost t = s@.take(i as int);
        assert(t.last() == c);
        assert(t.drop_last() =~= s@.take(i - 1));
        if !is_numeric(c) && c != '.' {
            return Some(i - 1);
        }
        i = i - 1;
    }
    None
}

/// The text of a tool's diameter in a lowercase tool name, if there is one.
pub fn diameter_text(lower: &str) -> (r: Option<String>)
    requires
        !diameter_cut_is_invalid(lower@),
    ensures
        match r {
            Some(t) => diameter_text_of(lower@) == Some(t@),
            None => diameter_text_of(lower@) is None,
        },
        is_ascii_text(lower@) ==> match r {
            Some(t) => ascii_diameter_text(lower@) == Some(t@),
            None => ascii_diameter_text(lower@) is None,
        },
{
    let s = chars_of(lower);
    let mm: Vec<char> = vec!['m', 'm'];
    assert(mm@ =~= seq!['m', 'm']);
    match find_sub(&s, &mm) {
        None => None,
        Some(k) => {
            proof {
                let c = choose|c: int| first_occurrence(s@, seq!['m', 'm'], c);
                lemma_first_occurrence_unique(s@, seq!['m', 'm'], k as int, c);
            }
            let num = slice_chars(&s, 0, k);
            assert(num@ =~= before_mm(lower@));
            proof {
                if is_ascii_text(lower@) {
                    assert forall|i: int| 0 <= i < num@.len() implies (num@[i] as u32) < 128 by {
                        assert(num@[i] == lower@[i]);
                    }
                    lemma_ascii_utf8_len(num@);
                }
            }
            if !at_least_two_bytes(&num) {
                return None;
            }
            match find_last_non_number(&num) {
                Some(j) => {
                    let part = slice_chars(&num, j + 1, num.len());
                    assert(part@ =~= num@.skip(j + 1));
                    Some(string_from_chars(&part))
                },
                None => Some(string_from_chars(&num)),
            }
        },
    }
}

/// Whether taking the diameter text out of a lowercase tool name would cut
/// a character in two.
pub fn diameter_cut_invalid(lower: &str) -> (r: bool)
    ensures
        r == diameter_cut_is_invalid(lower@),
{
    let s = chars_of(lower);
    let mm: Vec<char> = vec!['m', 'm'];
    assert(mm@ =~= seq!['m', 'm']);
    match find_sub(&s, &mm) {
        None => false,
        Some(k) => {
            proof {
                let c = choose|c: int| first_occurrence(s@, seq!['m', 'm'], c);
                lemma_first_occurrence_unique(s@, seq!['m', 'm'], k as int, c);
            }
            let num = slice_chars(&s, 0, k);
            assert(num@ =~= before_mm(lower@));
            if !at_least_two_bytes(&num) {
                return false;
            }
            match find_last_non_number(&num) {
                Some(j) => num[j] as u32 >= 0x80,
                None => false,
            }
        },
    }
}

// ---------------------------------------------------------------------------
// Angle
// ---------------------------------------------------------------------------

/// `t` with each degree sign written as `deg`.
pub open spec fn degree_words(t: Seq<char>) -> Seq<char>
    decreases t.len(),
{
    if t.len() == 0 {
        seq![]
    } else {
        degree_words(t.drop_last()) + if t.last() == '°' {
            seq!['d', 'e', 'g']
        } else {
            seq![t.last()]
        }
    }
}

/// The text that may give an angle in the word `token`: what comes before
/// its first `deg` (once degree signs are written `deg`), when that is not
/// empty.
pub open spec fn angle_candidate(token: Seq<char>) -> Option<Seq<char>> {
    let c = degree_words(token);
    if !has_sub(c, seq!['d', 'e', 'g']) {
        None
    } else {
        let i = choose|i: int| first_occurrence(c, seq!['d', 'e', 'g'], i);
        if i == 0 {
            None
        } else {
            Some(c.take(i))
        }
    }
}

/// The texts that may give an angle, one for each word that has one, in
/// order.
pub open spec fn angle_candidates_of(ws: Seq<Seq<char>>) -> Seq<Seq<char>>
    decreases ws.len(),
{
    if ws.len() == 0 {
        seq![]
    } else {
        angle_candidates_of(ws.drop_last()) + match angle_candidate(ws.last()) {
            Some(c) => seq![c],
            None => seq![],
        }
    }
}

fn expand_degrees(t: &Vec<char>) -> (out: Vec<char>)
    ensures
        out@ == degree_words(t@),
{
    let mut out: Vec<char> = Vec::new();
    let mut i: usize = 0;
    assert(t@.take(0) =~= Seq::<char>::empty());
    while i < t.len()
        invariant
            i <= t.len(),
            out@ == degree_words(t@.take(i as int)),
        decreases t.len() - i,
    {
        let ghost before = out@;
        let ghost tk = t@.take(i + 1);
        assert(tk.drop_last() =~= t@.take(i as int));
        assert(tk.last() == t@[i as int]);
        if t[i] == '°' {
            out.push('d');
            out.push('e');
            out.push('g');
        } else {
            out.push(t[i]);
        }
        assert(out@ =~= degree_words(tk));
        i = i + 1;
    }
    assert(t@.take(i as int) =~= t@);
    out
}

fn candidate_of(token: &Vec<char>) -> (r: Option<Vec<char>>)
    ensures
        match r {
            Some(c) => angle_candidate(token@) == Some(c@),
            None => angle_candidate(token@) is None,
        },
{
    let c = expand_degrees(token);
    let deg: Vec<char> = vec!['d', 'e', 'g'];
    assert(deg@ =~= seq!['d', 'e', 'g']);
    match find_sub(&c, &deg) {
        None => None,
        Some(i) => {
            proof {
                let k = choose|k: int| first_occurrence(c@, seq!['d', 'e', 'g'], k);
                lemma_first_occurrence_unique(c@, seq!['d', 'e', 'g'], i as int, k);
            }
            if i == 0 {
                None
            } else {
                let part = slice_chars(&c, 0, i);
                assert(part@ =~= c@.take(i as int));
                Some(part)
            }
        },
    }
}

/// The texts of a lowercase tool name that may give the tool's angle, in
/// the order of its words; the first that reads as a number is the angle.
pub fn angle_candidates(lower: &str) -> (r: Vec<String>)
    ensures
        r@.map_values(|s: String| s@) == angle_candidates_of(words(lower@)),
{
    let s = chars_of(lower);
    let ws = split_words(&s);
    let ghost wv = views(ws@);
    let mut out: Vec<String> = Vec::new();
    let mut i: usize = 0;
    assert(out@.map_values(|s: String| s@) =~= angle_candidates_of(wv.take(0)));
    while i < ws.len()
        invariant
            i <= ws.len(),
            wv == views(ws@),
            wv == words(lower@),
            out@.map_values(|s: String| s@) == angle_candidates_of(wv.take(i as int)),
        decreases ws.len() - i,
    {
        let ghost before = out@.map_values(|s: String| s@);
        let ghost wk = wv.take(i + 1);
        assert(wk.drop_last() =~= wv.take(i as int));
        assert(wk.last() == ws@[i as int]@);
        match candidate_of(&ws[i]) {
            Some(c) => {
                out.push(string_from_chars(&c));
                assert(out@.map_values(|s: String| s@) =~= before + seq![c@]);
            },
            None => {
                assert(out@.map_values(|s: String| s@) =~= before);
            },
        }
        i = i + 1;
    }
    assert(wv.take(i as int) =~= wv);
    out
}

// ---------------------------------------------------------------------------
// Whole tool names
// ---------------------------------------------------------------------------

/// What a tool name tells as text.
pub struct ToolInfoText {
    /// The text of the diameter, if the name has one.
    pub diameter: Option<String>,
    /// The kind of tool.
    pub tool_type: ToolType,
    /// The texts that may give the angle, in order.
    pub angle_candidates: Vec<String>,
}

/// What a tool name tells: its kind, diameter text and angle texts, all
/// read from the name in lowercase.  With no name, the kind is unknown and
/// there are no texts.
pub open spec fn tool_info_of(name: Option<Seq<char>>) -> (
    Option<Seq<char>>,
    ToolType,
    Seq<Seq<char>>,
) {
    match name {
        None => (None, ToolType::Unknown, seq![]),
        Some(n) => {
            let lower = spec_to_lowercase(n);
            (diameter_text_of(lower), tool_type_of(lower), angle_candidates_of(words(lower)))
        },
    }
}

/// What a tool info holds.
pub open spec fn tool_info_view(t: ToolInfoText) -> (Option<Seq<char>>, ToolType, Seq<Seq<char>>) {
    (
        match t.diameter {
            Some(d) => Some(d@),
            None => None,
        },
        t.tool_type,
        t.angle_candidates@.map_values(|s: String| s@),
    )
}

/// The name is not ASCII and its lowercase form cannot be taken apart
/// without cutting a character in two (an ASCII name always can).
pub open spec fn tool_name_is_uncuttable(name: Option<Seq<char>>) -> bool {
    match name {
        Some(n) => !is_ascii_text(n) && diameter_cut_is_invalid(spec_to_lowercase(n)),
        None => false,
    }
}

/// What an ASCII tool name tells, read from its ASCII lowercase form.
pub open spec fn ascii_tool_info(n: Seq<char>) -> (Option<Seq<char>>, ToolType, Seq<Seq<char>>) {
    let lower = ascii_lower(n);
    (ascii_diameter_text(lower), tool_type_of(lower), angle_candidates_of(words(lower)))
}

proof fn lemma_ascii_lower_is_ascii(n: Seq<char>)
    requires
        is_ascii_text(n),
    ensures
        is_ascii_text(ascii_lower(n)),
        ascii_lower(ascii_lower(n)) == ascii_lower(n),
{
    let l = ascii_lower(n);
    assert forall|i: int| 0 <= i < l.len() implies (l[i] as u32) < 128 by {
        assert(l[i] == ascii_lower_char(n[i]));
    }
    assert(ascii_lower(l) =~= l);
}

/// An ASCII tool name tells the same as its lowercase form: case never
/// matters to what is read from a name.
pub proof fn law_ascii_name_case_is_ignored(n: Seq<char>)
    requires
        is_ascii_text(n),
    ensures
        is_ascii_text(ascii_lower(n)),
        ascii_tool_info(ascii_lower(n)) == ascii_tool_info(n),
{
    lemma_ascii_lower_is_ascii(n);
}

/// What the tool name `tool_name` tells.
pub fn tool_info_text(tool_name: Option<&str>) -> (info: ToolInfoText)
    requires
        !tool_name_is_uncuttable(
            match tool_name {
                Some(n) => Some(n@),
                None => None,
            },
        ),
    ensures
        tool_info_view(info) == tool_info_of(
            match tool_name {
                Some(n) => Some(n@),
                None => None,
            },
        ),
        tool_name matches Some(n) ==> (is_ascii_text(n@) ==> tool_info_view(info)
            == ascii_tool_info(n@)),
{
    match tool_name {
        None => {
            let v: Vec<String> = Vec::new();
            assert(v@.map_values(|s: String| s@) =~= Seq::<Seq<char>>::empty());
            ToolInfoText { diameter: None, tool_type: ToolType::Unknown, angle_candidates: v }
        },
        Some(name) => {
            let lower = to_lowercase(name);
            proof {
                if is_ascii_text(name@) {
                    lemma_ascii_lower_is_ascii(name@);
                    lemma_ascii_cut_is_valid(lower@);
                }
            }
            let d = diameter_text(lower.as_str());
            let t = classify_tool(lower.as_str());
            let a = angle_candidates(lower.as_str());
            ToolInfoText { diameter: d, tool_type: t, angle_candidates: a }
        },
    }
}

/// What the tool name `tool_name` tells, or `None` when its lowercase form
/// cannot be taken apart without cutting a character in two.
pub fn checked_tool_info_text(tool_name: Option<&str>) -> (info: Option<ToolInfoText>)
    ensures
        match info {
            Some(i) => !tool_name_is_uncuttable(
                match tool_name {
                    Some(n) => Some(n@),
                    None => None,
                },
            ) && tool_info_view(i) == tool_info_of(
                match tool_name {
                    Some(n) => Some(n@),
                    None => None,
                },
            ),
            None => tool_name_is_uncuttable(
                match tool_name {
                    Some(n) => Some(n@),
                    None => None,
                },
            ),
        },
        tool_name matches Some(n) ==> (is_ascii_text(n@) ==> (info matches Some(i)
            && tool_info_view(i) == ascii_tool_info(n@))),
{
    match tool_name {
        None => Some(tool_info_text(None)),
        Some(name) => {
            let lower = to_lowercase(name);
            proof {
                if is_ascii_text(name@) {
                    lemma_ascii_lower_is_ascii(name@);
                    lemma_ascii_cut_is_valid(lower@);
                }
            }
            if diameter_cut_invalid(lower.as_str()) {
                None
            } else {
                Some(tool_info_text(Some(name)))
            }
        },
    }
}

} // verus!
