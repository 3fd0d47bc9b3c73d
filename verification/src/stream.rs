//! Streaming a G-code file to the machine: which file lines are commands, how
//! a feed-rate override rewrites them, and the line-by-line session that the
//! streaming worker steps through.

use vstd::prelude::*;

use crate::text::{
    chars_of, contains_char, copy_chars, find_sub, has_sub, join, join_chars, lines, lines_from,
    split_lines, strip_cr,
    split_words, string_from_chars, trim, trim_chars, views, words,
};

verus! {

// ---------------------------------------------------------------------------
// Active lines
// ---------------------------------------------------------------------------

/// A trimmed line carries a command: it is not empty and does not start a
/// `;` or `(` comment.
pub open spec fn is_active(t: Seq<char>) -> bool {
    t.len() > 0 && t[0] != ';' && t[0] != '('
}

/// A raw file line carries a command once trimmed.
pub open spec fn is_active_line(l: Seq<char>) -> bool {
    is_active(trim(l))
}

/// The number of lines of `ls` that carry a command.
pub open spec fn count_active(ls: Seq<Seq<char>>) -> nat
    decreases ls.len(),
{
    if ls.len() == 0 {
        0
    } else {
        (if is_active_line(ls[0]) {
            1nat
        } else {
            0nat
        }) + count_active(ls.drop_first())
    }
}

/// The trimmed text of the lines of `ls` that carry a command, in order.
pub open spec fn active_trimmed(ls: Seq<Seq<char>>) -> Seq<Seq<char>>
    decreases ls.len(),
{
    if ls.len() == 0 {
        seq![]
    } else {
        (if is_active_line(ls[0]) {
            seq![trim(ls[0])]
        } else {
            seq![]
        }) + active_trimmed(ls.drop_first())
    }
}

/// Whether a trimmed line carries a command.
pub fn is_active_text(t: &Vec<char>) -> (r: bool)
    ensures
        r == is_active(t@),
{
    t.len() > 0 && t[0] != ';' && t[0] != '('
}

proof fn lemma_count_active_skip(ls: Seq<Seq<char>>, k: int)
    requires
        0 <= k <= ls.len(),
    ensures
        count_active(ls.skip(k)) <= count_active(ls),
    decreases k,
{
    if k == 0 {
        assert(ls.skip(0) =~= ls);
    } else {
        lemma_count_active_skip(ls, k - 1);
        assert(ls.skip(k - 1).drop_first() =~= ls.skip(k));
    }
}

/// Only the first character of a trimmed line decides whether it carries a
/// command: an empty line carries none, a line that opens with `;` or `(` is
/// a comment, and a line that opens with any other character is a command,
/// whatever follows that character (a trailing `; comment` included).
pub proof fn law_first_character_decides(t: Seq<char>, rest: Seq<char>)
    ensures
        !is_active(Seq::<char>::empty()),
        t.len() > 0 ==> is_active(t + rest) == is_active(t),
        t.len() > 0 && t[0] != ';' && t[0] != '(' ==> is_active(t + rest),
        t.len() > 0 && (t[0] == ';' || t[0] == '(') ==> !is_active(t + rest),
{
    if t.len() > 0 {
        assert((t + rest)[0] == t[0]);
    }
}

/// Each line that carries a command counts once toward a job's total, and
/// no other line does: adding a line to a file adds one to the count exactly
/// when that line, trimmed, is non-empty and opens with neither `;` nor `(`.
pub proof fn law_total_counts_command_lines(ls: Seq<Seq<char>>, l: Seq<char>)
    ensures
        count_active(ls.push(l)) == count_active(ls) + if trim(l).len() > 0 && trim(l)[0] != ';'
            && trim(l)[0] != '(' {
            1int
        } else {
            0int
        },
    decreases ls.len(),
{
    if ls.len() > 0 {
        law_total_counts_command_lines(ls.drop_first(), l);
        assert(ls.push(l).drop_first() =~= ls.drop_first().push(l));
        assert(ls.push(l)[0] == ls[0]);
    } else {
        assert(ls.push(l).drop_first() =~= Seq::<Seq<char>>::empty());
        assert(ls.push(l)[0] == l);
        assert(count_active(Seq::<Seq<char>>::empty()) == 0);
    }
}

/// The number of lines in `v` that carry a command.
fn count_active_in(v: &Vec<Vec<char>>) -> (n: usize)
    ensures
        n == count_active(views(v@)),
{
    let ghost ls = views(v@);
    let mut n: usize = 0;
    let mut i: usize = 0;
    assert(ls.skip(0) =~= ls);
    while i < v.len()
        invariant
            i <= v.len(),
            ls == views(v@),
            n <= i,
            n + count_active(ls.skip(i as int)) == count_active(ls),
        decreases v.len() - i,
    {
        assert(ls.skip(i as int).drop_first() =~= ls.skip(i + 1));
        assert(ls.skip(i as int)[0] == v@[i as int]@);
        let t = trim_chars(&v[i]);
        if is_active_text(&t) {
            n = n + 1;
        }
        i = i + 1;
    }
    assert(ls.skip(i as int) =~= Seq::<Seq<char>>::empty());
    n
}

/// The number of lines of `content` that carry a command: the job's total,
/// against which progress is reported.
pub fn count_active_lines(content: &str) -> (n: usize)
    ensures
        n == count_active(lines(content@)),
{
    let cs = chars_of(content);
    let ls = split_lines(&cs);
    count_active_in(&ls)
}

// ---------------------------------------------------------------------------
// Recognising G-code text
// ---------------------------------------------------------------------------

/// The characters with which a command line of a G-code file starts.
pub open spec fn is_gcode_lead(c: char) -> bool {
    c == 'G' || c == 'M' || c == 'X' || c == 'Y' || c == 'Z' || c == '$' || c == 'F' || c == 'S'
        || c == 'T'
}

/// `content` looks like G-code: some line, trimmed, carries a command that
/// starts with a G-code word letter or `$`.
pub open spec fn looks_like_gcode(content: Seq<char>) -> bool {
    exists|i: int|
        0 <= i < lines(content).len() && #[trigger] is_active(trim(lines(content)[i]))
            && is_gcode_lead(trim(lines(content)[i])[0])
}

/// A G-code word letter or `$`, written out: what a line that makes a text
/// look like G-code opens with.
pub open spec fn opens_gcode_word(t: Seq<char>) -> bool {
    t.len() > 0 && (t[0] == 'G' || t[0] == 'M' || t[0] == 'X' || t[0] == 'Y' || t[0] == 'Z' || t[0]
        == '$' || t[0] == 'F' || t[0] == 'S' || t[0] == 'T')
}

/// Any one line decides: a text is recognised as G-code exactly when some
/// line of it, trimmed, opens with one of `G M X Y Z $ F S T`, wherever that
/// line stands and whatever the lines around it hold.
pub proof fn law_any_line_recognises(content: Seq<char>, i: int)
    ensures
        0 <= i < lines(content).len() && opens_gcode_word(trim(lines(content)[i]))
            ==> looks_like_gcode(content),
        looks_like_gcode(content) ==> exists|j: int|
            0 <= j < lines(content).len() && #[trigger] opens_gcode_word(trim(lines(content)[j])),
{
    if 0 <= i < lines(content).len() && opens_gcode_word(trim(lines(content)[i])) {
        assert(is_active(trim(lines(content)[i])));
    }
    if looks_like_gcode(content) {
        let j = choose|j: int|
            0 <= j < lines(content).len() && #[trigger] is_active(trim(lines(content)[j]))
                && is_gcode_lead(trim(lines(content)[j])[0]);
        assert(opens_gcode_word(trim(lines(content)[j])));
    }
}

proof fn lemma_lines_split(cur: Seq<char>, r: Seq<char>, b: Seq<char>)
    ensures
        lines_from(cur, r + seq!['\n'] + b) == lines_from(cur, r + seq!['\n']) + lines(b),
    decreases r.len(),
{
    if r.len() == 0 {
        assert(r + seq!['\n'] + b =~= seq!['\n'] + b);
        assert((seq!['\n'] + b).drop_first() =~= b);
        assert(r + seq!['\n'] =~= seq!['\n']);
        assert(seq!['\n'].drop_first() =~= Seq::<char>::empty());
        let x = seq!['\n'] + b;
        assert(x[0] == '\n');
        assert(lines_from(cur, x) == seq![strip_cr(cur)] + lines_from(seq![], b));
        assert(lines_from(seq![], Seq::<char>::empty()) == Seq::<Seq<char>>::empty());
        assert(lines_from(cur, seq!['\n']) == seq![strip_cr(cur)] + lines_from(
            seq![],
            Seq::<char>::empty(),
        ));
        assert(lines_from(cur, x) =~= lines_from(cur, seq!['\n']) + lines(b));
    } else {
        let r1 = r.drop_first();
        assert((r + seq!['\n'] + b).drop_first() =~= r1 + seq!['\n'] + b);
        assert((r + seq!['\n']).drop_first() =~= r1 + seq!['\n']);
        assert((r + seq!['\n'] + b)[0] == r[0]);
        assert((r + seq!['\n'])[0] == r[0]);
        let x = r + seq!['\n'] + b;
        let y = r + seq!['\n'];
        if r[0] == '\n' {
            lemma_lines_split(seq![], r1, b);
            assert(lines_from(cur, x) == seq![strip_cr(cur)] + lines_from(seq![], r1 + seq!['\n'] + b));
            assert(lines_from(cur, y) == seq![strip_cr(cur)] + lines_from(seq![], r1 + seq!['\n']));
            assert(lines_from(cur, x) =~= lines_from(cur, y) + lines(b));
        } else {
            lemma_lines_split(cur.push(r[0]), r1, b);
            assert(lines_from(cur, x) == lines_from(cur.push(r[0]), r1 + seq!['\n'] + b));
            assert(lines_from(cur, y) == lines_from(cur.push(r[0]), r1 + seq!['\n']));
        }
    }
}

/// Lines put before a text never undo its recognition: when `b` looks like
/// G-code, so does any text that ends with a line feed followed by `b`.
pub proof fn law_leading_lines_keep_recognition(a: Seq<char>, b: Seq<char>)
    ensures
        looks_like_gcode(b) ==> looks_like_gcode(a + seq!['\n'] + b),
{
    if looks_like_gcode(b) {
        lemma_lines_split(seq![], a, b);
        let la = lines(a + seq!['\n']);
        let j = choose|j: int|
            0 <= j < lines(b).len() && #[trigger] is_active(trim(lines(b)[j])) && is_gcode_lead(
                trim(lines(b)[j])[0],
            );
        let c = a + seq!['\n'] + b;
        assert(lines(c)[la.len() + j] == lines(b)[j]);
        assert(is_active(trim(lines(c)[la.len() + j])));
    }
}

/// Whether `content` looks like G-code.
pub fn validate_gcode_content(content: &str) -> (r: bool)
    ensures
        r == looks_like_gcode(content@),
{
    let cs = chars_of(content);
    let ls = split_lines(&cs);
    let ghost lv = views(ls@);
    let mut i: usize = 0;
    while i < ls.len()
        invariant
            i <= ls.len(),
            lv == views(ls@),
            lv == lines(content@),
            forall|j: int|
                0 <= j < i ==> !(#[trigger] is_active(trim(lv[j])) && is_gcode_lead(trim(lv[j])[0])),
        decreases ls.len() - i,
    {
        let t = trim_chars(&ls[i]);
        assert(t@ == trim(lv[i as int]));
        if is_active_text(&t) {
            let c = t[0];
            if c == 'G' || c == 'M' || c == 'X' || c == 'Y' || c == 'Z' || c == '$' || c == 'F'
                || c == 'S' || c == 'T' {
                return true;
            }
        }
        i = i + 1;
    }
    false
}

// ---------------------------------------------------------------------------
// Feed-rate override
// ---------------------------------------------------------------------------

/// A word that sets the feed rate: it starts with `F` or `f`.
pub open spec fn is_feed_word(p: Seq<char>) -> bool {
    p.len() > 0 && (p[0] == 'F' || p[0] == 'f')
}

/// `ws` with every feed word replaced by `fw`.
pub open spec fn replace_feed_words(ws: Seq<Seq<char>>, fw: Seq<char>) -> Seq<Seq<char>> {
    ws.map_values(
        |p: Seq<char>|
            if is_feed_word(p) {
                fw
            } else {
                p
            },
    )
}

/// The line names a linear or arc move: it holds `G1`, `G2` or `G3`.
pub open spec fn mentions_feed_move(l: Seq<char>) -> bool {
    has_sub(l, seq!['G', '1']) || has_sub(l, seq!['G', '2']) || has_sub(l, seq!['G', '3'])
}

/// The command sent for the trimmed line `l`, and whether a feed word has
/// been sent so far, when the job's feed override is `feed` (the feed word to
/// send, such as `F900.0`) and `sent` says whether one was sent before.
///
/// A line that holds `F` or `f` has each of its feed words replaced (words
/// joined again by single spaces); otherwise the first line that names a
/// `G1`/`G2`/`G3` move before any feed word was sent gets the feed word
/// appended.
pub open spec fn override_line(l: Seq<char>, feed: Option<Seq<char>>, sent: bool) -> (
    Seq<char>,
    bool,
) {
    match feed {
        None => (l, sent),
        Some(fw) => if l.contains('F') || l.contains('f') {
            (join(replace_feed_words(words(l), fw), seq![' ']), true)
        } else if mentions_feed_move(l) && !sent {
            (l + seq![' '] + fw, true)
        } else {
            (l, sent)
        },
    }
}

/// How the feed-rate override `fw` rewrites a trimmed line `l`.  Without an
/// override every line goes out as it is.  A line with no `F` or `f` goes
/// out as it is, except the first line naming a `G1`, `G2` or `G3` move
/// before any feed word was sent, which gets ` fw` appended; a line with `F`
/// or `f` always counts as having sent a feed word, and once one was sent it
/// stays sent.
pub proof fn law_feed_override_rules(l: Seq<char>, fw: Seq<char>, sent: bool)
    ensures
        override_line(l, None, sent) == (l, sent),
        !l.contains('F') && !l.contains('f') && !has_sub(l, "G1"@) && !has_sub(l, "G2"@)
            && !has_sub(l, "G3"@) ==> override_line(l, Some(fw), sent) == (l, sent),
        !l.contains('F') && !l.contains('f') && (has_sub(l, "G1"@) || has_sub(l, "G2"@) || has_sub(
            l,
            "G3"@,
        )) && !sent ==> override_line(l, Some(fw), sent) == (l + " "@ + fw, true),
        !l.contains('F') && !l.contains('f') && sent ==> override_line(l, Some(fw), sent) == (
        l,
        true,
        ),
        l.contains('F') || l.contains('f') ==> override_line(l, Some(fw), sent).1,
        override_line(l, Some(fw), true).1,
{
    reveal_strlit("G1");
    reveal_strlit("G2");
    reveal_strlit("G3");
    reveal_strlit(" ");
    assert("G1"@ =~= seq!['G', '1']);
    assert("G2"@ =~= seq!['G', '2']);
    assert("G3"@ =~= seq!['G', '3']);
    assert(" "@ =~= seq![' ']);
}

/// The view of an optional feed word.
pub open spec fn feed_view(feed: Option<Vec<char>>) -> Option<Seq<char>> {
    match feed {
        Some(v) => Some(v@),
        None => None,
    }
}

/// The command sent for the trimmed line `l` and the new "feed word sent" state.
pub fn apply_feed_override(l: &Vec<char>, feed: &Option<Vec<char>>, sent: bool) -> (r: (
    Vec<char>,
    bool,
))
    ensures
        (r.0@, r.1) == override_line(l@, feed_view(*feed), sent),
{
    match feed {
        None => (copy_chars(l), sent),
        Some(fw) => {
            if contains_char(l, 'F') || contains_char(l, 'f') {
                let parts = split_words(l);
                let mut new_parts: Vec<Vec<char>> = Vec::new();
                let mut i: usize = 0;
                while i < parts.len()
                    invariant
                        i <= parts.len(),
                        views(new_parts@) == replace_feed_words(views(parts@), fw@).take(
                            i as int,
                        ),
                    decreases parts.len() - i,
                {
                    let p = &parts[i];
                    let ghost before = views(new_parts@);
                    let ghost r = replace_feed_words(views(parts@), fw@);
                    assert(views(parts@)[i as int] == p@);
                    assert(r[i as int] == (if is_feed_word(p@) {
                        fw@
                    } else {
                        p@
                    }));
                    if p.len() > 0 && (p[0] == 'F' || p[0] == 'f') {
                        new_parts.push(copy_chars(fw));
                    } else {
                        new_parts.push(copy_chars(p));
                    }
                    assert(views(new_parts@) =~= before.push(r[i as int]));
                    assert(r.take(i + 1) =~= r.take(i as int).push(r[i as int]));
                    assert(views(new_parts@) =~= replace_feed_words(views(parts@), fw@).take(
                        i + 1,
                    ));
                    i = i + 1;
                }
                assert(views(new_parts@) =~= replace_feed_words(views(parts@), fw@));
                let sep: Vec<char> = vec![' '];
                assert(sep@ =~= seq![' ']);
                (join_chars(&new_parts, &sep), true)
            } else {
                let g1: Vec<char> = vec!['G', '1'];
                let g2: Vec<char> = vec!['G', '2'];
                let g3: Vec<char> = vec!['G', '3'];
                assert(g1@ =~= seq!['G', '1']);
                assert(g2@ =~= seq!['G', '2']);
                assert(g3@ =~= seq!['G', '3']);
                let moves = find_sub(l, &g1).is_some() || find_sub(l, &g2).is_some() || find_sub(
                    l,
                    &g3,
                ).is_some();
                if moves && !sent {
                    let mut out = copy_chars(l);
                    out.push(' ');
                    crate::text::push_all(&mut out, fw);
                    assert(out@ =~= l@ + seq![' '] + fw@);
                    (out, true)
                } else {
                    (copy_chars(l), sent)
                }
            }
        },
    }
}

// ---------------------------------------------------------------------------
// The commands of a job
// ---------------------------------------------------------------------------

/// The commands streamed for the file lines `ls`, given the feed override and
/// whether a feed word was sent before: each line that carries a command,
/// trimmed and rewritten by the override, in file order.
pub open spec fn commands_from(ls: Seq<Seq<char>>, feed: Option<Seq<char>>, sent: bool) -> Seq<
    Seq<char>,
>
    decreases ls.len(),
{
    if ls.len() == 0 {
        seq![]
    } else {
        let t = trim(ls[0]);
        if is_active(t) {
            let (c, s2) = override_line(t, feed, sent);
            seq![c] + commands_from(ls.drop_first(), feed, s2)
        } else {
            commands_from(ls.drop_first(), feed, sent)
        }
    }
}

/// The 1-based file line from which streaming starts: 0 means the first line.
pub open spec fn effective_start(start_line: nat) -> nat {
    if start_line == 0 {
        1
    } else {
        start_line
    }
}

/// `ls` without its first `k` elements (empty when it has fewer).
pub open spec fn skip_clamped(ls: Seq<Seq<char>>, k: int) -> Seq<Seq<char>> {
    if k <= ls.len() {
        ls.skip(k)
    } else {
        seq![]
    }
}

/// The commands of a job that streams `content` from the 1-based file line
/// `start_line` with feed override `feed`.
pub open spec fn stream_commands(content: Seq<char>, start_line: nat, feed: Option<Seq<char>>) -> Seq<
    Seq<char>,
> {
    commands_from(skip_clamped(lines(content), effective_start(start_line) - 1), feed, false)
}

/// One step of a streaming session.
pub enum StreamStep {
    /// The file line is before the start line, blank, or a comment.
    Skip,
    /// The file line gives this command.
    Send(String),
    /// Every file line has been handled.
    Finished,
}

/// A streaming job, stepped one file line at a time by the streaming worker.
pub struct StreamSession {
    lines: Vec<Vec<char>>,
    next: usize,
    first: usize,
    feed_word: Option<Vec<char>>,
    sent_feed: bool,
    sent_count: usize,
    total_active: usize,
    plan: Ghost<Seq<Seq<char>>>,
    emitted: Ghost<Seq<Seq<char>>>,
}

impl StreamSession {
    /// The index from which lines are still to be streamed.
    pub closed spec fn resume_index(self) -> int {
        if self.next >= self.first {
            self.next as int
        } else {
            self.first as int
        }
    }

    /// The commands this session has still to send.
    pub closed spec fn remaining(self) -> Seq<Seq<char>> {
        commands_from(
            skip_clamped(views(self.lines@), self.resume_index()),
            feed_view(self.feed_word),
            self.sent_feed,
        )
    }

    /// Every command this session sends, from the first to the last.
    pub closed spec fn plan(self) -> Seq<Seq<char>> {
        self.plan@
    }

    /// The commands this session has sent so far.
    pub closed spec fn sent(self) -> Seq<Seq<char>> {
        self.emitted@
    }

    /// The number of lines of the file that carry a command.
    pub closed spec fn total(self) -> nat {
        self.total_active as nat
    }

    /// The 0-based index of the next file line.
    pub closed spec fn position(self) -> nat {
        self.next as nat
    }

    /// The number of lines in the file.
    pub closed spec fn line_count(self) -> nat {
        self.lines.len() as nat
    }

    /// Whether the next file line gives a command to send: it lies at or
    /// after the line the session starts from and carries a command.
    pub closed spec fn next_line_sends(self) -> bool {
        &&& self.next < self.lines.len()
        &&& self.next >= self.first
        &&& is_active_line(self.lines@[self.next as int]@)
    }

    /// The session's internal consistency.
    pub closed spec fn wf(self) -> bool {
        &&& self.next <= self.lines.len()
        &&& self.total_active == count_active(views(self.lines@))
        &&& self.emitted@ + self.remaining() == self.plan@
        &&& self.sent_count == self.emitted@.len()
        &&& self.plan@.len() <= self.total_active
    }

    /// Starts a session that streams `content` from the 1-based file line
    /// `start_line` (0 means the first line), rewriting feed words with
    /// `feed_word` when one is given.
    pub fn new(content: &str, start_line: usize, feed_word: Option<&str>) -> (s: Self)
        ensures
            s.wf(),
            s.plan() == stream_commands(
                content@,
                start_line as nat,
                match feed_word {
                    Some(w) => Some(w@),
                    None => None,
                },
            ),
            s.sent() == Seq::<Seq<char>>::empty(),
            s.total() == count_active(lines(content@)),
            s.position() == 0,
            s.line_count() == lines(content@).len(),
    {
        let cs = chars_of(content);
        let ls = split_lines(&cs);
        let total = count_active_in(&ls);
        let first = if start_line == 0 {
            0
        } else {
            start_line - 1
        };
        let fw = match feed_word {
            Some(w) => Some(chars_of(w)),
            None => None,
        };
        let ghost feed = match feed_word {
            Some(w) => Some(w@),
            None => None,
        };
        assert(feed_view(fw) == feed);
        let s = StreamSession {
            lines: ls,
            next: 0,
            first,
            feed_word: fw,
            sent_feed: false,
            sent_count: 0,
            total_active: total,
            plan: Ghost(stream_commands(content@, start_line as nat, feed)),
            emitted: Ghost(Seq::empty()),
        };
        proof {
            assert(s.resume_index() == first);
            assert(effective_start(start_line as nat) - 1 == first);
            assert(s.emitted@ + s.remaining() =~= s.plan@);
            let k = first as int;
            let lv = views(s.lines@);
            if k <= lv.len() {
                lemma_count_active_skip(lv, k);
            }
            law_one_command_per_active_line(skip_clamped(lv, k), feed, false);
        }
        s
    }

    /// Handles the next file line: tells whether it is skipped or which
    /// command it gives, or that the file is done.
    pub fn step(&mut self) -> (r: StreamStep)
        requires
            old(self).wf(),
        ensures
            final(self).wf(),
            final(self).plan() == old(self).plan(),
            final(self).total() == old(self).total(),
            final(self).line_count() == old(self).line_count(),
            old(self).position() < old(self).line_count() ==> final(self).position() == old(
                self,
            ).position() + 1,
            old(self).position() == old(self).line_count() ==> r is Finished && *final(self)
                == *old(self),
            r is Finished <==> old(self).position() == old(self).line_count(),
            r is Send <==> old(self).next_line_sends(),
            r is Finished ==> final(self).sent() == final(self).plan(),
            final(self).sent().len() <= final(self).plan().len(),
            final(self).sent() == final(self).plan().take(final(self).sent().len() as int),
            r is Skip ==> final(self).sent() == old(self).sent(),
            r matches StreamStep::Send(c) ==> final(self).sent() == old(self).sent().push(c@),
    {
        if self.next >= self.lines.len() {
            proof {
                assert(self.resume_index() >= views(self.lines@).len());
                if self.resume_index() == views(self.lines@).len() {
                    assert(views(self.lines@).skip(self.resume_index()) =~= Seq::<
                        Seq<char>,
                    >::empty());
                }
            }
            proof {
                assert(self.emitted@ =~= self.plan@);
            }
            return StreamStep::Finished;
        }
        let ghost lv = views(self.lines@);
        let ghost old_remaining = self.remaining();
        let ghost emitted = self.emitted@;
        let idx = self.next;
        if idx < self.first {
            self.next = idx + 1;
            assert(self.resume_index() == old(self).resume_index());
            assert(self.emitted@ =~= self.plan@.take(self.emitted@.len() as int));
            return StreamStep::Skip;
        }
        assert(lv.skip(idx as int).drop_first() =~= lv.skip(idx + 1));
        assert(lv.skip(idx as int)[0] == self.lines@[idx as int]@);
        let t = trim_chars(&self.lines[idx]);
        self.next = idx + 1;
        if !is_active_text(&t) {
            assert(self.remaining() == old_remaining);
            assert(self.emitted@ =~= self.plan@.take(self.emitted@.len() as int));
            return StreamStep::Skip;
        }
        let (cmd, sent2) = apply_feed_override(&t, &self.feed_word, self.sent_feed);
        self.sent_feed = sent2;
        proof {
            assert(old_remaining == seq![cmd@] + self.remaining());
            self.emitted = Ghost(emitted.push(cmd@));
            assert(self.emitted@ + self.remaining() =~= emitted + old_remaining);
            assert(self.emitted@.len() <= self.plan@.len()) by {
                assert(emitted.len() + old_remaining.len() == self.plan@.len());
            }
        }
        self.sent_count = self.sent_count + 1;
        proof {
            assert(self.emitted@ =~= self.plan@.take(self.emitted@.len() as int));
        }
        StreamStep::Send(string_from_chars(&cmd))
    }

    /// What has been sent is the start of the plan, which is no longer than
    /// the job's total; the session never runs past the file's last line.
    pub proof fn lemma_sent_is_prefix(&self)
        requires
            self.wf(),
        ensures
            self.sent().len() <= self.plan().len(),
            self.sent() == self.plan().take(self.sent().len() as int),
            self.plan().len() <= self.total(),
            self.position() <= self.line_count(),
    {
        assert((self.emitted@ + self.remaining()).len() == self.plan@.len());
        assert(self.emitted@ =~= self.plan@.take(self.emitted@.len() as int));
    }

    /// The number of commands sent so far; never more than the job's total.
    pub fn sent_count(&self) -> (n: usize)
        requires
            self.wf(),
        ensures
            n == self.sent().len(),
            n <= self.total(),
    {
        proof {
            assert(self.emitted@.len() <= self.plan@.len()) by {
                assert((self.emitted@ + self.remaining()).len() == self.plan@.len());
            }
        }
        self.sent_count
    }

    /// The number of lines of the file that carry a command.
    pub fn total_active(&self) -> (n: usize)
        requires
            self.wf(),
        ensures
            n == self.total(),
    {
        self.total_active
    }

    /// The 0-based index of the file line that the next step handles.
    pub fn next_line_index(&self) -> (n: usize)
        ensures
            n == self.position(),
    {
        self.next
    }
}


/// Streaming yields exactly one command for each line that carries one,
/// whatever the feed override does.
pub proof fn law_one_command_per_active_line(ls: Seq<Seq<char>>, feed: Option<Seq<char>>, sent: bool)
    ensures
        commands_from(ls, feed, sent).len() == count_active(ls),
    decreases ls.len(),
{
    if ls.len() > 0 {
        let t = trim(ls[0]);
        if is_active(t) {
            let (c, s2) = override_line(t, feed, sent);
            law_one_command_per_active_line(ls.drop_first(), feed, s2);
        } else {
            law_one_command_per_active_line(ls.drop_first(), feed, sent);
        }
    }
}

/// A start line of 0 means the first line: streaming from line 0 and from
/// line 1 sends the same commands.
pub proof fn law_start_line_zero_is_first_line(content: Seq<char>, feed: Option<Seq<char>>)
    ensures
        stream_commands(content, 0, feed) == stream_commands(content, 1, feed),
{
}

/// A job never sends more commands than its file has lines that carry one,
/// wherever it starts and whatever the feed override does.
pub proof fn law_commands_within_total(content: Seq<char>, start_line: nat, feed: Option<Seq<char>>)
    ensures
        stream_commands(content, start_line, feed).len() <= count_active(lines(content)),
{
    let ls = lines(content);
    let k = effective_start(start_line) - 1;
    law_one_command_per_active_line(skip_clamped(ls, k), feed, false);
    if k <= ls.len() {
        lemma_count_active_skip(ls, k);
    }
}

/// Without a feed override, the commands are the lines that carry one,
/// trimmed and otherwise unchanged, in file order.
pub proof fn law_no_override_sends_trimmed_lines(ls: Seq<Seq<char>>, sent: bool)
    ensures
        commands_from(ls, None, sent) == active_trimmed(ls),
    decreases ls.len(),
{
    if ls.len() > 0 {
        law_no_override_sends_trimmed_lines(ls.drop_first(), sent);
    }
}

/// In a file whose every line carries a command, the job that starts at
/// line `start_line` (at least 1) sends exactly the file's lines from that
/// line on, trimmed: the count of commands sent and the file line coincide.
pub proof fn law_dense_file_resumes_exactly(content: Seq<char>, start_line: nat)
    requires
        1 <= start_line <= lines(content).len() + 1,
        forall|i: int| 0 <= i < lines(content).len() ==> is_active_line(#[trigger] lines(content)[i]),
    ensures
        stream_commands(content, start_line, None) == lines(content).skip(start_line - 1).map_values(
            |l: Seq<char>| trim(l),
        ),
{
    let ls = lines(content);
    let rest = ls.skip(start_line - 1);
    assert forall|i: int| 0 <= i < rest.len() implies is_active_line(#[trigger] rest[i]) by {
        assert(rest[i] == ls[i + start_line - 1]);
    }
    law_no_override_sends_trimmed_lines(rest, false);
    lemma_dense_trimmed(rest);
}

proof fn lemma_dense_trimmed(ls: Seq<Seq<char>>)
    requires
        forall|i: int| 0 <= i < ls.len() ==> is_active_line(#[trigger] ls[i]),
    ensures
        active_trimmed(ls) == ls.map_values(|l: Seq<char>| trim(l)),
    decreases ls.len(),
{
    if ls.len() > 0 {
        let r = ls.drop_first();
        assert forall|i: int| 0 <= i < r.len() implies is_active_line(#[trigger] r[i]) by {
            assert(r[i] == ls[i + 1]);
        }
        lemma_dense_trimmed(r);
        assert(is_active_line(ls[0]));
        assert(ls.map_values(|l: Seq<char>| trim(l)) =~= seq![trim(ls[0])] + r.map_values(
            |l: Seq<char>| trim(l),
        ));
    } else {
        assert(ls.map_values(|l: Seq<char>| trim(l)) =~= Seq::<Seq<char>>::empty());
    }
}

} // verus!
