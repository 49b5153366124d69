//! The tail of the server's output that is kept for the fatal dialog.
use crate::text::{byte_len, chars_of, is_space, lemma_trim_takes_outer_space, trim, trim_text};
use vstd::prelude::*;
use vstd::string::*;
use vstd::utf8::*;

verus! {

/// How many bytes of the log survive when it is cut back.
pub const LOG_KEEP: usize = 4096;

/// How many bytes the log may reach before it is cut back.
pub const LOG_LIMIT: usize = 8192;

/// How many bytes the UTF-8 form of `c` takes.
pub open spec fn char_width(c: char) -> int {
    encode_scalar(c as u32).len() as int
}

/// What follows the first line feed of `s` that stands behind its first
/// `skip` bytes.
pub open spec fn after_line_end(s: Seq<char>, skip: int) -> Seq<char>
    decreases s.len(),
{
    if s.len() == 0 {
        s
    } else if skip <= 0 && s[0] == '\n' {
        s.drop_first()
    } else if skip > char_width(s[0]) {
        after_line_end(s.drop_first(), skip - char_width(s[0]))
    } else {
        after_line_end(s.drop_first(), 0)
    }
}

/// `s` from the first character on that begins behind its first `skip` bytes.
pub open spec fn from_byte(s: Seq<char>, skip: int) -> Seq<char>
    decreases s.len(),
{
    if s.len() == 0 || skip <= 0 {
        s
    } else {
        from_byte(s.drop_first(), skip - char_width(s[0]))
    }
}

/// The log with one more line, before any cut.
pub open spec fn with_line(log: Seq<char>, line: Seq<char>) -> Seq<char> {
    log + line + seq!['\n']
}

/// A log of more than `LOG_KEEP` bytes, cut back to the whole lines among its
/// last `LOG_KEEP` bytes, or to those bytes themselves where they hold no whole
/// line; a character that the cut would split is left out.
pub open spec fn cut_back(full: Seq<char>) -> Seq<char> {
    let skip = byte_len(full) - LOG_KEEP;
    let lines = after_line_end(full, skip);
    if lines.len() > 0 {
        lines
    } else {
        from_byte(full, skip)
    }
}

/// The log after `line` came in: cut back once it exceeds `LOG_LIMIT` bytes.
pub open spec fn log_after(log: Seq<char>, line: Seq<char>) -> Seq<char> {
    let full = with_line(log, line);
    if byte_len(full) > LOG_LIMIT {
        cut_back(full)
    } else {
        full
    }
}

/// A log of whole lines.
pub open spec fn whole_lines(log: Seq<char>) -> bool {
    log.len() > 0 ==> log.last() == '\n'
}

/// `line` and its line end fit what a cut leaves, behind the end of another.
pub open spec fn fits(line: Seq<char>) -> bool {
    byte_len(line) + 2 <= LOG_KEEP
}

/// The log tail as the fatal dialog shows it: nothing when the server was
/// silent.
pub open spec fn log_report(tail: Seq<char>) -> Seq<char> {
    if trim(tail).len() == 0 {
        Seq::empty()
    } else {
        ".\n\nServer output:\n"@ + trim(tail)
    }
}

proof fn lemma_width(c: char)
    ensures
        char_width(c) == (if (c as u32) <= 0x7f {
            1int
        } else if (c as u32) <= 0x7ff {
            2
        } else if (c as u32) <= 0xffff {
            3
        } else {
            4
        }),
{
    char_is_scalar(c);
}

proof fn lemma_byte_len_step(s: Seq<char>)
    requires
        s.len() > 0,
    ensures
        byte_len(s) == char_width(s[0]) + byte_len(s.drop_first()),
        char_width(s[0]) >= 1,
{
    lemma_width(s[0]);
}

proof fn lemma_byte_len_concat(a: Seq<char>, b: Seq<char>)
    ensures
        byte_len(a + b) == byte_len(a) + byte_len(b),
    decreases a.len(),
{
    if a.len() == 0 {
        assert(a + b =~= b);
    } else {
        lemma_byte_len_step(a);
        lemma_byte_len_step(a + b);
        assert((a + b).drop_first() =~= a.drop_first() + b);
        lemma_byte_len_concat(a.drop_first(), b);
    }
}

proof fn lemma_after_line_end_len(s: Seq<char>, skip: int)
    ensures
        byte_len(after_line_end(s, skip)) <= (if byte_len(s) > skip && skip >= 0 {
            byte_len(s) - skip
        } else if skip < 0 {
            byte_len(s) as int
        } else {
            0
        }),
    decreases s.len(),
{
    if s.len() > 0 {
        lemma_byte_len_step(s);
        if skip <= 0 && s[0] == '\n' {
        } else if skip > char_width(s[0]) {
            lemma_after_line_end_len(s.drop_first(), skip - char_width(s[0]));
        } else {
            lemma_after_line_end_len(s.drop_first(), 0);
        }
    }
}

proof fn lemma_after_line_end_concat(a: Seq<char>, b: Seq<char>, skip: int)
    requires
        a.len() > 0,
        a.last() == '\n',
        byte_len(a) > skip,
    ensures
        after_line_end(a + b, skip) == after_line_end(a, skip) + b,
    decreases a.len(),
{
    lemma_byte_len_step(a);
    let t = a.drop_first();
    assert((a + b).drop_first() =~= t + b);
    if skip <= 0 && a[0] == '\n' {
    } else {
        if a.len() == 1 {
            assert(t =~= Seq::<char>::empty());
            lemma_width('\n');
        } else {
            lemma_byte_len_step(t);
            if skip > char_width(a[0]) {
                lemma_after_line_end_concat(t, b, skip - char_width(a[0]));
            } else {
                lemma_after_line_end_concat(t, b, 0);
            }
        }
    }
}

proof fn lemma_after_line_end_cut(s: Seq<char>, skip: int)
    requires
        s.len() > 0,
        s.last() == '\n',
        byte_len(s) > skip,
    ensures
        exists|k: int|
            0 <= k < s.len() && #[trigger] s[k] == '\n' && byte_len(s.take(k)) >= skip
                && after_line_end(s, skip) == s.skip(k + 1),
    decreases s.len(),
{
    lemma_byte_len_step(s);
    let t = s.drop_first();
    if skip <= 0 && s[0] == '\n' {
        assert(s.drop_first() =~= s.skip(1));
        assert(s.take(0) =~= Seq::<char>::empty());
        assert(s[0] == '\n');
    } else {
        if s.len() == 1 {
            assert(t =~= Seq::<char>::empty());
            lemma_width('\n');
        } else {
            lemma_byte_len_step(t);
            let w = char_width(s[0]);
            let rest = if skip > w {
                skip - w
            } else {
                0
            };
            lemma_after_line_end_cut(t, rest);
            let k = choose|k: int|
                0 <= k < t.len() && #[trigger] t[k] == '\n' && byte_len(t.take(k)) >= rest
                    && after_line_end(t, rest) == t.skip(k + 1);
            assert(s[k + 1] == '\n');
            assert(t.skip(k + 1) =~= s.skip(k + 2));
            lemma_byte_len_step(s.take(k + 1));
            assert(s.take(k + 1).drop_first() =~= t.take(k));
        }
    }
}

proof fn lemma_from_byte(s: Seq<char>, skip: int)
    ensures
        exists|k: int| 0 <= k <= s.len() && from_byte(s, skip) == #[trigger] s.skip(k),
        0 <= skip <= byte_len(s) ==> byte_len(s) - skip - 3 <= byte_len(from_byte(s, skip))
            <= byte_len(s) - skip,
    decreases s.len(),
{
    if s.len() == 0 || skip <= 0 {
        assert(s.skip(0) =~= s);
        assert(s.len() == 0 ==> s =~= Seq::<char>::empty());
    } else {
        let t = s.drop_first();
        lemma_byte_len_step(s);
        lemma_width(s[0]);
        lemma_from_byte(t, skip - char_width(s[0]));
        let k = choose|k: int|
            0 <= k <= t.len() && from_byte(t, skip - char_width(s[0])) == #[trigger] t.skip(k);
        assert(s.skip(k + 1) =~= t.skip(k));
    }
}

proof fn lemma_from_byte_keeps_line_end(s: Seq<char>, skip: int)
    requires
        s.len() > 0,
        s.last() == '\n',
        byte_len(s) > skip,
    ensures
        from_byte(s, skip).len() > 0,
    decreases s.len(),
{
    if skip > 0 {
        let t = s.drop_first();
        lemma_byte_len_step(s);
        if s.len() == 1 {
            assert(t =~= Seq::<char>::empty());
            lemma_width('\n');
        } else {
            lemma_from_byte_keeps_line_end(t, skip - char_width(s[0]));
        }
    }
}

/// The log never exceeds its limit, a cut leaves at most `LOG_KEEP` bytes, and
/// whatever comes in, something of it stays.
pub proof fn lemma_log_is_bounded(log: Seq<char>, line: Seq<char>)
    ensures
        byte_len(log_after(log, line)) <= LOG_LIMIT,
        byte_len(with_line(log, line)) > LOG_LIMIT ==> byte_len(log_after(log, line)) <= LOG_KEEP,
        log_after(log, line).len() > 0,
{
    let full = with_line(log, line);
    lemma_after_line_end_len(full, byte_len(full) - LOG_KEEP);
    lemma_from_byte(full, byte_len(full) - LOG_KEEP);
    if byte_len(full) > LOG_LIMIT {
        lemma_from_byte_keeps_line_end(full, byte_len(full) - LOG_KEEP);
    }
}

/// The log after a line is a tail of all there was, and ends with a line end.
pub proof fn lemma_log_is_tail(log: Seq<char>, line: Seq<char>)
    ensures
        exists|k: int|
            0 <= k <= with_line(log, line).len() && log_after(log, line) == #[trigger] with_line(
                log,
                line,
            ).skip(k),
        log_after(log, line).last() == '\n',
{
    let full = with_line(log, line);
    let skip = byte_len(full) - LOG_KEEP;
    lemma_log_is_bounded(log, line);
    if byte_len(full) <= LOG_LIMIT {
        assert(full.skip(0) =~= full);
    } else if after_line_end(full, skip).len() > 0 {
        lemma_after_line_end_cut(full, skip);
    } else {
        lemma_from_byte(full, skip);
    }
}

proof fn lemma_fitting_line_is_left(log: Seq<char>, line: Seq<char>)
    requires
        whole_lines(log),
        fits(line),
        byte_len(with_line(log, line)) > LOG_LIMIT,
    ensures
        ({
            let skip = byte_len(with_line(log, line)) - LOG_KEEP;
            log_after(log, line) == with_line(after_line_end(log, skip), line)
        }),
        log_after(log, line) == after_line_end(
            with_line(log, line),
            byte_len(with_line(log, line)) - LOG_KEEP,
        ),
{
    let full = with_line(log, line);
    let last = line + seq!['\n'];
    let skip = byte_len(full) - LOG_KEEP;
    lemma_byte_len_of_last(log, line);
    lemma_after_line_end_concat(log, last, skip);
    assert(full =~= log + last);
    assert(after_line_end(log, skip) + last =~= with_line(after_line_end(log, skip), line));
}

proof fn lemma_byte_len_of_last(log: Seq<char>, line: Seq<char>)
    ensures
        with_line(log, line) == log + (line + seq!['\n']),
        byte_len(line + seq!['\n']) == byte_len(line) + 1,
        byte_len(with_line(log, line)) == byte_len(log) + byte_len(line) + 1,
{
    let last = line + seq!['\n'];
    assert(with_line(log, line) =~= log + last);
    lemma_byte_len_concat(log, last);
    lemma_byte_len_concat(line, seq!['\n']);
    lemma_byte_len_step(seq!['\n']);
    assert(seq!['\n'].drop_first() =~= Seq::<char>::empty());
    lemma_width('\n');
}

/// As long as the line fits, a log of whole lines is cut at the end of a line
/// if it is cut at all.
pub proof fn lemma_log_is_cut_at_line_end(log: Seq<char>, line: Seq<char>)
    requires
        whole_lines(log),
        fits(line) || byte_len(with_line(log, line)) <= LOG_LIMIT,
    ensures
        log_after(log, line) == with_line(log, line) || exists|k: int|
            0 <= k < with_line(log, line).len() && #[trigger] with_line(log, line)[k] == '\n'
                && log_after(log, line) == with_line(log, line).skip(k + 1),
{
    let full = with_line(log, line);
    if byte_len(full) > LOG_LIMIT {
        lemma_fitting_line_is_left(log, line);
        lemma_after_line_end_cut(full, byte_len(full) - LOG_KEEP);
    }
}

/// A log of whole lines ends with the line that came in last, unless a cut is
/// called for and that line alone takes up all that a cut leaves.
pub proof fn lemma_log_keeps_last_line(log: Seq<char>, line: Seq<char>)
    requires
        whole_lines(log),
        fits(line) || byte_len(with_line(log, line)) <= LOG_LIMIT,
    ensures
        exists|kept: Seq<char>| log_after(log, line) == #[trigger] with_line(kept, line),
{
    let full = with_line(log, line);
    if byte_len(full) > LOG_LIMIT {
        lemma_fitting_line_is_left(log, line);
    } else {
        assert(log_after(log, line) == with_line(log, line));
    }
}

proof fn lemma_no_line_end_within(line: Seq<char>, skip: int)
    requires
        !line.contains('\n'),
    ensures
        after_line_end(line + seq!['\n'], skip).len() == 0,
    decreases line.len(),
{
    let last = line + seq!['\n'];
    if line.len() == 0 {
        assert(last =~= seq!['\n']);
        assert(last.drop_first() =~= Seq::<char>::empty());
        reveal_with_fuel(after_line_end, 2);
    } else {
        let t = line.drop_first();
        assert(last.drop_first() =~= t + seq!['\n']);
        assert(last[0] == line[0] && line.contains(line[0]));
        assert(!t.contains('\n')) by {
            if t.contains('\n') {
                let i = choose|i: int| 0 <= i < t.len() && t[i] == '\n';
                assert(line[i + 1] == '\n');
            }
        }
        lemma_no_line_end_within(
            t,
            if skip > char_width(last[0]) {
                skip - char_width(last[0])
            } else {
                0
            },
        );
    }
}

proof fn lemma_cut_within_last(a: Seq<char>, b: Seq<char>, skip: int)
    requires
        byte_len(a) <= skip,
    ensures
        after_line_end(a + b, skip) == after_line_end(b, skip - byte_len(a)),
        from_byte(a + b, skip) == from_byte(b, skip - byte_len(a)),
    decreases a.len(),
{
    if a.len() == 0 {
        assert(a + b =~= b);
    } else {
        lemma_byte_len_step(a);
        assert((a + b).drop_first() =~= a.drop_first() + b);
        lemma_cut_within_last(a.drop_first(), b, skip - char_width(a[0]));
    }
}

/// A line too long for what a cut leaves is not lost: the log then holds the
/// end of that line, all of its last `LOG_KEEP` bytes but for a character that
/// the cut would split.
pub proof fn lemma_overlong_line_leaves_its_end(log: Seq<char>, line: Seq<char>)
    requires
        !line.contains('\n'),
        !fits(line),
        byte_len(with_line(log, line)) > LOG_LIMIT,
    ensures
        exists|k: int|
            0 <= k <= line.len() && log_after(log, line) == #[trigger] (line
                + seq!['\n']).skip(k),
        LOG_KEEP - 3 <= byte_len(log_after(log, line)) <= LOG_KEEP,
{
    let full = with_line(log, line);
    let last = line + seq!['\n'];
    let skip = byte_len(full) - LOG_KEEP;
    lemma_byte_len_of_last(log, line);
    lemma_cut_within_last(log, last, skip);
    lemma_no_line_end_within(line, skip - byte_len(log));
    lemma_from_byte(full, skip);
    lemma_from_byte(last, skip - byte_len(log));
    lemma_log_is_bounded(log, line);
}

/// The log after a series of lines.
pub open spec fn log_of(lines: Seq<Seq<char>>) -> Seq<char>
    decreases lines.len(),
{
    if lines.len() == 0 {
        Seq::empty()
    } else {
        log_after(log_of(lines.drop_last()), lines.last())
    }
}

/// All that came in with a series of lines.
pub open spec fn output_of(lines: Seq<Seq<char>>) -> Seq<char>
    decreases lines.len(),
{
    if lines.len() == 0 {
        Seq::empty()
    } else {
        with_line(output_of(lines.drop_last()), lines.last())
    }
}

/// However much comes in, the log is the end of it, never exceeds its limit,
/// and is empty only before the first line.
pub proof fn lemma_log_is_tail_of_output(lines: Seq<Seq<char>>)
    ensures
        byte_len(log_of(lines)) <= LOG_LIMIT,
        lines.len() > 0 ==> log_of(lines).len() > 0,
        whole_lines(log_of(lines)),
        exists|k: int|
            0 <= k <= output_of(lines).len() && log_of(lines) == #[trigger] output_of(lines).skip(k),
    decreases lines.len(),
{
    let output = output_of(lines);
    if lines.len() == 0 {
        assert(output.skip(0) =~= log_of(lines));
    } else {
        let past = lines.drop_last();
        let last = lines.last();
        lemma_log_is_tail_of_output(past);
        let k = choose|k: int|
            0 <= k <= output_of(past).len() && log_of(past) == #[trigger] output_of(past).skip(k);
        let full = with_line(log_of(past), last);
        assert(full =~= output.skip(k));
        lemma_log_is_bounded(log_of(past), last);
        lemma_log_is_tail(log_of(past), last);
        let j = choose|j: int| 0 <= j <= full.len() && log_of(lines) == #[trigger] full.skip(j);
        assert(full.skip(j) =~= output.skip(k + j));
    }
}

/// `output` has a line that begins at index `k`, or ends there.
pub open spec fn is_line_start(output: Seq<char>, k: int) -> bool {
    0 <= k <= output.len() && (k > 0 ==> output[k - 1] == '\n')
}

/// As long as every line fits, the log holds the last lines of the output and
/// no part of any other.
pub proof fn lemma_log_holds_last_lines(lines: Seq<Seq<char>>)
    requires
        forall|i: int| 0 <= i < lines.len() ==> fits(#[trigger] lines[i]),
    ensures
        exists|k: int| #[trigger]
            is_line_start(output_of(lines), k) && log_of(lines) == output_of(lines).skip(k),
    decreases lines.len(),
{
    if lines.len() == 0 {
        assert(is_line_start(output_of(lines), 0));
        assert(output_of(lines).skip(0) =~= log_of(lines));
    } else {
        let past = lines.drop_last();
        let last = lines.last();
        let output = output_of(lines);
        lemma_log_holds_last_lines(past);
        lemma_log_is_tail_of_output(past);
        let k = choose|k: int| #[trigger]
            is_line_start(output_of(past), k) && log_of(past) == output_of(past).skip(k);
        let full = with_line(log_of(past), last);
        assert(full =~= output.skip(k));
        assert(is_line_start(output, k));
        lemma_log_is_cut_at_line_end(log_of(past), last);
        if log_of(lines) != full {
            let j = choose|j: int|
                0 <= j < full.len() && #[trigger] full[j] == '\n' && log_of(lines) == full.skip(
                    j + 1,
                );
            assert(output[k + j] == full[j]);
            assert(is_line_start(output, k + j + 1));
            assert(full.skip(j + 1) =~= output.skip(k + j + 1));
        }
    }
}

/// How many bytes the UTF-8 form of `c` takes.
fn utf8_width(c: char) -> (r: usize)
    ensures
        r == char_width(c),
{
    proof {
        lemma_width(c);
    }
    let n = c as u32;
    if n <= 0x7f {
        1
    } else if n <= 0x7ff {
        2
    } else if n <= 0xffff {
        3
    } else {
        4
    }
}

/// The index of the first character of `cs` that begins behind its first
/// `bytes` bytes.
fn index_at_byte(cs: &Vec<char>, bytes: usize) -> (r: usize)
    ensures
        r <= cs.len(),
        from_byte(cs@, bytes as int) == cs@.skip(r as int),
        after_line_end(cs@, bytes as int) == after_line_end(cs@.skip(r as int), 0),
{
    let n = cs.len();
    let mut skip = bytes;
    let mut i: usize = 0;
    assert(cs@.skip(0) =~= cs@);
    while i < n && skip > 0
        invariant
            n == cs.len(),
            i <= n,
            from_byte(cs@, bytes as int) == from_byte(cs@.skip(i as int), skip as int),
            after_line_end(cs@, bytes as int) == after_line_end(cs@.skip(i as int), skip as int),
        decreases n - i,
    {
        let w = utf8_width(cs[i]);
        let ghost rest = cs@.skip(i + 1);
        assert(cs@.skip(i as int).drop_first() =~= rest);
        assert(skip <= w ==> from_byte(rest, skip - w) == rest && from_byte(rest, 0) == rest);
        skip = if skip > w {
            skip - w
        } else {
            0
        };
        i += 1;
    }
    assert(i == n ==> cs@.skip(i as int) =~= Seq::<char>::empty());
    i
}

/// The index that follows the first line feed of `cs` from `start` on; the
/// length of `cs` if there is none.
fn index_after_line_end(cs: &Vec<char>, start: usize) -> (r: usize)
    requires
        start <= cs.len(),
    ensures
        r <= cs.len(),
        after_line_end(cs@.skip(start as int), 0) == cs@.skip(r as int),
{
    let n = cs.len();
    let mut i = start;
    while i < n && cs[i] != '\n'
        invariant
            n == cs.len(),
            start <= i <= n,
            after_line_end(cs@.skip(start as int), 0) == after_line_end(cs@.skip(i as int), 0),
        decreases n - i,
    {
        proof {
            lemma_width(cs@[i as int]);
        }
        assert(cs@.skip(i as int).drop_first() =~= cs@.skip(i + 1));
        i += 1;
    }
    if i < n {
        assert(cs@.skip(i as int).drop_first() =~= cs@.skip(i + 1));
        i + 1
    } else {
        i
    }
}

/// Append a line to the tail buffer, keeping roughly the last 4 KB.
pub fn push_log(log: &mut String, line: &str)
    ensures
        final(log)@ == log_after(old(log)@, line@),
        final(log)@.len() > 0,
{
    proof {
        lemma_log_is_bounded(old(log)@, line@);
    }
    log.append(line);
    log.push('\n');
    let ghost full = log@;
    assert(full =~= with_line(old(log)@, line@));
    let len = log.as_str().as_bytes().len();
    if len > LOG_LIMIT {
        let cs = chars_of(log.as_str());
        let n = cs.len();
        let start = index_at_byte(&cs, len - LOG_KEEP);
        let lines = index_after_line_end(&cs, start);
        let from = if lines < n {
            lines
        } else {
            start
        };
        let rest = log.as_str().substring_char(from, n).to_string();
        assert(rest@ =~= full.skip(from as int));
        *log = rest;
    }
}

/// Render the captured tail for the fatal dialog (empty when silent).
pub fn format_log_tail(tail: &str) -> (r: String)
    ensures
        r@ == log_report(tail@),
{
    let tail = trim_text(tail);
    if tail.is_empty() {
        String::new()
    } else {
        let mut out = ".\n\nServer output:\n".to_string();
        out.append(tail);
        out
    }
}

proof fn lemma_after_line_end_at(s: Seq<char>, skip: int, k: int)
    requires
        0 <= k < s.len(),
        s[k] == '\n',
        byte_len(s.take(k)) >= skip,
        forall|j: int| 0 <= j < k && s[j] == '\n' ==> byte_len(#[trigger] s.take(j)) < skip,
    ensures
        after_line_end(s, skip) == s.skip(k + 1),
    decreases s.len(),
{
    lemma_byte_len_step(s);
    let t = s.drop_first();
    assert(s.take(0) =~= Seq::<char>::empty());
    if k == 0 {
        assert(t =~= s.skip(1));
    } else {
        let w = char_width(s[0]);
        let rest = if skip > w {
            skip - w
        } else {
            0
        };
        assert(s[0] == '\n' ==> byte_len(s.take(0)) < skip);
        lemma_byte_len_step(s.take(k));
        assert(s.take(k).drop_first() =~= t.take(k - 1));
        assert forall|j: int| 0 <= j < k - 1 && t[j] == '\n' implies byte_len(
            #[trigger] t.take(j),
        ) < rest by {
            assert(s[j + 1] == '\n');
            assert(byte_len(s.take(j + 1)) < skip);
            lemma_byte_len_step(s.take(j + 1));
            assert(s.take(j + 1).drop_first() =~= t.take(j));
        }
        lemma_after_line_end_at(t, rest, k - 1);
        assert(t.skip(k) =~= s.skip(k + 1));
    }
}

proof fn lemma_from_byte_at(s: Seq<char>, skip: int, k: int)
    requires
        0 <= k <= s.len(),
        byte_len(s.take(k)) >= skip,
        forall|j: int| 0 <= j < k ==> byte_len(#[trigger] s.take(j)) < skip,
    ensures
        from_byte(s, skip) == s.skip(k),
    decreases s.len(),
{
    assert(s.take(0) =~= Seq::<char>::empty());
    if k == 0 {
        assert(s.skip(0) =~= s);
    } else {
        let t = s.drop_first();
        lemma_byte_len_step(s);
        assert(byte_len(s.take(0)) < skip);
        lemma_byte_len_step(s.take(k));
        assert(s.take(k).drop_first() =~= t.take(k - 1));
        assert forall|j: int| 0 <= j < k - 1 implies byte_len(#[trigger] t.take(j)) < skip
            - char_width(s[0]) by {
            assert(byte_len(s.take(j + 1)) < skip);
            lemma_byte_len_step(s.take(j + 1));
            assert(s.take(j + 1).drop_first() =~= t.take(j));
        }
        lemma_from_byte_at(t, skip - char_width(s[0]), k - 1);
        assert(t.skip(k - 1) =~= s.skip(k));
    }
}

/// Nothing is lost below the limit: as long as the log with the new line takes
/// at most 8192 bytes, it is the old log, then the line, then a line feed.
pub proof fn lemma_short_log_loses_nothing(log: Seq<char>, line: Seq<char>)
    requires
        encode_utf8(log + line + seq!['\n']).len() <= 8192,
    ensures
        log_after(log, line) == log + line + seq!['\n'],
{
}

/// Beyond the limit the log goes on behind the first line end among its last
/// 4096 bytes that is not its very last character.
pub proof fn lemma_long_log_starts_behind_a_line_end(log: Seq<char>, line: Seq<char>, k: int)
    requires
        ({
            let full = log + line + seq!['\n'];
            let bytes = encode_utf8(full).len();
            &&& bytes > 8192
            &&& 0 <= k < full.len() - 1 && full[k] == '\n'
            &&& encode_utf8(full.take(k)).len() >= bytes - 4096
            &&& forall|j: int|
                0 <= j < k && full[j] == '\n' ==> encode_utf8(#[trigger] full.take(j)).len()
                    < bytes - 4096
        }),
    ensures
        log_after(log, line) == (log + line + seq!['\n']).skip(k + 1),
{
    let full = log + line + seq!['\n'];
    lemma_after_line_end_at(full, byte_len(full) - LOG_KEEP, k);
}

/// Beyond the limit, and without such a line end, the log goes on with the
/// first character that begins among its last 4096 bytes.
pub proof fn lemma_long_line_is_cut_to_size(log: Seq<char>, line: Seq<char>, k: int)
    requires
        ({
            let full = log + line + seq!['\n'];
            let bytes = encode_utf8(full).len();
            &&& bytes > 8192
            &&& forall|j: int|
                0 <= j < full.len() - 1 && full[j] == '\n' ==> encode_utf8(
                    #[trigger] full.take(j),
                ).len() < bytes - 4096
            &&& 0 <= k <= full.len()
            &&& encode_utf8(full.take(k)).len() >= bytes - 4096
            &&& forall|j: int|
                0 <= j < k ==> encode_utf8(#[trigger] full.take(j)).len() < bytes - 4096
        }),
    ensures
        log_after(log, line) == (log + line + seq!['\n']).skip(k),
{
    let full = log + line + seq!['\n'];
    let skip = byte_len(full) - LOG_KEEP;
    let last = full.len() - 1;
    assert(full.take(last) =~= log + line);
    lemma_byte_len_of_last(log, line);
    lemma_byte_len_concat(log, line);
    lemma_after_line_end_at(full, skip, last);
    assert(full.skip(last + 1).len() == 0);
    lemma_from_byte_at(full, skip, k);
}

/// What came in is every line in turn, each with its line end.
pub proof fn lemma_output_is_every_line(lines: Seq<Seq<char>>, line: Seq<char>)
    ensures
        output_of(Seq::empty()) == Seq::<char>::empty(),
        output_of(lines.push(line)) == output_of(lines) + line + seq!['\n'],
        log_of(Seq::empty()) == Seq::<char>::empty(),
        log_of(lines.push(line)) == log_after(log_of(lines), line),
{
    assert(lines.push(line).drop_last() =~= lines);
}

/// As long as all that came in takes at most 8192 bytes, the log is all of it.
pub proof fn lemma_short_output_is_kept_whole(lines: Seq<Seq<char>>)
    requires
        encode_utf8(output_of(lines)).len() <= 8192,
    ensures
        log_of(lines) == output_of(lines),
    decreases lines.len(),
{
    if lines.len() > 0 {
        let past = lines.drop_last();
        let last = lines.last();
        lemma_byte_len_of_last(output_of(past), last);
        lemma_short_output_is_kept_whole(past);
        assert(with_line(output_of(past), last) =~= output_of(past) + last + seq!['\n']);
        lemma_short_log_loses_nothing(output_of(past), last);
    }
}

/// A silent server is not mentioned in the report; of any other its output is
/// shown, without the white space around it, behind the words that introduce
/// it.
pub proof fn lemma_report_shows_the_output(before: Seq<char>, body: Seq<char>, behind: Seq<char>)
    requires
        forall|i: int| 0 <= i < before.len() ==> is_space(#[trigger] before[i]),
        forall|i: int| 0 <= i < behind.len() ==> is_space(#[trigger] behind[i]),
        body.len() > 0 ==> !is_space(body[0]) && !is_space(body.last()),
    ensures
        body.len() == 0 ==> log_report(before + body + behind) == Seq::<char>::empty(),
        body.len() > 0 ==> log_report(before + body + behind) == ".\n\nServer output:\n"@ + body,
{
    lemma_trim_takes_outer_space(before, body, behind);
}

} // verus!
