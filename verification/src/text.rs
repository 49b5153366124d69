//! Text helpers shared by the shell: white space, words, substring search,
//! and decimal numbers, each stated over sequences of characters.
use vstd::prelude::*;
use vstd::string::*;
use vstd::utf8::*;

verus! {

/// `String::push` of the standard library: appends one character.
pub assume_specification[ String::push ](s: &mut String, c: char)
    ensures
        final(s)@ == old(s)@.push(c),
;

/// The characters with the Unicode `White_Space` property.
pub open spec fn is_space(c: char) -> bool {
    let n = c as u32;
    ||| 0x09 <= n <= 0x0d
    ||| n == 0x20
    ||| n == 0x85
    ||| n == 0xa0
    ||| n == 0x1680
    ||| 0x2000 <= n <= 0x200a
    ||| n == 0x2028
    ||| n == 0x2029
    ||| n == 0x202f
    ||| n == 0x205f
    ||| n == 0x3000
}

/// `s` without its leading white space.
pub open spec fn trim_start(s: Seq<char>) -> Seq<char>
    decreases s.len(),
{
    if s.len() > 0 && is_space(s[0]) {
        trim_start(s.drop_first())
    } else {
        s
    }
}

/// `s` without its trailing white space.
pub open spec fn trim_end(s: Seq<char>) -> Seq<char>
    decreases s.len(),
{
    if s.len() > 0 && is_space(s.last()) {
        trim_end(s.drop_last())
    } else {
        s
    }
}

/// `s` without leading and trailing white space.
pub open spec fn trim(s: Seq<char>) -> Seq<char> {
    trim_end(trim_start(s))
}

/// `needle` occurs in `hay`.
pub open spec fn contains(hay: Seq<char>, needle: Seq<char>) -> bool {
    exists|i: int| #[trigger] occurs_at(hay, needle, i)
}

/// `needle` occurs in `hay` from index `i` on.
pub open spec fn occurs_at(hay: Seq<char>, needle: Seq<char>, i: int) -> bool {
    0 <= i && i + needle.len() <= hay.len() && hay.subrange(i, i + needle.len()) == needle
}

/// `s` up to its first line feed.
pub open spec fn first_line(s: Seq<char>) -> Seq<char>
    decreases s.len(),
{
    if s.len() == 0 || s[0] == '\n' {
        Seq::empty()
    } else {
        seq![s[0]] + first_line(s.drop_first())
    }
}

/// How many characters stand in front of the first white space of `s`.
pub open spec fn word_len(s: Seq<char>) -> nat
    decreases s.len(),
{
    if s.len() == 0 || is_space(s[0]) {
        0
    } else {
        1 + word_len(s.drop_first())
    }
}

/// The words of `s`: its longest pieces free of white space, in order.
pub open spec fn words(s: Seq<char>) -> Seq<Seq<char>>
    decreases s.len(),
{
    let rest = trim_start(s);
    if rest.len() == 0 {
        Seq::empty()
    } else {
        proof {
            lemma_trim_start_suffix(s);
            lemma_word_len_bound(rest);
        }
        let n = word_len(rest) as int;
        seq![rest.take(n)] + words(rest.skip(n))
    }
}

/// The decimal digit for `d`.
pub open spec fn digit(d: int) -> char {
    (('0' as u32) + d) as char
}

/// `c` is one of the ten decimal digits.
pub open spec fn is_digit(c: char) -> bool {
    '0' <= c <= '9'
}

/// The number that the digit `c` stands for.
pub open spec fn digit_value(c: char) -> int {
    (c as u32) - ('0' as u32)
}

/// `n` written in decimal, without leading zeros.
pub open spec fn decimal(n: nat) -> Seq<char>
    decreases n,
{
    if n < 10 {
        seq![digit(n as int)]
    } else {
        decimal(n / 10).push(digit((n % 10) as int))
    }
}

/// Every character of `s` is a decimal digit.
pub open spec fn all_digits(s: Seq<char>) -> bool {
    forall|i: int| 0 <= i < s.len() ==> is_digit(#[trigger] s[i])
}

/// The number that a run of decimal digits denotes.
pub open spec fn decimal_value(s: Seq<char>) -> int
    decreases s.len(),
{
    if s.len() == 0 {
        0
    } else {
        10 * decimal_value(s.drop_last()) + digit_value(s.last())
    }
}

/// The port number that `s` denotes: decimal digits behind an optional plus
/// sign, of a value that fits sixteen bits.
pub open spec fn port_number(s: Seq<char>) -> Option<u16> {
    let digits = if s.len() > 0 && s[0] == '+' {
        s.drop_first()
    } else {
        s
    };
    if digits.len() > 0 && all_digits(digits) && decimal_value(digits) <= u16::MAX {
        Some(decimal_value(digits) as u16)
    } else {
        None
    }
}

/// How many bytes the UTF-8 form of `s` takes.
pub open spec fn byte_len(s: Seq<char>) -> nat {
    encode_utf8(s).len()
}

/// Trimming leaves no more than there was, and no white space in front.
pub proof fn lemma_trim_start_suffix(s: Seq<char>)
    ensures
        trim_start(s).len() <= s.len(),
        trim_start(s).len() > 0 ==> !is_space(trim_start(s)[0]),
    decreases s.len(),
{
    if s.len() > 0 && is_space(s[0]) {
        lemma_trim_start_suffix(s.drop_first());
    }
}

/// A text that does not begin with white space begins with a word.
pub proof fn lemma_word_len_bound(s: Seq<char>)
    ensures
        word_len(s) <= s.len(),
        s.len() > 0 && !is_space(s[0]) ==> word_len(s) > 0,
    decreases s.len(),
{
    if s.len() > 0 && !is_space(s[0]) {
        lemma_word_len_bound(s.drop_first());
    }
}

/// Whether `c` is white space.
pub fn is_space_char(c: char) -> (r: bool)
    ensures
        r == is_space(c),
{
    let n = c as u32;
    (0x09 <= n && n <= 0x0d) || n == 0x20 || n == 0x85 || n == 0xa0 || n == 0x1680 || (0x2000 <= n
        && n <= 0x200a) || n == 0x2028 || n == 0x2029 || n == 0x202f || n == 0x205f || n == 0x3000
}

/// The characters of `s`, one by one.
pub fn chars_of(s: &str) -> (r: Vec<char>)
    ensures
        r@ == s@,
{
    let mut out: Vec<char> = Vec::new();
    for c in it: s.chars()
        invariant
            it.seq() == s@,
            out@ == s@.take(it.index() as int),
    {
        out.push(c);
    }
    out
}

/// Whether two texts are the same.
pub fn same_text(a: &str, b: &str) -> (r: bool)
    ensures
        r == (a@ == b@),
{
    let x = a.as_bytes();
    let y = b.as_bytes();
    proof {
        encode_utf8_decode_utf8(a@);
        encode_utf8_decode_utf8(b@);
    }
    if x.len() != y.len() {
        return false;
    }
    let mut i: usize = 0;
    while i < x.len()
        invariant
            i <= x.len(),
            x.len() == y.len(),
            x@ == encode_utf8(a@),
            y@ == encode_utf8(b@),
            forall|j: int| 0 <= j < i ==> x@[j] == y@[j],
        decreases x.len() - i,
    {
        if x[i] != y[i] {
            return false;
        }
        i += 1;
    }
    assert(x@ =~= y@);
    true
}

/// `detail` behind `prefix`.
pub fn prefixed(prefix: &str, detail: &str) -> (r: String)
    ensures
        r@ == prefix@ + detail@,
{
    let mut out = prefix.to_string();
    out.append(detail);
    out
}

/// `s` without leading and trailing white space.
pub fn trim_text(s: &str) -> (r: &str)
    ensures
        r@ == trim(s@),
{
    let cs = chars_of(s);
    let n = cs.len();
    let mut i: usize = 0;
    assert(s@.skip(0) =~= s@);
    while i < n && is_space_char(cs[i])
        invariant
            cs@ == s@,
            n == cs.len(),
            i <= n,
            trim_start(s@) == trim_start(s@.skip(i as int)),
        decreases n - i,
    {
        assert(s@.skip(i as int).drop_first() =~= s@.skip(i + 1));
        i += 1;
    }
    assert(trim_start(s@) == s@.skip(i as int));
    let mut j = n;
    assert(s@.skip(i as int) =~= s@.subrange(i as int, j as int));
    while j > i && is_space_char(cs[j - 1])
        invariant
            cs@ == s@,
            n == cs.len(),
            i <= j <= n,
            trim_end(s@.skip(i as int)) == trim_end(s@.subrange(i as int, j as int)),
        decreases j,
    {
        assert(s@.subrange(i as int, j as int).drop_last() =~= s@.subrange(i as int, j - 1));
        j -= 1;
    }
    s.substring_char(i, j)
}

/// Whether `needle` occurs in `hay`.
pub fn contains_text(hay: &str, needle: &str) -> (r: bool)
    ensures
        r == contains(hay@, needle@),
{
    let h = chars_of(hay);
    let n = chars_of(needle);
    if n.len() == 0 {
        assert(hay@.subrange(0, 0) =~= needle@);
        assert(occurs_at(hay@, needle@, 0));
        return true;
    }
    if n.len() > h.len() {
        return false;
    }
    let last = h.len() - n.len();
    let mut i: usize = 0;
    while i <= last
        invariant
            h@ == hay@,
            n@ == needle@,
            last == h.len() - n.len(),
            i <= last + 1,
            last < h.len(),
            forall|k: int| 0 <= k < i ==> !#[trigger] occurs_at(hay@, needle@, k),
        decreases last + 1 - i,
    {
        let mut j: usize = 0;
        while j < n.len() && h[i + j] == n[j]
            invariant
                h@ == hay@,
                n@ == needle@,
                i <= last,
                last == h.len() - n.len(),
                j <= n.len(),
                forall|k: int| 0 <= k < j ==> h@[i + k] == n@[k],
            decreases n.len() - j,
        {
            j += 1;
        }
        if j == n.len() {
            assert(hay@.subrange(i as int, i + needle@.len()) =~= needle@);
            assert(occurs_at(hay@, needle@, i as int));
            return true;
        }
        assert(!occurs_at(hay@, needle@, i as int)) by {
            if occurs_at(hay@, needle@, i as int) {
                assert(hay@.subrange(i as int, i + needle@.len())[j as int] == needle@[j as int]);
            }
        }
        i += 1;
    }
    false
}

/// Whether the second word on the first line of `s` is `word`.
pub fn second_word_is(s: &str, word: &str) -> (r: bool)
    ensures
        r == (words(first_line(s@)).len() > 1 && words(first_line(s@))[1] == word@),
{
    let cs = chars_of(s);
    let n = cs.len();
    let mut end: usize = 0;
    let ghost line = first_line(s@);
    assert(s@.skip(0) =~= s@);
    assert(s@.take(0) + first_line(s@.skip(0)) =~= line);
    while end < n && cs[end] != '\n'
        invariant
            cs@ == s@,
            n == cs.len(),
            end <= n,
            line == s@.take(end as int) + first_line(s@.skip(end as int)),
        decreases n - end,
    {
        assert(s@.skip(end as int).drop_first() =~= s@.skip(end + 1));
        assert(s@.take(end + 1) =~= s@.take(end as int) + seq![s@[end as int]]);
        end += 1;
        assert(s@.take(end - 1) + (seq![s@[end - 1]] + first_line(s@.skip(end as int)))
            =~= s@.take(end as int) + first_line(s@.skip(end as int)));
    }
    assert(line =~= s@.take(end as int));
    assert(line.skip(0) =~= line);
    let a = skip_space(&cs, 0, end);
    if a == end {
        return false;
    }
    let b = skip_word(&cs, a, end);
    proof {
        lemma_word_len_bound(line.skip(a as int));
        assert(line.skip(a as int).skip(b - a) =~= line.skip(b as int));
        assert(words(line) =~= seq![line.skip(a as int).take(b - a)] + words(line.skip(b as int)));
    }
    let c = skip_space(&cs, b, end);
    if c == end {
        assert(words(line.skip(b as int)).len() == 0);
        return false;
    }
    let d = skip_word(&cs, c, end);
    proof {
        assert(line.skip(c as int).take(d - c) =~= line.subrange(c as int, d as int));
        assert(words(line.skip(b as int))[0] == line.subrange(c as int, d as int));
        assert(words(line)[1] == line.subrange(c as int, d as int));
        assert(line.subrange(c as int, d as int) =~= s@.subrange(c as int, d as int));
    }
    same_text(s.substring_char(c, d), word)
}

/// The first index from `from` on, up to `end`, that holds no white space.
fn skip_space(cs: &Vec<char>, from: usize, end: usize) -> (r: usize)
    requires
        from <= end <= cs.len(),
    ensures
        from <= r <= end,
        trim_start(cs@.take(end as int).skip(from as int)) == cs@.take(end as int).skip(r as int),
        r < end ==> !is_space(cs@[r as int]),
{
    let ghost line = cs@.take(end as int);
    let mut i = from;
    while i < end && is_space_char(cs[i])
        invariant
            from <= i <= end <= cs.len(),
            line == cs@.take(end as int),
            trim_start(line.skip(from as int)) == trim_start(line.skip(i as int)),
        decreases end - i,
    {
        assert(line.skip(i as int).drop_first() =~= line.skip(i + 1));
        i += 1;
    }
    i
}

/// The first index from `from` on, up to `end`, that holds white space.
fn skip_word(cs: &Vec<char>, from: usize, end: usize) -> (r: usize)
    requires
        from <= end <= cs.len(),
    ensures
        from <= r <= end,
        r - from == word_len(cs@.take(end as int).skip(from as int)),
{
    let ghost line = cs@.take(end as int);
    let mut i = from;
    while i < end && !is_space_char(cs[i])
        invariant
            from <= i <= end <= cs.len(),
            line == cs@.take(end as int),
            word_len(line.skip(from as int)) == i - from + word_len(line.skip(i as int)),
        decreases end - i,
    {
        assert(line.skip(i as int).drop_first() =~= line.skip(i + 1));
        i += 1;
    }
    i
}

/// `n` in decimal.
pub fn decimal_text(n: u16) -> (r: String)
    ensures
        r@ == decimal(n as nat),
    decreases n,
{
    let mut out = if n < 10 {
        String::new()
    } else {
        decimal_text(n / 10)
    };
    out.push((48u8 + (n % 10) as u8) as char);
    out
}

/// The port number that `s` denotes, if it denotes one.
pub fn parse_port(s: &str) -> (r: Option<u16>)
    ensures
        r == port_number(s@),
{
    let cs = chars_of(s);
    let n = cs.len();
    let from: usize = if n > 0 && cs[0] == '+' {
        1
    } else {
        0
    };
    let ghost digits = s@.skip(from as int);
    let ghost unsigned = if s@.len() > 0 && s@[0] == '+' {
        s@.drop_first()
    } else {
        s@
    };
    assert(digits =~= unsigned);
    if from == n {
        return None;
    }
    let mut value: u32 = 0;
    let mut i = from;
    while i < n
        invariant
            cs@ == s@,
            n == cs.len(),
            from <= i <= n,
            digits == s@.skip(from as int),
            port_number(s@) is Some ==> all_digits(digits),
            all_digits(digits.take(i - from)),
            value == (if decimal_value(digits.take(i - from)) <= u16::MAX {
                decimal_value(digits.take(i - from))
            } else {
                u16::MAX + 1
            }),
            0 <= decimal_value(digits.take(i - from)),
        decreases n - i,
    {
        let c = cs[i];
        assert(digits[i - from] == c);
        if c < '0' || c > '9' {
            assert(!is_digit(digits[i - from]));
            return None;
        }
        assert(digits.take(i + 1 - from).drop_last() =~= digits.take(i - from));
        assert(digits.take(i + 1 - from).last() == c);
        let next: u32 = 10 * value + (c as u32 - '0' as u32);
        value = if next <= 65535 {
            next
        } else {
            65536
        };
        i += 1;
    }
    assert(digits.take(n - from) =~= digits);
    if value <= 65535 {
        Some(value as u16)
    } else {
        None
    }
}

/// A number written in decimal consists of digits and denotes itself.
pub proof fn lemma_decimal_denotes(n: nat)
    ensures
        decimal(n).len() > 0,
        all_digits(decimal(n)),
        decimal_value(decimal(n)) == n,
    decreases n,
{
    if n < 10 {
        assert(decimal(n).drop_last() =~= Seq::<char>::empty());
        assert(decimal_value(Seq::<char>::empty()) == 0);
    } else {
        lemma_decimal_denotes(n / 10);
        assert(decimal(n).drop_last() =~= decimal(n / 10));
    }
}

/// A text without white space at either end is its own trimmed form.
pub proof fn lemma_trim_of_trimmed(s: Seq<char>)
    requires
        s.len() > 0 ==> !is_space(s[0]) && !is_space(s.last()),
    ensures
        trim(s) == s,
{
}

/// White space is what Unicode lists under that name: the five controls from
/// tab to carriage return, the space, and the wider spaces and separators.
pub proof fn lemma_space_is_unicode_white_space(c: char)
    ensures
        is_space(c) <==> {
            let n = c as u32;
            9 <= n <= 13 || n == 32 || n == 133 || n == 160 || n == 5760 || 8192 <= n <= 8202 || n
                == 8232 || n == 8233 || n == 8239 || n == 8287 || n == 12288
        },
{
}

proof fn lemma_trim_start_of(before: Seq<char>, rest: Seq<char>)
    requires
        forall|i: int| 0 <= i < before.len() ==> is_space(#[trigger] before[i]),
    ensures
        trim_start(before + rest) == trim_start(rest),
    decreases before.len(),
{
    if before.len() == 0 {
        assert(before + rest =~= rest);
    } else {
        assert(is_space(before[0]));
        assert((before + rest).drop_first() =~= before.drop_first() + rest);
        lemma_trim_start_of(before.drop_first(), rest);
    }
}

proof fn lemma_trim_end_of(rest: Seq<char>, behind: Seq<char>)
    requires
        forall|i: int| 0 <= i < behind.len() ==> is_space(#[trigger] behind[i]),
    ensures
        trim_end(rest + behind) == trim_end(rest),
    decreases behind.len(),
{
    if behind.len() == 0 {
        assert(rest + behind =~= rest);
    } else {
        assert(is_space(behind[behind.len() - 1]));
        assert((rest + behind).drop_last() =~= rest + behind.drop_last());
        lemma_trim_end_of(rest, behind.drop_last());
    }
}

/// Trimming takes the white space from both ends and nothing else: whatever
/// white space stands around a text that neither begins nor ends with it, the
/// text itself is left.
pub proof fn lemma_trim_takes_outer_space(before: Seq<char>, body: Seq<char>, behind: Seq<char>)
    requires
        forall|i: int| 0 <= i < before.len() ==> is_space(#[trigger] before[i]),
        forall|i: int| 0 <= i < behind.len() ==> is_space(#[trigger] behind[i]),
        body.len() > 0 ==> !is_space(body[0]) && !is_space(body.last()),
    ensures
        trim(before + body + behind) == body,
{
    assert(before + body + behind =~= before + (body + behind));
    lemma_trim_start_of(before, body + behind);
    if body.len() == 0 {
        assert(body + behind =~= behind + Seq::<char>::empty());
        lemma_trim_start_of(behind, Seq::empty());
        assert(body =~= Seq::<char>::empty());
    } else {
        assert((body + behind)[0] == body[0]);
        lemma_trim_end_of(body, behind);
    }
}

/// A text is contained wherever it stands, whatever stands around it.
pub proof fn lemma_contains_in_any_surroundings(a: Seq<char>, needle: Seq<char>, b: Seq<char>)
    ensures
        contains(a + needle + b, needle),
{
    let hay = a + needle + b;
    assert(hay.subrange(a.len() as int, (a.len() + needle.len()) as int) =~= needle);
    assert(occurs_at(hay, needle, a.len() as int));
}

/// A text is contained only where it stands, character for character.
pub proof fn lemma_contains_is_occurrence(hay: Seq<char>, needle: Seq<char>)
    ensures
        contains(hay, needle) <==> exists|i: int, j: int|
            0 <= i && j == i + needle.len() && j <= hay.len() && #[trigger] hay.subrange(i, j)
                == needle,
{
    if contains(hay, needle) {
        let i = choose|i: int| #[trigger] occurs_at(hay, needle, i);
        let j = i + needle.len();
        assert(hay.subrange(i, j) == needle);
    }
    if exists|i: int, j: int|
        0 <= i && j == i + needle.len() && j <= hay.len() && #[trigger] hay.subrange(i, j)
            == needle {
        let (i, j) = choose|i: int, j: int|
            0 <= i && j == i + needle.len() && j <= hay.len() && #[trigger] hay.subrange(i, j)
                == needle;
        assert(occurs_at(hay, needle, i));
    }
}

/// The first line ends with the first line feed, or with the text.
pub proof fn lemma_first_line_ends_at_line_feed(line: Seq<char>, rest: Seq<char>)
    requires
        !line.contains('\n'),
    ensures
        first_line(line) == line,
        first_line(line + seq!['\n'] + rest) == line,
    decreases line.len(),
{
    let full = line + seq!['\n'] + rest;
    if line.len() == 0 {
        assert(full[0] == '\n');
        assert(line =~= Seq::<char>::empty());
    } else {
        let t = line.drop_first();
        assert(line.contains(line[0]));
        assert(!t.contains('\n')) by {
            if t.contains('\n') {
                let i = choose|i: int| 0 <= i < t.len() && t[i] == '\n';
                assert(line[i + 1] == '\n');
            }
        }
        lemma_first_line_ends_at_line_feed(t, rest);
        assert(full.drop_first() =~= t + seq!['\n'] + rest);
        assert(seq![line[0]] + t =~= line);
    }
}

proof fn lemma_word_len_of(word: Seq<char>, rest: Seq<char>)
    requires
        forall|i: int| 0 <= i < word.len() ==> !is_space(#[trigger] word[i]),
        rest.len() > 0 ==> is_space(rest[0]),
    ensures
        word_len(word + rest) == word.len(),
    decreases word.len(),
{
    if word.len() == 0 {
        assert(word + rest =~= rest);
    } else {
        assert(!is_space(word[0]));
        assert((word + rest).drop_first() =~= word.drop_first() + rest);
        lemma_word_len_of(word.drop_first(), rest);
    }
}

/// White space alone has no words.
pub proof fn lemma_space_has_no_words(space: Seq<char>)
    requires
        forall|i: int| 0 <= i < space.len() ==> is_space(#[trigger] space[i]),
    ensures
        words(space).len() == 0,
{
    assert(space + Seq::<char>::empty() =~= space);
    lemma_trim_start_of(space, Seq::empty());
}

/// The words of a text are what stands between white space: behind any white
/// space, a run free of it that is followed by white space or by nothing is the
/// first word, and the words of the rest come after it.
pub proof fn lemma_words_are_split_by_space(space: Seq<char>, word: Seq<char>, rest: Seq<char>)
    requires
        forall|i: int| 0 <= i < space.len() ==> is_space(#[trigger] space[i]),
        word.len() > 0,
        forall|i: int| 0 <= i < word.len() ==> !is_space(#[trigger] word[i]),
        rest.len() > 0 ==> is_space(rest[0]),
    ensures
        words(space + word + rest) == seq![word] + words(rest),
{
    let s = space + word + rest;
    assert(s =~= space + (word + rest));
    lemma_trim_start_of(space, word + rest);
    assert(!is_space(word[0]));
    assert((word + rest)[0] == word[0]);
    assert(trim_start(s) == word + rest);
    lemma_word_len_of(word, rest);
    assert((word + rest).take(word.len() as int) =~= word);
    assert((word + rest).skip(word.len() as int) =~= rest);
}

/// Digits denote numbers by place: each further digit counts ten times less
/// than the one before it.
pub proof fn lemma_digits_count_by_place(s: Seq<char>, c: char)
    ensures
        decimal_value(Seq::empty()) == 0,
        decimal_value(s.push(c)) == 10 * decimal_value(s) + (c as u32 - 48),
        all_digits(s) <==> forall|i: int| 0 <= i < s.len() ==> '0' <= #[trigger] s[i] <= '9',
{
    assert(s.push(c).drop_last() =~= s);
    assert(s.push(c).last() == c);
    if all_digits(s) {
        assert forall|i: int| 0 <= i < s.len() implies '0' <= #[trigger] s[i] <= '9' by {
            assert(is_digit(s[i]));
        }
    }
}

/// A number is written without leading zeros.
pub proof fn lemma_decimal_has_no_leading_zero(n: nat)
    ensures
        decimal(n)[0] == '0' ==> n == 0 && decimal(n).len() == 1,
    decreases n,
{
    if n >= 10 {
        lemma_decimal_has_no_leading_zero(n / 10);
        lemma_decimal_denotes(n / 10);
        assert(decimal(n)[0] == decimal(n / 10)[0]);
    }
}

/// Two different numbers are written differently.
pub proof fn lemma_decimal_tells_numbers_apart(m: nat, n: nat)
    requires
        decimal(m) == decimal(n),
    ensures
        m == n,
{
    lemma_decimal_denotes(m);
    lemma_decimal_denotes(n);
}

/// Digits, with or without a plus sign in front, are the port that they denote
/// if that is below 65536, and no port otherwise.
pub proof fn lemma_digits_are_a_port(plus: bool, digits: Seq<char>)
    requires
        digits.len() > 0,
        forall|i: int| 0 <= i < digits.len() ==> '0' <= #[trigger] digits[i] <= '9',
    ensures
        ({
            let text = if plus {
                seq!['+'] + digits
            } else {
                digits
            };
            match port_number(text) {
                Some(port) => port == decimal_value(digits),
                None => decimal_value(digits) >= 65536,
            }
        }),
{
    lemma_digits_count_by_place(digits, '0');
    lemma_decimal_value_is_natural(digits);
    assert((seq!['+'] + digits).drop_first() =~= digits);
    assert('0' <= digits[0]);
}

proof fn lemma_decimal_value_is_natural(s: Seq<char>)
    requires
        all_digits(s),
    ensures
        decimal_value(s) >= 0,
    decreases s.len(),
{
    if s.len() > 0 {
        assert(is_digit(s[s.len() - 1]));
        assert forall|i: int| 0 <= i < s.drop_last().len() implies is_digit(
            #[trigger] s.drop_last()[i],
        ) by {
            assert(is_digit(s[i]));
        }
        lemma_decimal_value_is_natural(s.drop_last());
    }
}

/// Nothing but digits behind at most one plus sign is a port.
pub proof fn lemma_only_digits_are_a_port(s: Seq<char>)
    requires
        port_number(s) is Some,
    ensures
        ({
            let digits = if s.len() > 0 && s[0] == '+' {
                s.skip(1)
            } else {
                s
            };
            digits.len() > 0 && forall|i: int|
                0 <= i < digits.len() ==> '0' <= #[trigger] digits[i] <= '9'
        }),
{
    if s.len() > 0 && s[0] == '+' {
        assert(s.skip(1) =~= s.drop_first());
        lemma_digits_count_by_place(s.skip(1), '0');
    } else {
        lemma_digits_count_by_place(s, '0');
    }
}

/// Texts are measured in bytes of UTF-8.
pub proof fn lemma_bytes_are_those_of_utf8(s: Seq<char>)
    ensures
        byte_len(s) == encode_utf8(s).len(),
{
}

} // verus!
