use vstd::prelude::*;

verus! {

/// The Unicode `White_Space` characters, the ones `str::split_whitespace`
/// separates words on.
pub open spec fn spec_is_whitespace(c: char) -> bool {
    ||| c == '\t'
    ||| c == '\n'
    ||| c == '\u{b}'
    ||| c == '\u{c}'
    ||| c == '\r'
    ||| c == ' '
    ||| c == '\u{85}'
    ||| c == '\u{a0}'
    ||| c == '\u{1680}'
    ||| ('\u{2000}' <= c && c <= '\u{200a}')
    ||| c == '\u{2028}'
    ||| c == '\u{2029}'
    ||| c == '\u{202f}'
    ||| c == '\u{205f}'
    ||| c == '\u{3000}'
}

pub fn is_whitespace_char(c: char) -> (b: bool)
    ensures
        b == spec_is_whitespace(c),
{
    c == '\t' || c == '\n' || c == '\u{b}' || c == '\u{c}' || c == '\r' || c == ' ' || c == '\u{85}'
        || c == '\u{a0}' || c == '\u{1680}' || ('\u{2000}' <= c && c <= '\u{200a}') || c
        == '\u{2028}' || c == '\u{2029}' || c == '\u{202f}' || c == '\u{205f}' || c == '\u{3000}'
}

/// ASCII lowercasing of one character; anything but `A`-`Z` is unchanged.
pub open spec fn spec_lower(c: char) -> char {
    if 'A' <= c && c <= 'Z' {
        (((c as u8) + 32) as char)
    } else {
        c
    }
}

/// ASCII lowercasing of a whole character sequence.
pub open spec fn spec_lower_seq(s: Seq<char>) -> Seq<char> {
    s.map_values(|c: char| spec_lower(c))
}

fn lower_char(c: char) -> (r: char)
    ensures
        r == spec_lower(c),
{
    if 'A' <= c && c <= 'Z' {
        ((c as u8) + 32) as char
    } else {
        c
    }
}

/// Whether `w`, lowered ASCII-wise, reads exactly as `m`. Mnemonics are
/// matched case-insensitively with it.
pub fn eq_lowered(w: &str, m: &str) -> (b: bool)
    ensures
        b == (spec_lower_seq(w@) == m@),
{
    let w_len = w.unicode_len();
    let m_len = m.unicode_len();
    if w_len != m_len {
        proof {
            assert(spec_lower_seq(w@).len() == w@.len());
        }
        return false;
    }
    let mut i: usize = 0;
    while i < w_len
        invariant
            w_len == w@.len(),
            m_len == m@.len(),
            w_len == m_len,
            i <= w_len,
            forall|j: int| 0 <= j < i ==> spec_lower(w@[j]) == m@[j],
        decreases w_len - i,
    {
        if lower_char(w.get_char(i)) != m.get_char(i) {
            proof {
                assert(spec_lower_seq(w@)[i as int] != m@[i as int]);
            }
            return false;
        }
        i += 1;
    }
    proof {
        assert(spec_lower_seq(w@) =~= m@);
    }
    true
}

/// An ASCII decimal digit.
pub open spec fn spec_is_digit(c: char) -> bool {
    '0' <= c && c <= '9'
}

/// The numeric value of an ASCII decimal digit.
pub open spec fn spec_digit_value(c: char) -> nat {
    (c as nat - '0' as nat) as nat
}

/// Whether `s` is one or more ASCII decimal digits.
pub open spec fn spec_all_digits(s: Seq<char>) -> bool {
    s.len() > 0 && forall|i: int| 0 <= i < s.len() ==> spec_is_digit(#[trigger] s[i])
}

/// The value of a digit string, most significant digit first.
pub open spec fn spec_digits_value(s: Seq<char>) -> nat
    decreases s.len(),
{
    if s.len() == 0 {
        0
    } else {
        spec_digits_value(s.drop_last()) * 10 + spec_digit_value(s.last())
    }
}

/// The digits of a number after an optional leading `+` sign, the form the
/// standard unsigned parsers accept.
pub open spec fn spec_number_body(s: Seq<char>) -> Seq<char> {
    if s.len() > 0 && s[0] == '+' {
        s.drop_first()
    } else {
        s
    }
}

/// What parsing `s` as an unsigned 64-bit number gives: its value, when `s`
/// is an optional `+` sign followed by digits only and the value fits.
pub open spec fn spec_parse_u64(s: Seq<char>) -> Option<u64> {
    let body = spec_number_body(s);
    if spec_all_digits(body) && spec_digits_value(body) <= u64::MAX {
        Some(spec_digits_value(body) as u64)
    } else {
        None
    }
}

/// What parsing `s` as an unsigned machine-word number gives.
pub open spec fn spec_parse_usize(s: Seq<char>) -> Option<usize> {
    let body = spec_number_body(s);
    if spec_all_digits(body) && spec_digits_value(body) <= usize::MAX {
        Some(spec_digits_value(body) as usize)
    } else {
        None
    }
}

/// Once a digit prefix is too large, the whole digit string is too large.
proof fn lemma_digits_value_monotone(s: Seq<char>, i: int)
    requires
        0 <= i <= s.len(),
    ensures
        spec_digits_value(s.subrange(0, i)) <= spec_digits_value(s),
    decreases s.len() - i,
{
    if i < s.len() {
        let t = s.subrange(0, i + 1);
        assert(t.drop_last() =~= s.subrange(0, i));
        lemma_digits_value_monotone(s, i + 1);
        assert(spec_digits_value(s.subrange(0, i + 1)) == spec_digits_value(s.subrange(0, i)) * 10
            + spec_digit_value(s[i]));
    } else {
        assert(s.subrange(0, i) =~= s);
    }
}

#[verifier::loop_isolation(false)]
fn parse_digits_u64(s: &str, from: usize) -> (r: Option<u64>)
    requires
        from < s@.len(),
    ensures
        ({
            let body = s@.subrange(from as int, s@.len() as int);
            match r {
                Some(v) => spec_all_digits(body) && spec_digits_value(body) == v,
                None => !(spec_all_digits(body) && spec_digits_value(body) <= u64::MAX),
            }
        }),
{
    let len = s.unicode_len();
    let ghost body = s@.subrange(from as int, s@.len() as int);
    let mut value: u64 = 0;
    let mut i: usize = from;
    while i < len
        invariant
            from < len,
            len == s@.len(),
            from <= i <= len,
            forall|j: int| from <= j < i ==> spec_is_digit(#[trigger] s@[j]),
            value == spec_digits_value(s@.subrange(from as int, i as int)),
        decreases len - i,
    {
        let c = s.get_char(i);
        proof {
            assert(body.subrange(0, (i - from) as int) =~= s@.subrange(from as int, i as int));
            assert(body[(i - from) as int] == s@[i as int]);
        }
        if !('0' <= c && c <= '9') {
            return None;
        }
        let d: u64 = (c as u8 - 48) as u64;
        proof {
            assert(d == spec_digit_value(c));
        }
        let shifted = match value.checked_mul(10) {
            Some(x) => x,
            None => {
                proof {
                    lemma_digits_too_big(body, (i - from) as int);
                }
                return None;
            },
        };
        let next = match shifted.checked_add(d) {
            Some(x) => x,
            None => {
                proof {
                    lemma_digits_too_big(body, (i - from) as int);
                }
                return None;
            },
        };
        proof {
            assert(s@.subrange(from as int, i + 1).drop_last() =~= s@.subrange(
                from as int,
                i as int,
            ));
        }
        value = next;
        i += 1;
    }
    proof {
        assert(s@.subrange(from as int, i as int) =~= body);
    }
    Some(value)
}

/// If the value of the first `i` digits already would overflow after one
/// more digit, the whole string's value exceeds `u64::MAX`.
proof fn lemma_digits_too_big(body: Seq<char>, i: int)
    requires
        0 <= i < body.len(),
        spec_digits_value(body.subrange(0, i)) * 10 + spec_digit_value(body[i]) > u64::MAX,
        spec_is_digit(body[i]),
    ensures
        spec_digits_value(body) > u64::MAX,
{
    assert(body.subrange(0, i + 1).drop_last() =~= body.subrange(0, i));
    assert(body.subrange(0, i + 1).last() == body[i]);
    assert(spec_digits_value(body.subrange(0, i + 1)) == spec_digits_value(body.subrange(0, i)) * 10
        + spec_digit_value(body[i]));
    lemma_digits_value_monotone(body, i + 1);
}

/// Parse `s` as the standard library parses an unsigned 64-bit number: an
/// optional `+` sign, then one or more ASCII digits whose value fits.
pub fn parse_u64(s: &str) -> (r: Option<u64>)
    ensures
        r == spec_parse_u64(s@),
{
    let len = s.unicode_len();
    if len == 0 {
        return None;
    }
    let first = s.get_char(0);
    let from: usize = if first == '+' {
        1
    } else {
        0
    };
    if from >= len {
        proof {
            assert(spec_number_body(s@) =~= s@.subrange(1, 1));
        }
        return None;
    }
    let r = parse_digits_u64(s, from);
    proof {
        if first == '+' {
            assert(spec_number_body(s@) =~= s@.subrange(1, s@.len() as int));
        } else {
            assert(spec_number_body(s@) =~= s@.subrange(0, s@.len() as int));
        }
    }
    r
}

/// Parse `s` as the standard library parses an unsigned machine-word
/// number: an optional `+` sign, then one or more ASCII digits whose value
/// fits in `usize`.
pub fn parse_usize(s: &str) -> (r: Option<usize>)
    ensures
        r == spec_parse_usize(s@),
{
    let r = parse_u64(s);
    match r {
        None => {
            proof {
                lemma_u64_usize_parse(s@);
            }
            None
        },
        Some(v) => {
            if v <= usize::MAX as u64 {
                proof {
                    lemma_u64_usize_parse(s@);
                }
                Some(v as usize)
            } else {
                proof {
                    lemma_u64_usize_parse(s@);
                }
                None
            }
        },
    }
}

/// How 64-bit parsing and machine-word parsing relate: a machine word is at
/// most 64 bits wide here.
proof fn lemma_u64_usize_parse(s: Seq<char>)
    ensures
        match spec_parse_u64(s) {
            Some(v) => spec_parse_usize(s) == if v <= usize::MAX as u64 {
                Some(v as usize)
            } else {
                None::<usize>
            },
            None => spec_parse_usize(s) is None,
        },
{
}

/// The longest whitespace-free prefix of `s`.
pub open spec fn spec_take_word(s: Seq<char>) -> Seq<char>
    decreases s.len(),
{
    if s.len() == 0 || spec_is_whitespace(s[0]) {
        Seq::empty()
    } else {
        seq![s[0]] + spec_take_word(s.drop_first())
    }
}

/// The whitespace-separated words of `s`, in order, as
/// `str::split_whitespace` yields them.
pub open spec fn spec_words(s: Seq<char>) -> Seq<Seq<char>>
    decreases s.len(),
    via spec_words_decreases
{
    if s.len() == 0 {
        Seq::empty()
    } else if spec_is_whitespace(s[0]) {
        spec_words(s.drop_first())
    } else {
        seq![spec_take_word(s)] + spec_words(s.skip(spec_take_word(s).len() as int))
    }
}

#[via_fn]
proof fn spec_words_decreases(s: Seq<char>) {
    if s.len() > 0 && !spec_is_whitespace(s[0]) {
        lemma_take_word_len(s);
        assert(spec_take_word(s).len() >= 1);
    }
}

/// `spec_take_word` never reaches past the end of `s`.
proof fn lemma_take_word_len(s: Seq<char>)
    ensures
        spec_take_word(s).len() <= s.len(),
    decreases s.len(),
{
    if !(s.len() == 0 || spec_is_whitespace(s[0])) {
        lemma_take_word_len(s.drop_first());
    }
}

/// `spec_take_word` is the prefix up to the first whitespace character.
proof fn lemma_take_word(s: Seq<char>, k: int)
    requires
        0 <= k <= s.len(),
        forall|j: int| 0 <= j < k ==> !spec_is_whitespace(#[trigger] s[j]),
        k == s.len() || spec_is_whitespace(s[k]),
    ensures
        spec_take_word(s) == s.subrange(0, k),
    decreases k,
{
    if k == 0 {
        assert(spec_take_word(s) =~= s.subrange(0, 0));
    } else {
        let t = s.drop_first();
        assert(forall|j: int| 0 <= j < k - 1 ==> !spec_is_whitespace(#[trigger] t[j]));
        lemma_take_word(t, k - 1);
        assert(spec_take_word(s) =~= s.subrange(0, k));
    }
}

/// Split `line` into its whitespace-separated words.
#[verifier::loop_isolation(false)]
pub fn split_words(line: &str) -> (r: Vec<String>)
    ensures
        r@.map_values(|w: String| w@) == spec_words(line@),
{
    let len = line.unicode_len();
    let mut words: Vec<String> = Vec::new();
    let mut i: usize = 0;
    proof {
        assert(words@.map_values(|w: String| w@) =~= Seq::<Seq<char>>::empty());
        assert(line@.subrange(0, len as int) =~= line@);
    }
    while i < len
        invariant
            i <= len,
            spec_words(line@) == words@.map_values(|w: String| w@) + spec_words(
                line@.subrange(i as int, len as int),
            ),
        decreases len - i,
    {
        let c = line.get_char(i);
        if is_whitespace_char(c) {
            proof {
                assert(line@.subrange(i as int, len as int).drop_first() =~= line@.subrange(
                    i + 1,
                    len as int,
                ));
            }
            i += 1;
        } else {
            let mut j: usize = i + 1;
            while j < len && !is_whitespace_char(line.get_char(j))
                invariant
                    i < j <= len,
                    forall|m: int| i <= m < j ==> !spec_is_whitespace(#[trigger] line@[m]),
                decreases len - j,
            {
                j += 1;
            }
            let word = line.substring_char(i, j);
            let owned = word.to_owned();
            proof {
                let rest = line@.subrange(i as int, len as int);
                assert(forall|m: int|
                    0 <= m < j - i ==> !spec_is_whitespace(#[trigger] rest[m]));
                assert(j - i == rest.len() || spec_is_whitespace(rest[(j - i) as int]));
                lemma_take_word(rest, j - i);
                assert(rest.subrange(0, (j - i) as int) =~= line@.subrange(i as int, j as int));
                assert(rest.skip((j - i) as int) =~= line@.subrange(j as int, len as int));
                assert(spec_words(rest) == seq![line@.subrange(i as int, j as int)] + spec_words(
                    line@.subrange(j as int, len as int),
                ));
                assert(words@.push(owned).map_values(|w: String| w@) =~= words@.map_values(
                    |w: String| w@,
                ).push(owned@));
                assert(words@.map_values(|w: String| w@) + spec_words(rest)
                    =~= words@.push(owned).map_values(|w: String| w@) + spec_words(
                    line@.subrange(j as int, len as int),
                ));
            }
            words.push(owned);
            i = j;
        }
    }
    proof {
        assert(line@.subrange(len as int, len as int) =~= Seq::<char>::empty());
        assert(spec_words(line@.subrange(i as int, len as int)) =~= Seq::<Seq<char>>::empty());
        assert(words@.map_values(|w: String| w@) + Seq::<Seq<char>>::empty() =~= words@.map_values(
            |w: String| w@,
        ));
    }
    words
}

/// The prefix of `s` up to, and not including, the first line feed.
pub open spec fn spec_take_line(s: Seq<char>) -> Seq<char>
    decreases s.len(),
{
    if s.len() == 0 || s[0] == '\n' {
        Seq::empty()
    } else {
        seq![s[0]] + spec_take_line(s.drop_first())
    }
}

/// A line with a carriage return left at its end by a `\r\n` terminator
/// loses it.
pub open spec fn spec_strip_cr(l: Seq<char>) -> Seq<char> {
    if l.len() > 0 && l.last() == '\r' {
        l.drop_last()
    } else {
        l
    }
}

/// The lines of `s`, as `str::lines` yields them: split at every line feed,
/// a carriage return immediately before a line feed is dropped, and a final
/// line terminator is optional.
pub open spec fn spec_lines(s: Seq<char>) -> Seq<Seq<char>>
    decreases s.len(),
    via spec_lines_decreases
{
    if s.len() == 0 {
        Seq::empty()
    } else {
        let l = spec_take_line(s);
        if l.len() == s.len() {
            seq![l]
        } else {
            seq![spec_strip_cr(l)] + spec_lines(s.skip(l.len() as int + 1))
        }
    }
}

#[via_fn]
proof fn spec_lines_decreases(s: Seq<char>) {
    if s.len() > 0 {
        lemma_take_line_len(s);
    }
}

/// `spec_take_line` is the prefix up to the first line feed.
proof fn lemma_take_line(s: Seq<char>, k: int)
    requires
        0 <= k <= s.len(),
        forall|j: int| 0 <= j < k ==> s[j] != '\n',
        k == s.len() || s[k] == '\n',
    ensures
        spec_take_line(s) == s.subrange(0, k),
    decreases k,
{
    if k == 0 {
        assert(spec_take_line(s) =~= s.subrange(0, 0));
    } else {
        let t = s.drop_first();
        assert(forall|j: int| 0 <= j < k - 1 ==> t[j] != '\n');
        lemma_take_line(t, k - 1);
        assert(spec_take_line(s) =~= s.subrange(0, k));
    }
}

/// `spec_take_line` never reaches past the first line feed.
proof fn lemma_take_line_len(s: Seq<char>)
    ensures
        spec_take_line(s).len() <= s.len(),
        spec_take_line(s).len() < s.len() ==> s[spec_take_line(s).len() as int] == '\n',
    decreases s.len(),
{
    if !(s.len() == 0 || s[0] == '\n') {
        lemma_take_line_len(s.drop_first());
    }
}

/// Split `source` into its lines, as `str::lines` does.
#[verifier::loop_isolation(false)]
#[verifier::rlimit(80)]
pub fn split_source(source: &str) -> (r: Vec<String>)
    ensures
        r@.map_values(|l: String| l@) == spec_lines(source@),
{
    let len = source.unicode_len();
    let mut lines: Vec<String> = Vec::new();
    let mut i: usize = 0;
    proof {
        assert(lines@.map_values(|l: String| l@) =~= Seq::<Seq<char>>::empty());
        assert(source@.subrange(0, len as int) =~= source@);
    }
    while i < len
        invariant
            i <= len,
            spec_lines(source@) == lines@.map_values(|l: String| l@) + spec_lines(
                source@.subrange(i as int, len as int),
            ),
        decreases len - i,
    {
        let mut j: usize = i;
        while j < len && source.get_char(j) != '\n'
            invariant
                i <= j <= len,
                forall|m: int| i <= m < j ==> source@[m] != '\n',
            decreases len - j,
        {
            j += 1;
        }
        let ghost rest = source@.subrange(i as int, len as int);
        proof {
            assert(forall|m: int| 0 <= m < j - i ==> rest[m] != '\n');
            assert(j - i == rest.len() || rest[(j - i) as int] == '\n');
            lemma_take_line(rest, j - i);
            assert(rest.subrange(0, (j - i) as int) =~= source@.subrange(i as int, j as int));
        }
        if j >= len {
            let line = source.substring_char(i, j);
            let owned = line.to_owned();
            proof {
                assert(spec_lines(rest) =~= seq![owned@]);
                assert(lines@.push(owned).map_values(|l: String| l@) =~= lines@.map_values(
                    |l: String| l@,
                ).push(owned@));
                assert(spec_lines(source@.subrange(len as int, len as int))
                    =~= Seq::<Seq<char>>::empty());
                assert(lines@.map_values(|l: String| l@) + spec_lines(rest) =~= lines@.push(
                    owned,
                ).map_values(|l: String| l@) + spec_lines(source@.subrange(len as int, len as int)));
            }
            lines.push(owned);
            i = len;
        } else {
            let end = if j > i && source.get_char(j - 1) == '\r' {
                j - 1
            } else {
                j
            };
            let line = source.substring_char(i, end);
            let owned = line.to_owned();
            proof {
                let taken = rest.subrange(0, (j - i) as int);
                if j > i && source@[j - 1] == '\r' {
                    assert(taken.len() > 0 && taken.last() == '\r');
                    assert(spec_strip_cr(taken) =~= source@.subrange(i as int, end as int));
                } else {
                    assert(spec_strip_cr(taken) =~= source@.subrange(i as int, end as int));
                }
                assert(rest.skip((j - i) + 1) =~= source@.subrange(j + 1, len as int));
                assert(spec_lines(rest) == seq![owned@] + spec_lines(
                    source@.subrange(j + 1, len as int),
                ));
                assert(lines@.push(owned).map_values(|l: String| l@) =~= lines@.map_values(
                    |l: String| l@,
                ).push(owned@));
                assert(lines@.map_values(|l: String| l@) + spec_lines(rest) =~= lines@.push(
                    owned,
                ).map_values(|l: String| l@) + spec_lines(source@.subrange(j + 1, len as int)));
            }
            lines.push(owned);
            i = j + 1;
        }
    }
    proof {
        assert(source@.subrange(len as int, len as int) =~= Seq::<char>::empty());
        assert(spec_lines(source@.subrange(i as int, len as int)) =~= Seq::<Seq<char>>::empty());
        assert(lines@.map_values(|l: String| l@) + Seq::<Seq<char>>::empty() =~= lines@.map_values(
            |l: String| l@,
        ));
    }
    lines
}

/// `s` with every leading `c` removed, as `str::trim_start_matches` with a
/// single-character pattern leaves it.
pub open spec fn spec_strip_leading(s: Seq<char>, c: char) -> Seq<char>
    decreases s.len(),
{
    if s.len() > 0 && s[0] == c {
        spec_strip_leading(s.drop_first(), c)
    } else {
        s
    }
}

/// `spec_strip_leading` drops exactly the leading run of `c`.
proof fn lemma_strip_leading(s: Seq<char>, c: char, k: int)
    requires
        0 <= k <= s.len(),
        forall|j: int| 0 <= j < k ==> s[j] == c,
        k == s.len() || s[k] != c,
    ensures
        spec_strip_leading(s, c) == s.subrange(k, s.len() as int),
    decreases k,
{
    if k == 0 {
        assert(spec_strip_leading(s, c) =~= s.subrange(0, s.len() as int));
    } else {
        let t = s.drop_first();
        assert(forall|j: int| 0 <= j < k - 1 ==> t[j] == c);
        lemma_strip_leading(t, c, k - 1);
        assert(t.subrange(k - 1, t.len() as int) =~= s.subrange(k, s.len() as int));
    }
}

/// Remove every leading `c` from `s`.
#[verifier::loop_isolation(false)]
pub fn strip_leading(s: &str, c: char) -> (r: String)
    ensures
        r@ == spec_strip_leading(s@, c),
{
    let len = s.unicode_len();
    let mut i: usize = 0;
    while i < len && s.get_char(i) == c
        invariant
            i <= len,
            forall|j: int| 0 <= j < i ==> s@[j] == c,
        decreases len - i,
    {
        i += 1;
    }
    proof {
        lemma_strip_leading(s@, c, i as int);
    }
    let rest = s.substring_char(i, len);
    rest.to_owned()
}

/// `s` with every trailing `c` removed, as `str::trim_end_matches` with a
/// single-character pattern leaves it.
pub open spec fn spec_strip_trailing(s: Seq<char>, c: char) -> Seq<char>
    decreases s.len(),
{
    if s.len() > 0 && s.last() == c {
        spec_strip_trailing(s.drop_last(), c)
    } else {
        s
    }
}

/// `spec_strip_trailing` drops exactly the trailing run of `c`.
proof fn lemma_strip_trailing(s: Seq<char>, c: char, k: int)
    requires
        0 <= k <= s.len(),
        forall|j: int| k <= j < s.len() ==> s[j] == c,
        k == 0 || s[k - 1] != c,
    ensures
        spec_strip_trailing(s, c) == s.subrange(0, k),
    decreases s.len(),
{
    if k < s.len() {
        assert(s.last() == c);
        let t = s.drop_last();
        assert(forall|j: int| k <= j < t.len() ==> t[j] == c);
        lemma_strip_trailing(t, c, k);
        assert(t.subrange(0, k) =~= s.subrange(0, k));
    } else {
        assert(spec_strip_trailing(s, c) =~= s.subrange(0, s.len() as int));
    }
}

/// Remove every trailing `c` from `s`.
#[verifier::loop_isolation(false)]
pub fn strip_trailing(s: &str, c: char) -> (r: String)
    ensures
        r@ == spec_strip_trailing(s@, c),
{
    let len = s.unicode_len();
    let mut k: usize = len;
    while k > 0 && s.get_char(k - 1) == c
        invariant
            k <= len,
            forall|j: int| k <= j < len ==> s@[j] == c,
        decreases k,
    {
        k -= 1;
    }
    proof {
        lemma_strip_trailing(s@, c, k as int);
    }
    let rest = s.substring_char(0, k);
    rest.to_owned()
}

/// The words of `ws`, joined by single spaces, as the text of a comment is
/// reassembled.
pub open spec fn spec_join_words(ws: Seq<Seq<char>>) -> Seq<char>
    decreases ws.len(),
{
    if ws.len() == 0 {
        Seq::empty()
    } else if ws.len() == 1 {
        ws[0]
    } else {
        ws[0] + seq![' '] + spec_join_words(ws.drop_first())
    }
}

/// Join the words of `words` from index `from` on with single spaces.
pub fn join_words_from(words: &Vec<String>, from: usize) -> (r: String)
    requires
        from <= words@.len(),
    ensures
        r@ == spec_join_words(words@.map_values(|w: String| w@).skip(from as int)),
    decreases words@.len() - from,
{
    let ghost views = words@.map_values(|w: String| w@);
    if from >= words.len() {
        proof {
            assert(views.skip(from as int) =~= Seq::<Seq<char>>::empty());
        }
        String::new()
    } else if from == words.len() - 1 {
        proof {
            assert(views.skip(from as int).len() == 1);
            assert(views.skip(from as int)[0] == views[from as int]);
        }
        words[from].clone()
    } else {
        let mut out = words[from].clone();
        out.append(" ");
        let rest = join_words_from(words, from + 1);
        out.append(rest.as_str());
        proof {
            reveal_strlit(" ");
            assert(views.skip(from as int).drop_first() =~= views.skip(from + 1));
            assert(views.skip(from as int)[0] == views[from as int]);
            assert(out@ =~= spec_join_words(views.skip(from as int)));
        }
        out
    }
}

/// The ASCII digit character of one decimal digit.
pub open spec fn spec_digit_char(d: nat) -> char {
    (((d + 48) as u8) as char)
}

/// The decimal rendering of a number, most significant digit first.
pub open spec fn spec_decimal(v: nat) -> Seq<char>
    decreases v,
{
    if v < 10 {
        seq![spec_digit_char(v)]
    } else {
        spec_decimal(v / 10) + seq![spec_digit_char(v % 10)]
    }
}

/// A decimal rendering reads back as the number it came from.
pub proof fn lemma_decimal_value(v: nat)
    ensures
        spec_all_digits(spec_decimal(v)),
        spec_digits_value(spec_decimal(v)) == v,
    decreases v,
{
    if v < 10 {
        let s = spec_decimal(v);
        assert(s =~= seq![spec_digit_char(v)]);
        assert(s.drop_last() =~= Seq::<char>::empty());
        assert(spec_digit_value(spec_digit_char(v)) == v);
        assert(spec_is_digit(spec_digit_char(v)));
        assert(spec_digits_value(s) == spec_digits_value(s.drop_last()) * 10 + spec_digit_value(
            s.last(),
        ));
        assert(spec_digits_value(s.drop_last()) == 0);
        assert(s.last() == spec_digit_char(v));
    } else {
        lemma_decimal_value(v / 10);
        let s = spec_decimal(v);
        assert(s.drop_last() =~= spec_decimal(v / 10));
        assert(s.last() == spec_digit_char(v % 10));
        assert(spec_digit_value(spec_digit_char(v % 10)) == v % 10);
        assert(spec_is_digit(spec_digit_char(v % 10)));
        assert(spec_digits_value(s) == spec_digits_value(s.drop_last()) * 10 + spec_digit_value(
            s.last(),
        ));
        assert(spec_digits_value(s) == (v / 10) * 10 + v % 10);
        assert((v / 10) * 10 + v % 10 == v) by (nonlinear_arith);
        assert(forall|i: int|
            0 <= i < s.len() ==> spec_is_digit(#[trigger] s[i]) == if i < s.len() - 1 {
                spec_is_digit(spec_decimal(v / 10)[i])
            } else {
                spec_is_digit(spec_digit_char(v % 10))
            });
    }
}

/// The number a decimal rendering parses back to is the number itself.
pub proof fn lemma_decimal_parse(v: u64)
    ensures
        spec_parse_u64(spec_decimal(v as nat)) == Some(v),
{
    lemma_decimal_value(v as nat);
    assert(spec_decimal(v as nat)[0] != '+') by {
        if v < 10 {
        } else {
            assert(spec_decimal(v as nat)[0] == spec_decimal(v as nat / 10)[0]);
            lemma_decimal_first_digit(v as nat);
        }
        assert(spec_is_digit(spec_decimal(v as nat)[0]));
    };
    assert(spec_number_body(spec_decimal(v as nat)) == spec_decimal(v as nat));
}

/// Every character of a decimal rendering is a digit, the first included.
proof fn lemma_decimal_first_digit(v: nat)
    ensures
        spec_is_digit(spec_decimal(v)[0]),
    decreases v,
{
    lemma_decimal_value(v);
}

/// The number a decimal rendering parses back to, read at machine width.
pub proof fn lemma_decimal_parse_usize(v: usize)
    ensures
        spec_parse_usize(spec_decimal(v as nat)) == Some(v),
{
    lemma_decimal_value(v as nat);
    assert(spec_decimal(v as nat)[0] != '+') by {
        assert(spec_is_digit(spec_decimal(v as nat)[0]));
    };
    assert(spec_number_body(spec_decimal(v as nat)) == spec_decimal(v as nat));
}

/// One decimal digit as text.
fn digit_str(d: u64) -> (r: &'static str)
    requires
        d < 10,
    ensures
        r@ == seq![spec_digit_char(d as nat)],
{
    if d == 0 {
        proof {
            reveal_strlit("0");
        }
        "0"
    } else if d == 1 {
        proof {
            reveal_strlit("1");
        }
        "1"
    } else if d == 2 {
        proof {
            reveal_strlit("2");
        }
        "2"
    } else if d == 3 {
        proof {
            reveal_strlit("3");
        }
        "3"
    } else if d == 4 {
        proof {
            reveal_strlit("4");
        }
        "4"
    } else if d == 5 {
        proof {
            reveal_strlit("5");
        }
        "5"
    } else if d == 6 {
        proof {
            reveal_strlit("6");
        }
        "6"
    } else if d == 7 {
        proof {
            reveal_strlit("7");
        }
        "7"
    } else if d == 8 {
        proof {
            reveal_strlit("8");
        }
        "8"
    } else {
        proof {
            reveal_strlit("9");
        }
        "9"
    }
}

/// Render a number in decimal.
pub fn u64_to_string(v: u64) -> (r: String)
    ensures
        r@ == spec_decimal(v as nat),
    decreases v,
{
    if v < 10 {
        let d = digit_str(v);
        let r = d.to_owned();
        proof {
            assert(r@ =~= spec_decimal(v as nat));
        }
        r
    } else {
        let mut r = u64_to_string(v / 10);
        r.append(digit_str(v % 10));
        proof {
            assert(r@ =~= spec_decimal(v as nat));
        }
        r
    }
}

} // verus!
