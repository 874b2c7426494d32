use vstd::prelude::*;
use std::collections::HashMap;
use crate::text::{
    is_whitespace_char, parse_u64, parse_usize, spec_is_whitespace, spec_parse_u64,
    spec_parse_usize, spec_strip_leading, spec_strip_trailing, strip_leading, strip_trailing,
};

verus! {

/// `s` without leading whitespace.
pub open spec fn spec_trim_start(s: Seq<char>) -> Seq<char>
    decreases s.len(),
{
    if s.len() > 0 && spec_is_whitespace(s[0]) {
        spec_trim_start(s.drop_first())
    } else {
        s
    }
}

/// `s` without trailing whitespace.
pub open spec fn spec_trim_end(s: Seq<char>) -> Seq<char>
    decreases s.len(),
{
    if s.len() > 0 && spec_is_whitespace(s.last()) {
        spec_trim_end(s.drop_last())
    } else {
        s
    }
}

/// `s` without leading or trailing whitespace, as `str::trim` leaves it.
pub open spec fn spec_trim(s: Seq<char>) -> Seq<char> {
    spec_trim_end(spec_trim_start(s))
}

proof fn lemma_trim_start(s: Seq<char>, k: int)
    requires
        0 <= k <= s.len(),
        forall|j: int| 0 <= j < k ==> spec_is_whitespace(#[trigger] s[j]),
        k == s.len() || !spec_is_whitespace(s[k]),
    ensures
        spec_trim_start(s) == s.subrange(k, s.len() as int),
    decreases k,
{
    if k == 0 {
        assert(spec_trim_start(s) =~= s.subrange(0, s.len() as int));
    } else {
        let t = s.drop_first();
        assert(forall|j: int| 0 <= j < k - 1 ==> spec_is_whitespace(#[trigger] t[j]));
        lemma_trim_start(t, k - 1);
        assert(t.subrange(k - 1, t.len() as int) =~= s.subrange(k, s.len() as int));
    }
}

proof fn lemma_trim_end(s: Seq<char>, k: int)
    requires
        0 <= k <= s.len(),
        forall|j: int| k <= j < s.len() ==> spec_is_whitespace(#[trigger] s[j]),
        k == 0 || !spec_is_whitespace(s[k - 1]),
    ensures
        spec_trim_end(s) == s.subrange(0, k),
    decreases s.len(),
{
    if k < s.len() {
        let t = s.drop_last();
        assert(forall|j: int| k <= j < t.len() ==> spec_is_whitespace(#[trigger] t[j]));
        lemma_trim_end(t, k);
        assert(t.subrange(0, k) =~= s.subrange(0, k));
    } else {
        assert(spec_trim_end(s) =~= s.subrange(0, s.len() as int));
    }
}

/// Remove leading and trailing whitespace.
#[verifier::loop_isolation(false)]
pub fn trim_str(s: &str) -> (r: String)
    ensures
        r@ == spec_trim(s@),
{
    let len = s.unicode_len();
    let mut a: usize = 0;
    while a < len && is_whitespace_char(s.get_char(a))
        invariant
            a <= len,
            forall|j: int| 0 <= j < a ==> spec_is_whitespace(#[trigger] s@[j]),
        decreases len - a,
    {
        a += 1;
    }
    proof {
        lemma_trim_start(s@, a as int);
    }
    let mut b: usize = len;
    while b > a && is_whitespace_char(s.get_char(b - 1))
        invariant
            a <= b <= len,
            forall|j: int| b <= j < len ==> spec_is_whitespace(#[trigger] s@[j]),
        decreases b,
    {
        b -= 1;
    }
    let ghost mid = s@.subrange(a as int, len as int);
    proof {
        assert(forall|j: int|
            b - a <= j < mid.len() ==> spec_is_whitespace(#[trigger] mid[j]));
        if b > a {
            assert(!spec_is_whitespace(mid[b - a - 1]));
        }
        lemma_trim_end(mid, b - a as int);
        assert(mid.subrange(0, b - a as int) =~= s@.subrange(a as int, b as int));
    }
    let r = s.substring_char(a, b);
    r.to_owned()
}

/// Whether the pair separator `),(` stands at index `i` of `s`.
pub open spec fn spec_sep_at(s: Seq<char>, i: int) -> bool {
    &&& i + 3 <= s.len()
    &&& s[i] == ')'
    &&& s[i + 1] == ','
    &&& s[i + 2] == '('
}

/// The prefix of `s` up to the first pair separator.
pub open spec fn spec_take_pair(s: Seq<char>) -> Seq<char>
    decreases s.len(),
{
    if s.len() == 0 || spec_sep_at(s, 0) {
        Seq::empty()
    } else {
        seq![s[0]] + spec_take_pair(s.drop_first())
    }
}

proof fn lemma_take_pair_len(s: Seq<char>)
    ensures
        spec_take_pair(s).len() <= s.len(),
        spec_take_pair(s).len() < s.len() ==> spec_sep_at(s, spec_take_pair(s).len() as int),
    decreases s.len(),
{
    if !(s.len() == 0 || spec_sep_at(s, 0)) {
        let t = s.drop_first();
        lemma_take_pair_len(t);
        if spec_take_pair(s).len() < s.len() {
            assert(spec_take_pair(t).len() < t.len());
            assert(spec_sep_at(t, spec_take_pair(t).len() as int));
            assert(spec_sep_at(s, spec_take_pair(s).len() as int));
        }
    }
}

/// The chunks of `s` between pair separators, as `str::split` with the
/// separator `),(` yields them.
pub open spec fn spec_split_pairs(s: Seq<char>) -> Seq<Seq<char>>
    decreases s.len(),
    via spec_split_pairs_decreases
{
    let p = spec_take_pair(s);
    if p.len() == s.len() {
        seq![s]
    } else {
        seq![p] + spec_split_pairs(s.skip(p.len() as int + 3))
    }
}

#[via_fn]
proof fn spec_split_pairs_decreases(s: Seq<char>) {
    lemma_take_pair_len(s);
}

proof fn lemma_take_pair(s: Seq<char>, k: int)
    requires
        0 <= k <= s.len(),
        forall|j: int| 0 <= j < k ==> !spec_sep_at(s, j),
        k == s.len() || spec_sep_at(s, k),
    ensures
        spec_take_pair(s) == s.subrange(0, k),
    decreases k,
{
    if k == 0 {
        assert(spec_take_pair(s) =~= s.subrange(0, 0));
    } else {
        let t = s.drop_first();
        assert(forall|j: int| 0 <= j < k - 1 ==> !spec_sep_at(t, j)) by {
            assert(forall|j: int|
                0 <= j < k - 1 ==> (spec_sep_at(t, j) == spec_sep_at(s, j + 1)));
        }
        assert(k - 1 == t.len() || spec_sep_at(t, k - 1));
        assert(!spec_sep_at(s, 0));
        lemma_take_pair(t, k - 1);
        assert(spec_take_pair(s) =~= s.subrange(0, k));
    }
}

/// Split `s` at every `),(` separator.
#[verifier::loop_isolation(false)]
#[verifier::rlimit(60)]
pub fn split_pairs(s: &str) -> (r: Vec<String>)
    ensures
        r@.map_values(|p: String| p@) == spec_split_pairs(s@),
{
    let len = s.unicode_len();
    let mut chunks: Vec<String> = Vec::new();
    let mut i: usize = 0;
    proof {
        assert(chunks@.map_values(|p: String| p@) =~= Seq::<Seq<char>>::empty());
        assert(s@.subrange(0, len as int) =~= s@);
    }
    let mut done = false;
    while !done
        invariant
            i <= len,
            done ==> spec_split_pairs(s@) == chunks@.map_values(|p: String| p@),
            !done ==> spec_split_pairs(s@) == chunks@.map_values(|p: String| p@)
                + spec_split_pairs(s@.subrange(i as int, len as int)),
        decreases len - i + 1, (if done { 0int } else { 1int }),
    {
        let mut j: usize = i;
        while j < len && !(len >= 3 && j <= len - 3 && s.get_char(j) == ')' && s.get_char(j + 1)
            == ',' && s.get_char(j + 2) == '(')
            invariant
                i <= j <= len,
                forall|m: int| i <= m < j ==> !spec_sep_at(s@, m),
            decreases len - j,
        {
            j += 1;
        }
        let ghost rest = s@.subrange(i as int, len as int);
        proof {
            assert(forall|m: int| 0 <= m < j - i ==> !spec_sep_at(rest, m)) by {
                assert(forall|m: int|
                    0 <= m < j - i ==> (spec_sep_at(rest, m) == spec_sep_at(s@, m + i)));
            }
            if j < len {
                assert(spec_sep_at(s@, j as int));
                assert(spec_sep_at(rest, j - i));
            } else {
                assert(forall|m: int|
                    j - i <= m < rest.len() ==> !spec_sep_at(rest, m)) by {
                    assert(forall|m: int|
                        j - i <= m < rest.len() ==> (spec_sep_at(rest, m) == spec_sep_at(
                            s@,
                            m + i,
                        )));
                    assert(forall|m: int| j <= m < len ==> !spec_sep_at(s@, m));
                }
                lemma_take_pair(rest, rest.len() as int);
            }
            if j < len {
                lemma_take_pair(rest, j - i);
            }
            assert(rest.subrange(0, (j - i) as int) =~= s@.subrange(i as int, j as int));
        }
        let chunk = s.substring_char(i, j);
        let owned = chunk.to_owned();
        if j < len {
            proof {
                assert(rest.skip((j - i) + 3) =~= s@.subrange(j + 3, len as int));
                assert(spec_split_pairs(rest) == seq![owned@] + spec_split_pairs(
                    s@.subrange(j + 3, len as int),
                ));
                assert(chunks@.push(owned).map_values(|p: String| p@) =~= chunks@.map_values(
                    |p: String| p@,
                ).push(owned@));
                assert(chunks@.map_values(|p: String| p@) + spec_split_pairs(rest)
                    =~= chunks@.push(owned).map_values(|p: String| p@) + spec_split_pairs(
                    s@.subrange(j + 3, len as int),
                ));
            }
            chunks.push(owned);
            i = j + 3;
        } else {
            proof {
                assert(spec_take_pair(rest).len() == rest.len());
                assert(spec_split_pairs(rest) =~= seq![rest]);
                assert(owned@ == rest);
                assert(chunks@.push(owned).map_values(|p: String| p@) =~= chunks@.map_values(
                    |p: String| p@,
                ).push(owned@));
                assert(chunks@.map_values(|p: String| p@) + spec_split_pairs(rest)
                    =~= chunks@.push(owned).map_values(|p: String| p@));
            }
            chunks.push(owned);
            i = len;
            done = true;
        }
    }
    chunks
}

/// The pieces of `s` between commas, as `str::split(',')` yields them.
pub open spec fn spec_take_field(s: Seq<char>) -> Seq<char>
    decreases s.len(),
{
    if s.len() == 0 || s[0] == ',' {
        Seq::empty()
    } else {
        seq![s[0]] + spec_take_field(s.drop_first())
    }
}

/// Split `s` at every comma.
pub open spec fn spec_split_fields(s: Seq<char>) -> Seq<Seq<char>>
    decreases s.len(),
    via spec_split_fields_decreases
{
    let p = spec_take_field(s);
    if p.len() == s.len() {
        seq![s]
    } else {
        seq![p] + spec_split_fields(s.skip(p.len() as int + 1))
    }
}

proof fn lemma_take_field_len(s: Seq<char>)
    ensures
        spec_take_field(s).len() <= s.len(),
        spec_take_field(s).len() < s.len() ==> s[spec_take_field(s).len() as int] == ',',
    decreases s.len(),
{
    if !(s.len() == 0 || s[0] == ',') {
        lemma_take_field_len(s.drop_first());
    }
}

#[via_fn]
proof fn spec_split_fields_decreases(s: Seq<char>) {
    lemma_take_field_len(s);
}

proof fn lemma_take_field(s: Seq<char>, k: int)
    requires
        0 <= k <= s.len(),
        forall|j: int| 0 <= j < k ==> s[j] != ',',
        k == s.len() || s[k] == ',',
    ensures
        spec_take_field(s) == s.subrange(0, k),
    decreases k,
{
    if k == 0 {
        assert(spec_take_field(s) =~= s.subrange(0, 0));
    } else {
        let t = s.drop_first();
        assert(forall|j: int| 0 <= j < k - 1 ==> t[j] != ',');
        lemma_take_field(t, k - 1);
        assert(spec_take_field(s) =~= s.subrange(0, k));
    }
}

/// Split `s` at every comma.
#[verifier::loop_isolation(false)]
#[verifier::rlimit(60)]
pub fn split_fields(s: &str) -> (r: Vec<String>)
    ensures
        r@.map_values(|p: String| p@) == spec_split_fields(s@),
{
    let len = s.unicode_len();
    let mut chunks: Vec<String> = Vec::new();
    let mut i: usize = 0;
    proof {
        assert(chunks@.map_values(|p: String| p@) =~= Seq::<Seq<char>>::empty());
        assert(s@.subrange(0, len as int) =~= s@);
    }
    let mut done = false;
    while !done
        invariant
            i <= len,
            done ==> spec_split_fields(s@) == chunks@.map_values(|p: String| p@),
            !done ==> spec_split_fields(s@) == chunks@.map_values(|p: String| p@)
                + spec_split_fields(s@.subrange(i as int, len as int)),
        decreases len - i + 1, (if done { 0int } else { 1int }),
    {
        let mut j: usize = i;
        while j < len && s.get_char(j) != ','
            invariant
                i <= j <= len,
                forall|m: int| i <= m < j ==> s@[m] != ',',
            decreases len - j,
        {
            j += 1;
        }
        let ghost rest = s@.subrange(i as int, len as int);
        proof {
            assert(forall|m: int| 0 <= m < j - i ==> rest[m] != ',');
            if j < len {
                assert(rest[(j - i) as int] == ',');
            }
            lemma_take_field(rest, j - i);
            assert(rest.subrange(0, (j - i) as int) =~= s@.subrange(i as int, j as int));
        }
        let chunk = s.substring_char(i, j);
        let owned = chunk.to_owned();
        if j < len {
            proof {
                assert(rest.skip((j - i) + 1) =~= s@.subrange(j + 1, len as int));
                assert(spec_split_fields(rest) == seq![owned@] + spec_split_fields(
                    s@.subrange(j + 1, len as int),
                ));
                assert(chunks@.push(owned).map_values(|p: String| p@) =~= chunks@.map_values(
                    |p: String| p@,
                ).push(owned@));
                assert(chunks@.map_values(|p: String| p@) + spec_split_fields(rest)
                    =~= chunks@.push(owned).map_values(|p: String| p@) + spec_split_fields(
                    s@.subrange(j + 1, len as int),
                ));
            }
            chunks.push(owned);
            i = j + 1;
        } else {
            proof {
                assert(spec_take_field(rest).len() == rest.len());
                assert(spec_split_fields(rest) =~= seq![rest]);
                assert(owned@ == rest);
                assert(chunks@.push(owned).map_values(|p: String| p@) =~= chunks@.map_values(
                    |p: String| p@,
                ).push(owned@));
                assert(chunks@.map_values(|p: String| p@) + spec_split_fields(rest)
                    =~= chunks@.push(owned).map_values(|p: String| p@));
            }
            chunks.push(owned);
            i = len;
            done = true;
        }
    }
    chunks
}

/// A parenthesis, as `trim_matches` removes it at either end of a pair.
pub open spec fn spec_is_paren(c: char) -> bool {
    c == '(' || c == ')'
}

/// `s` without leading parentheses.
pub open spec fn spec_trim_start_paren(s: Seq<char>) -> Seq<char>
    decreases s.len(),
{
    if s.len() > 0 && spec_is_paren(s[0]) {
        spec_trim_start_paren(s.drop_first())
    } else {
        s
    }
}

/// `s` without trailing parentheses.
pub open spec fn spec_trim_end_paren(s: Seq<char>) -> Seq<char>
    decreases s.len(),
{
    if s.len() > 0 && spec_is_paren(s.last()) {
        spec_trim_end_paren(s.drop_last())
    } else {
        s
    }
}

/// `s` without parentheses at either end.
pub open spec fn spec_trim_parens(s: Seq<char>) -> Seq<char> {
    spec_trim_end_paren(spec_trim_start_paren(s))
}

proof fn lemma_trim_start_paren(s: Seq<char>, k: int)
    requires
        0 <= k <= s.len(),
        forall|j: int| 0 <= j < k ==> spec_is_paren(#[trigger] s[j]),
        k == s.len() || !spec_is_paren(s[k]),
    ensures
        spec_trim_start_paren(s) == s.subrange(k, s.len() as int),
    decreases k,
{
    if k == 0 {
        assert(spec_trim_start_paren(s) =~= s.subrange(0, s.len() as int));
    } else {
        let t = s.drop_first();
        assert(forall|j: int| 0 <= j < k - 1 ==> spec_is_paren(#[trigger] t[j]));
        lemma_trim_start_paren(t, k - 1);
        assert(t.subrange(k - 1, t.len() as int) =~= s.subrange(k, s.len() as int));
    }
}

proof fn lemma_trim_end_paren(s: Seq<char>, k: int)
    requires
        0 <= k <= s.len(),
        forall|j: int| k <= j < s.len() ==> spec_is_paren(#[trigger] s[j]),
        k == 0 || !spec_is_paren(s[k - 1]),
    ensures
        spec_trim_end_paren(s) == s.subrange(0, k),
    decreases s.len(),
{
    if k < s.len() {
        let t = s.drop_last();
        assert(forall|j: int| k <= j < t.len() ==> spec_is_paren(#[trigger] t[j]));
        lemma_trim_end_paren(t, k);
        assert(t.subrange(0, k) =~= s.subrange(0, k));
    } else {
        assert(spec_trim_end_paren(s) =~= s.subrange(0, s.len() as int));
    }
}

/// Remove parentheses from both ends of `s`.
#[verifier::loop_isolation(false)]
fn trim_parens(s: &str) -> (r: String)
    ensures
        r@ == spec_trim_parens(s@),
{
    let len = s.unicode_len();
    let mut a: usize = 0;
    while a < len && (s.get_char(a) == '(' || s.get_char(a) == ')')
        invariant
            a <= len,
            forall|j: int| 0 <= j < a ==> spec_is_paren(#[trigger] s@[j]),
        decreases len - a,
    {
        a += 1;
    }
    proof {
        lemma_trim_start_paren(s@, a as int);
    }
    let mut b: usize = len;
    while b > a && (s.get_char(b - 1) == '(' || s.get_char(b - 1) == ')')
        invariant
            a <= b <= len,
            forall|j: int| b <= j < len ==> spec_is_paren(#[trigger] s@[j]),
        decreases b,
    {
        b -= 1;
    }
    let ghost mid = s@.subrange(a as int, len as int);
    proof {
        assert(forall|j: int| b - a <= j < mid.len() ==> spec_is_paren(#[trigger] mid[j]));
        if b > a {
            assert(!spec_is_paren(mid[b - a - 1]));
        }
        lemma_trim_end_paren(mid, b - a as int);
        assert(mid.subrange(0, b - a as int) =~= s@.subrange(a as int, b as int));
    }
    let r = s.substring_char(a, b);
    r.to_owned()
}

/// What one pair chunk names: a register index and its value, or nothing
/// when the chunk is not `index,value` with both numbers in range.
pub open spec fn spec_parse_pair(p: Seq<char>) -> Option<(usize, u64)> {
    let clean = spec_trim_parens(p);
    let nums = spec_split_fields(clean);
    if nums.len() != 2 {
        None
    } else {
        match (spec_parse_usize(spec_trim(nums[0])), spec_parse_u64(spec_trim(nums[1]))) {
            (Some(register), Some(value)) => Some((register, value)),
            _ => None,
        }
    }
}

/// The register seeds named by the chunks from index `k` on, or nothing at
/// the first malformed chunk.
pub open spec fn spec_parse_pairs(pairs: Seq<Seq<char>>, k: int) -> Option<Seq<(usize, u64)>>
    decreases pairs.len() - k,
{
    if k < 0 || k >= pairs.len() {
        Some(Seq::empty())
    } else {
        match spec_parse_pair(pairs[k]) {
            Some(entry) => match spec_parse_pairs(pairs, k + 1) {
                Some(rest) => Some(seq![entry] + rest),
                None => None,
            },
            None => None,
        }
    }
}

/// What a register-preseed argument names. The text is `[(i,v),(i,v)]` with
/// optional whitespace: an empty (or all-whitespace) text names no seeds;
/// otherwise the brackets are stripped, the text is split at every `),(`,
/// and every chunk must read as an index-value pair.
pub open spec fn spec_parse_preseed(s: Seq<char>) -> Option<Seq<(usize, u64)>> {
    let t = spec_trim(s);
    if t.len() == 0 {
        Some(Seq::empty())
    } else {
        let inner = spec_strip_trailing(spec_strip_leading(t, '['), ']');
        spec_parse_pairs(spec_split_pairs(inner), 0)
    }
}

/// The register file a seed list builds: later entries for the same
/// register win, as repeated insertions would.
pub open spec fn spec_preseed_map(entries: Seq<(usize, u64)>) -> Map<usize, u64>
    decreases entries.len(),
{
    if entries.len() == 0 {
        Map::empty()
    } else {
        spec_preseed_map(entries.drop_last()).insert(entries.last().0, entries.last().1)
    }
}

/// The whole list read from chunk `k` on, continued after the seeds
/// already read.
pub open spec fn spec_parse_pairs_from(
    pairs: Seq<Seq<char>>,
    k: int,
    entries: Seq<(usize, u64)>,
) -> Option<Seq<(usize, u64)>> {
    match spec_parse_pairs(pairs, k) {
        Some(rest) => Some(entries + rest),
        None => None,
    }
}

/// Read a register-preseed argument, `[(index,value),...]`, into a register
/// file. Nothing is returned exactly when the text is neither empty nor a
/// bracketed list of well-formed pairs.
#[verifier::loop_isolation(false)]
#[verifier::rlimit(60)]
pub fn parse_register_preseed(input: &str) -> (r: Option<HashMap<usize, u64>>)
    ensures
        match r {
            Some(m) => (spec_parse_preseed(input@) matches Some(entries) && m@
                == spec_preseed_map(entries)),
            None => spec_parse_preseed(input@) is None,
        },
{
    let trimmed = trim_str(input);
    if trimmed.as_str().unicode_len() == 0 {
        let m: HashMap<usize, u64> = HashMap::new();
        proof {
            assert(spec_preseed_map(Seq::<(usize, u64)>::empty()) =~= Map::<usize, u64>::empty());
        }
        return Some(m);
    }
    let no_open = strip_leading(trimmed.as_str(), '[');
    let inner = strip_trailing(no_open.as_str(), ']');
    let pairs = split_pairs(inner.as_str());
    let ghost pv = pairs@.map_values(|p: String| p@);
    let mut m: HashMap<usize, u64> = HashMap::new();
    let ghost mut entries: Seq<(usize, u64)> = Seq::empty();
    let n = pairs.len();
    let mut k: usize = 0;
    proof {
        assert(spec_preseed_map(entries) =~= Map::<usize, u64>::empty());
        assert(entries + spec_parse_pairs(pv, 0).unwrap_or(Seq::empty()) =~= spec_parse_pairs(
            pv,
            0,
        ).unwrap_or(Seq::empty()));
        assert(spec_parse_pairs_from(pv, 0, entries) == spec_parse_pairs(pv, 0)) by {
            if spec_parse_pairs(pv, 0) is Some {
                assert(entries + spec_parse_pairs(pv, 0).unwrap() =~= spec_parse_pairs(
                    pv,
                    0,
                ).unwrap());
            }
        }
    }
    while k < n
        invariant
            k <= n,
            n == pairs@.len(),
            spec_parse_pairs(pv, 0) == spec_parse_pairs_from(pv, k as int, entries),
            m@ == spec_preseed_map(entries),
        decreases n - k,
    {
        proof {
            assert(pv[k as int] == pairs@[k as int]@);
        }
        let clean = trim_parens(pairs[k].as_str());
        let nums = split_fields(clean.as_str());
        let ghost nv = nums@.map_values(|f: String| f@);
        if nums.len() != 2 {
            proof {
                assert(spec_parse_pair(pv[k as int]) is None);
            }
            return None;
        }
        proof {
            assert(nv[0] == nums@[0]@);
            assert(nv[1] == nums@[1]@);
        }
        let reg_text = trim_str(nums[0].as_str());
        let val_text = trim_str(nums[1].as_str());
        let register = match parse_usize(reg_text.as_str()) {
            Some(x) => x,
            None => {
                proof {
                    assert(spec_parse_pair(pv[k as int]) is None);
                }
                return None;
            },
        };
        let value = match parse_u64(val_text.as_str()) {
            Some(x) => x,
            None => {
                proof {
                    assert(spec_parse_pair(pv[k as int]) is None);
                }
                return None;
            },
        };
        m.insert(register, value);
        proof {
            assert(spec_parse_pair(pv[k as int]) == Some((register, value)));
            let prev = entries;
            entries = entries.push((register, value));
            assert(entries.drop_last() =~= prev);
            assert(spec_preseed_map(entries) == spec_preseed_map(prev).insert(register, value));
            assert(spec_parse_pairs(pv, 0) == spec_parse_pairs_from(pv, k as int + 1, entries))
                by {
                if spec_parse_pairs(pv, k as int + 1) is Some {
                    assert(prev + (seq![(register, value)] + spec_parse_pairs(
                        pv,
                        k as int + 1,
                    ).unwrap()) =~= entries + spec_parse_pairs(pv, k as int + 1).unwrap());
                }
            }
        }
        k += 1;
    }
    proof {
        assert(spec_parse_pairs(pv, k as int) == Some(Seq::<(usize, u64)>::empty()));
        assert(entries + Seq::<(usize, u64)>::empty() =~= entries);
    }
    Some(m)
}

} // verus!
