use vstd::prelude::*;

use crate::errors::PipelineError;
use crate::text::{all_digits, dec_seq, dec_val, digit_val, is_digit_char};
use crate::text::{lemma_dec_seq_digits, lemma_dec_seq_val, lemma_dec_val_prefix_le};

verus! {

/// True of the characters the summary parser treats as blank between a
/// count and its keyword.
pub open spec fn is_blank_char(c: char) -> bool {
    c == ' ' || c == '\t' || c == '\n' || c == '\r' || c as int == 11 || c as int == 12
}

/// First position at or after `i` that does not hold an ASCII digit.
pub open spec fn digit_end(s: Seq<char>, i: int) -> int
    decreases s.len() - i,
{
    if i < 0 || i >= s.len() || !is_digit_char(s[i]) {
        i
    } else {
        digit_end(s, i + 1)
    }
}

/// First position at or after `i` that does not hold a blank character.
pub open spec fn blank_end(s: Seq<char>, i: int) -> int
    decreases s.len() - i,
{
    if i < 0 || i >= s.len() || !is_blank_char(s[i]) {
        i
    } else {
        blank_end(s, i + 1)
    }
}

/// The characters of `t` occur in `s` starting at position `i`.
pub open spec fn has_seq_at(s: Seq<char>, i: int, t: Seq<char>) -> bool {
    0 <= i && i + t.len() <= s.len() && s.subrange(i, i + t.len()) == t
}

/// The parenthesised sign that closes a count clause.
pub open spec fn paren_sign(sign: char) -> Seq<char> {
    seq!['(', sign, ')']
}

/// A count clause begins at position `i`: a run of digits, blanks, the
/// keyword with an optional plural `s`, and the parenthesised sign.
pub open spec fn clause_at(s: Seq<char>, i: int, kw: Seq<char>, sign: char) -> bool {
    let d = digit_end(s, i);
    let w = blank_end(s, d);
    let k = if w + kw.len() < s.len() && s[w + kw.len()] == 's' {
        w + kw.len() + 1
    } else {
        w + kw.len()
    };
    0 <= i && i < s.len() && d > i && w > d && has_seq_at(s, w, kw) && has_seq_at(
        s,
        k,
        paren_sign(sign),
    )
}

/// Position of the leftmost count clause at or after `i`.
pub open spec fn first_clause_from(s: Seq<char>, i: int, kw: Seq<char>, sign: char) -> Option<int>
    decreases s.len() - i,
{
    if i < 0 || i >= s.len() {
        None
    } else if clause_at(s, i, kw, sign) {
        Some(i)
    } else {
        first_clause_from(s, i + 1, kw, sign)
    }
}

/// The number carried by the leftmost `kw` clause of the summary, if any.
pub open spec fn stat_count(s: Seq<char>, kw: Seq<char>, sign: char) -> Option<int> {
    match first_clause_from(s, 0, kw, sign) {
        Some(i) => Some(dec_val(s.subrange(i, digit_end(s, i)))),
        None => None,
    }
}

/// The keyword of the insertion clause.
pub open spec fn insertion_kw() -> Seq<char> {
    seq!['i', 'n', 's', 'e', 'r', 't', 'i', 'o', 'n']
}

/// The keyword of the deletion clause.
pub open spec fn deletion_kw() -> Seq<char> {
    seq!['d', 'e', 'l', 'e', 't', 'i', 'o', 'n']
}

/// Insertions named by the summary; an absent clause means zero.
pub open spec fn spec_insertions(s: Seq<char>) -> int {
    match stat_count(s, insertion_kw(), '+') {
        Some(v) => v,
        None => 0,
    }
}

/// Deletions named by the summary; an absent clause means zero.
pub open spec fn spec_deletions(s: Seq<char>) -> int {
    match stat_count(s, deletion_kw(), '-') {
        Some(v) => v,
        None => 0,
    }
}

/// Both counts of the summary fit the counter type.
pub open spec fn counts_representable(s: Seq<char>) -> bool {
    spec_insertions(s) <= u32::MAX && spec_deletions(s) <= u32::MAX
}

/// The insertion and deletion counts extracted from a change summary.
#[derive(Clone, Copy, Debug, PartialEq, Eq, Structural)]
pub struct ChangeCounts {
    pub insertions: u32,
    pub deletions: u32,
}

fn is_digit_exec(c: char) -> (b: bool)
    ensures
        b == is_digit_char(c),
{
    let v: u32 = c as u32;
    48 <= v && v <= 57
}

fn is_blank_exec(c: char) -> (b: bool)
    ensures
        b == is_blank_char(c),
{
    let v: u32 = c as u32;
    c == ' ' || c == '\t' || c == '\n' || c == '\r' || v == 11 || v == 12
}

fn digit_end_exec(s: &str, i: usize) -> (e: usize)
    requires
        i <= s@.len(),
    ensures
        e == digit_end(s@, i as int),
        i <= e <= s@.len(),
{
    let n = s.unicode_len();
    let mut j = i;
    while j < n && is_digit_exec(s.get_char(j))
        invariant
            i <= j <= n,
            n == s@.len(),
            digit_end(s@, i as int) == digit_end(s@, j as int),
        decreases n - j,
    {
        j = j + 1;
    }
    j
}

fn blank_end_exec(s: &str, i: usize) -> (e: usize)
    requires
        i <= s@.len(),
    ensures
        e == blank_end(s@, i as int),
        i <= e <= s@.len(),
{
    let n = s.unicode_len();
    let mut j = i;
    while j < n && is_blank_exec(s.get_char(j))
        invariant
            i <= j <= n,
            n == s@.len(),
            blank_end(s@, i as int) == blank_end(s@, j as int),
        decreases n - j,
    {
        j = j + 1;
    }
    j
}

/// Decides whether the characters of `t` occur in `s` at position `i`.
fn seq_at_exec(s: &str, i: usize, t: &str) -> (r: bool)
    ensures
        r == has_seq_at(s@, i as int, t@),
{
    let n = s.unicode_len();
    let m = t.unicode_len();
    if i > n || m > n - i {
        return false;
    }
    let mut j: usize = 0;
    while j < m
        invariant
            0 <= j <= m,
            i + m <= n,
            n == s@.len(),
            m == t@.len(),
            forall|q: int| 0 <= q < j ==> s@[i + q] == t@[q],
        decreases m - j,
    {
        if s.get_char(i + j) != t.get_char(j) {
            assert(s@.subrange(i as int, i + m) != t@) by {
                assert(s@.subrange(i as int, i + m)[j as int] == s@[i + j]);
            }
            return false;
        }
        j = j + 1;
    }
    assert(s@.subrange(i as int, i + m) =~= t@);
    true
}

/// Decides whether a count clause for `kw` begins at position `i`.
fn clause_at_exec(s: &str, i: usize, kw: &str, paren: &str, sign: char) -> (r: bool)
    requires
        i < s@.len(),
        paren@ == paren_sign(sign),
    ensures
        r == clause_at(s@, i as int, kw@, sign),
{
    let n = s.unicode_len();
    let d = digit_end_exec(s, i);
    if d == i {
        return false;
    }
    let w = blank_end_exec(s, d);
    if w == d {
        return false;
    }
    let klen = kw.unicode_len();
    if klen > n - w {
        assert(!has_seq_at(s@, w as int, kw@));
        return false;
    }
    if !seq_at_exec(s, w, kw) {
        return false;
    }
    let k: usize = if w + klen < n && s.get_char(w + klen) == 's' {
        w + klen + 1
    } else {
        w + klen
    };
    seq_at_exec(s, k, paren)
}

/// Position of the leftmost count clause for `kw`, scanning from the left.
fn find_clause(s: &str, kw: &str, paren: &str, sign: char) -> (r: Option<usize>)
    requires
        paren@ == paren_sign(sign),
    ensures
        match r {
            Some(i) => first_clause_from(s@, 0, kw@, sign) == Some(i as int),
            None => first_clause_from(s@, 0, kw@, sign) is None,
        },
{
    let n = s.unicode_len();
    let mut i: usize = 0;
    while i < n
        invariant
            0 <= i <= n,
            n == s@.len(),
            first_clause_from(s@, 0, kw@, sign) == first_clause_from(s@, i as int, kw@, sign),
            paren@ == paren_sign(sign),
        decreases n - i,
    {
        if clause_at_exec(s, i, kw, paren, sign) {
            return Some(i);
        }
        i = i + 1;
    }
    None
}

/// Reads the digit run that opens the clause at `i`; `None` when its value
/// exceeds the counter type.
fn clause_value(s: &str, i: usize) -> (r: Option<u32>)
    requires
        i < s@.len(),
        digit_end(s@, i as int) > i,
    ensures
        ({
            let v = dec_val(s@.subrange(i as int, digit_end(s@, i as int)));
            match r {
                Some(c) => c == v,
                None => v > u32::MAX,
            }
        }),
{
    let d = digit_end_exec(s, i);
    let ghost full = s@.subrange(i as int, d as int);
    proof {
        assert forall|q: int| i <= q < d implies is_digit_char(s@[q]) by {
            lemma_digit_run(s@, i as int, q);
        }
        assert(all_digits(full)) by {
            assert(forall|q: int| 0 <= q < full.len() ==> full[q] == s@[i + q]);
        }
    }
    let mut acc: u64 = 0;
    let mut j = i;
    while j < d
        invariant
            i <= j <= d <= s@.len(),
            d == digit_end(s@, i as int),
            full == s@.subrange(i as int, d as int),
            all_digits(full),
            acc == dec_val(s@.subrange(i as int, j as int)),
            acc <= u32::MAX,
        decreases d - j,
    {
        let c = s.get_char(j);
        proof {
            assert(full[j - i] == s@[j as int]);
            assert(is_digit_char(c));
        }
        let dv: u64 = (c as u32 as u64) - 48;
        let next: u64 = acc * 10 + dv;
        proof {
            let pre = s@.subrange(i as int, j as int);
            let post = s@.subrange(i as int, j + 1);
            assert(post.drop_last() =~= pre);
            assert(post.last() == s@[j as int]);
            assert(dec_val(post) == dec_val(pre) * 10 + digit_val(s@[j as int]));
        }
        if next > 0xffff_ffff {
            proof {
                let post = s@.subrange(i as int, j + 1);
                assert(post =~= full.take(j + 1 - i));
                lemma_dec_val_prefix_le(full, j + 1 - i);
            }
            return None;
        }
        acc = next;
        j = j + 1;
    }
    assert(s@.subrange(i as int, d as int) == full);
    Some(acc as u32)
}

/// The digit run before `digit_end` really is all digits.
proof fn lemma_digit_run(s: Seq<char>, i: int, q: int)
    requires
        0 <= i <= q < digit_end(s, i),
    ensures
        is_digit_char(s[q]),
    decreases q - i,
{
    if i < q {
        lemma_digit_run(s, i + 1, q);
    }
}

/// Extracts the insertion and deletion counts from a `--shortstat` change
/// summary. A clause may be absent, in which case its count is zero; a
/// count that does not fit the counter type is rejected.
pub fn parse_shortstat(stat: &str) -> (r: Result<ChangeCounts, PipelineError>)
    ensures
        match r {
            Ok(cc) => counts_representable(stat@) && cc.insertions == spec_insertions(stat@)
                && cc.deletions == spec_deletions(stat@),
            Err(e) => !counts_representable(stat@) && e == PipelineError::CountOutOfRange,
        },
{
    proof {
        reveal_strlit("insertion");
        reveal_strlit("deletion");
        reveal_strlit("(+)");
        reveal_strlit("(-)");
        assert("insertion"@ =~= insertion_kw());
        assert("deletion"@ =~= deletion_kw());
        assert("(+)"@ =~= paren_sign('+'));
        assert("(-)"@ =~= paren_sign('-'));
    }
    let insertions: u32 = match find_clause(stat, "insertion", "(+)", '+') {
        Some(i) => {
            proof {
                lemma_first_clause_in_range(stat@, 0, insertion_kw(), '+');
            }
            match clause_value(stat, i) {
                Some(v) => v,
                None => {
                    return Err(PipelineError::CountOutOfRange);
                },
            }
        },
        None => 0,
    };
    let deletions: u32 = match find_clause(stat, "deletion", "(-)", '-') {
        Some(i) => {
            proof {
                lemma_first_clause_in_range(stat@, 0, deletion_kw(), '-');
            }
            match clause_value(stat, i) {
                Some(v) => v,
                None => {
                    return Err(PipelineError::CountOutOfRange);
                },
            }
        },
        None => 0,
    };
    Ok(ChangeCounts { insertions, deletions })
}

/// A digit run from `i` to `g`, stopped there, is what `digit_end` finds.
proof fn lemma_digit_end_group(s: Seq<char>, i: int, g: int)
    requires
        0 <= i <= g <= s.len(),
        forall|t: int| i <= t < g ==> is_digit_char(s[t]),
        g == s.len() || !is_digit_char(s[g]),
    ensures
        digit_end(s, i) == g,
    decreases g - i,
{
    if i < g {
        lemma_digit_end_group(s, i + 1, g);
    }
}

/// A single blank followed by a non-blank is what `blank_end` crosses.
proof fn lemma_blank_end_single(s: Seq<char>, g: int)
    requires
        0 <= g < s.len(),
        is_blank_char(s[g]),
        g + 1 == s.len() || !is_blank_char(s[g + 1]),
    ensures
        blank_end(s, g) == g + 1,
{
    assert(blank_end(s, g + 1) == g + 1);
}

/// No clause can begin where no digit stands.
proof fn lemma_no_clause_nondigit(s: Seq<char>, i: int, kw: Seq<char>, sign: char)
    requires
        i < 0 || i >= s.len() || !is_digit_char(s[i]),
    ensures
        !clause_at(s, i, kw, sign),
{
}

/// No clause can begin inside a digit run whose following text does not
/// open with the keyword: the run ends at a single blank and the character
/// after it differs from the keyword's first.
proof fn lemma_no_clause_digit_pos(s: Seq<char>, i: int, g: int, kw: Seq<char>, sign: char)
    requires
        0 <= i <= g,
        g + 1 < s.len(),
        forall|t: int| i <= t < g ==> is_digit_char(s[t]),
        s[g] == ' ',
        !is_blank_char(s[g + 1]),
        kw.len() > 0,
        s[g + 1] != kw[0],
    ensures
        !clause_at(s, i, kw, sign),
{
    lemma_digit_end_group(s, i, g);
    if i < g {
        lemma_blank_end_single(s, g);
        if has_seq_at(s, g + 1, kw) {
            assert(s.subrange(g + 1, g + 1 + kw.len())[0] == s[g + 1]);
            assert(false);
        }
    }
}

/// If no clause begins in `[a, b)`, the search result from `a` is the
/// search result from `b`.
proof fn lemma_first_clause_skip(s: Seq<char>, a: int, b: int, kw: Seq<char>, sign: char)
    requires
        0 <= a <= b,
        forall|i: int| a <= i < b ==> !clause_at(s, i, kw, sign),
    ensures
        first_clause_from(s, a, kw, sign) == first_clause_from(s, b, kw, sign),
    decreases b - a,
{
    if a < b {
        if a >= s.len() {
            lemma_first_clause_none_tail(s, b, kw, sign);
        } else {
            lemma_first_clause_skip(s, a + 1, b, kw, sign);
        }
    }
}

/// Past the end of the text the search finds nothing.
proof fn lemma_first_clause_none_tail(s: Seq<char>, a: int, kw: Seq<char>, sign: char)
    requires
        a >= s.len() || a < 0,
    ensures
        first_clause_from(s, a, kw, sign) is None,
{
}

/// If no clause begins anywhere, the search finds nothing.
proof fn lemma_first_clause_none(s: Seq<char>, a: int, kw: Seq<char>, sign: char)
    requires
        0 <= a <= s.len(),
        forall|i: int| a <= i < s.len() ==> !clause_at(s, i, kw, sign),
    ensures
        first_clause_from(s, a, kw, sign) is None,
{
    lemma_first_clause_skip(s, a, s.len() as int, kw, sign);
}

/// The optional plural `s` of a summary word.
pub open spec fn word_s(plural: bool) -> Seq<char> {
    if plural {
        seq!['s']
    } else {
        Seq::<char>::empty()
    }
}

/// One rendered count clause: comma, space, the digits, a space, the
/// keyword with an optional plural, and the parenthesised sign.
pub open spec fn clause_part(digits: Seq<char>, kw: Seq<char>, plural: bool, sign: char) -> Seq<
    char,
> {
    seq![',', ' '] + digits + seq![' '] + kw + word_s(plural) + paren_sign(sign)
}

/// The opening of a rendered summary line: the file count and the words
/// around it.
pub open spec fn files_part(fdigits: Seq<char>, plural: bool) -> Seq<char> {
    fdigits + seq![' ', 'f', 'i', 'l', 'e'] + word_s(plural) + seq![
        ' ',
        'c',
        'h',
        'a',
        'n',
        'g',
        'e',
        'd',
    ]
}

/// Characters of a region of `s` that holds a rendered clause.
proof fn lemma_clause_region_chars(s: Seq<char>, o: int, digits: Seq<char>, kw: Seq<char>, plural: bool, sign: char)
    requires
        has_seq_at(s, o, clause_part(digits, kw, plural, sign)),
    ensures
        s[o] == ',',
        s[o + 1] == ' ',
        forall|t: int| o + 2 <= t < o + 2 + digits.len() ==> s[t] == digits[t - o - 2],
        s[o + 2 + digits.len()] == ' ',
        forall|t: int|
            o + 3 + digits.len() <= t < o + 3 + digits.len() + kw.len() ==> s[t] == kw[t - o - 3
                - digits.len()],
        plural ==> s[o + 3 + digits.len() + kw.len()] == 's',
        s[o + 3 + digits.len() + kw.len() + word_s(plural).len()] == '(',
        s[o + 4 + digits.len() + kw.len() + word_s(plural).len()] == sign,
        s[o + 5 + digits.len() + kw.len() + word_s(plural).len()] == ')',
{
    let cp = clause_part(digits, kw, plural, sign);
    let cl = cp.len() as int;
    assert forall|t: int| o <= t < o + cl implies s[t] == cp[t - o] by {
        assert(s.subrange(o, o + cl)[t - o] == s[t]);
    }
}

/// Inside a rendered clause for one keyword, no clause for a keyword with
/// a different first letter can begin.
proof fn lemma_clause_blocks(
    s: Seq<char>,
    o: int,
    digits: Seq<char>,
    kw: Seq<char>,
    plural: bool,
    sign: char,
    kw2: Seq<char>,
    sign2: char,
)
    requires
        all_digits(digits),
        digits.len() > 0,
        has_seq_at(s, o, clause_part(digits, kw, plural, sign)),
        kw.len() > 0,
        !is_blank_char(kw[0]),
        !is_digit_char(sign),
        forall|j: int| 0 <= j < kw.len() ==> !is_digit_char(kw[j]),
        kw2.len() > 0,
        kw2[0] != kw[0],
    ensures
        forall|i: int|
            o <= i < o + clause_part(digits, kw, plural, sign).len() ==> !clause_at(
                s,
                i,
                kw2,
                sign2,
            ),
{
    let cp = clause_part(digits, kw, plural, sign);
    let cl = cp.len() as int;
    let m = digits.len() as int;
    lemma_clause_region_chars(s, o, digits, kw, plural, sign);
    let g = o + 2 + m;
    assert forall|t: int| g <= t < o + cl implies !is_digit_char(s[t]) by {
        let q = t - o;
        if q == 2 + m {
        } else if q < 3 + m + kw.len() {
            assert(s[t] == kw[q - 3 - m]);
        } else if plural && q == 3 + m + kw.len() {
            assert(s[t] == 's');
        } else if q == 3 + m + kw.len() + word_s(plural).len() {
            assert(s[t] == '(');
        } else if q == 4 + m + kw.len() + word_s(plural).len() {
            assert(s[t] == sign);
        } else {
            assert(s[t] == ')');
        }
    }
    assert forall|i: int| o <= i < o + cl implies !clause_at(s, i, kw2, sign2) by {
        if i == o || i == o + 1 {
            lemma_no_clause_nondigit(s, i, kw2, sign2);
        } else if i < g {
            assert(forall|t: int| i <= t < g ==> is_digit_char(s[t]));
            assert(s[g] == ' ');
            assert(s[g + 1] == kw[0]);
            lemma_no_clause_digit_pos(s, i, g, kw2, sign2);
        } else {
            assert(!is_digit_char(s[i]));
            lemma_no_clause_nondigit(s, i, kw2, sign2);
        }
    }
}

/// A rendered clause really is found as a clause: it begins at its digits
/// and carries exactly them.
proof fn lemma_clause_matches(
    s: Seq<char>,
    o: int,
    digits: Seq<char>,
    kw: Seq<char>,
    plural: bool,
    sign: char,
)
    requires
        all_digits(digits),
        digits.len() > 0,
        has_seq_at(s, o, clause_part(digits, kw, plural, sign)),
        kw.len() > 0,
        !is_blank_char(kw[0]),
        kw[0] != 's' || kw.len() > 1,
    ensures
        clause_at(s, o + 2, kw, sign),
        digit_end(s, o + 2) == o + 2 + digits.len(),
        s.subrange(o + 2, o + 2 + digits.len()) == digits,
{
    let cp = clause_part(digits, kw, plural, sign);
    let cl = cp.len() as int;
    let m = digits.len() as int;
    let kl = kw.len() as int;
    let wl = word_s(plural).len() as int;
    lemma_clause_region_chars(s, o, digits, kw, plural, sign);
    let p = o + 2;
    let g = o + 2 + m;
    assert(o + cl <= s.len());
    lemma_digit_end_group(s, p, g);
    lemma_blank_end_single(s, g);
    let w = g + 1;
    assert(has_seq_at(s, w, kw)) by {
        assert(s.subrange(w, w + kl) =~= kw);
    }
    let k = if w + kl < s.len() && s[w + kl] == 's' {
        w + kl + 1
    } else {
        w + kl
    };
    if plural {
        assert(s[w + kl] == 's');
        assert(k == w + kl + 1);
    } else {
        assert(s[w + kl] == '(');
        assert(k == w + kl);
    }
    assert(has_seq_at(s, k, paren_sign(sign))) by {
        assert(s[o + 3 + m + kl + wl] == '(');
        assert(s[o + 4 + m + kl + wl] == sign);
        assert(s[o + 5 + m + kl + wl] == ')');
        assert(s.subrange(k, k + 3) =~= paren_sign(sign));
    }
    assert(s.subrange(p, g) =~= digits);
}

/// Inside the opening files part, no count clause for a keyword other than
/// `file` can begin.
proof fn lemma_files_blocks(
    s: Seq<char>,
    fdigits: Seq<char>,
    plural: bool,
    kw: Seq<char>,
    sign: char,
)
    requires
        all_digits(fdigits),
        fdigits.len() > 0,
        has_seq_at(s, 0, files_part(fdigits, plural)),
        kw.len() > 0,
        kw[0] != 'f',
    ensures
        forall|i: int|
            0 <= i < files_part(fdigits, plural).len() ==> !clause_at(s, i, kw, sign),
{
    let fpart = files_part(fdigits, plural);
    let fl = fpart.len() as int;
    let f = fdigits.len() as int;
    assert forall|t: int| 0 <= t < fl implies s[t] == fpart[t] by {
        assert(s.subrange(0, fl)[t] == s[t]);
    }
    assert forall|t: int| f <= t < fl implies !is_digit_char(s[t]) by {
        let q = t - f;
        if q < 5 {
            assert(s[t] == seq![' ', 'f', 'i', 'l', 'e'][q]);
        } else if plural && q == 5 {
            assert(s[t] == 's');
        } else {
            assert(s[t] == seq![' ', 'c', 'h', 'a', 'n', 'g', 'e', 'd'][q - 5 - word_s(
                plural,
            ).len()]);
        }
    }
    assert forall|i: int| 0 <= i < fl implies !clause_at(s, i, kw, sign) by {
        if i < f {
            assert(forall|t: int| i <= t < f ==> is_digit_char(s[t]));
            assert(s[f] == ' ');
            assert(s[f + 1] == 'f');
            lemma_no_clause_digit_pos(s, i, f, kw, sign);
        } else {
            lemma_no_clause_nondigit(s, i, kw, sign);
        }
    }
}

/// Shape of one optional count clause of a rendered summary line: its
/// digits and whether its keyword carries the plural `s`.
pub struct ClauseShape {
    pub digits: Seq<char>,
    pub plural: bool,
}

/// A well-shaped clause: at least one digit, digits only.
pub open spec fn clause_shape_ok(c: ClauseShape) -> bool {
    all_digits(c.digits) && c.digits.len() > 0
}

/// A whole rendered summary line: the files part, then the two optional
/// count clauses in either order.
pub open spec fn spec_shortstat_line(
    fdigits: Seq<char>,
    fplural: bool,
    ins: Option<ClauseShape>,
    del: Option<ClauseShape>,
    ins_first: bool,
) -> Seq<char> {
    let ic = match ins {
        Some(c) => clause_part(c.digits, insertion_kw(), c.plural, '+'),
        None => Seq::<char>::empty(),
    };
    let dc = match del {
        Some(c) => clause_part(c.digits, deletion_kw(), c.plural, '-'),
        None => Seq::<char>::empty(),
    };
    if ins_first {
        files_part(fdigits, fplural) + ic + dc
    } else {
        files_part(fdigits, fplural) + dc + ic
    }
}

/// A line that opens with the files part followed by one clause finds that
/// clause's count first.
proof fn lemma_line_clause_found(
    line: Seq<char>,
    fdigits: Seq<char>,
    fplural: bool,
    o: int,
    digits: Seq<char>,
    plural: bool,
    kw: Seq<char>,
    sign: char,
)
    requires
        all_digits(fdigits),
        fdigits.len() > 0,
        all_digits(digits),
        digits.len() > 0,
        has_seq_at(line, 0, files_part(fdigits, fplural)),
        has_seq_at(line, o, clause_part(digits, kw, plural, sign)),
        o >= files_part(fdigits, fplural).len(),
        kw == insertion_kw() || kw == deletion_kw(),
        forall|i: int|
            files_part(fdigits, fplural).len() <= i < o ==> !clause_at(line, i, kw, sign),
    ensures
        stat_count(line, kw, sign) == Some(dec_val(digits)),
{
    let fl = files_part(fdigits, fplural).len() as int;
    lemma_files_blocks(line, fdigits, fplural, kw, sign);
    lemma_clause_matches(line, o, digits, kw, plural, sign);
    lemma_clause_region_chars(line, o, digits, kw, plural, sign);
    let p = o + 2;
    assert forall|i: int| 0 <= i < p implies !clause_at(line, i, kw, sign) by {
        if i == o || i == o + 1 {
            lemma_no_clause_nondigit(line, i, kw, sign);
        }
    }
    lemma_first_clause_skip(line, 0, p, kw, sign);
    assert(first_clause_from(line, p, kw, sign) == Some(p));
    assert(line.subrange(p, digit_end(line, p)) == digits);
}

/// For every summary line of the documented shape — optional insertion and
/// deletion clauses, in either order, singular or plural words — extraction
/// reads off exactly the numbers written in the clauses, and reads an
/// absent clause as no count at all.
#[verifier::rlimit(100)]
#[verifier::spinoff_prover]
pub proof fn lemma_shortstat_extraction(
    fdigits: Seq<char>,
    fplural: bool,
    ins: Option<ClauseShape>,
    del: Option<ClauseShape>,
    ins_first: bool,
)
    requires
        all_digits(fdigits),
        fdigits.len() > 0,
        ins is Some ==> clause_shape_ok(ins->Some_0),
        del is Some ==> clause_shape_ok(del->Some_0),
    ensures
        stat_count(spec_shortstat_line(fdigits, fplural, ins, del, ins_first), insertion_kw(), '+')
            == match ins {
            Some(c) => Some(dec_val(c.digits)),
            None => None::<int>,
        },
        stat_count(spec_shortstat_line(fdigits, fplural, ins, del, ins_first), deletion_kw(), '-')
            == match del {
            Some(c) => Some(dec_val(c.digits)),
            None => None::<int>,
        },
{
    let line = spec_shortstat_line(fdigits, fplural, ins, del, ins_first);
    let fpart = files_part(fdigits, fplural);
    let fl = fpart.len() as int;
    let ic = match ins {
        Some(c) => clause_part(c.digits, insertion_kw(), c.plural, '+'),
        None => Seq::<char>::empty(),
    };
    let dc = match del {
        Some(c) => clause_part(c.digits, deletion_kw(), c.plural, '-'),
        None => Seq::<char>::empty(),
    };
    let o1 = fl;
    let o2 = fl + (if ins_first {
        ic.len() as int
    } else {
        dc.len() as int
    });
    let end = line.len() as int;
    let io = if ins_first {
        o1
    } else {
        o2
    };
    let dlo = if ins_first {
        o2
    } else {
        o1
    };
    assert(end == fl + ic.len() + dc.len());
    assert(has_seq_at(line, 0, fpart)) by {
        assert(line.subrange(0, fl) =~= fpart);
    }
    assert(ins is Some ==> has_seq_at(line, io, ic)) by {
        if ins is Some {
            assert(line.subrange(io, io + ic.len()) =~= ic);
        }
    }
    assert(del is Some ==> has_seq_at(line, dlo, dc)) by {
        if del is Some {
            assert(line.subrange(dlo, dlo + dc.len()) =~= dc);
        }
    }
    // the insertion search
    lemma_files_blocks(line, fdigits, fplural, insertion_kw(), '+');
    if del is Some {
        let c = del->Some_0;
        lemma_clause_blocks(
            line,
            dlo,
            c.digits,
            deletion_kw(),
            c.plural,
            '-',
            insertion_kw(),
            '+',
        );
    }
    match ins {
        Some(c) => {
            lemma_line_clause_found(
                line,
                fdigits,
                fplural,
                io,
                c.digits,
                c.plural,
                insertion_kw(),
                '+',
            );
        },
        None => {
            lemma_first_clause_none(line, 0, insertion_kw(), '+');
        },
    }
    // the deletion search
    lemma_files_blocks(line, fdigits, fplural, deletion_kw(), '-');
    if ins is Some {
        let c = ins->Some_0;
        lemma_clause_blocks(
            line,
            io,
            c.digits,
            insertion_kw(),
            c.plural,
            '+',
            deletion_kw(),
            '-',
        );
    }
    match del {
        Some(c) => {
            lemma_line_clause_found(
                line,
                fdigits,
                fplural,
                dlo,
                c.digits,
                c.plural,
                deletion_kw(),
                '-',
            );
        },
        None => {
            lemma_first_clause_none(line, 0, deletion_kw(), '-');
        },
    }
}

/// The number a clause writes for `n` changed lines of one kind.
pub open spec fn clause_of_count(n: Option<u32>, plural: bool) -> Option<ClauseShape> {
    match n {
        Some(m) => Some(ClauseShape { digits: dec_seq(m as int), plural }),
        None => None,
    }
}

/// The extraction law over numbers: a summary line written for `files`
/// changed files and the given optional insertion and deletion counts, in
/// either order, yields exactly those counts back, with an absent clause
/// read as zero.
pub proof fn lemma_shortstat_counts(
    files: u32,
    fplural: bool,
    ins_count: Option<u32>,
    ins_plural: bool,
    del_count: Option<u32>,
    del_plural: bool,
    ins_first: bool,
)
    ensures
        ({
            let line = spec_shortstat_line(
                dec_seq(files as int),
                fplural,
                clause_of_count(ins_count, ins_plural),
                clause_of_count(del_count, del_plural),
                ins_first,
            );
            spec_insertions(line) == (match ins_count {
                Some(m) => m as int,
                None => 0,
            }) && spec_deletions(line) == (match del_count {
                Some(k) => k as int,
                None => 0,
            }) && counts_representable(line)
        }),
{
    lemma_dec_seq_digits(files as int);
    let ins = clause_of_count(ins_count, ins_plural);
    let del = clause_of_count(del_count, del_plural);
    if ins_count is Some {
        lemma_dec_seq_digits(ins_count->Some_0 as int);
        lemma_dec_seq_val(ins_count->Some_0 as int);
    }
    if del_count is Some {
        lemma_dec_seq_digits(del_count->Some_0 as int);
        lemma_dec_seq_val(del_count->Some_0 as int);
    }
    lemma_shortstat_extraction(dec_seq(files as int), fplural, ins, del, ins_first);
}

/// A found clause lies in range and opens with at least one digit.
proof fn lemma_first_clause_in_range(s: Seq<char>, i: int, kw: Seq<char>, sign: char)
    requires
        first_clause_from(s, i, kw, sign) is Some,
    ensures
        ({
            let p = first_clause_from(s, i, kw, sign)->Some_0;
            0 <= p < s.len() && digit_end(s, p) > p && clause_at(s, p, kw, sign)
        }),
    decreases s.len() - i,
{
    if 0 <= i < s.len() && !clause_at(s, i, kw, sign) {
        lemma_first_clause_in_range(s, i + 1, kw, sign);
    }
}

} // verus!
