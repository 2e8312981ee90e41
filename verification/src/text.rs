//! Character-sequence utilities shared by the normalizers and the catalog
//! matcher: ASCII case folding, substring search, whitespace trimming, and
//! conversions between `String` and `Vec<char>`.
//!
//! All contracts are stated over `Seq<char>`, the view of `String` and `&str`.
//! Case folding is ASCII-only: the keyword tables and size patterns this
//! library matches against are ASCII, and ASCII folding keeps every sequence
//! the same length, so positions found in the folded text are valid in the
//! original text.

use vstd::prelude::*;

verus! {

/// ASCII lowercase of one character; any character outside 'A'..'Z' is kept.
pub open spec fn lower_char(c: char) -> char {
    match c {
        'A' => 'a',
        'B' => 'b',
        'C' => 'c',
        'D' => 'd',
        'E' => 'e',
        'F' => 'f',
        'G' => 'g',
        'H' => 'h',
        'I' => 'i',
        'J' => 'j',
        'K' => 'k',
        'L' => 'l',
        'M' => 'm',
        'N' => 'n',
        'O' => 'o',
        'P' => 'p',
        'Q' => 'q',
        'R' => 'r',
        'S' => 's',
        'T' => 't',
        'U' => 'u',
        'V' => 'v',
        'W' => 'w',
        'X' => 'x',
        'Y' => 'y',
        'Z' => 'z',
        _ => c,
    }
}

/// ASCII lowercase of a character sequence.
pub open spec fn lower(s: Seq<char>) -> Seq<char> {
    s.map_values(|c: char| lower_char(c))
}

/// `pat` occurs in `s` starting at position `i`.
pub open spec fn matches_at(s: Seq<char>, pat: Seq<char>, i: int) -> bool {
    0 <= i && i + pat.len() <= s.len() && s.subrange(i, i + pat.len()) == pat
}

/// `pat` occurs somewhere in `s` (the empty pattern occurs in every sequence).
pub open spec fn contains_seq(s: Seq<char>, pat: Seq<char>) -> bool {
    exists|i: int| matches_at(s, pat, i)
}

/// Position of the first occurrence of `pat` in `s` at or after `from`.
pub open spec fn first_match_from(s: Seq<char>, pat: Seq<char>, from: int) -> Option<int>
    decreases s.len() + 1 - from,
{
    if from < 0 || from + pat.len() > s.len() {
        None
    } else if matches_at(s, pat, from) {
        Some(from)
    } else {
        first_match_from(s, pat, from + 1)
    }
}

/// Position of the first occurrence of `pat` in `s`.
pub open spec fn first_match(s: Seq<char>, pat: Seq<char>) -> Option<int> {
    first_match_from(s, pat, 0)
}

/// ASCII whitespace, the characters stripped from the ends by trimming.
pub open spec fn is_ws(c: char) -> bool {
    c == ' ' || c == '\t' || c == '\n' || c == '\r'
}

/// `s` with leading ASCII whitespace removed.
pub open spec fn trim_start_spec(s: Seq<char>) -> Seq<char>
    decreases s.len(),
{
    if s.len() > 0 && is_ws(s[0]) {
        trim_start_spec(s.drop_first())
    } else {
        s
    }
}

/// `s` with trailing ASCII whitespace removed.
pub open spec fn trim_end_spec(s: Seq<char>) -> Seq<char>
    decreases s.len(),
{
    if s.len() > 0 && is_ws(s[s.len() - 1]) {
        trim_end_spec(s.drop_last())
    } else {
        s
    }
}

/// `s` with ASCII whitespace removed from both ends.
pub open spec fn trim_spec(s: Seq<char>) -> Seq<char> {
    trim_end_spec(trim_start_spec(s))
}

/// Dropping one leading whitespace character first does not change the result
/// of trimming the start.
proof fn lemma_trim_start_index(s: Seq<char>, i: int)
    requires
        0 <= i <= s.len(),
        forall|j: int| 0 <= j < i ==> is_ws(s[j]),
        i == s.len() || !is_ws(s[i]),
    ensures
        trim_start_spec(s) == s.subrange(i, s.len() as int),
    decreases i,
{
    if i == 0 {
        assert(s.subrange(0, s.len() as int) =~= s);
    } else {
        assert(is_ws(s[0]));
        lemma_trim_start_index(s.drop_first(), i - 1);
        assert(s.drop_first().subrange(i - 1, s.drop_first().len() as int) =~= s.subrange(
            i,
            s.len() as int,
        ));
    }
}

/// Trimming the end keeps exactly the prefix before the trailing whitespace.
proof fn lemma_trim_end_index(s: Seq<char>, i: int)
    requires
        0 <= i <= s.len(),
        forall|j: int| i <= j < s.len() ==> is_ws(s[j]),
        i == 0 || !is_ws(s[i - 1]),
    ensures
        trim_end_spec(s) == s.subrange(0, i),
    decreases s.len() - i,
{
    if i == s.len() {
        if s.len() > 0 && is_ws(s[s.len() - 1]) {
            assert(false);
        }
        assert(s.subrange(0, i) =~= s);
    } else {
        assert(is_ws(s[s.len() - 1]));
        lemma_trim_end_index(s.drop_last(), i);
        assert(s.drop_last().subrange(0, i) =~= s.subrange(0, i));
    }
}

/// ASCII lowercase of one character.
pub fn lower_char_exec(c: char) -> (r: char)
    ensures
        r == lower_char(c),
{
    match c {
        'A' => 'a',
        'B' => 'b',
        'C' => 'c',
        'D' => 'd',
        'E' => 'e',
        'F' => 'f',
        'G' => 'g',
        'H' => 'h',
        'I' => 'i',
        'J' => 'j',
        'K' => 'k',
        'L' => 'l',
        'M' => 'm',
        'N' => 'n',
        'O' => 'o',
        'P' => 'p',
        'Q' => 'q',
        'R' => 'r',
        'S' => 's',
        'T' => 't',
        'U' => 'u',
        'V' => 'v',
        'W' => 'w',
        'X' => 'x',
        'Y' => 'y',
        'Z' => 'z',
        _ => c,
    }
}

/// ASCII lowercase of a whole vector of characters.
pub fn lower_vec(v: &Vec<char>) -> (r: Vec<char>)
    ensures
        r@ == lower(v@),
{
    let mut out: Vec<char> = Vec::new();
    let mut i: usize = 0;
    while i < v.len()
        invariant
            i <= v.len(),
            out@ == lower(v@.take(i as int)),
        decreases v.len() - i,
    {
        out.push(lower_char_exec(v[i]));
        proof {
            assert(v@.take(i + 1 as int).drop_last() =~= v@.take(i as int));
            assert(out@ =~= lower(v@.take(i + 1 as int)));
        }
        i = i + 1;
    }
    proof {
        assert(v@.take(v@.len() as int) =~= v@);
    }
    out
}

/// The characters of a string slice, in order.
pub fn chars_vec(s: &str) -> (v: Vec<char>)
    ensures
        v@ == s@,
{
    let n = s.unicode_len();
    let mut out: Vec<char> = Vec::new();
    let mut i: usize = 0;
    while i < n
        invariant
            n == s@.len(),
            i <= n,
            out@ == s@.take(i as int),
        decreases n - i,
    {
        out.push(s.get_char(i));
        proof {
            assert(out@ =~= s@.take(i + 1 as int));
        }
        i = i + 1;
    }
    proof {
        assert(s@.take(n as int) =~= s@);
    }
    out
}

/// Relies on `String::push` from std: appends exactly the given character to
/// the end of the string.
#[verifier::external_body]
pub fn push_char(s: &mut String, c: char)
    ensures
        final(s)@ == old(s)@.push(c),
{
    s.push(c)
}

/// A `String` holding exactly the given characters.
pub fn string_of(v: &Vec<char>) -> (r: String)
    ensures
        r@ == v@,
{
    let mut out = String::new();
    let mut i: usize = 0;
    while i < v.len()
        invariant
            i <= v.len(),
            out@ == v@.take(i as int),
        decreases v.len() - i,
    {
        push_char(&mut out, v[i]);
        proof {
            assert(out@ =~= v@.take(i + 1 as int));
        }
        i = i + 1;
    }
    proof {
        assert(v@.take(v@.len() as int) =~= v@);
    }
    out
}

/// Append all characters of `other` to `out`.
pub fn append_chars(out: &mut Vec<char>, other: &Vec<char>)
    ensures
        final(out)@ == old(out)@ + other@,
{
    let mut i: usize = 0;
    while i < other.len()
        invariant
            i <= other@.len(),
            out@ == old(out)@ + other@.take(i as int),
        decreases other.len() - i,
    {
        out.push(other[i]);
        proof {
            assert(old(out)@ + other@.take(i + 1 as int) =~= (old(out)@ + other@.take(
                i as int,
            )).push(other@[i as int]));
        }
        i = i + 1;
    }
    proof {
        assert(other@.take(other@.len() as int) =~= other@);
    }
}

/// Whether two character vectors hold the same sequence.
pub fn chars_eq(a: &Vec<char>, b: &Vec<char>) -> (r: bool)
    ensures
        r == (a@ == b@),
{
    if a.len() != b.len() {
        proof {
            assert(a@ != b@);
        }
        return false;
    }
    let mut i: usize = 0;
    while i < a.len()
        invariant
            a@.len() == b@.len(),
            i <= a@.len(),
            forall|j: int| 0 <= j < i ==> a@[j] == b@[j],
        decreases a.len() - i,
    {
        if a[i] != b[i] {
            return false;
        }
        i = i + 1;
    }
    proof {
        assert(a@ =~= b@);
    }
    true
}

/// Whether `c` is ASCII whitespace.
pub fn is_ws_exec(c: char) -> (r: bool)
    ensures
        r == is_ws(c),
{
    c == ' ' || c == '\t' || c == '\n' || c == '\r'
}

/// `v` with ASCII whitespace removed from both ends.
pub fn trim_vec(v: &Vec<char>) -> (r: Vec<char>)
    ensures
        r@ == trim_spec(v@),
{
    let n = v.len();
    let mut start: usize = 0;
    while start < n && is_ws_exec(v[start])
        invariant
            n == v@.len(),
            start <= n,
            forall|j: int| 0 <= j < start ==> is_ws(v@[j]),
        decreases n - start,
    {
        start = start + 1;
    }
    proof {
        lemma_trim_start_index(v@, start as int);
    }
    let ghost t = trim_start_spec(v@);
    let mut end: usize = n;
    while end > start && is_ws_exec(v[end - 1])
        invariant
            n == v@.len(),
            start <= end <= n,
            forall|j: int| end <= j < n ==> is_ws(v@[j]),
        decreases end,
    {
        end = end - 1;
    }
    proof {
        assert(t == v@.subrange(start as int, n as int));
        assert forall|j: int| end - start <= j < t.len() implies is_ws(t[j]) by {
            assert(t[j] == v@[start + j]);
        }
        if end > start {
            assert(t[end - start - 1] == v@[end - 1]);
        }
        lemma_trim_end_index(t, end - start);
    }
    let mut out: Vec<char> = Vec::new();
    let mut i: usize = start;
    while i < end
        invariant
            n == v@.len(),
            start <= i <= end <= n,
            out@ == v@.subrange(start as int, i as int),
        decreases end - i,
    {
        out.push(v[i]);
        proof {
            assert(out@ =~= v@.subrange(start as int, i + 1 as int));
        }
        i = i + 1;
    }
    proof {
        assert(out@ =~= t.subrange(0, end - start));
        assert(out@ == trim_spec(v@));
    }
    out
}

/// Whether `pat` occurs in `hay` starting at `at` (false when it overruns).
fn matches_at_exec(hay: &Vec<char>, pat: &Vec<char>, at: usize) -> (r: bool)
    requires
        at + pat@.len() <= hay@.len(),
    ensures
        r == matches_at(hay@, pat@, at as int),
{
    let hn = hay.len();
    let mut j: usize = 0;
    while j < pat.len()
        invariant
            hn == hay@.len(),
            at + pat@.len() <= hn,
            j <= pat@.len(),
            forall|k: int| 0 <= k < j ==> hay@[at + k] == pat@[k],
        decreases pat.len() - j,
    {
        if hay[at + j] != pat[j] {
            proof {
                assert(hay@.subrange(at as int, at + pat@.len())[j as int] != pat@[j as int]);
            }
            return false;
        }
        j = j + 1;
    }
    proof {
        assert(hay@.subrange(at as int, at + pat@.len()) =~= pat@);
    }
    true
}

/// Position of the first occurrence of `pat` in `hay`, if any.
pub fn find_pat(hay: &Vec<char>, pat: &Vec<char>) -> (r: Option<usize>)
    ensures
        match r {
            Some(i) => first_match(hay@, pat@) == Some(i as int),
            None => first_match(hay@, pat@).is_none(),
        },
{
    if pat.len() == 0 {
        proof {
            assert(hay@.subrange(0, 0) =~= pat@);
            assert(matches_at(hay@, pat@, 0));
        }
        return Some(0);
    }
    if pat.len() > hay.len() {
        proof {
            lemma_first_match_from_none(hay@, pat@, 0);
        }
        return None;
    }
    let end = hay.len() - pat.len();
    let mut i: usize = 0;
    while i <= end
        invariant
            1 <= pat@.len() <= hay@.len(),
            end == hay@.len() - pat@.len(),
            end < usize::MAX,
            i <= end + 1,
            forall|k: int| 0 <= k < i ==> !matches_at(hay@, pat@, k),
            first_match(hay@, pat@) == first_match_from(hay@, pat@, i as int),
        decreases end + 1 - i,
    {
        if matches_at_exec(hay, pat, i) {
            return Some(i);
        }
        proof {
            lemma_first_match_from_step(hay@, pat@, i as int);
        }
        i = i + 1;
    }
    proof {
        lemma_first_match_from_none(hay@, pat@, i as int);
    }
    None
}

/// Whether `pat` occurs anywhere in `hay`.
pub fn contains_pat(hay: &Vec<char>, pat: &Vec<char>) -> (r: bool)
    ensures
        r == contains_seq(hay@, pat@),
{
    let r = find_pat(hay, pat);
    proof {
        lemma_first_match_characterizes(hay@, pat@);
    }
    match r {
        Some(_) => true,
        None => false,
    }
}

/// Advancing the start of a failed first-match search by one keeps the result.
proof fn lemma_first_match_from_step(s: Seq<char>, pat: Seq<char>, i: int)
    requires
        i >= 0,
        !matches_at(s, pat, i),
    ensures
        first_match_from(s, pat, i) == first_match_from(s, pat, i + 1),
{
}

/// A search started past the last feasible position finds nothing.
proof fn lemma_first_match_from_none(s: Seq<char>, pat: Seq<char>, i: int)
    requires
        i + pat.len() > s.len() || i < 0,
    ensures
        first_match_from(s, pat, i).is_none(),
{
}

/// Whether `c` is an ASCII digit.
pub open spec fn is_digit(c: char) -> bool {
    '0' <= c && c <= '9'
}

/// Numeric value of an ASCII digit (0 for any other character).
pub open spec fn digit_val(c: char) -> int {
    match c {
        '0' => 0,
        '1' => 1,
        '2' => 2,
        '3' => 3,
        '4' => 4,
        '5' => 5,
        '6' => 6,
        '7' => 7,
        '8' => 8,
        '9' => 9,
        _ => 0,
    }
}

/// The ASCII digit for a value below ten ('0' for anything else).
pub open spec fn digit_char(d: int) -> char {
    if d == 1 {
        '1'
    } else if d == 2 {
        '2'
    } else if d == 3 {
        '3'
    } else if d == 4 {
        '4'
    } else if d == 5 {
        '5'
    } else if d == 6 {
        '6'
    } else if d == 7 {
        '7'
    } else if d == 8 {
        '8'
    } else if d == 9 {
        '9'
    } else {
        '0'
    }
}

/// Every character of `s` is an ASCII digit.
pub open spec fn all_digits(s: Seq<char>) -> bool {
    forall|i: int| 0 <= i < s.len() ==> is_digit(s[i])
}

/// The number a digit sequence denotes in base ten (most significant first).
pub open spec fn digits_val(s: Seq<char>) -> int
    decreases s.len(),
{
    if s.len() == 0 {
        0
    } else {
        digits_val(s.drop_last()) * 10 + digit_val(s.last())
    }
}

/// Base-ten representation of a natural number, without leading zeros.
pub open spec fn dec_rep(n: nat) -> Seq<char>
    decreases n,
{
    if n < 10 {
        seq![digit_char(n as int)]
    } else {
        dec_rep(n / 10).push(digit_char((n % 10) as int))
    }
}

/// Base-ten representation of an integer, with a leading '-' when negative.
pub open spec fn int_rep(n: int) -> Seq<char> {
    if n < 0 {
        seq!['-'] + dec_rep((-n) as nat)
    } else {
        dec_rep(n as nat)
    }
}

/// `n` clamped into the `u64` range.
pub open spec fn clamp_u64(n: int) -> u64 {
    if n > u64::MAX {
        u64::MAX
    } else if n < 0 {
        0
    } else {
        n as u64
    }
}

/// The ASCII digit for a value below ten.
pub fn digit_char_exec(d: u64) -> (r: char)
    requires
        d < 10,
    ensures
        r == digit_char(d as int),
{
    match d {
        1 => '1',
        2 => '2',
        3 => '3',
        4 => '4',
        5 => '5',
        6 => '6',
        7 => '7',
        8 => '8',
        9 => '9',
        _ => '0',
    }
}

/// Base-ten digits of `n`, most significant first.
pub fn u64_chars(n: u64) -> (v: Vec<char>)
    ensures
        v@ == dec_rep(n as nat),
{
    let mut out: Vec<char> = Vec::new();
    let mut cur: u64 = n;
    while cur >= 10
        invariant
            dec_rep(n as nat) == dec_rep(cur as nat) + out@,
        decreases cur,
    {
        let ghost prev = out@;
        let d = cur % 10;
        out.insert(0, digit_char_exec(d));
        proof {
            assert(dec_rep(cur as nat) =~= dec_rep((cur / 10) as nat) + seq![
                digit_char((cur % 10) as int),
            ]);
            assert(dec_rep(cur as nat) + prev =~= dec_rep((cur / 10) as nat) + out@);
        }
        cur = cur / 10;
    }
    proof {
        assert(dec_rep(cur as nat) =~= seq![digit_char(cur as int)]);
    }
    out.insert(0, digit_char_exec(cur));
    proof {
        assert(dec_rep(n as nat) =~= out@);
    }
    out
}

/// Base-ten representation of `n`, with a leading '-' when negative.
pub fn i64_chars(n: i64) -> (v: Vec<char>)
    ensures
        v@ == int_rep(n as int),
{
    if n >= 0 {
        u64_chars(n as u64)
    } else {
        let m: u64 = ((-(n + 1)) as u64) + 1;
        proof {
            assert(m == -(n as int));
        }
        let mut out = u64_chars(m);
        out.insert(0, '-');
        proof {
            assert(out@ =~= int_rep(n as int));
        }
        out
    }
}

/// Cents denoted by up to two fractional digits ("5" is 50, "345" is 34).
pub open spec fn frac2_val(s: Seq<char>) -> int {
    if s.len() == 0 {
        0
    } else if s.len() == 1 {
        digit_val(s[0]) * 10
    } else {
        digit_val(s[0]) * 10 + digit_val(s[1])
    }
}

/// Cents denoted by a plain decimal money string: an integer part of one or
/// more digits, optionally followed by '.' and any run of fraction digits, of
/// which the first two count. Anything else (signs, exponents, a leading '.')
/// does not parse. Values beyond `u64::MAX` cents clamp to `u64::MAX`.
pub open spec fn money_cents_of(s: Seq<char>) -> Option<u64> {
    match first_match(s, "."@) {
        None => if s.len() > 0 && all_digits(s) {
            Some(clamp_u64(digits_val(s) * 100))
        } else {
            None
        },
        Some(i) => {
            let ip = s.subrange(0, i);
            let fp = s.subrange(i + 1, s.len() as int);
            if ip.len() > 0 && all_digits(ip) && all_digits(fp) {
                Some(clamp_u64(digits_val(ip) * 100 + frac2_val(fp)))
            } else {
                None
            }
        },
    }
}

/// Whether the characters of `v` in `[from, to)` are all ASCII digits.
fn all_digits_exec(v: &Vec<char>, from: usize, to: usize) -> (r: bool)
    requires
        from <= to <= v@.len(),
    ensures
        r == all_digits(v@.subrange(from as int, to as int)),
{
    let mut i: usize = from;
    while i < to
        invariant
            from <= i <= to <= v@.len(),
            forall|j: int| from <= j < i ==> is_digit(v@[j]),
        decreases to - i,
    {
        let c = v[i];
        if !(c >= '0' && c <= '9') {
            proof {
                assert(v@.subrange(from as int, to as int)[i - from] == v@[i as int]);
            }
            return false;
        }
        i = i + 1;
    }
    proof {
        assert forall|j: int| 0 <= j < to - from implies is_digit(
            v@.subrange(from as int, to as int)[j],
        ) by {
            assert(v@.subrange(from as int, to as int)[j] == v@[from + j]);
        }
    }
    true
}

/// Numeric value of one ASCII digit character.
fn digit_val_exec(c: char) -> (r: u64)
    ensures
        r == digit_val(c),
        r < 10,
{
    match c {
        '1' => 1,
        '2' => 2,
        '3' => 3,
        '4' => 4,
        '5' => 5,
        '6' => 6,
        '7' => 7,
        '8' => 8,
        '9' => 9,
        _ => 0,
    }
}

/// Value of the digit run `v[from..to]`, clamped into the `u64` range.
fn digits_value_clamped(v: &Vec<char>, from: usize, to: usize) -> (r: u64)
    requires
        from <= to <= v@.len(),
    ensures
        r == clamp_u64(digits_val(v@.subrange(from as int, to as int))),
        digits_val(v@.subrange(from as int, to as int)) >= 0,
{
    proof {
        lemma_digits_val_nonneg(v@.subrange(from as int, from as int));
    }
    let mut acc: u64 = 0;
    let mut i: usize = from;
    while i < to
        invariant
            from <= i <= to <= v@.len(),
            acc == clamp_u64(digits_val(v@.subrange(from as int, i as int))),
            digits_val(v@.subrange(from as int, i as int)) >= 0,
        decreases to - i,
    {
        let ghost pre = v@.subrange(from as int, i as int);
        let ghost cur = v@.subrange(from as int, i + 1 as int);
        proof {
            assert(cur.drop_last() =~= pre);
            assert(cur.last() == v@[i as int]);
            lemma_digits_val_nonneg(cur);
        }
        let d = digit_val_exec(v[i]);
        acc = match acc.checked_mul(10) {
            Some(m) => m.saturating_add(d),
            None => u64::MAX,
        };
        proof {
            let val = digits_val(pre);
            let val2 = digits_val(cur);
            assert(val2 == val * 10 + digit_val(v@[i as int]));
            if val > u64::MAX {
                assert(val * 10 >= val) by (nonlinear_arith)
                    requires
                        val >= 0,
                ;
            }
        }
        i = i + 1;
    }
    proof {
        assert(v@.subrange(from as int, to as int) =~= v@.subrange(from as int, i as int));
    }
    acc
}

/// A nonempty all-digit sequence denotes a nonnegative number.
proof fn lemma_digits_val_nonneg(s: Seq<char>)
    ensures
        digits_val(s) >= 0,
    decreases s.len(),
{
    if s.len() > 0 {
        lemma_digits_val_nonneg(s.drop_last());
        assert(digit_val(s.last()) >= 0);
        assert(digits_val(s.drop_last()) * 10 >= 0) by (nonlinear_arith)
            requires
                digits_val(s.drop_last()) >= 0,
        ;
    }
}

/// Cents denoted by a plain decimal money string, if it parses.
pub fn parse_money_cents(v: &Vec<char>) -> (r: Option<u64>)
    ensures
        r == money_cents_of(v@),
{
    let dot = chars_vec(".");
    let n = v.len();
    match find_pat(v, &dot) {
        None => {
            if n > 0 && all_digits_exec(v, 0, n) {
                proof {
                    assert(v@.subrange(0, n as int) =~= v@);
                }
                let whole = digits_value_clamped(v, 0, n);
                let cents = match whole.checked_mul(100) {
                    Some(m) => m,
                    None => u64::MAX,
                };
                proof {
                    let val = digits_val(v@);
                    if val > u64::MAX {
                        assert(val * 100 >= val) by (nonlinear_arith)
                            requires
                                val >= 0,
                        ;
                    } else {
                        assert(whole == val);
                    }
                }
                Some(cents)
            } else {
                proof {
                    if n == 0 {
                    } else {
                        assert(v@.subrange(0, n as int) =~= v@);
                    }
                }
                None
            }
        },
        Some(i) => {
            proof {
                reveal_strlit(".");
                lemma_first_match_characterizes(v@, "."@);
                assert(matches_at(v@, "."@, i as int));
            }
            if i > 0 && all_digits_exec(v, 0, i) && all_digits_exec(v, i + 1, n) {
                let whole = digits_value_clamped(v, 0, i);
                let frac = frac2_exec(v, i + 1, n);
                let cents = match whole.checked_mul(100) {
                    Some(m) => m.saturating_add(frac),
                    None => u64::MAX,
                };
                proof {
                    let ip = v@.subrange(0, i as int);
                    let fp = v@.subrange(i + 1 as int, n as int);
                    let val = digits_val(ip);
                    let f = frac2_val(fp);
                    assert(0 <= f < 100);
                    if val > u64::MAX {
                        assert(val * 100 >= val) by (nonlinear_arith)
                            requires
                                val >= 0,
                        ;
                    } else {
                        assert(whole == val);
                    }
                }
                Some(cents)
            } else {
                None
            }
        },
    }
}

/// Cents denoted by the first two characters of the fraction run `v[from..to]`.
fn frac2_exec(v: &Vec<char>, from: usize, to: usize) -> (r: u64)
    requires
        from <= to <= v@.len(),
        all_digits(v@.subrange(from as int, to as int)),
    ensures
        r == frac2_val(v@.subrange(from as int, to as int)),
        r < 100,
{
    let ghost fp = v@.subrange(from as int, to as int);
    if to == from {
        0
    } else if to == from + 1 {
        proof {
            assert(fp[0] == v@[from as int]);
            assert(is_digit(fp[0]));
        }
        digit_val_exec(v[from]) * 10
    } else {
        proof {
            assert(fp[0] == v@[from as int]);
            assert(fp[1] == v@[from + 1]);
            assert(is_digit(fp[0]) && is_digit(fp[1]));
        }
        digit_val_exec(v[from]) * 10 + digit_val_exec(v[from + 1])
    }
}

/// `first_match` succeeds exactly when the pattern occurs somewhere, and the
/// position it returns is a real occurrence with none earlier.
pub proof fn lemma_first_match_characterizes(s: Seq<char>, pat: Seq<char>)
    ensures
        first_match(s, pat).is_some() <==> contains_seq(s, pat),
        first_match(s, pat).is_some() ==> matches_at(s, pat, first_match(s, pat).unwrap()),
        first_match(s, pat).is_some() ==> forall|j: int|
            0 <= j < first_match(s, pat).unwrap() ==> !matches_at(s, pat, j),
{
    lemma_first_match_from_characterizes(s, pat, 0);
}

proof fn lemma_first_match_from_characterizes(s: Seq<char>, pat: Seq<char>, i: int)
    requires
        i >= 0,
    ensures
        first_match_from(s, pat, i).is_some() <==> exists|j: int| j >= i && matches_at(s, pat, j),
        first_match_from(s, pat, i).is_some() ==> matches_at(
            s,
            pat,
            first_match_from(s, pat, i).unwrap(),
        ) && first_match_from(s, pat, i).unwrap() >= i,
        first_match_from(s, pat, i).is_some() ==> forall|j: int|
            i <= j < first_match_from(s, pat, i).unwrap() ==> !matches_at(s, pat, j),
    decreases s.len() + 1 - i,
{
    if i + pat.len() > s.len() {
        assert(forall|j: int| j >= i ==> !matches_at(s, pat, j));
    } else if matches_at(s, pat, i) {
    } else {
        lemma_first_match_from_characterizes(s, pat, i + 1);
        if first_match_from(s, pat, i).is_none() {
            assert forall|j: int| j >= i implies !matches_at(s, pat, j) by {
                if j > i {
                    assert(!matches_at(s, pat, j));
                }
            }
        }
    }
}

} // verus!
