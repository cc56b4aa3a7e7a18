//! Verified text helpers shared across the library: character-class and
//! case wrappers over the standard library, conversions between strings
//! and character vectors, decimal rendering and parsing, and substring
//! search and replacement on character vectors.

use vstd::prelude::*;

verus! {

// ---------------------------------------------------------------------
// Trusted wrappers over the standard library's Unicode tables.
// ---------------------------------------------------------------------
/// The Unicode lowercase form of a sequence of characters.
pub uninterp spec fn lower_of(s: Seq<char>) -> Seq<char>;

/// Relies on str::to_lowercase: the result depends on the characters
/// alone.
#[verifier::external_body]
pub(crate) fn to_lowercase(s: &str) -> (r: String)
    ensures
        r@ == lower_of(s@),
{
    s.to_lowercase()
}

/// Whether a character is Unicode alphanumeric.
pub uninterp spec fn is_alnum(c: char) -> bool;

/// Relies on char::is_alphanumeric: a per-character Unicode class test.
#[verifier::external_body]
pub(crate) fn char_is_alphanumeric(c: char) -> (r: bool)
    ensures
        r == is_alnum(c),
{
    c.is_alphanumeric()
}

/// Whether a character is Unicode whitespace.
pub uninterp spec fn is_space(c: char) -> bool;

/// Relies on char::is_whitespace: a per-character Unicode class test.
#[verifier::external_body]
pub(crate) fn char_is_whitespace(c: char) -> (r: bool)
    ensures
        r == is_space(c),
{
    c.is_whitespace()
}

/// The first character of the Unicode uppercase expansion of a
/// character.
pub uninterp spec fn upper_first_of(c: char) -> char;

/// Relies on char::to_uppercase: the expansion depends on the character
/// alone and always yields at least one character, so taking the first
/// cannot fail.
#[verifier::external_body]
pub(crate) fn char_upper_first(c: char) -> (r: char)
    ensures
        r == upper_first_of(c),
{
    c.to_uppercase().next().unwrap()
}

/// Relies on String::push: appends exactly the one character.
#[verifier::external_body]
pub(crate) fn push_char(s: &mut String, c: char)
    ensures
        final(s)@ == old(s)@.push(c),
{
    s.push(c)
}

// ---------------------------------------------------------------------
// Conversions between strings and character vectors.
// ---------------------------------------------------------------------
/// The characters of a string, as a vector.
pub fn str_chars(s: &str) -> (r: Vec<char>)
    ensures
        r@ == s@,
{
    let n = s.unicode_len();
    let mut r: Vec<char> = Vec::new();
    let mut i: usize = 0;
    while i < n
        invariant
            n == s@.len(),
            i <= n,
            r@ == s@.take(i as int),
        decreases n - i,
    {
        r.push(s.get_char(i));
        proof {
            assert(s@.take(i + 1 as int) =~= s@.take(i as int).push(s@[i as int]));
        }
        i = i + 1;
    }
    proof {
        assert(s@.take(n as int) =~= s@);
    }
    r
}

/// A string holding exactly the given characters.
pub fn string_from_chars(cs: &Vec<char>) -> (r: String)
    ensures
        r@ == cs@,
{
    let mut r = String::new();
    let mut i: usize = 0;
    while i < cs.len()
        invariant
            i <= cs@.len(),
            r@ == cs@.take(i as int),
        decreases cs@.len() - i,
    {
        push_char(&mut r, cs[i]);
        proof {
            assert(cs@.take(i + 1 as int) =~= cs@.take(i as int).push(cs@[i as int]));
        }
        i = i + 1;
    }
    proof {
        assert(cs@.take(cs@.len() as int) =~= cs@);
    }
    r
}

// ---------------------------------------------------------------------
// Decimal digits.
// ---------------------------------------------------------------------
/// Whether a character is an ASCII decimal digit.
pub open spec fn is_ascii_digit(c: char) -> bool {
    48 <= c as u32 <= 57
}

/// The numeric value of an ASCII decimal digit.
pub open spec fn digit_value(c: char) -> int {
    c as u32 - 48
}

/// The digit character for a value in `0..10`.
pub open spec fn digit_char(d: int) -> char {
    if d == 0 {
        '0'
    } else if d == 1 {
        '1'
    } else if d == 2 {
        '2'
    } else if d == 3 {
        '3'
    } else if d == 4 {
        '4'
    } else if d == 5 {
        '5'
    } else if d == 6 {
        '6'
    } else if d == 7 {
        '7'
    } else if d == 8 {
        '8'
    } else {
        '9'
    }
}

pub(crate) fn digit_char_exec(d: u64) -> (r: char)
    requires
        d < 10,
    ensures
        r == digit_char(d as int),
{
    if d == 0 {
        '0'
    } else if d == 1 {
        '1'
    } else if d == 2 {
        '2'
    } else if d == 3 {
        '3'
    } else if d == 4 {
        '4'
    } else if d == 5 {
        '5'
    } else if d == 6 {
        '6'
    } else if d == 7 {
        '7'
    } else if d == 8 {
        '8'
    } else {
        '9'
    }
}

/// The decimal rendering of a natural number, most significant digit
/// first, with no leading zeros (a lone zero for `0`).
pub open spec fn dec_str(n: int) -> Seq<char>
    decreases n,
{
    if n < 10 {
        seq![digit_char(n)]
    } else {
        dec_str(n / 10).push(digit_char(n % 10))
    }
}

/// Render a number in decimal.
pub fn u64_to_string(n: u64) -> (r: String)
    ensures
        r@ == dec_str(n as int),
    decreases n,
{
    if n < 10 {
        let mut r = String::new();
        push_char(&mut r, digit_char_exec(n));
        proof {
            assert(Seq::<char>::empty().push(digit_char(n as int)) =~= seq![
                digit_char(n as int),
            ]);
        }
        r
    } else {
        let mut r = u64_to_string(n / 10);
        push_char(&mut r, digit_char_exec(n % 10));
        r
    }
}

/// The decimal rendering padded on the left with `'0'` to at least two
/// digits.
pub open spec fn dec_str_pad2(n: int) -> Seq<char> {
    if n < 10 {
        seq!['0'] + dec_str(n)
    } else {
        dec_str(n)
    }
}

/// Render a number in decimal, zero-padded to at least two digits.
pub fn u64_to_string_pad2(n: u64) -> (r: String)
    ensures
        r@ == dec_str_pad2(n as int),
{
    if n < 10 {
        let mut r = String::new();
        push_char(&mut r, '0');
        push_char(&mut r, digit_char_exec(n));
        proof {
            assert(Seq::<char>::empty().push('0').push(digit_char(n as int)) =~= seq!['0']
                + dec_str(n as int));
        }
        r
    } else {
        u64_to_string(n)
    }
}

// ---------------------------------------------------------------------
// Decimal parsing.
// ---------------------------------------------------------------------
/// The value of a sequence of decimal digit characters, read most
/// significant digit first.
pub open spec fn dec_value(s: Seq<char>) -> int
    decreases s.len(),
{
    if s.len() == 0 {
        0
    } else {
        dec_value(s.drop_last()) * 10 + digit_value(s.last())
    }
}

/// Whether every character of the sequence is an ASCII decimal digit.
pub open spec fn all_digits(s: Seq<char>) -> bool {
    forall|i: int| 0 <= i < s.len() ==> is_ascii_digit(#[trigger] s[i])
}

/// What str::parse::<u64> accepts: an optional leading `'+'`, then one
/// or more decimal digits, denoting a value that fits in the type.
pub open spec fn digit_body(s: Seq<char>) -> Seq<char> {
    if s.len() > 0 && s[0] == '+' {
        s.skip(1)
    } else {
        s
    }
}

pub open spec fn parse_u64_ok(s: Seq<char>) -> bool {
    &&& digit_body(s).len() > 0
    &&& all_digits(digit_body(s))
    &&& dec_value(digit_body(s)) <= u64::MAX
}

proof fn lemma_dec_value_nonneg(s: Seq<char>)
    requires
        all_digits(s),
    ensures
        dec_value(s) >= 0,
    decreases s.len(),
{
    if s.len() > 0 {
        assert(all_digits(s.drop_last()));
        lemma_dec_value_nonneg(s.drop_last());
    }
}

/// Parse a decimal number as str::parse::<u64> would: `None` on an
/// empty or malformed input and on overflow.
pub fn parse_u64_chars(cs: &Vec<char>) -> (r: Option<u64>)
    ensures
        parse_u64_ok(cs@) <==> r is Some,
        r matches Some(v) ==> v == dec_value(digit_body(cs@)),
{
    let mut i: usize = 0;
    if cs.len() > 0 && cs[0] == '+' {
        i = 1;
    }
    let ghost body = digit_body(cs@);
    proof {
        assert(body =~= cs@.skip(i as int));
    }
    if i == cs.len() {
        return None;
    }
    let mut acc: u64 = 0;
    let mut j: usize = i;
    while j < cs.len()
        invariant
            i <= j <= cs@.len(),
            i < cs@.len(),
            body == digit_body(cs@),
            body == cs@.skip(i as int),
            all_digits(body.take(j - i)),
            acc == dec_value(body.take(j - i)),
        decreases cs@.len() - j,
    {
        let c = cs[j];
        let code = c as u32;
        if code < 48 || code > 57 {
            proof {
                assert(body[j - i] == cs@[j as int]);
                assert(!is_ascii_digit(body[j - i]));
                assert(!all_digits(body));
            }
            return None;
        }
        let d = (code - 48) as u64;
        proof {
            assert(body.take(j + 1 - i).drop_last() =~= body.take(j - i));
            assert(body.take(j + 1 - i).last() == cs@[j as int]);
            lemma_dec_value_nonneg(body.take(j - i));
        }
        if acc > (u64::MAX - d) / 10 {
            // the value no longer fits in the type
            proof {
                assert((u64::MAX - d) / 10 * 10 + 9 >= u64::MAX - d);
                assert(dec_value(body.take(j + 1 - i)) > u64::MAX);
                if parse_u64_ok(cs@) {
                    lemma_dec_value_grows(body, j + 1 - i);
                    assert(false);
                }
            }
            return None;
        }
        acc = acc * 10 + d;
        j = j + 1;
    }
    proof {
        assert(body.take(cs@.len() - i) =~= body);
    }
    Some(acc)
}

/// A string with its first character replaced by the first character
/// of that character's uppercase expansion; empty stays empty.
pub open spec fn capitalize_spec(s: Seq<char>) -> Seq<char> {
    if s.len() == 0 {
        s
    } else {
        seq![upper_first_of(s[0])] + s.skip(1)
    }
}

/// The view of an optional string.
pub open spec fn opt_view(o: Option<String>) -> Option<Seq<char>> {
    match o {
        Some(s) => Some(s@),
        None => None,
    }
}

/// The index of the last occurrence of `c` in `s`, or `-1` if there is
/// none.
pub open spec fn last_index(s: Seq<char>, c: char) -> int
    decreases s.len(),
{
    if s.len() == 0 {
        -1
    } else if s.last() == c {
        s.len() - 1
    } else {
        last_index(s.drop_last(), c)
    }
}

pub proof fn lemma_last_index_at(s: Seq<char>, c: char, i: int)
    requires
        0 <= i < s.len(),
        s[i] == c,
        forall|j: int| i < j < s.len() ==> s[j] != c,
    ensures
        last_index(s, c) == i,
    decreases s.len(),
{
    if s.last() == c {
        assert(i == s.len() - 1);
    } else {
        assert(i < s.len() - 1);
        assert(forall|j: int| i < j < s.drop_last().len() ==> s.drop_last()[j] != c);
        lemma_last_index_at(s.drop_last(), c, i);
    }
}

pub proof fn lemma_last_index_none(s: Seq<char>, c: char)
    requires
        forall|j: int| 0 <= j < s.len() ==> s[j] != c,
    ensures
        last_index(s, c) == -1,
    decreases s.len(),
{
    if s.len() > 0 {
        lemma_last_index_none(s.drop_last(), c);
    }
}

pub proof fn lemma_last_index_bounds(s: Seq<char>, c: char)
    ensures
        -1 <= last_index(s, c) < s.len(),
        last_index(s, c) >= 0 ==> s[last_index(s, c)] == c,
        forall|j: int| last_index(s, c) < j < s.len() ==> s[j] != c,
    decreases s.len(),
{
    if s.len() > 0 && s.last() != c {
        lemma_last_index_bounds(s.drop_last(), c);
        assert forall|j: int| last_index(s, c) < j < s.len() implies s[j] != c by {
            if j < s.len() - 1 {
                assert(s.drop_last()[j] == s[j]);
            }
        }
    }
}

/// The index of the last occurrence of `c`, if any.
pub fn find_last_char(v: &Vec<char>, c: char) -> (r: Option<usize>)
    ensures
        r matches Some(i) ==> i == last_index(v@, c),
        r is None ==> last_index(v@, c) == -1,
{
    let mut k: usize = v.len();
    while k > 0
        invariant
            k <= v@.len(),
            forall|j: int| k <= j < v@.len() ==> v@[j] != c,
        decreases k,
    {
        k = k - 1;
        if v[k] == c {
            proof {
                lemma_last_index_at(v@, c, k as int);
            }
            return Some(k);
        }
    }
    proof {
        lemma_last_index_none(v@, c);
    }
    None
}

/// Splitting at every occurrence of one character, as str::split does:
/// empty parts are kept, and an empty input yields one empty part.
pub open spec fn split_char_spec(s: Seq<char>, c: char) -> Seq<Seq<char>>
    decreases s.len(),
{
    if s.len() == 0 {
        seq![Seq::empty()]
    } else {
        let rest = split_char_spec(s.skip(1), c);
        if s[0] == c {
            seq![Seq::<char>::empty()] + rest
        } else {
            seq![seq![s[0]] + rest[0]] + rest.skip(1)
        }
    }
}


fn split_char_from(v: &Vec<char>, from: usize, c: char) -> (r: Vec<Vec<char>>)
    requires
        from <= v@.len(),
    ensures
        views_of_vecs(r@) == split_char_spec(v@.skip(from as int), c),
        r@.len() >= 1,
    decreases v@.len() - from,
{
    if from == v.len() {
        let mut r: Vec<Vec<char>> = Vec::new();
        r.push(Vec::new());
        proof {
            assert(v@.skip(from as int).len() == 0);
            assert(views_of_vecs(r@) =~= seq![Seq::<char>::empty()]);
        }
        r
    } else {
        let ghost t = v@.skip(from as int);
        let mut rest = split_char_from(v, from + 1, c);
        proof {
            assert(t[0] == v@[from as int]);
            assert(t.skip(1) =~= v@.skip(from + 1));
        }
        if v[from] == c {
            rest.insert(0, Vec::new());
            proof {
                assert(views_of_vecs(rest@) =~= seq![Seq::<char>::empty()] + split_char_spec(
                    t.skip(1),
                    c,
                ));
            }
            rest
        } else {
            let ghost old_views = views_of_vecs(rest@);
            let first = rest.remove(0);
            let mut new_first: Vec<char> = Vec::new();
            new_first.push(v[from]);
            new_first.extend_from_slice(first.as_slice());
            rest.insert(0, new_first);
            proof {
                assert(new_first@ =~= seq![t[0]] + old_views[0]);
                assert(views_of_vecs(rest@) =~= seq![seq![t[0]] + old_views[0]] + old_views.skip(
                    1,
                ));
            }
            rest
        }
    }
}

/// Split at every occurrence of one character.
pub fn split_char_chars(v: &Vec<char>, c: char) -> (r: Vec<Vec<char>>)
    ensures
        views_of_vecs(r@) == split_char_spec(v@, c),
        r@.len() >= 1,
{
    let r = split_char_from(v, 0, c);
    proof {
        assert(v@.skip(0) =~= v@);
    }
    r
}

// ---------------------------------------------------------------------
// Substring search and replacement.
// ---------------------------------------------------------------------
/// Whether the needle `n` occurs in `h` starting at position `i`.
pub open spec fn matches_at(h: Seq<char>, n: Seq<char>, i: int) -> bool {
    0 <= i && i + n.len() <= h.len() && h.subrange(i, i + n.len()) == n
}

/// Whether the needle `n` occurs anywhere in `h`.
pub open spec fn contains_seq(h: Seq<char>, n: Seq<char>) -> bool {
    exists|i: int| matches_at(h, n, i)
}

/// Whether `n` occurs at position `i` of `h`.
pub fn match_at(h: &Vec<char>, n: &Vec<char>, i: usize) -> (r: bool)
    requires
        i + n@.len() <= h@.len(),
    ensures
        r == matches_at(h@, n@, i as int),
{
    let hl: usize = h.len();
    let nl: usize = n.len();
    let mut k: usize = 0;
    while k < nl
        invariant
            hl == h@.len(),
            nl == n@.len(),
            i + n@.len() <= h@.len(),
            k <= n@.len(),
            forall|m: int| 0 <= m < k ==> h@[i + m] == n@[m],
        decreases n@.len() - k,
    {
        if h[i + k] != n[k] {
            proof {
                assert(h@.subrange(i as int, i + n@.len())[k as int] == h@[i + k]);
            }
            return false;
        }
        k = k + 1;
    }
    proof {
        assert(h@.subrange(i as int, i + n@.len()) =~= n@);
    }
    true
}

/// The first position at which `n` occurs in `h`, if any.
pub fn find_sub(h: &Vec<char>, n: &Vec<char>) -> (r: Option<usize>)
    ensures
        r matches Some(i) ==> matches_at(h@, n@, i as int) && (forall|k: int|
            0 <= k < i ==> !matches_at(h@, n@, k)),
        r is None ==> !contains_seq(h@, n@),
{
    if n.len() > h.len() {
        return None;
    }
    let last: usize = h.len() - n.len();
    let mut i: usize = 0;
    while i <= last
        invariant
            n@.len() <= h@.len(),
            last == h@.len() - n@.len(),
            i <= last + 1,
            forall|k: int| 0 <= k < i ==> !matches_at(h@, n@, k),
        decreases last + 1 - i,
    {
        if match_at(h, n, i) {
            return Some(i);
        }
        if i == last {
            return None;
        }
        i = i + 1;
    }
    None
}

/// Whether `n` occurs anywhere in `h`.
pub fn contains_sub(h: &Vec<char>, n: &Vec<char>) -> (r: bool)
    ensures
        r == contains_seq(h@, n@),
{
    match find_sub(h, n) {
        Some(_) => true,
        None => false,
    }
}

/// The position of the first occurrence of `n` in `h`, or `-1`.
pub open spec fn first_index_of(h: Seq<char>, n: Seq<char>) -> int
    decreases h.len(),
{
    if h.len() >= n.len() && h.take(n.len() as int) == n {
        0
    } else if h.len() == 0 {
        -1
    } else {
        let rest = first_index_of(h.skip(1), n);
        if rest == -1 {
            -1
        } else {
            rest + 1
        }
    }
}

pub proof fn lemma_first_index_at(h: Seq<char>, n: Seq<char>, i: int)
    requires
        matches_at(h, n, i),
        forall|k: int| 0 <= k < i ==> !matches_at(h, n, k),
    ensures
        first_index_of(h, n) == i,
    decreases h.len(),
{
    if i == 0 {
        assert(h.take(n.len() as int) =~= h.subrange(0, n.len() as int));
    } else {
        assert(!matches_at(h, n, 0));
        assert(h.take(n.len() as int) =~= h.subrange(0, n.len() as int));
        assert(!(h.len() >= n.len() && h.take(n.len() as int) == n));
        assert(h.len() > 0);
        let t = h.skip(1);
        assert(matches_at(t, n, i - 1)) by {
            assert(t.subrange(i - 1, i - 1 + n.len()) =~= h.subrange(i, i + n.len()));
        }
        assert forall|k: int| 0 <= k < i - 1 implies !matches_at(t, n, k) by {
            if matches_at(t, n, k) {
                assert(h.subrange(k + 1, k + 1 + n.len()) =~= t.subrange(k, k + n.len()));
                assert(matches_at(h, n, k + 1));
            }
        }
        lemma_first_index_at(t, n, i - 1);
    }
}

pub proof fn lemma_first_index_none(h: Seq<char>, n: Seq<char>)
    requires
        !contains_seq(h, n),
    ensures
        first_index_of(h, n) == -1,
    decreases h.len(),
{
    assert(!matches_at(h, n, 0));
    assert(h.take(n.len() as int) =~= h.subrange(0, n.len() as int));
    if h.len() > 0 {
        let t = h.skip(1);
        assert forall|k: int| 0 <= k implies !matches_at(t, n, k) by {
            if matches_at(t, n, k) {
                assert(h.subrange(k + 1, k + 1 + n.len()) =~= t.subrange(k, k + n.len()));
                assert(matches_at(h, n, k + 1));
            }
        }
        assert(!contains_seq(t, n));
        lemma_first_index_none(t, n);
    }
}

/// The first occurrence of `n` in `h`, as an index or `-1`.
pub fn first_index_exec(h: &Vec<char>, n: &Vec<char>) -> (r: Option<usize>)
    ensures
        r matches Some(i) ==> i == first_index_of(h@, n@) && matches_at(h@, n@, i as int),
        r is None ==> first_index_of(h@, n@) == -1,
{
    match find_sub(h, n) {
        Some(i) => {
            proof {
                lemma_first_index_at(h@, n@, i as int);
            }
            Some(i)
        },
        None => {
            proof {
                lemma_first_index_none(h@, n@);
            }
            None
        },
    }
}

/// Splitting at every non-overlapping occurrence of a pattern, left to
/// right, as str::split with a string pattern: empty parts are kept.
pub open spec fn split_pat_spec(s: Seq<char>, pat: Seq<char>) -> Seq<Seq<char>>
    decreases s.len(),
    when pat.len() > 0
{
    if s.len() == 0 {
        seq![Seq::empty()]
    } else if s.len() >= pat.len() && s.take(pat.len() as int) == pat {
        seq![Seq::<char>::empty()] + split_pat_spec(s.skip(pat.len() as int), pat)
    } else {
        let rest = split_pat_spec(s.skip(1), pat);
        seq![seq![s[0]] + rest[0]] + rest.skip(1)
    }
}


fn split_pat_from(v: &Vec<char>, from: usize, pat: &Vec<char>) -> (r: Vec<Vec<char>>)
    requires
        from <= v@.len(),
        pat@.len() > 0,
    ensures
        views_of_vecs(r@) == split_pat_spec(v@.skip(from as int), pat@),
        r@.len() >= 1,
    decreases v@.len() - from,
{
    let ghost t = v@.skip(from as int);
    if from == v.len() {
        let mut r: Vec<Vec<char>> = Vec::new();
        r.push(Vec::new());
        proof {
            assert(t.len() == 0);
            assert(views_of_vecs(r@) =~= seq![Seq::<char>::empty()]);
        }
        return r;
    }
    let matched = if pat.len() <= v.len() - from {
        match_at(v, pat, from)
    } else {
        false
    };
    proof {
        assert(t.take(pat@.len() as int) =~= if t.len() >= pat@.len() {
            v@.subrange(from as int, from + pat@.len())
        } else {
            t.take(pat@.len() as int)
        });
        if t.len() >= pat@.len() {
            assert(matched == (t.take(pat@.len() as int) == pat@));
        }
    }
    if matched {
        let mut rest = split_pat_from(v, from + pat.len(), pat);
        proof {
            assert(t.skip(pat@.len() as int) =~= v@.skip(from + pat@.len()));
        }
        rest.insert(0, Vec::new());
        proof {
            assert(views_of_vecs(rest@) =~= seq![Seq::<char>::empty()] + split_pat_spec(
                v@.skip(from + pat@.len()),
                pat@,
            ));
        }
        rest
    } else {
        let mut rest = split_pat_from(v, from + 1, pat);
        proof {
            assert(t[0] == v@[from as int]);
            assert(t.skip(1) =~= v@.skip(from + 1));
        }
        let ghost old_views = views_of_vecs(rest@);
        let first = rest.remove(0);
        let mut new_first: Vec<char> = Vec::new();
        new_first.push(v[from]);
        new_first.extend_from_slice(first.as_slice());
        rest.insert(0, new_first);
        proof {
            assert(new_first@ =~= seq![t[0]] + old_views[0]);
            assert(views_of_vecs(rest@) =~= seq![seq![t[0]] + old_views[0]] + old_views.skip(1));
        }
        rest
    }
}

/// Split at every occurrence of a pattern.
pub fn split_pat_chars(v: &Vec<char>, pat: &Vec<char>) -> (r: Vec<Vec<char>>)
    requires
        pat@.len() > 0,
    ensures
        views_of_vecs(r@) == split_pat_spec(v@, pat@),
        r@.len() >= 1,
{
    let r = split_pat_from(v, 0, pat);
    proof {
        assert(v@.skip(0) =~= v@);
    }
    r
}

/// The characters without leading whitespace.
pub fn trim_start_chars(v: &Vec<char>) -> (r: Vec<char>)
    ensures
        r@ == trim_start_spec(v@),
{
    let mut a: usize = 0;
    proof {
        assert(v@.skip(0) =~= v@);
    }
    while a < v.len() && char_is_whitespace(v[a])
        invariant
            a <= v@.len(),
            trim_start_spec(v@) == trim_start_spec(v@.skip(a as int)),
        decreases v@.len() - a,
    {
        proof {
            assert(v@.skip(a as int).skip(1) =~= v@.skip(a + 1));
        }
        a = a + 1;
    }
    let n = v.len();
    let r = subrange_chars(v, a, n);
    proof {
        assert(v@.subrange(a as int, v@.len() as int) =~= v@.skip(a as int));
    }
    r
}

/// Replacement of every occurrence of `pat`, left to right and without
/// overlap, as str::replace performs it.
pub open spec fn replace_spec(s: Seq<char>, pat: Seq<char>, repl: Seq<char>) -> Seq<char>
    decreases s.len(),
    when pat.len() > 0
{
    if s.len() < pat.len() {
        s
    } else if s.subrange(0, pat.len() as int) == pat {
        repl + replace_spec(s.skip(pat.len() as int), pat, repl)
    } else {
        seq![s[0]] + replace_spec(s.skip(1), pat, repl)
    }
}

/// Replace every occurrence of `pat` by `repl`, left to right.
pub fn replace_chars(s: &Vec<char>, pat: &Vec<char>, repl: &Vec<char>) -> (r: Vec<char>)
    requires
        pat@.len() > 0,
    ensures
        r@ == replace_spec(s@, pat@, repl@),
{
    let mut acc: Vec<char> = Vec::new();
    let mut i: usize = 0;
    proof {
        assert(s@.skip(0) =~= s@);
    }
    while i < s.len()
        invariant
            pat@.len() > 0,
            i <= s@.len(),
            acc@ + replace_spec(s@.skip(i as int), pat@, repl@) == replace_spec(s@, pat@, repl@),
        decreases s@.len() - i,
    {
        let ghost t = s@.skip(i as int);
        if pat.len() <= s.len() - i && match_at(s, pat, i) {
            acc.extend_from_slice(repl.as_slice());
            proof {
                assert(t.subrange(0, pat@.len() as int) =~= s@.subrange(i as int, i + pat@.len()));
                assert(t.skip(pat@.len() as int) =~= s@.skip(i + pat@.len()));
                assert(replace_spec(t, pat@, repl@) == repl@ + replace_spec(
                    s@.skip(i + pat@.len()),
                    pat@,
                    repl@,
                ));
            }
            i = i + pat.len();
        } else {
            acc.push(s[i]);
            proof {
                if t.len() >= pat@.len() {
                    assert(t.subrange(0, pat@.len() as int) =~= s@.subrange(
                        i as int,
                        i + pat@.len(),
                    ));
                    assert(t.subrange(0, pat@.len() as int) != pat@);
                }
                assert(t.skip(1) =~= s@.skip(i + 1));
                assert(seq![t[0]] + t.skip(1) =~= t);
                assert(replace_spec(t, pat@, repl@) == seq![s@[i as int]] + replace_spec(
                    s@.skip(i + 1),
                    pat@,
                    repl@,
                ));
            }
            i = i + 1;
        }
    }
    proof {
        assert(s@.skip(i as int).len() == 0);
        assert(replace_spec(s@.skip(i as int), pat@, repl@) == s@.skip(i as int));
        assert(acc@ + s@.skip(i as int) =~= acc@);
    }
    acc
}

// ---------------------------------------------------------------------
// Trimming.
// ---------------------------------------------------------------------
/// The sequence without its leading whitespace.
pub open spec fn trim_start_spec(s: Seq<char>) -> Seq<char>
    decreases s.len(),
{
    if s.len() > 0 && is_space(s[0]) {
        trim_start_spec(s.skip(1))
    } else {
        s
    }
}

/// The sequence without its trailing whitespace.
pub open spec fn trim_end_spec(s: Seq<char>) -> Seq<char>
    decreases s.len(),
{
    if s.len() > 0 && is_space(s.last()) {
        trim_end_spec(s.drop_last())
    } else {
        s
    }
}

/// The sequence without leading and trailing whitespace, as str::trim
/// computes it.
pub open spec fn trim_spec(s: Seq<char>) -> Seq<char> {
    trim_end_spec(trim_start_spec(s))
}

/// A copy of the characters `v[from..to]`.
pub fn subrange_chars(v: &Vec<char>, from: usize, to: usize) -> (r: Vec<char>)
    requires
        from <= to <= v@.len(),
    ensures
        r@ == v@.subrange(from as int, to as int),
{
    let mut r: Vec<char> = Vec::new();
    let mut i: usize = from;
    while i < to
        invariant
            from <= i <= to <= v@.len(),
            r@ == v@.subrange(from as int, i as int),
        decreases to - i,
    {
        r.push(v[i]);
        proof {
            assert(v@.subrange(from as int, i + 1 as int) =~= v@.subrange(
                from as int,
                i as int,
            ).push(v@[i as int]));
        }
        i = i + 1;
    }
    r
}

/// The characters without leading and trailing whitespace.
pub fn trim_chars(v: &Vec<char>) -> (r: Vec<char>)
    ensures
        r@ == trim_spec(v@),
{
    let mut a: usize = 0;
    proof {
        assert(v@.skip(0) =~= v@);
    }
    while a < v.len() && char_is_whitespace(v[a])
        invariant
            a <= v@.len(),
            trim_start_spec(v@) == trim_start_spec(v@.skip(a as int)),
        decreases v@.len() - a,
    {
        proof {
            assert(v@.skip(a as int).skip(1) =~= v@.skip(a + 1));
        }
        a = a + 1;
    }
    let ghost t = v@.skip(a as int);
    proof {
        assert(trim_start_spec(v@) == t);
    }
    let mut b: usize = v.len();
    proof {
        assert(t.take(b - a) =~= t);
    }
    while b > a && char_is_whitespace(v[b - 1])
        invariant
            a <= b <= v@.len(),
            t == v@.skip(a as int),
            trim_end_spec(t) == trim_end_spec(t.take(b - a)),
        decreases b,
    {
        proof {
            assert(t.take(b - a).last() == v@[b - 1]);
            assert(t.take(b - a).drop_last() =~= t.take(b - 1 - a));
        }
        b = b - 1;
    }
    proof {
        if b > a {
            assert(t.take(b - a).last() == v@[b - 1]);
        }
        assert(trim_end_spec(t.take(b - a)) == t.take(b - a));
        assert(t.take(b - a) =~= v@.subrange(a as int, b as int));
    }
    subrange_chars(v, a, b)
}

// ---------------------------------------------------------------------
// Whitespace splitting and joining.
// ---------------------------------------------------------------------
/// The length of the leading run of non-whitespace characters.
pub open spec fn word_len(s: Seq<char>) -> nat
    decreases s.len(),
{
    if s.len() == 0 || is_space(s[0]) {
        0
    } else {
        1 + word_len(s.skip(1))
    }
}

pub proof fn lemma_word_len_le(s: Seq<char>)
    ensures
        word_len(s) <= s.len(),
    decreases s.len(),
{
    if s.len() > 0 && !is_space(s[0]) {
        lemma_word_len_le(s.skip(1));
    }
}

/// The whitespace-separated words of a sequence, in order, without any
/// empty words, as str::split_whitespace yields them.
pub open spec fn split_ws_spec(s: Seq<char>) -> Seq<Seq<char>>
    decreases s.len(),
    via split_ws_spec_decreases
{
    if s.len() == 0 {
        Seq::empty()
    } else if is_space(s[0]) {
        split_ws_spec(s.skip(1))
    } else {
        seq![s.take(word_len(s) as int)] + split_ws_spec(s.skip(word_len(s) as int))
    }
}

#[via_fn]
proof fn split_ws_spec_decreases(s: Seq<char>) {
    lemma_word_len_le(s);
}

/// Split into whitespace-separated words.
pub fn split_ws_chars(v: &Vec<char>) -> (r: Vec<Vec<char>>)
    ensures
        views_of_vecs(r@) == split_ws_spec(v@),
{
    let n: usize = v.len();
    let mut r: Vec<Vec<char>> = Vec::new();
    let mut i: usize = 0;
    proof {
        assert(v@.skip(0) =~= v@);
        assert(views_of_vecs(r@) + split_ws_spec(v@.skip(0)) =~= split_ws_spec(v@));
    }
    while i < n
        invariant
            n == v@.len(),
            i <= n,
            views_of_vecs(r@) + split_ws_spec(v@.skip(i as int)) == split_ws_spec(v@),
        decreases n - i,
    {
        if char_is_whitespace(v[i]) {
            proof {
                assert(v@.skip(i as int).skip(1) =~= v@.skip(i + 1));
                assert(views_of_vecs(r@) + split_ws_spec(v@.skip(i + 1)) =~= views_of_vecs(r@)
                    + split_ws_spec(v@.skip(i as int)));
            }
            i = i + 1;
        } else {
            let ghost t = v@.skip(i as int);
            let mut j: usize = i + 1;
            proof {
                assert(t.skip(1) =~= v@.skip(i + 1));
                assert(word_len(t) == 1 + word_len(v@.skip(i + 1)));
            }
            while j < n && !char_is_whitespace(v[j])
                invariant
                    n == v@.len(),
                    i < j <= n,
                    t == v@.skip(i as int),
                    word_len(t) == j - i + word_len(v@.skip(j as int)),
                decreases n - j,
            {
                proof {
                    assert(v@.skip(j as int).skip(1) =~= v@.skip(j + 1));
                    assert(word_len(v@.skip(j as int)) == 1 + word_len(v@.skip(j + 1)));
                }
                j = j + 1;
            }
            proof {
                assert(word_len(v@.skip(j as int)) == 0);
                assert(word_len(t) == j - i);
                lemma_word_len_le(t);
            }
            let word = subrange_chars(v, i, j);
            let ghost old_r = r@;
            r.push(word);
            proof {
                assert(t.take(word_len(t) as int) =~= v@.subrange(i as int, j as int));
                assert(t.skip(word_len(t) as int) =~= v@.skip(j as int));
                assert(split_ws_spec(t) == seq![v@.subrange(i as int, j as int)] + split_ws_spec(
                    v@.skip(j as int),
                ));
                assert(views_of_vecs(r@) =~= views_of_vecs(old_r).push(
                    v@.subrange(i as int, j as int),
                ));
                assert(views_of_vecs(r@) + split_ws_spec(v@.skip(j as int)) =~= views_of_vecs(old_r)
                    + split_ws_spec(t));
            }
            i = j;
        }
    }
    proof {
        assert(split_ws_spec(v@.skip(i as int)) =~= Seq::<Seq<char>>::empty());
        assert(views_of_vecs(r@) + split_ws_spec(v@.skip(i as int)) =~= views_of_vecs(r@));
    }
    r
}

/// The views of a vector of character vectors.
pub open spec fn views_of_vecs(v: Seq<Vec<char>>) -> Seq<Seq<char>> {
    Seq::new(v.len(), |i: int| v[i]@)
}

/// The views of a vector of strings.
pub open spec fn views_of_strings(v: Seq<String>) -> Seq<Seq<char>> {
    Seq::new(v.len(), |i: int| v[i]@)
}

/// The parts joined with the separator between consecutive parts.
pub open spec fn join_spec(parts: Seq<Seq<char>>, sep: Seq<char>) -> Seq<char>
    decreases parts.len(),
{
    if parts.len() == 0 {
        Seq::empty()
    } else if parts.len() == 1 {
        parts[0]
    } else {
        parts[0] + sep + join_spec(parts.skip(1), sep)
    }
}

pub proof fn lemma_join_snoc(parts: Seq<Seq<char>>, sep: Seq<char>, x: Seq<char>)
    ensures
        join_spec(parts.push(x), sep) == if parts.len() == 0 {
            x
        } else {
            join_spec(parts, sep) + sep + x
        },
    decreases parts.len(),
{
    let p = parts.push(x);
    if parts.len() == 0 {
        assert(p[0] == x);
    } else if parts.len() == 1 {
        assert(p[0] == parts[0]);
        assert(p.skip(1) =~= seq![x]);
        assert(join_spec(p.skip(1), sep) == x);
    } else {
        assert(p[0] == parts[0]);
        assert(p.skip(1) =~= parts.skip(1).push(x));
        lemma_join_snoc(parts.skip(1), sep, x);
        assert(join_spec(parts, sep) == parts[0] + sep + join_spec(parts.skip(1), sep));
        assert((parts[0] + sep + join_spec(parts.skip(1), sep)) + sep + x =~= parts[0] + sep + (
        join_spec(parts.skip(1), sep) + sep + x));
    }
}

/// Join words with a separator.
pub fn join_chars(parts: &Vec<Vec<char>>, sep: &Vec<char>) -> (r: Vec<char>)
    ensures
        r@ == join_spec(views_of_vecs(parts@), sep@),
{
    let mut r: Vec<char> = Vec::new();
    let mut k: usize = 0;
    while k < parts.len()
        invariant
            k <= parts@.len(),
            r@ == join_spec(views_of_vecs(parts@).take(k as int), sep@),
        decreases parts@.len() - k,
    {
        let ghost vs = views_of_vecs(parts@);
        if k > 0 {
            r.extend_from_slice(sep.as_slice());
        }
        r.extend_from_slice(parts[k].as_slice());
        proof {
            assert(vs.take(k + 1) =~= vs.take(k as int).push(vs[k as int]));
            lemma_join_snoc(vs.take(k as int), sep@, vs[k as int]);
            assert(vs[k as int] == parts@[k as int]@);
            if k == 0 {
                assert(vs.take(0) =~= Seq::<Seq<char>>::empty());
            }
        }
        k = k + 1;
    }
    proof {
        assert(views_of_vecs(parts@).take(parts@.len() as int) =~= views_of_vecs(parts@));
    }
    r
}

// ---------------------------------------------------------------------
// Lexicographic order, sorting, and deduplication.
// ---------------------------------------------------------------------
/// Lexicographic order on character sequences by code point, the order
/// in which the standard library compares strings.
pub open spec fn lex_le(a: Seq<char>, b: Seq<char>) -> bool
    decreases a.len(),
{
    if a.len() == 0 {
        true
    } else if b.len() == 0 {
        false
    } else if (a[0] as u32) < (b[0] as u32) {
        true
    } else if (a[0] as u32) > (b[0] as u32) {
        false
    } else {
        lex_le(a.skip(1), b.skip(1))
    }
}

/// Whether `a` sorts at or before `b`.
pub fn str_le(a: &str, b: &str) -> (r: bool)
    ensures
        r == lex_le(a@, b@),
{
    let av = str_chars(a);
    let bv = str_chars(b);
    let mut i: usize = 0;
    proof {
        assert(av@.skip(0) =~= av@);
        assert(bv@.skip(0) =~= bv@);
    }
    loop
        invariant
            av@ == a@,
            bv@ == b@,
            i <= av@.len(),
            i <= bv@.len(),
            lex_le(a@, b@) == lex_le(av@.skip(i as int), bv@.skip(i as int)),
        decreases av@.len() - i,
    {
        proof {
            if i < av@.len() && i < bv@.len() {
                assert(av@.skip(i as int)[0] == av@[i as int]);
                assert(bv@.skip(i as int)[0] == bv@[i as int]);
                assert(av@.skip(i as int).skip(1) =~= av@.skip(i + 1));
                assert(bv@.skip(i as int).skip(1) =~= bv@.skip(i + 1));
            }
        }
        if i == av.len() {
            return true;
        }
        if i == bv.len() {
            return false;
        }
        let ca = av[i] as u32;
        let cb = bv[i] as u32;
        if ca < cb {
            return true;
        }
        if ca > cb {
            return false;
        }
        i = i + 1;
    }
}

/// Insertion of one word into a sorted run: after every word that sorts
/// at or before it.
pub open spec fn insert_sorted_spec(x: Seq<char>, s: Seq<Seq<char>>) -> Seq<Seq<char>>
    decreases s.len(),
{
    if s.len() == 0 {
        seq![x]
    } else if lex_le(s[0], x) {
        seq![s[0]] + insert_sorted_spec(x, s.skip(1))
    } else {
        seq![x] + s
    }
}

/// Insertion sort of a sequence of words, stable and deterministic.
pub open spec fn sort_spec(s: Seq<Seq<char>>) -> Seq<Seq<char>>
    decreases s.len(),
{
    if s.len() == 0 {
        s
    } else {
        insert_sorted_spec(s[0], sort_spec(s.skip(1)))
    }
}

fn insert_string_sorted(r: &mut Vec<String>, x: String)
    ensures
        views_of_strings(final(r)@) == insert_sorted_spec(x@, views_of_strings(old(r)@)),
{
    let ghost vs = views_of_strings(r@);
    let mut k: usize = 0;
    proof {
        assert(vs.take(0) =~= Seq::<Seq<char>>::empty());
        assert(vs.skip(0) =~= vs);
        assert(insert_sorted_spec(x@, vs) =~= vs.take(0) + insert_sorted_spec(x@, vs.skip(0)));
    }
    while k < r.len() && str_le(r[k].as_str(), x.as_str())
        invariant
            vs == views_of_strings(r@),
            k <= r@.len(),
            insert_sorted_spec(x@, vs) == vs.take(k as int) + insert_sorted_spec(
                x@,
                vs.skip(k as int),
            ),
        decreases r@.len() - k,
    {
        proof {
            assert(vs.skip(k as int)[0] == vs[k as int]);
            assert(vs.skip(k as int).skip(1) =~= vs.skip(k + 1));
            assert(insert_sorted_spec(x@, vs.skip(k as int)) == seq![vs[k as int]]
                + insert_sorted_spec(x@, vs.skip(k + 1)));
            assert(vs.take(k as int) + (seq![vs[k as int]] + insert_sorted_spec(x@, vs.skip(k + 1)))
                =~= vs.take(k + 1) + insert_sorted_spec(x@, vs.skip(k + 1)));
        }
        k = k + 1;
    }
    proof {
        if k < vs.len() {
            assert(insert_sorted_spec(x@, vs.skip(k as int)) == seq![x@] + vs.skip(k as int));
        } else {
            assert(vs.skip(k as int) =~= Seq::<Seq<char>>::empty());
            assert(insert_sorted_spec(x@, vs.skip(k as int)) == seq![x@]);
        }
    }
    r.insert(k, x);
    proof {
        assert(views_of_strings(r@) =~= vs.take(k as int) + (seq![x@] + vs.skip(k as int)));
    }
}

/// Sort words into code-point order, as the standard library's string
/// sort does.
pub fn sort_strings(v: &Vec<String>) -> (r: Vec<String>)
    ensures
        views_of_strings(r@) == sort_spec(views_of_strings(v@)),
{
    let ghost vs = views_of_strings(v@);
    let mut r: Vec<String> = Vec::new();
    let mut idx: usize = v.len();
    proof {
        assert(vs.skip(v@.len() as int) =~= Seq::<Seq<char>>::empty());
        assert(views_of_strings(r@) =~= sort_spec(vs.skip(v@.len() as int)));
    }
    while idx > 0
        invariant
            vs == views_of_strings(v@),
            idx <= v@.len(),
            views_of_strings(r@) == sort_spec(vs.skip(idx as int)),
        decreases idx,
    {
        idx = idx - 1;
        let x = v[idx].clone();
        proof {
            assert(vs.skip(idx as int)[0] == vs[idx as int]);
            assert(vs.skip(idx as int).skip(1) =~= vs.skip(idx + 1));
            assert(x@ == vs[idx as int]);
        }
        insert_string_sorted(&mut r, x);
    }
    proof {
        assert(vs.skip(0) =~= vs);
    }
    r
}

/// Removal of adjacent duplicate words, keeping one of each run, as
/// Vec::dedup performs on a sorted vector.
pub open spec fn dedup_spec(s: Seq<Seq<char>>) -> Seq<Seq<char>>
    decreases s.len(),
{
    if s.len() <= 1 {
        s
    } else if s[0] == s[1] {
        dedup_spec(s.skip(1))
    } else {
        seq![s[0]] + dedup_spec(s.skip(1))
    }
}

/// Remove adjacent duplicates.
pub fn dedup_strings(v: &Vec<String>) -> (r: Vec<String>)
    ensures
        views_of_strings(r@) == dedup_spec(views_of_strings(v@)),
{
    let ghost vs = views_of_strings(v@);
    let n: usize = v.len();
    let mut r: Vec<String> = Vec::new();
    let mut i: usize = 0;
    proof {
        assert(vs.skip(0) =~= vs);
        assert(views_of_strings(r@) + dedup_spec(vs.skip(0)) =~= dedup_spec(vs));
    }
    while i < n
        invariant
            vs == views_of_strings(v@),
            n == v@.len(),
            i <= n,
            views_of_strings(r@) + dedup_spec(vs.skip(i as int)) == dedup_spec(vs),
        decreases n - i,
    {
        let ghost t = vs.skip(i as int);
        proof {
            assert(t[0] == vs[i as int]);
            assert(t.skip(1) =~= vs.skip(i + 1));
            if i + 1 < n {
                assert(t[1] == vs[i + 1]);
            }
        }
        if i + 1 < n && v[i] == v[i + 1] {
            proof {
                assert(dedup_spec(t) == dedup_spec(vs.skip(i + 1)));
            }
        } else {
            let ghost old_r = r@;
            r.push(v[i].clone());
            proof {
                if i + 1 < n {
                    assert(dedup_spec(t) == seq![t[0]] + dedup_spec(vs.skip(i + 1)));
                } else {
                    assert(t.len() == 1);
                    assert(t =~= seq![t[0]]);
                    assert(vs.skip(i + 1) =~= Seq::<Seq<char>>::empty());
                    assert(dedup_spec(t) == t);
                }
                assert(views_of_strings(r@) =~= views_of_strings(old_r).push(vs[i as int]));
                assert(views_of_strings(r@) + dedup_spec(vs.skip(i + 1)) =~= views_of_strings(old_r)
                    + dedup_spec(t));
            }
        }
        i = i + 1;
    }
    proof {
        assert(dedup_spec(vs.skip(i as int)) =~= Seq::<Seq<char>>::empty());
        assert(views_of_strings(r@) + dedup_spec(vs.skip(i as int)) =~= views_of_strings(r@));
    }
    r
}

/// Whether a character vector holds exactly the characters of a string.
pub fn chars_eq_str(t: &Vec<char>, s: &str) -> (r: bool)
    ensures
        r == (t@ == s@),
{
    let n = s.unicode_len();
    if t.len() != n {
        return false;
    }
    let mut i: usize = 0;
    while i < n
        invariant
            n == s@.len(),
            t@.len() == n,
            i <= n,
            forall|k: int| 0 <= k < i ==> t@[k] == s@[k],
        decreases n - i,
    {
        if t[i] != s.get_char(i) {
            return false;
        }
        i = i + 1;
    }
    proof {
        assert(t@ =~= s@);
    }
    true
}

/// A longer digit prefix never denotes a smaller value.
proof fn lemma_dec_value_grows(s: Seq<char>, k: int)
    requires
        0 <= k <= s.len(),
        all_digits(s),
    ensures
        dec_value(s) >= dec_value(s.take(k)),
    decreases s.len() - k,
{
    if k < s.len() {
        lemma_dec_value_grows(s, k + 1);
        assert(s.take(k + 1).drop_last() =~= s.take(k));
        lemma_dec_value_nonneg(s.take(k));
        assert(dec_value(s.take(k + 1)) == dec_value(s.take(k)) * 10 + digit_value(
            s.take(k + 1).last(),
        ));
        assert(digit_value(s.take(k + 1).last()) >= 0);
        assert(dec_value(s.take(k)) * 10 >= dec_value(s.take(k)));
    } else {
        assert(s.take(k) =~= s);
    }
}

} // verus!
