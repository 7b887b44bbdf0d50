use vstd::prelude::*;

verus! {

/// Appends one character to a string.
///
/// Calls `String::push`, which std documents as appending the given `char`
/// to the end of the string; the contract says exactly that.
#[verifier::external_body]
pub(crate) fn push_char(s: &mut String, c: char)
    ensures
        final(s)@ == old(s)@.push(c),
{
    s.push(c);
}

/// The characters of a string slice, in order.
pub fn chars_of(s: &str) -> (r: Vec<char>)
    ensures
        r@ == s@,
{
    let mut r: Vec<char> = Vec::new();
    for c in it: s.chars()
        invariant
            r@ == it.seq().take(it.index() as int),
    {
        r.push(c);
    }
    r
}


/// A string holding exactly the given characters.
pub fn string_of(chars: &Vec<char>) -> (r: String)
    ensures
        r@ == chars@,
{
    let mut r = String::new();
    let mut i: usize = 0;
    while i < chars.len()
        invariant
            i <= chars.len(),
            r@ == chars@.take(i as int),
        decreases chars.len() - i,
    {
        push_char(&mut r, chars[i]);
        i = i + 1;
        assert(chars@.take(i as int) == chars@.take(i - 1).push(chars@[i - 1]));
    }
    r
}

/// Unicode `White_Space`: the characters that `char::is_whitespace` accepts.
pub open spec fn is_white_space(c: char) -> bool {
    let u = c as u32;
    ||| 0x09 <= u <= 0x0d
    ||| u == 0x20
    ||| u == 0x85
    ||| u == 0xa0
    ||| u == 0x1680
    ||| 0x2000 <= u <= 0x200a
    ||| u == 0x2028
    ||| u == 0x2029
    ||| u == 0x202f
    ||| u == 0x205f
    ||| u == 0x3000
}

/// Decides `is_white_space`.
pub fn white_space(c: char) -> (r: bool)
    ensures
        r == is_white_space(c),
        r <==> ('\t' <= c <= '\r' || c == ' ' || c == '\u{85}' || c == '\u{a0}' || c == '\u{1680}' || '\u{2000}'
            <= c <= '\u{200a}' || c == '\u{2028}' || c == '\u{2029}' || c == '\u{202f}' || c == '\u{205f}'
            || c == '\u{3000}'),
{
    let u = c as u32;
    (0x09 <= u && u <= 0x0d) || u == 0x20 || u == 0x85 || u == 0xa0 || u == 0x1680
        || (0x2000 <= u && u <= 0x200a) || u == 0x2028 || u == 0x2029 || u == 0x202f
        || u == 0x205f || u == 0x3000
}

/// The text with leading white space removed.
pub open spec fn trim_start(s: Seq<char>) -> Seq<char>
    decreases s.len(),
{
    if s.len() > 0 && is_white_space(s[0]) {
        trim_start(s.drop_first())
    } else {
        s
    }
}

/// The text with trailing white space removed.
pub open spec fn trim_end(s: Seq<char>) -> Seq<char>
    decreases s.len(),
{
    if s.len() > 0 && is_white_space(s.last()) {
        trim_end(s.drop_last())
    } else {
        s
    }
}

/// The text with white space removed at both ends, as `str::trim` does.
pub open spec fn trim(s: Seq<char>) -> Seq<char> {
    trim_end(trim_start(s))
}

proof fn lemma_trim_start_skip(s: Seq<char>, i: int)
    requires
        0 <= i <= s.len(),
        forall|k: int| 0 <= k < i ==> is_white_space(#[trigger] s[k]),
    ensures
        trim_start(s) == trim_start(s.skip(i)),
    decreases i,
{
    if i > 0 {
        assert(s.skip(1) == s.drop_first());
        lemma_trim_start_skip(s.drop_first(), i - 1);
        assert(s.drop_first().skip(i - 1) == s.skip(i));
    } else {
        assert(s.skip(0) == s);
    }
}

proof fn lemma_trim_end_take(s: Seq<char>, j: int)
    requires
        0 <= j <= s.len(),
        forall|k: int| j <= k < s.len() ==> is_white_space(#[trigger] s[k]),
    ensures
        trim_end(s) == trim_end(s.take(j)),
    decreases s.len() - j,
{
    if j < s.len() {
        assert(s.take(s.len() - 1) == s.drop_last());
        lemma_trim_end_take(s.drop_last(), j);
        assert(s.drop_last().take(j) == s.take(j));
    } else {
        assert(s.take(j) == s);
    }
}

proof fn lemma_trim_start_within(s: Seq<char>)
    ensures
        forall|k: int| 0 <= k < trim_start(s).len() ==> s.contains(#[trigger] trim_start(s)[k]),
    decreases s.len(),
{
    if s.len() > 0 && is_white_space(s[0]) {
        let r = s.drop_first();
        lemma_trim_start_within(r);
        assert forall|k: int| 0 <= k < trim_start(s).len() implies s.contains(#[trigger] trim_start(s)[k]) by {
            let x = trim_start(r)[k];
            let m = choose|m: int| 0 <= m < r.len() && r[m] == x;
            assert(s[m + 1] == x);
        }
    } else {
        assert forall|k: int| 0 <= k < trim_start(s).len() implies s.contains(#[trigger] trim_start(s)[k]) by {
            assert(s[k] == trim_start(s)[k]);
        }
    }
}

proof fn lemma_trim_end_within(s: Seq<char>)
    ensures
        forall|k: int| 0 <= k < trim_end(s).len() ==> s.contains(#[trigger] trim_end(s)[k]),
    decreases s.len(),
{
    if s.len() > 0 && is_white_space(s.last()) {
        let r = s.drop_last();
        lemma_trim_end_within(r);
        assert forall|k: int| 0 <= k < trim_end(s).len() implies s.contains(#[trigger] trim_end(s)[k]) by {
            let x = trim_end(r)[k];
            let m = choose|m: int| 0 <= m < r.len() && r[m] == x;
            assert(s[m] == x);
        }
    } else {
        assert forall|k: int| 0 <= k < trim_end(s).len() implies s.contains(#[trigger] trim_end(s)[k]) by {
            assert(s[k] == trim_end(s)[k]);
        }
    }
}

/// Trimming the start twice is trimming it once, and what is left does not
/// start with white space.
pub proof fn lemma_trim_start_idempotent(s: Seq<char>)
    ensures
        trim_start(trim_start(s)) == trim_start(s),
        trim_start(s).len() > 0 ==> !is_white_space(trim_start(s)[0]),
    decreases s.len(),
{
    if s.len() > 0 && is_white_space(s[0]) {
        lemma_trim_start_idempotent(s.drop_first());
    }
}

/// Trimming the end of a text that does not start with white space keeps a
/// prefix of it that neither starts nor ends with white space.
pub proof fn lemma_trim_end_keeps_start(s: Seq<char>)
    requires
        s.len() > 0 ==> !is_white_space(s[0]),
    ensures
        trim_end(s).len() > 0 ==> !is_white_space(trim_end(s)[0]),
        trim_end(s).len() > 0 ==> !is_white_space(trim_end(s).last()),
        trim_end(s).len() <= s.len(),
        trim_end(s) == s.take(trim_end(s).len() as int),
    decreases s.len(),
{
    if s.len() > 0 && is_white_space(s.last()) {
        lemma_trim_end_keeps_start(s.drop_last());
        assert(s.drop_last().take(trim_end(s).len() as int) == s.take(trim_end(s).len() as int));
    } else {
        assert(s.take(s.len() as int) == s);
    }
}

/// A trimmed text neither starts nor ends with white space.
pub proof fn lemma_trim_ends(s: Seq<char>)
    ensures
        trim(s).len() > 0 ==> !is_white_space(trim(s)[0]) && !is_white_space(trim(s).last()),
{
    lemma_trim_start_idempotent(s);
    lemma_trim_end_keeps_start(trim_start(s));
}

/// Trimming only removes characters: a character absent from a text is
/// absent from the trimmed text.
pub proof fn lemma_trim_adds_nothing(s: Seq<char>, c: char)
    ensures
        !s.contains(c) ==> !trim(s).contains(c),
{
    lemma_trim_start_within(s);
    lemma_trim_end_within(trim_start(s));
    if trim(s).contains(c) {
        let k = choose|k: int| 0 <= k < trim(s).len() && trim(s)[k] == c;
        assert(trim_start(s).contains(trim_end(trim_start(s))[k]));
        let m = choose|m: int| 0 <= m < trim_start(s).len() && trim_start(s)[m] == c;
        assert(s.contains(trim_start(s)[m]));
    }
}

/// The part of a text before the first `sep` never holds `sep`.
pub proof fn lemma_before_char_has_no_sep(s: Seq<char>, sep: char)
    ensures
        !before_char(s, sep).contains(sep),
    decreases s.len(),
{
    if s.len() > 0 && s[0] != sep {
        lemma_before_char_has_no_sep(s.drop_first(), sep);
        let b = before_char(s, sep);
        let rest = before_char(s.drop_first(), sep);
        assert(b == seq![s[0]] + rest);
        if b.contains(sep) {
            let k = choose|k: int| 0 <= k < b.len() && b[k] == sep;
            assert(k > 0);
            assert(rest[k - 1] == sep);
        }
    }
}

/// `t` is the part of `s` that starts at `i`, and everything in `s` before
/// and after that part is white space.
pub open spec fn cut_from(s: Seq<char>, t: Seq<char>, i: int) -> bool {
    &&& 0 <= i
    &&& i + t.len() <= s.len()
    &&& t == s.subrange(i, i + t.len())
    &&& forall|k: int| 0 <= k < i ==> is_white_space(#[trigger] s[k])
    &&& forall|k: int| i + t.len() <= k < s.len() ==> is_white_space(#[trigger] s[k])
}

/// The characters of `chars` with white space removed at both ends.
pub fn trimmed(chars: &Vec<char>) -> (r: Vec<char>)
    ensures
        r@ == trim(chars@),
        r@.len() > 0 ==> !is_white_space(r@[0]) && !is_white_space(r@.last()),
        exists|i: int| #[trigger] cut_from(chars@, r@, i),
{
    let n = chars.len();
    let mut i: usize = 0;
    while i < n && white_space(chars[i])
        invariant
            i <= n == chars.len(),
            forall|k: int| 0 <= k < i ==> is_white_space(#[trigger] chars@[k]),
        decreases n - i,
    {
        i = i + 1;
    }
    proof {
        lemma_trim_start_skip(chars@, i as int);
    }
    let ghost rest = chars@.skip(i as int);
    assert(trim_start(rest) == rest);
    let mut j: usize = n;
    while j > i && white_space(chars[j - 1])
        invariant
            i <= j <= n == chars.len(),
            forall|k: int| j <= k < n ==> is_white_space(#[trigger] chars@[k]),
        decreases j - i,
    {
        j = j - 1;
    }
    proof {
        lemma_trim_end_take(rest, j - i);
        assert(rest.take(j - i) == chars@.subrange(i as int, j as int));
    }
    let mut r: Vec<char> = Vec::new();
    let mut k: usize = i;
    while k < j
        invariant
            i <= k <= j <= n == chars.len(),
            r@ == chars@.subrange(i as int, k as int),
        decreases j - k,
    {
        r.push(chars[k]);
        k = k + 1;
    }
    assert(r@ == chars@.subrange(i as int, i as int + r@.len()));
    assert(cut_from(chars@, r@, i as int));
    r
}


/// The views of a sequence of strings.
pub open spec fn views(v: Seq<String>) -> Seq<Seq<char>> {
    v.map_values(|s: String| s@)
}

/// The views of a sequence of character vectors.
pub open spec fn char_views(v: Seq<Vec<char>>) -> Seq<Seq<char>> {
    v.map_values(|s: Vec<char>| s@)
}

/// `pattern` occurs in `s` starting at position `i`.
pub open spec fn occurs_at(s: Seq<char>, pattern: Seq<char>, i: int) -> bool {
    0 <= i && i + pattern.len() <= s.len() && s.subrange(i, i + pattern.len()) == pattern
}

/// `pattern` occurs somewhere in `s`, as `str::contains` reports.
pub open spec fn has_substring(s: Seq<char>, pattern: Seq<char>) -> bool {
    exists|i: int| occurs_at(s, pattern, i)
}

/// Whether `pattern` occurs at position `i` of `s`.
fn matches_at(s: &Vec<char>, pattern: &Vec<char>, i: usize) -> (r: bool)
    requires
        i + pattern.len() <= s.len(),
    ensures
        r == occurs_at(s@, pattern@, i as int),
{
    let mut k: usize = 0;
    while k < pattern.len()
        invariant
            k <= pattern.len(),
            i + pattern.len() <= s.len(),
            forall|m: int| 0 <= m < k ==> s@[i + m] == pattern@[m],
        decreases pattern.len() - k,
    {
        if s[i + k] != pattern[k] {
            assert(s@.subrange(i as int, i + pattern.len())[k as int] != pattern@[k as int]);
            return false;
        }
        k = k + 1;
    }
    assert(s@.subrange(i as int, i + pattern.len()) =~= pattern@);
    true
}

/// The first position at which `pattern` occurs in `s`, if any.
pub open spec fn first_occurrence(s: Seq<char>, pattern: Seq<char>) -> Option<int> {
    if has_substring(s, pattern) {
        Some(choose|i: int| occurs_at(s, pattern, i) && forall|j: int| 0 <= j < i ==> !occurs_at(s, pattern, j))
    } else {
        None
    }
}

/// Finds the first position at which `pattern` occurs in `s`, as `str::find` does
/// (counted in characters).
pub fn find_first(s: &Vec<char>, pattern: &Vec<char>) -> (r: Option<usize>)
    ensures
        match r {
            Some(i) => occurs_at(s@, pattern@, i as int) && forall|j: int| 0 <= j < i ==> !occurs_at(s@, pattern@, j),
            None => !has_substring(s@, pattern@),
        },
        r matches Some(i) ==> first_occurrence(s@, pattern@) == Some(i as int),
        r is None <==> first_occurrence(s@, pattern@) is None,
{
    if pattern.len() > s.len() {
        return None;
    }
    if pattern.len() == 0 {
        assert(s@.subrange(0, 0) =~= pattern@);
        assert(occurs_at(s@, pattern@, 0));
        return Some(0);
    }
    let last = s.len() - pattern.len();
    let mut i: usize = 0;
    while i <= last
        invariant
            last + pattern.len() == s.len(),
            pattern.len() >= 1,
            i <= last + 1,
            forall|j: int| 0 <= j < i ==> !occurs_at(s@, pattern@, j),
        decreases last + 1 - i,
    {
        if matches_at(s, pattern, i) {
            proof {
                let w = choose|k: int| occurs_at(s@, pattern@, k) && forall|j: int| 0 <= j < k ==> !occurs_at(s@, pattern@, j);
                assert(occurs_at(s@, pattern@, w));
                if w < i {
                } else if w > i {
                    assert(!occurs_at(s@, pattern@, i as int));
                }
            }
            return Some(i);
        }
        i = i + 1;
    }
    None
}

/// Whether `pattern` occurs in `s`.
pub fn contains_seq(s: &Vec<char>, pattern: &Vec<char>) -> (r: bool)
    ensures
        r == has_substring(s@, pattern@),
{
    find_first(s, pattern).is_some()
}

/// The part of `s` before the first `sep`, or all of `s` when it holds none:
/// what `s.split(sep).next()` yields.
pub open spec fn before_char(s: Seq<char>, sep: char) -> Seq<char>
    decreases s.len(),
{
    if s.len() == 0 {
        s
    } else if s[0] == sep {
        Seq::empty()
    } else {
        seq![s[0]] + before_char(s.drop_first(), sep)
    }
}

proof fn lemma_before_char_take(s: Seq<char>, sep: char, k: int)
    requires
        0 <= k <= s.len(),
        forall|m: int| 0 <= m < k ==> #[trigger] s[m] != sep,
        k == s.len() || s[k] == sep,
    ensures
        before_char(s, sep) == s.take(k),
    decreases k,
{
    if k == 0 {
        if s.len() > 0 {
        }
    } else {
        lemma_before_char_take(s.drop_first(), sep, k - 1);
        assert(s.take(k) == seq![s[0]] + s.drop_first().take(k - 1));
    }
}

/// The part of `s` before the first `sep`.
pub fn prefix_before(s: &Vec<char>, sep: char) -> (r: Vec<char>)
    ensures
        r@ == before_char(s@, sep),
        r@ == s@.take(r@.len() as int),
        !r@.contains(sep),
        r@.len() < s@.len() ==> s@[r@.len() as int] == sep,
{
    let mut r: Vec<char> = Vec::new();
    let mut k: usize = 0;
    while k < s.len() && s[k] != sep
        invariant
            k <= s.len(),
            r@ == s@.take(k as int),
            forall|m: int| 0 <= m < k ==> #[trigger] s@[m] != sep,
        decreases s.len() - k,
    {
        r.push(s[k]);
        k = k + 1;
    }
    proof {
        lemma_before_char_take(s@, sep, k as int);
    }
    r
}


/// Strict lexicographic order on character sequences, which is the order of
/// `String`s (UTF-8 preserves the order of code points).
pub open spec fn lex_less(a: Seq<char>, b: Seq<char>) -> bool
    decreases a.len(),
{
    if b.len() == 0 {
        false
    } else if a.len() == 0 {
        true
    } else if a[0] < b[0] {
        true
    } else if a[0] == b[0] {
        lex_less(a.drop_first(), b.drop_first())
    } else {
        false
    }
}

/// No sequence comes before itself.
pub proof fn lemma_lex_irreflexive(a: Seq<char>)
    ensures
        !lex_less(a, a),
    decreases a.len(),
{
    if a.len() > 0 {
        lemma_lex_irreflexive(a.drop_first());
    }
}

/// The order is transitive.
pub proof fn lemma_lex_transitive(a: Seq<char>, b: Seq<char>, c: Seq<char>)
    requires
        lex_less(a, b),
        lex_less(b, c),
    ensures
        lex_less(a, c),
    decreases a.len(),
{
    if a.len() > 0 && b.len() > 0 && c.len() > 0 {
        if a[0] == b[0] && b[0] == c[0] {
            lemma_lex_transitive(a.drop_first(), b.drop_first(), c.drop_first());
        }
    }
}

/// Of two different sequences, one comes before the other.
pub proof fn lemma_lex_total(a: Seq<char>, b: Seq<char>)
    ensures
        lex_less(a, b) || lex_less(b, a) || a == b,
    decreases a.len(),
{
    if a.len() > 0 && b.len() > 0 {
        if a[0] == b[0] {
            lemma_lex_total(a.drop_first(), b.drop_first());
            if a.drop_first() == b.drop_first() {
                assert(a == seq![a[0]] + a.drop_first());
                assert(b == seq![b[0]] + b.drop_first());
            }
        } else {
        }
    } else if a.len() == 0 && b.len() == 0 {
        assert(a == b);
    }
}

/// Two sequences that agree on their first `k` characters are ordered by
/// what follows: a proper prefix comes first, then the smaller character at
/// the first difference decides, and nothing comes before one of its own
/// prefixes.
pub proof fn lemma_lex_first_difference(a: Seq<char>, b: Seq<char>, k: int)
    requires
        0 <= k <= a.len(),
        k <= b.len(),
        a.take(k) == b.take(k),
    ensures
        k == a.len() && k < b.len() ==> lex_less(a, b),
        k < a.len() && k < b.len() && a[k] < b[k] ==> lex_less(a, b),
        k < a.len() && k < b.len() && b[k] < a[k] ==> !lex_less(a, b),
        k == b.len() ==> !lex_less(a, b),
    decreases k,
{
    if k > 0 {
        assert(a[0] == a.take(k)[0] && b[0] == b.take(k)[0]);
        assert(a.drop_first().take(k - 1) =~= a.take(k).drop_first());
        assert(b.drop_first().take(k - 1) =~= b.take(k).drop_first());
        lemma_lex_first_difference(a.drop_first(), b.drop_first(), k - 1);
    }
}

/// Whether `a` comes strictly before `b`.
pub fn lex_before(a: &Vec<char>, b: &Vec<char>) -> (r: bool)
    ensures
        r == lex_less(a@, b@),
{
    let mut i: usize = 0;
    assert(a@.skip(0) == a@ && b@.skip(0) == b@);
    while i < a.len() && i < b.len() && a[i] == b[i]
        invariant
            i <= a.len(),
            i <= b.len(),
            a@.take(i as int) == b@.take(i as int),
            lex_less(a@, b@) == lex_less(a@.skip(i as int), b@.skip(i as int)),
        decreases a.len() - i,
    {
        proof {
            let sa = a@.skip(i as int);
            let sb = b@.skip(i as int);
            assert(sa.drop_first() == a@.skip(i + 1));
            assert(sb.drop_first() == b@.skip(i + 1));
            assert(a@.take(i + 1) == a@.take(i as int).push(a@[i as int]));
            assert(b@.take(i + 1) == b@.take(i as int).push(b@[i as int]));
        }
        i = i + 1;
    }
    if i == b.len() {
        false
    } else if i == a.len() {
        true
    } else {
        a[i] < b[i]
    }
}

/// Character-by-character equality of two character vectors.
pub fn same_chars(a: &Vec<char>, b: &Vec<char>) -> (r: bool)
    ensures
        r == (a@ == b@),
{
    if a.len() != b.len() {
        return false;
    }
    let mut i: usize = 0;
    while i < a.len()
        invariant
            i <= a.len() == b.len(),
            forall|k: int| 0 <= k < i ==> a@[k] == b@[k],
        decreases a.len() - i,
    {
        if a[i] != b[i] {
            return false;
        }
        i = i + 1;
    }
    assert(a@ =~= b@);
    true
}


/// The character of a decimal digit.
pub open spec fn digit_char(d: nat) -> char {
    if d == 0 {
        '0'
    } else if d == 1 {
        '1'
    } else if d == 2 {
        '2'
    } else if d == 3 {
        '3'
    } else if d == 4 {
        '4'
    } else if d == 5 {
        '5'
    } else if d == 6 {
        '6'
    } else if d == 7 {
        '7'
    } else if d == 8 {
        '8'
    } else {
        '9'
    }
}

/// Each digit is written with its ASCII character, `'0'` plus its value; a
/// number below ten is written with one digit, and ten times it with a `0`
/// after that digit.
pub proof fn lemma_digit_chars(d: nat)
    requires
        d < 10,
    ensures
        digit_char(d) as u32 == 48 + d,
        decimal(d) == seq![digit_char(d)],
        0 < d ==> decimal(10 * d) == decimal(d).push('0'),
{
    if d > 0 {
        assert((10 * d) / 10 == d && (10 * d) % 10 == 0) by (nonlinear_arith)
            requires
                0 < d < 10,
        ;
    }
}

/// The decimal numeral of a number, as `{}` formats it.
pub open spec fn decimal(n: nat) -> Seq<char>
    decreases n,
{
    if n < 10 {
        seq![digit_char(n)]
    } else {
        decimal(n / 10).push(digit_char(n % 10))
    }
}

fn digit(d: usize) -> (c: char)
    requires
        d < 10,
    ensures
        c == digit_char(d as nat),
{
    match d {
        0 => '0',
        1 => '1',
        2 => '2',
        3 => '3',
        4 => '4',
        5 => '5',
        6 => '6',
        7 => '7',
        8 => '8',
        _ => '9',
    }
}

/// Appends the decimal numeral of `n` to `s`.
pub fn push_decimal(s: &mut String, n: usize)
    ensures
        final(s)@ == old(s)@ + decimal(n as nat),
    decreases n,
{
    if n >= 10 {
        push_decimal(s, n / 10);
    }
    push_char(s, digit(n % 10));
    assert(final(s)@ =~= old(s)@ + decimal(n as nat));
}

} // verus!
