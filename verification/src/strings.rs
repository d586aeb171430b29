//! Text helpers shared by the rest of the crate: character access,
//! decimal numbers, whitespace trimming, substring search and JSON string
//! quoting, each with the mathematical statement of what it computes.
use vstd::prelude::*;

verus! {

// ---------------------------------------------------------------------------
// Characters
// ---------------------------------------------------------------------------

/// The characters of a string slice, in order.
pub fn chars_of(s: &str) -> (res: Vec<char>)
    ensures
        res@ == s@,
{
    let mut res: Vec<char> = Vec::new();
    for c in it: s.chars()
        invariant
            res@ == it.history(),
    {
        res.push(c);
    }
    res
}

/// Calls `String::push`: the string afterwards is the one before with `c`
/// appended.
#[verifier::external_body]
pub(crate) fn push_char(s: &mut String, c: char)
    ensures
        final(s)@ == old(s)@.push(c),
{
    s.push(c);
}

/// A `String` holding the characters of `chars` from position `from` up to `to`.
pub fn string_from_range(chars: &[char], from: usize, to: usize) -> (res: String)
    requires
        from <= to <= chars@.len(),
    ensures
        res@ == chars@.subrange(from as int, to as int),
{
    let mut res = String::new();
    let mut k = from;
    while k < to
        invariant
            from <= k <= to <= chars@.len(),
            res@ == chars@.subrange(from as int, k as int),
        decreases to - k,
    {
        push_char(&mut res, chars[k]);
        assert(chars@.subrange(from as int, k + 1) == chars@.subrange(from as int, k as int).push(
            chars@[k as int],
        ));
        k = k + 1;
    }
    res
}

/// Owned copy of a string slice.
pub fn owned(s: &str) -> (res: String)
    ensures
        res@ == s@,
{
    s.to_owned()
}

/// Concatenation of two string slices.
pub fn concat2(a: &str, b: &str) -> (res: String)
    ensures
        res@ == a@ + b@,
{
    let mut r = a.to_owned();
    r.append(b);
    r
}

/// Concatenation of three string slices.
pub fn concat3(a: &str, b: &str, c: &str) -> (res: String)
    ensures
        res@ == a@ + b@ + c@,
{
    let mut r = a.to_owned();
    r.append(b);
    r.append(c);
    r
}

/// Whether two string slices hold the same characters.
pub fn str_eq(a: &str, b: &str) -> (res: bool)
    ensures
        res == (a@ == b@),
{
    let x = a.to_owned();
    let y = b.to_owned();
    x == y
}

/// Index of the first occurrence of `c` in `s`, if any.
#[verifier::opaque]
pub open spec fn first_index_of(s: Seq<char>, c: char) -> Option<int> {
    if exists|i: int| 0 <= i < s.len() && s[i] == c {
        Some(choose|i: int| 0 <= i < s.len() && s[i] == c && forall|j: int| 0 <= j < i ==> s[j] != c)
    } else {
        None
    }
}

/// Position of the first `c` in `v` at or after `from`, counted from `from`.
pub fn find_char_after(v: &[char], c: char, from: usize) -> (res: Option<usize>)
    requires
        from <= v@.len(),
    ensures
        match res {
            Some(q) => from <= q < v@.len() && first_index_of(
                v@.subrange(from as int, v@.len() as int),
                c,
            ) == Some(q - from),
            None => first_index_of(v@.subrange(from as int, v@.len() as int), c) is None,
        },
{
    let r = find_char_from(v, c, from);
    let ghost rest = v@.subrange(from as int, v@.len() as int);
    match r {
        Some(q) => {
            proof {
                assert(rest[q - from] == c);
                assert forall|j: int| 0 <= j < q - from implies rest[j] != c by {
                    assert(rest[j] == v@[from + j]);
                }
                lemma_first_index_of_is(rest, c, q - from);
            }
        },
        None => {
            proof {
                assert forall|j: int| 0 <= j < rest.len() implies rest[j] != c by {
                    assert(rest[j] == v@[from + j]);
                }
                reveal(first_index_of);
            }
        },
    }
    r
}

pub proof fn lemma_first_index_of_is(s: Seq<char>, c: char, i: int)
    requires
        0 <= i < s.len(),
        s[i] == c,
        forall|j: int| 0 <= j < i ==> s[j] != c,
    ensures
        first_index_of(s, c) == Some(i),
{
    reveal(first_index_of);
    let w = choose|k: int| 0 <= k < s.len() && s[k] == c && forall|j: int| 0 <= j < k ==> s[j] != c;
    assert(0 <= w < s.len() && s[w] == c);
    if w < i {
        assert(s[w] != c);
    }
    if i < w {
        assert(s[i] != c);
    }
}

/// First position of `c` in `v` at or after `from`.
pub fn find_char_from(v: &[char], c: char, from: usize) -> (res: Option<usize>)
    requires
        from <= v@.len(),
    ensures
        match res {
            Some(i) => from <= i < v@.len() && v@[i as int] == c && forall|j: int|
                from <= j < i ==> v@[j] != c,
            None => forall|j: int| from <= j < v@.len() ==> v@[j] != c,
        },
{
    let mut i = from;
    while i < v.len()
        invariant
            from <= i <= v@.len(),
            forall|j: int| from <= j < i ==> v@[j] != c,
        decreases v@.len() - i,
    {
        if v[i] == c {
            return Some(i);
        }
        i = i + 1;
    }
    None
}

/// First position of `c` in `v`.
pub fn find_char(v: &[char], c: char) -> (res: Option<usize>)
    ensures
        match res {
            Some(i) => i < v@.len() && v@[i as int] == c && first_index_of(v@, c) == Some(i as int),
            None => first_index_of(v@, c) is None,
        },
{
    reveal(first_index_of);
    let r = find_char_from(v, c, 0);
    match r {
        Some(i) => {
            assert(exists|k: int| 0 <= k < v@.len() && v@[k] == c) by {
                assert(v@[i as int] == c);
            }
            let ghost w = choose|k: int|
                0 <= k < v@.len() && v@[k] == c && forall|j: int| 0 <= j < k ==> v@[j] != c;
            assert(w == i as int) by {
                if w < i {
                    assert(v@[w] != c);
                }
                if i < w {
                    assert(v@[i as int] != c);
                }
            }
        },
        None => {},
    }
    r
}

// ---------------------------------------------------------------------------
// Substrings
// ---------------------------------------------------------------------------

/// `needle` occurs in `hay` starting at position `i`.
pub open spec fn occurs_at(hay: Seq<char>, needle: Seq<char>, i: int) -> bool {
    0 <= i && i + needle.len() <= hay.len() && hay.subrange(i, i + needle.len()) == needle
}

/// `needle` occurs somewhere in `hay` (`str::contains`).
pub open spec fn has_substring(hay: Seq<char>, needle: Seq<char>) -> bool {
    exists|i: int| occurs_at(hay, needle, i)
}

fn matches_at(hay: &[char], needle: &[char], i: usize) -> (res: bool)
    requires
        i + needle@.len() <= hay@.len(),
    ensures
        res == occurs_at(hay@, needle@, i as int),
{
    let hl = hay.len();
    let mut k: usize = 0;
    while k < needle.len()
        invariant
            hl == hay@.len(),
            i + needle@.len() <= hay@.len(),
            k <= needle@.len(),
            forall|j: int| 0 <= j < k ==> hay@[i + j] == needle@[j],
        decreases needle@.len() - k,
    {
        if hay[i + k] != needle[k] {
            assert(hay@.subrange(i as int, i + needle@.len())[k as int] != needle@[k as int]);
            return false;
        }
        k = k + 1;
    }
    assert(hay@.subrange(i as int, i + needle@.len()) =~= needle@);
    true
}

/// Position of the first occurrence of `needle` in `hay` (`str::find`).
#[verifier::opaque]
pub open spec fn first_occurrence(hay: Seq<char>, needle: Seq<char>) -> Option<int> {
    if has_substring(hay, needle) {
        Some(
            choose|i: int|
                occurs_at(hay, needle, i) && forall|j: int| 0 <= j < i ==> !occurs_at(hay, needle, j),
        )
    } else {
        None
    }
}

proof fn lemma_first_occurrence_is(hay: Seq<char>, needle: Seq<char>, i: int)
    requires
        occurs_at(hay, needle, i),
        forall|j: int| 0 <= j < i ==> !occurs_at(hay, needle, j),
    ensures
        first_occurrence(hay, needle) == Some(i),
{
    reveal(first_occurrence);
    let w = choose|k: int|
        occurs_at(hay, needle, k) && forall|j: int| 0 <= j < k ==> !occurs_at(hay, needle, j);
    assert(occurs_at(hay, needle, w));
    if w < i {
        assert(!occurs_at(hay, needle, w));
    }
    if i < w {
        assert(!occurs_at(hay, needle, i));
    }
}

/// Position of the first occurrence of `needle` in `hay`.
pub fn find_chars(hay: &[char], needle: &[char]) -> (res: Option<usize>)
    ensures
        match res {
            Some(i) => first_occurrence(hay@, needle@) == Some(i as int) && occurs_at(
                hay@,
                needle@,
                i as int,
            ),
            None => first_occurrence(hay@, needle@) is None,
        },
{
    reveal(first_occurrence);
    if needle.len() > hay.len() {
        assert forall|i: int| !occurs_at(hay@, needle@, i) by {}
        return None;
    }
    let last = hay.len() - needle.len();
    let mut i: usize = 0;
    loop
        invariant
            last + needle@.len() == hay@.len(),
            i <= last,
            forall|j: int| 0 <= j < i ==> !occurs_at(hay@, needle@, j),
        ensures
            forall|j: int| 0 <= j <= last ==> !occurs_at(hay@, needle@, j),
        decreases last - i,
    {
        if matches_at(hay, needle, i) {
            proof {
                lemma_first_occurrence_is(hay@, needle@, i as int);
            }
            return Some(i);
        }
        if i == last {
            break;
        }
        i = i + 1;
    }
    assert forall|j: int| !occurs_at(hay@, needle@, j) by {
        if 0 <= j && j + needle@.len() <= hay@.len() {
            assert(j <= last);
        }
    }
    None
}

/// Whether `needle` occurs in `hay`.
pub fn contains_chars(hay: &[char], needle: &[char]) -> (res: bool)
    ensures
        res == has_substring(hay@, needle@),
{
    reveal(first_occurrence);
    let r = find_chars(hay, needle);
    r.is_some()
}

/// Whether the string `needle` occurs in the string `hay`.
pub fn str_contains(hay: &str, needle: &str) -> (res: bool)
    ensures
        res == has_substring(hay@, needle@),
{
    let h = chars_of(hay);
    let n = chars_of(needle);
    contains_chars(h.as_slice(), n.as_slice())
}

// ---------------------------------------------------------------------------
// Whitespace
// ---------------------------------------------------------------------------

/// Unicode `White_Space` (the property behind `char::is_whitespace`).
pub open spec fn is_ws(c: char) -> bool {
    let u = c as u32;
    (0x09 <= u <= 0x0D) || u == 0x20 || u == 0x85 || u == 0xA0 || u == 0x1680 || (0x2000 <= u
        <= 0x200A) || u == 0x2028 || u == 0x2029 || u == 0x202F || u == 0x205F || u == 0x3000
}

pub fn is_whitespace(c: char) -> (res: bool)
    ensures
        res == is_ws(c),
{
    let u = c as u32;
    (0x09 <= u && u <= 0x0D) || u == 0x20 || u == 0x85 || u == 0xA0 || u == 0x1680 || (0x2000
        <= u && u <= 0x200A) || u == 0x2028 || u == 0x2029 || u == 0x202F || u == 0x205F || u
        == 0x3000
}

/// `s` without its leading whitespace.
pub open spec fn trim_start(s: Seq<char>) -> Seq<char>
    decreases s.len(),
{
    if s.len() > 0 && is_ws(s[0]) {
        trim_start(s.drop_first())
    } else {
        s
    }
}

/// `s` without its trailing whitespace.
pub open spec fn trim_end(s: Seq<char>) -> Seq<char>
    decreases s.len(),
{
    if s.len() > 0 && is_ws(s.last()) {
        trim_end(s.drop_last())
    } else {
        s
    }
}

/// `s` without leading and trailing whitespace (`str::trim`).
pub open spec fn trim(s: Seq<char>) -> Seq<char> {
    trim_end(trim_start(s))
}

proof fn lemma_trim_start_at(s: Seq<char>, k: int)
    requires
        0 <= k <= s.len(),
        forall|j: int| 0 <= j < k ==> is_ws(s[j]),
        k == s.len() || !is_ws(s[k]),
    ensures
        trim_start(s) == s.subrange(k, s.len() as int),
    decreases k,
{
    if k == 0 {
        assert(s.subrange(0, s.len() as int) == s);
    } else {
        let t = s.drop_first();
        assert forall|j: int| 0 <= j < k - 1 implies is_ws(t[j]) by {
            assert(t[j] == s[j + 1]);
        }
        if k - 1 < t.len() {
            assert(t[k - 1] == s[k]);
        }
        lemma_trim_start_at(t, k - 1);
        assert(t.subrange(k - 1, t.len() as int) == s.subrange(k, s.len() as int));
    }
}

proof fn lemma_trim_end_at(s: Seq<char>, k: int)
    requires
        0 <= k <= s.len(),
        forall|j: int| k <= j < s.len() ==> is_ws(s[j]),
        k == 0 || !is_ws(s[k - 1]),
    ensures
        trim_end(s) == s.subrange(0, k),
    decreases s.len() - k,
{
    if k == s.len() {
        assert(s.subrange(0, k) == s);
    } else {
        let t = s.drop_last();
        assert forall|j: int| k <= j < t.len() implies is_ws(t[j]) by {
            assert(t[j] == s[j]);
        }
        if k > 0 {
            assert(t[k - 1] == s[k - 1]);
        }
        lemma_trim_end_at(t, k);
        assert(t.subrange(0, k) == s.subrange(0, k));
    }
}

proof fn lemma_trim_start_shape(s: Seq<char>)
    ensures
        trim_start(s).len() <= s.len(),
        trim_start(s).len() == 0 || !is_ws(trim_start(s)[0]),
        trim_start(s) == s.subrange(s.len() - trim_start(s).len(), s.len() as int),
    decreases s.len(),
{
    if s.len() > 0 && is_ws(s[0]) {
        let t = s.drop_first();
        lemma_trim_start_shape(t);
        let k = trim_start(t).len();
        assert(t.subrange(t.len() - k, t.len() as int) == s.subrange(s.len() - k, s.len() as int));
    } else {
        assert(s.subrange(0, s.len() as int) == s);
    }
}

proof fn lemma_trim_end_shape(s: Seq<char>)
    ensures
        trim_end(s).len() <= s.len(),
        trim_end(s).len() == 0 || !is_ws(trim_end(s).last()),
        trim_end(s) == s.subrange(0, trim_end(s).len() as int),
    decreases s.len(),
{
    if s.len() > 0 && is_ws(s.last()) {
        let t = s.drop_last();
        lemma_trim_end_shape(t);
        let k = trim_end(t).len();
        assert(t.subrange(0, k as int) == s.subrange(0, k as int));
    } else {
        assert(s.subrange(0, s.len() as int) == s);
    }
}

/// Trimming text that is already trimmed leaves it unchanged.
pub proof fn lemma_trim_idempotent(s: Seq<char>)
    ensures
        trim(trim(s)) == trim(s),
{
    let u = trim_start(s);
    lemma_trim_start_shape(s);
    let r = trim_end(u);
    lemma_trim_end_shape(u);
    if r.len() > 0 {
        assert(r[0] == u[0]);
        assert(!is_ws(r[0]));
        assert(!is_ws(r.last()));
    }
    assert(trim_start(r) == r);
    assert(trim_end(r) == r);
}

/// Bounds of the trimmed text of `v` between positions `from` and `to`.
pub fn trim_bounds(v: &[char], from: usize, to: usize) -> (res: (usize, usize))
    requires
        from <= to <= v@.len(),
    ensures
        from <= res.0 <= res.1 <= to,
        v@.subrange(res.0 as int, res.1 as int) == trim(v@.subrange(from as int, to as int)),
{
    let ghost w = v@.subrange(from as int, to as int);
    let mut i: usize = from;
    while i < to && is_whitespace(v[i])
        invariant
            from <= i <= to <= v@.len(),
            forall|j: int| from <= j < i ==> is_ws(v@[j]),
        decreases to - i,
    {
        i = i + 1;
    }
    proof {
        assert forall|j: int| 0 <= j < i - from implies is_ws(w[j]) by {
            assert(w[j] == v@[from + j]);
        }
        if i < to {
            assert(w[i - from] == v@[i as int]);
        }
        lemma_trim_start_at(w, i - from);
        assert(w.subrange(i - from, w.len() as int) == v@.subrange(i as int, to as int));
    }
    let ghost st = v@.subrange(i as int, to as int);
    let mut j: usize = to;
    while j > i && is_whitespace(v[j - 1])
        invariant
            from <= i <= j <= to <= v@.len(),
            forall|k: int| j <= k < to ==> is_ws(v@[k]),
        decreases j - i,
    {
        j = j - 1;
    }
    proof {
        assert forall|k: int| j - i <= k < st.len() implies is_ws(st[k]) by {
            assert(st[k] == v@[i + k]);
        }
        if j > i {
            assert(st[j - i - 1] == v@[j - 1]);
        }
        lemma_trim_end_at(st, j - i);
        assert(st.subrange(0, j - i) == v@.subrange(i as int, j as int));
    }
    (i, j)
}

/// `str::trim`, as an owned `String`.
pub fn trim_str(s: &str) -> (res: String)
    ensures
        res@ == trim(s@),
{
    let v = chars_of(s);
    assert(v@.subrange(0, v@.len() as int) == v@);
    let (i, j) = trim_bounds(v.as_slice(), 0, v.len());
    string_from_range(v.as_slice(), i, j)
}

// ---------------------------------------------------------------------------
// Decimal numbers
// ---------------------------------------------------------------------------

/// The decimal digit character for `d` (0 to 9).
pub open spec fn digit_char(d: int) -> char {
    if d == 0 {
        '0'
    } else if d == 1 {
        '1'
    } else if d == 2 {
        '2'
    } else if d == 3 {
        '3'
    } else if d == 4 {
        '4'
    } else if d == 5 {
        '5'
    } else if d == 6 {
        '6'
    } else if d == 7 {
        '7'
    } else if d == 8 {
        '8'
    } else {
        '9'
    }
}

/// Decimal text of a natural number, without leading zeros.
pub open spec fn nat_text(n: nat) -> Seq<char>
    decreases n,
{
    if n < 10 {
        seq![digit_char(n as int)]
    } else {
        nat_text(n / 10).push(digit_char((n % 10) as int))
    }
}

/// Decimal text of an integer, with a leading `-` when negative (`Display` of integers).
pub open spec fn int_text(x: int) -> Seq<char> {
    if x < 0 {
        seq!['-'] + nat_text((-x) as nat)
    } else {
        nat_text(x as nat)
    }
}

fn digit(d: u128) -> (c: char)
    requires
        d < 10,
    ensures
        c == digit_char(d as int),
{
    if d == 0 {
        '0'
    } else if d == 1 {
        '1'
    } else if d == 2 {
        '2'
    } else if d == 3 {
        '3'
    } else if d == 4 {
        '4'
    } else if d == 5 {
        '5'
    } else if d == 6 {
        '6'
    } else if d == 7 {
        '7'
    } else if d == 8 {
        '8'
    } else {
        '9'
    }
}

fn push_nat_text(out: &mut String, n: u128)
    ensures
        final(out)@ == old(out)@ + nat_text(n as nat),
    decreases n,
{
    if n < 10 {
        push_char(out, digit(n));
    } else {
        push_nat_text(out, n / 10);
        push_char(out, digit(n % 10));
    }
}

/// Decimal text of an `i64`.
pub fn i64_text(x: i64) -> (res: String)
    ensures
        res@ == int_text(x as int),
{
    let mut s = String::new();
    if x < 0 {
        push_char(&mut s, '-');
        let m: i128 = -(x as i128);
        push_nat_text(&mut s, m as u128);
    } else {
        push_nat_text(&mut s, x as u128);
    }
    s
}

/// Decimal text of a `usize`.
pub fn usize_text(x: usize) -> (res: String)
    ensures
        res@ == nat_text(x as nat),
{
    let mut s = String::new();
    push_nat_text(&mut s, x as u128);
    s
}

/// An ASCII decimal digit.
pub open spec fn is_digit(c: char) -> bool {
    '0' <= c && c <= '9'
}

/// Value of a string of decimal digits.
pub open spec fn digits_value(s: Seq<char>) -> nat
    decreases s.len(),
{
    if s.len() == 0 {
        0
    } else {
        digits_value(s.drop_last()) * 10 + ((s.last() as int) - 48) as nat
    }
}

/// The digits after an optional leading sign.
pub open spec fn unsigned_part(s: Seq<char>) -> Seq<char> {
    if s.len() > 0 && (s[0] == '-' || s[0] == '+') {
        s.drop_first()
    } else {
        s
    }
}

/// `str::parse::<i64>`: an optional `+` or `-`, then one or more ASCII
/// digits, whose value fits in an `i64`.
pub open spec fn parse_i64_spec(s: Seq<char>) -> Option<i64> {
    let body = unsigned_part(s);
    let neg = s.len() > 0 && s[0] == '-';
    if body.len() == 0 || !(forall|i: int| 0 <= i < body.len() ==> is_digit(body[i])) {
        None
    } else {
        let v: int = if neg {
            -(digits_value(body) as int)
        } else {
            digits_value(body) as int
        };
        if i64::MIN <= v <= i64::MAX {
            Some(v as i64)
        } else {
            None
        }
    }
}

proof fn lemma_capped_step(v: int, a: int, d: int, cap: int)
    by (nonlinear_arith)
    requires
        v >= 0,
        cap > 0,
        0 <= d < 10,
        a == if v < cap { v } else { cap },
    ensures
        (if a * 10 + d < cap { a * 10 + d } else { cap }) == (if v * 10 + d < cap { v * 10 + d } else { cap }),
{
}

proof fn lemma_digit_char(d: int)
    requires
        0 <= d < 10,
    ensures
        (digit_char(d) as int) - 48 == d,
        is_digit(digit_char(d)),
{
}

/// The decimal text of a natural number is a non-empty string of digits
/// whose value is that number.
pub proof fn lemma_nat_text(n: nat)
    ensures
        nat_text(n).len() > 0,
        forall|i: int| 0 <= i < nat_text(n).len() ==> is_digit(#[trigger] nat_text(n)[i]),
        digits_value(nat_text(n)) == n,
    decreases n,
{
    lemma_digit_char((n % 10) as int);
    if n < 10 {
        lemma_digit_char(n as int);
        let t = seq![digit_char(n as int)];
        assert(t == nat_text(n));
        assert(t.drop_last() =~= Seq::<char>::empty());
        assert(digits_value(t.drop_last()) == 0);
        assert(t.last() == digit_char(n as int));
        assert(digits_value(t) == ((t.last() as int) - 48) as nat);
    }
    if n >= 10 {
        lemma_nat_text(n / 10);
        let s = nat_text(n / 10);
        let t = s.push(digit_char((n % 10) as int));
        assert(t == nat_text(n));
        assert(t.drop_last() == s);
        assert(t.last() == digit_char((n % 10) as int));
        assert(digits_value(t) == digits_value(s) * 10 + ((t.last() as int) - 48) as nat);
        assert(n == (n / 10) * 10 + n % 10);
        assert forall|i: int| 0 <= i < t.len() implies is_digit(#[trigger] t[i]) by {
            if i < s.len() {
                assert(t[i] == s[i]);
            }
        }
    }
}

/// Reading back the decimal text of an `i64` gives the number, and that
/// text holds no `:`.
pub proof fn lemma_int_text_parse(x: int)
    requires
        i64::MIN <= x <= i64::MAX,
    ensures
        parse_i64_spec(int_text(x)) == Some(x as i64),
        forall|i: int| 0 <= i < int_text(x).len() ==> #[trigger] int_text(x)[i] != ':',
{
    if x < 0 {
        let m = (-x) as nat;
        lemma_nat_text(m);
        let t = seq!['-'] + nat_text(m);
        assert(t[0] == '-');
        assert(t.drop_first() == nat_text(m));
        assert(unsigned_part(t) == nat_text(m));
        assert forall|i: int| 0 <= i < t.len() implies #[trigger] t[i] != ':' by {
            if i > 0 {
                assert(t[i] == nat_text(m)[i - 1]);
                assert(is_digit(nat_text(m)[i - 1]));
            }
        }
    } else {
        let m = x as nat;
        lemma_nat_text(m);
        let t = nat_text(m);
        assert(is_digit(t[0]));
        assert(unsigned_part(t) == t);
        assert forall|i: int| 0 <= i < t.len() implies #[trigger] t[i] != ':' by {
            assert(is_digit(t[i]));
        }
    }
}

/// Parses a decimal `i64` the way `str::parse::<i64>` does.
pub fn parse_i64(s: &str) -> (res: Option<i64>)
    ensures
        res == parse_i64_spec(s@),
{
    let v = chars_of(s);
    let n = v.len();
    let neg = n > 0 && v[0] == '-';
    let start: usize = if n > 0 && (v[0] == '-' || v[0] == '+') {
        1
    } else {
        0
    };
    let ghost body = unsigned_part(v@);
    assert(body == v@.subrange(start as int, n as int));
    if start == n {
        return None;
    }
    let cap: u128 = 0x8000_0000_0000_0001;
    let mut acc: u128 = 0;
    let mut i: usize = start;
    while i < n
        invariant
            n == v@.len(),
            v@ == s@,
            body == unsigned_part(s@),
            start <= i <= n,
            body == v@.subrange(start as int, n as int),
            forall|k: int| start <= k < i ==> is_digit(v@[k]),
            acc as int == if digits_value(v@.subrange(start as int, i as int)) < cap {
                digits_value(v@.subrange(start as int, i as int)) as int
            } else {
                cap as int
            },
            cap == 0x8000_0000_0000_0001u128,
        decreases n - i,
    {
        let c = v[i];
        if !('0' <= c && c <= '9') {
            assert(body[i - start] == v@[i as int]);
            assert(!is_digit(body[i - start]));
            return None;
        }
        let d: u128 = ((c as u32) - 48) as u128;
        let ghost pre = v@.subrange(start as int, i as int);
        let ghost nxt = v@.subrange(start as int, i + 1);
        assert(nxt.drop_last() == pre);
        assert(nxt.last() == c);
        assert(digits_value(nxt) == digits_value(pre) * 10 + d);
        proof {
            lemma_capped_step(digits_value(pre) as int, acc as int, d as int, cap as int);
        }
        let t = acc * 10 + d;
        acc = if t < cap {
            t
        } else {
            cap
        };
        i = i + 1;
    }
    proof {
        assert(v@.subrange(start as int, n as int) == body);
    }
    if neg {
        if acc <= 0x8000_0000_0000_0000 {
            let m: i128 = -(acc as i128);
            Some(m as i64)
        } else {
            None
        }
    } else {
        if acc <= 0x7FFF_FFFF_FFFF_FFFF {
            Some(acc as i64)
        } else {
            None
        }
    }
}

// ---------------------------------------------------------------------------
// JSON strings
// ---------------------------------------------------------------------------

/// Lowercase hexadecimal digit for `d` (0 to 15).
pub open spec fn hex_lower_char(d: int) -> char {
    if d < 10 {
        digit_char(d)
    } else if d == 10 {
        'a'
    } else if d == 11 {
        'b'
    } else if d == 12 {
        'c'
    } else if d == 13 {
        'd'
    } else if d == 14 {
        'e'
    } else {
        'f'
    }
}

/// How a JSON serializer writes one character inside a string literal.
pub open spec fn json_escape_char(c: char) -> Seq<char> {
    let u = c as u32;
    if c == '"' {
        seq!['\\', '"']
    } else if c == '\\' {
        seq!['\\', '\\']
    } else if c == '\n' {
        seq!['\\', 'n']
    } else if c == '\r' {
        seq!['\\', 'r']
    } else if c == '\t' {
        seq!['\\', 't']
    } else if u == 0x08 {
        seq!['\\', 'b']
    } else if u == 0x0C {
        seq!['\\', 'f']
    } else if u < 0x20 {
        seq!['\\', 'u', '0', '0', hex_lower_char((u / 16) as int), hex_lower_char((u % 16) as int)]
    } else {
        seq![c]
    }
}

/// The escaped body of a JSON string literal holding `s`.
pub open spec fn json_escape(s: Seq<char>) -> Seq<char>
    decreases s.len(),
{
    if s.len() == 0 {
        Seq::empty()
    } else {
        json_escape(s.drop_last()) + json_escape_char(s.last())
    }
}

/// The JSON string literal (with quotes) holding `s`.
pub open spec fn json_quote(s: Seq<char>) -> Seq<char> {
    seq!['"'] + json_escape(s) + seq!['"']
}

fn hex_lower(d: u32) -> (c: char)
    requires
        d < 16,
    ensures
        c == hex_lower_char(d as int),
{
    if d < 10 {
        digit(d as u128)
    } else if d == 10 {
        'a'
    } else if d == 11 {
        'b'
    } else if d == 12 {
        'c'
    } else if d == 13 {
        'd'
    } else if d == 14 {
        'e'
    } else {
        'f'
    }
}

fn push_escaped_char(out: &mut String, c: char)
    ensures
        final(out)@ == old(out)@ + json_escape_char(c),
{
    let u = c as u32;
    let ghost o = out@;
    if c == '"' {
        push_char(out, '\\');
        push_char(out, '"');
    } else if c == '\\' {
        push_char(out, '\\');
        push_char(out, '\\');
    } else if c == '\n' {
        push_char(out, '\\');
        push_char(out, 'n');
    } else if c == '\r' {
        push_char(out, '\\');
        push_char(out, 'r');
    } else if c == '\t' {
        push_char(out, '\\');
        push_char(out, 't');
    } else if u == 0x08 {
        push_char(out, '\\');
        push_char(out, 'b');
    } else if u == 0x0C {
        push_char(out, '\\');
        push_char(out, 'f');
    } else if u < 0x20 {
        push_char(out, '\\');
        push_char(out, 'u');
        push_char(out, '0');
        push_char(out, '0');
        push_char(out, hex_lower(u / 16));
        push_char(out, hex_lower(u % 16));
    } else {
        push_char(out, c);
    }
    assert(out@ =~= o + json_escape_char(c));
}

/// Appends the escaped body of a JSON string literal holding `s`.
pub fn push_json_escaped(out: &mut String, s: &str)
    ensures
        final(out)@ == old(out)@ + json_escape(s@),
{
    let v = chars_of(s);
    let ghost base = out@;
    let mut i: usize = 0;
    while i < v.len()
        invariant
            i <= v@.len(),
            v@ == s@,
            out@ == base + json_escape(v@.subrange(0, i as int)),
        decreases v@.len() - i,
    {
        let ghost pre = v@.subrange(0, i as int);
        push_escaped_char(out, v[i]);
        proof {
            let nxt = v@.subrange(0, i + 1);
            assert(nxt.drop_last() == pre);
            assert(nxt.last() == v@[i as int]);
        }
        i = i + 1;
    }
    assert(v@.subrange(0, v@.len() as int) == v@);
}

/// Appends the JSON string literal (with quotes) for `s`.
pub fn push_json_string(out: &mut String, s: &str)
    ensures
        final(out)@ == old(out)@ + json_quote(s@),
{
    push_char(out, '"');
    push_json_escaped(out, s);
    push_char(out, '"');
    assert(out@ =~= old(out)@ + json_quote(s@));
}

} // verus!
