//! Character-level string helpers with exact specifications.
//!
//! Strings are reasoned about through their views, sequences of `char`.
use vstd::prelude::*;

use crate::trusted::json_string_text;

verus! {

// ---------------------------------------------------------------------------
// Specifications
// ---------------------------------------------------------------------------

/// `pat` occurs in `s` starting at position `i`.
pub open spec fn occurs_at(s: Seq<char>, pat: Seq<char>, i: int) -> bool {
    0 <= i && i + pat.len() <= s.len() && s.subrange(i, i + pat.len()) == pat
}

/// `pat` occurs somewhere in `s` (the empty pattern occurs everywhere).
pub open spec fn contains_seq(s: Seq<char>, pat: Seq<char>) -> bool {
    exists|i: int| occurs_at(s, pat, i)
}

/// `i` is the leftmost occurrence of `pat` in `s`.
pub open spec fn first_occurrence(s: Seq<char>, pat: Seq<char>, i: int) -> bool {
    &&& occurs_at(s, pat, i)
    &&& forall|j: int| 0 <= j < i ==> !occurs_at(s, pat, j)
}

/// The leftmost position of `pat` in `s`, if any.
pub open spec fn find_seq(s: Seq<char>, pat: Seq<char>) -> Option<int> {
    if contains_seq(s, pat) {
        Some(choose|i: int| first_occurrence(s, pat, i))
    } else {
        None
    }
}

/// `s` begins with `pat`.
pub open spec fn starts_with_seq(s: Seq<char>, pat: Seq<char>) -> bool {
    pat.len() <= s.len() && s.subrange(0, pat.len() as int) == pat
}

/// Unicode `White_Space`, the set that `char::is_whitespace` tests.
pub open spec fn is_space(c: char) -> bool {
    let u = c as u32;
    ||| 0x09 <= u <= 0x0D
    ||| u == 0x20
    ||| u == 0x85
    ||| u == 0xA0
    ||| u == 0x1680
    ||| 0x2000 <= u <= 0x200A
    ||| u == 0x2028
    ||| u == 0x2029
    ||| u == 0x202F
    ||| u == 0x205F
    ||| u == 0x3000
}

/// `s` without its trailing whitespace.
pub open spec fn trim_end_seq(s: Seq<char>) -> Seq<char>
    decreases s.len(),
{
    if s.len() > 0 && is_space(s.last()) {
        trim_end_seq(s.drop_last())
    } else {
        s
    }
}

/// `s` without its leading whitespace.
pub open spec fn trim_start_seq(s: Seq<char>) -> Seq<char>
    decreases s.len(),
{
    if s.len() > 0 && is_space(s[0]) {
        trim_start_seq(s.drop_first())
    } else {
        s
    }
}

/// `s` without leading and trailing whitespace.
pub open spec fn trim_seq(s: Seq<char>) -> Seq<char> {
    trim_start_seq(trim_end_seq(s))
}

/// ASCII characters.
pub open spec fn is_ascii_char(c: char) -> bool {
    (c as u32) < 128
}

pub open spec fn all_ascii(s: Seq<char>) -> bool {
    forall|i: int| 0 <= i < s.len() ==> is_ascii_char(#[trigger] s[i])
}

/// The ASCII lowercase form of a character; others are unchanged.
pub open spec fn ascii_lower_char(c: char) -> char {
    if 65 <= (c as u32) <= 90 {
        ((c as u32) + 32) as char
    } else {
        c
    }
}

pub open spec fn ascii_lower(s: Seq<char>) -> Seq<char> {
    s.map_values(|c: char| ascii_lower_char(c))
}

/// Number of bytes of `c` in UTF-8.
pub open spec fn utf8_width(c: char) -> nat {
    let u = c as u32;
    if u < 0x80 {
        1
    } else if u < 0x800 {
        2
    } else if u < 0x10000 {
        3
    } else {
        4
    }
}

/// Number of bytes of `s` in UTF-8, what `str::len` reports.
pub open spec fn utf8_len(s: Seq<char>) -> nat
    decreases s.len(),
{
    if s.len() == 0 {
        0
    } else {
        utf8_len(s.drop_last()) + utf8_width(s.last())
    }
}

/// Number of maximal runs of non-whitespace characters (what
/// `split_whitespace().count()` returns).
pub open spec fn word_count(s: Seq<char>) -> nat
    decreases s.len(),
{
    if s.len() == 0 {
        0
    } else {
        let rest = word_count(s.drop_last());
        let c = s.last();
        let starts = !is_space(c) && (s.len() == 1 || is_space(s[s.len() - 2]));
        if starts {
            rest + 1
        } else {
            rest
        }
    }
}

/// The lowercase form of a string as `str::to_lowercase` computes it
/// (Unicode case mapping).
pub uninterp spec fn lowercase_of(s: Seq<char>) -> Seq<char>;

// ---------------------------------------------------------------------------
// Trusted std calls
// ---------------------------------------------------------------------------

/// Calls `String::push`; the character is appended at the end.
#[verifier::external_body]
pub(crate) fn push_char(s: &mut String, c: char)
    ensures
        final(s)@ == old(s)@.push(c),
{
    s.push(c)
}

/// Calls `str::to_lowercase`. The result is named `lowercase_of`; as std
/// documents, an ASCII string is mapped character by character, `A`–`Z`
/// to `a`–`z`. Unicode mapping of other characters is not stated.
#[verifier::external_body]
pub(crate) fn to_lowercase(s: &str) -> (r: String)
    ensures
        r@ == lowercase_of(s@),
        all_ascii(s@) ==> r@ == ascii_lower(s@),
{
    s.to_lowercase()
}

// ---------------------------------------------------------------------------
// Verified helpers
// ---------------------------------------------------------------------------

/// The characters of a string slice, in order.
pub fn chars_of(s: &str) -> (v: Vec<char>)
    ensures
        v@ == s@,
{
    let mut v: Vec<char> = Vec::new();
    for c in it: s.chars()
        invariant
            v@ == it.seq().take(it.index() as int),
    {
        v.push(c);
    }
    v
}

/// A string made of the given characters.
pub fn string_of(v: &[char]) -> (s: String)
    ensures
        s@ == v@,
{
    let mut s = String::new();
    let mut i: usize = 0;
    while i < v.len()
        invariant
            i <= v.len(),
            s@ == v@.take(i as int),
        decreases v.len() - i,
    {
        push_char(&mut s, v[i]);
        assert(v@.take(i as int).push(v@[i as int]) == v@.take(i + 1));
        i += 1;
    }
    assert(v@.take(v.len() as int) == v@);
    s
}

/// Appends the characters of `v` to `s`.
pub fn push_chars(s: &mut String, v: &[char])
    ensures
        final(s)@ == old(s)@ + v@,
{
    let mut i: usize = 0;
    while i < v.len()
        invariant
            i <= v.len(),
            s@ == old(s)@ + v@.take(i as int),
        decreases v.len() - i,
    {
        push_char(s, v[i]);
        assert(v@.take(i as int).push(v@[i as int]) == v@.take(i + 1));
        i += 1;
    }
    assert(v@.take(v.len() as int) == v@);
}

/// Appends a string slice to `s`.
pub fn push_str(s: &mut String, t: &str)
    ensures
        final(s)@ == old(s)@ + t@,
{
    let v = chars_of(t);
    push_chars(s, &v);
}

/// Character-sequence equality.
pub fn eq_chars(a: &[char], b: &[char]) -> (r: bool)
    ensures
        r == (a@ == b@),
{
    if a.len() != b.len() {
        return false;
    }
    let mut i: usize = 0;
    while i < a.len()
        invariant
            a.len() == b.len(),
            i <= a.len(),
            forall|j: int| 0 <= j < i ==> a@[j] == b@[j],
        decreases a.len() - i,
    {
        if a[i] != b[i] {
            return false;
        }
        i += 1;
    }
    assert(a@ =~= b@);
    true
}

/// String-slice equality.
pub fn eq_str(a: &str, b: &str) -> (r: bool)
    ensures
        r == (a@ == b@),
{
    let va = chars_of(a);
    let vb = chars_of(b);
    eq_chars(&va, &vb)
}

/// Does `pat` occur in `s` at position `i`?
pub fn occurs_at_exec(s: &[char], pat: &[char], i: usize) -> (r: bool)
    ensures
        r == occurs_at(s@, pat@, i as int),
{
    if i > s.len() || pat.len() > s.len() - i {
        return false;
    }
    let mut k: usize = 0;
    while k < pat.len()
        invariant
            i + pat.len() <= s.len(),
            k <= pat.len(),
            forall|j: int| 0 <= j < k ==> s@[i + j] == pat@[j],
        decreases pat.len() - k,
    {
        if s[i + k] != pat[k] {
            assert(s@.subrange(i as int, i + pat.len())[k as int] != pat@[k as int]);
            return false;
        }
        k += 1;
    }
    assert(s@.subrange(i as int, i + pat.len()) =~= pat@);
    true
}

/// The leftmost position of `pat` in `s`.
pub fn find(s: &[char], pat: &[char]) -> (r: Option<usize>)
    ensures
        match r {
            Some(i) => first_occurrence(s@, pat@, i as int),
            None => !contains_seq(s@, pat@),
        },
        r matches Some(i) ==> find_seq(s@, pat@) == Some(i as int),
        r is None ==> find_seq(s@, pat@) is None,
{
    let mut i: usize = 0;
    while i < s.len()
        invariant
            i <= s.len(),
            forall|j: int| 0 <= j < i ==> !occurs_at(s@, pat@, j),
        decreases s.len() - i,
    {
        if occurs_at_exec(s, pat, i) {
            proof {
                lemma_first_occurrence_unique(s@, pat@, i as int);
            }
            return Some(i);
        }
        i += 1;
    }
    if occurs_at_exec(s, pat, s.len()) {
        proof {
            lemma_first_occurrence_unique(s@, pat@, s.len() as int);
        }
        return Some(s.len());
    }
    assert forall|j: int| !occurs_at(s@, pat@, j) by {
        if 0 <= j && j <= s.len() {
        }
    }
    None
}

/// A first occurrence is the one `find_seq` picks.
pub proof fn lemma_first_occurrence_unique(s: Seq<char>, pat: Seq<char>, i: int)
    requires
        first_occurrence(s, pat, i),
    ensures
        find_seq(s, pat) == Some(i),
{
    assert(contains_seq(s, pat));
    let k = choose|k: int| first_occurrence(s, pat, k);
    assert(first_occurrence(s, pat, k));
    if k < i {
        assert(!occurs_at(s, pat, k));
    } else if k > i {
        assert(!occurs_at(s, pat, i));
    }
}

/// Does `pat` occur in `s`?
pub fn contains(s: &[char], pat: &[char]) -> (r: bool)
    ensures
        r == contains_seq(s@, pat@),
{
    find(s, pat).is_some()
}

/// Does `s` start with `pat`?
pub fn starts_with(s: &[char], pat: &[char]) -> (r: bool)
    ensures
        r == starts_with_seq(s@, pat@),
{
    occurs_at_exec(s, pat, 0)
}

/// `char::is_whitespace`.
pub fn is_space_exec(c: char) -> (r: bool)
    ensures
        r == is_space(c),
{
    let u = c as u32;
    (0x09 <= u && u <= 0x0D) || u == 0x20 || u == 0x85 || u == 0xA0 || u == 0x1680 || (0x2000
        <= u && u <= 0x200A) || u == 0x2028 || u == 0x2029 || u == 0x202F || u == 0x205F || u
        == 0x3000
}

/// Number of characters left after trailing whitespace is removed.
pub fn trim_end_len(s: &[char]) -> (n: usize)
    ensures
        n <= s.len(),
        s@.take(n as int) == trim_end_seq(s@),
{
    let mut n: usize = s.len();
    assert(s@.take(n as int) == s@);
    while n > 0 && is_space_exec(s[n - 1])
        invariant
            n <= s.len(),
            trim_end_seq(s@.take(n as int)) == trim_end_seq(s@),
        decreases n,
    {
        assert(s@.take(n as int).drop_last() == s@.take(n - 1));
        n -= 1;
    }
    proof {
        let t = s@.take(n as int);
        if t.len() > 0 {
            assert(t.last() == s@[n - 1]);
        }
    }
    n
}

/// Number of leading whitespace characters.
pub fn trim_start_len(s: &[char]) -> (n: usize)
    ensures
        n <= s.len(),
        s@.skip(n as int) == trim_start_seq(s@),
{
    let mut n: usize = 0;
    assert(s@.skip(0) == s@);
    while n < s.len() && is_space_exec(s[n])
        invariant
            n <= s.len(),
            trim_start_seq(s@.skip(n as int)) == trim_start_seq(s@),
        decreases s.len() - n,
    {
        assert(s@.skip(n as int).drop_first() == s@.skip(n + 1));
        n += 1;
    }
    proof {
        assert(s@.skip(0) == s@);
    }
    n
}

/// The characters of `s[lo..hi]`.
pub fn slice_vec(s: &[char], lo: usize, hi: usize) -> (v: Vec<char>)
    requires
        lo <= hi <= s.len(),
    ensures
        v@ == s@.subrange(lo as int, hi as int),
{
    let mut v: Vec<char> = Vec::new();
    let mut i = lo;
    while i < hi
        invariant
            lo <= i <= hi,
            hi <= s.len(),
            v@ == s@.subrange(lo as int, i as int),
        decreases hi - i,
    {
        v.push(s[i]);
        assert(s@.subrange(lo as int, i as int).push(s@[i as int]) == s@.subrange(
            lo as int,
            i + 1,
        ));
        i += 1;
    }
    v
}

/// `s` without trailing whitespace.
pub fn trim_end_vec(s: &[char]) -> (v: Vec<char>)
    ensures
        v@ == trim_end_seq(s@),
{
    let n = trim_end_len(s);
    slice_vec(s, 0, n)
}

/// `s` without leading and trailing whitespace.
pub fn trim_vec(s: &[char]) -> (v: Vec<char>)
    ensures
        v@ == trim_seq(s@),
{
    let e = trim_end_vec(s);
    let n = trim_start_len(&e);
    slice_vec(&e, n, e.len())
}

/// Number of bytes of `c` in UTF-8 (`char::len_utf8`).
pub fn utf8_width_exec(c: char) -> (w: usize)
    ensures
        w == utf8_width(c),
{
    let u = c as u32;
    if u < 0x80 {
        1
    } else if u < 0x800 {
        2
    } else if u < 0x10000 {
        3
    } else {
        4
    }
}

/// Number of bytes of `s` in UTF-8, saturated at `usize::MAX`.
pub fn utf8_len_exec(s: &[char]) -> (n: usize)
    ensures
        utf8_len(s@) <= usize::MAX ==> n == utf8_len(s@),
        utf8_len(s@) > usize::MAX ==> n == usize::MAX,
{
    let mut n: usize = 0;
    let mut i: usize = 0;
    let mut saturated = false;
    while i < s.len()
        invariant
            i <= s.len(),
            !saturated ==> n == utf8_len(s@.take(i as int)),
            saturated ==> n == usize::MAX && utf8_len(s@.take(i as int)) > usize::MAX,
        decreases s.len() - i,
    {
        assert(s@.take(i + 1).drop_last() == s@.take(i as int));
        let w = utf8_width_exec(s[i]);
        if saturated || n > usize::MAX - w {
            saturated = true;
            n = usize::MAX;
        } else {
            n = n + w;
        }
        i += 1;
    }
    assert(s@.take(s.len() as int) == s@);
    n
}

/// Number of maximal runs of non-whitespace characters.
pub fn word_count_exec(s: &[char]) -> (n: usize)
    ensures
        n == word_count(s@),
{
    let mut n: usize = 0;
    let mut i: usize = 0;
    while i < s.len()
        invariant
            i <= s.len(),
            n == word_count(s@.take(i as int)),
            n <= i,
        decreases s.len() - i,
    {
        proof {
            let t = s@.take(i + 1);
            assert(t.drop_last() == s@.take(i as int));
            assert(t.last() == s@[i as int]);
            if i > 0 {
                assert(t[t.len() - 2] == s@[i - 1]);
            }
        }
        let starts = !is_space_exec(s[i]) && (i == 0 || is_space_exec(s[i - 1]));
        if starts {
            n += 1;
        }
        i += 1;
    }
    assert(s@.take(s.len() as int) == s@);
    n
}


// ---------------------------------------------------------------------------
// Joining, numbers, byte truncation, JSON strings
// ---------------------------------------------------------------------------

/// The items joined by `sep`, as `[T]::join` does.
pub open spec fn join_seq(items: Seq<Seq<char>>, sep: Seq<char>) -> Seq<char>
    decreases items.len(),
{
    if items.len() == 0 {
        Seq::<char>::empty()
    } else if items.len() == 1 {
        items[0]
    } else {
        join_seq(items.drop_last(), sep) + sep + items.last()
    }
}

/// The views of a list of strings.
pub open spec fn string_views(v: Seq<String>) -> Seq<Seq<char>> {
    v.map_values(|s: String| s@)
}

/// A copy of an optional string.
pub fn clone_opt_string(o: &Option<String>) -> (r: Option<String>)
    ensures
        r == *o,
{
    match o {
        Some(s) => Some(s.clone()),
        None => None,
    }
}

/// A copy of a list of strings.
pub fn clone_strings(v: &Vec<String>) -> (r: Vec<String>)
    ensures
        r@ == v@,
{
    let mut r: Vec<String> = Vec::new();
    let mut i: usize = 0;
    while i < v.len()
        invariant
            i <= v@.len(),
            r@ =~= v@.take(i as int),
        decreases v.len() - i,
    {
        r.push(v[i].clone());
        i += 1;
    }
    assert(v@.take(v@.len() as int) =~= v@);
    r
}

/// Joins strings with a separator.
pub fn join_strings(items: &[String], sep: &str) -> (r: String)
    ensures
        r@ == join_seq(string_views(items@), sep@),
{
    let mut r = String::new();
    let ghost all = string_views(items@);
    let mut i: usize = 0;
    while i < items.len()
        invariant
            i <= items.len(),
            all == string_views(items@),
            r@ == join_seq(all.take(i as int), sep@),
        decreases items.len() - i,
    {
        assert(all.take(i + 1).drop_last() == all.take(i as int));
        if i > 0 {
            push_str(&mut r, sep);
        } else {
            assert(all.take(0).len() == 0);
        }
        push_str(&mut r, items[i].as_str());
        i += 1;
    }
    assert(all.take(items.len() as int) == all);
    r
}

pub open spec fn digit_char(d: nat) -> char {
    hex_digit(d as u32)
}

/// Decimal rendering of a natural number.
pub open spec fn decimal(n: nat) -> Seq<char>
    decreases n,
{
    if n < 10 {
        seq![digit_char(n)]
    } else {
        decimal(n / 10).push(digit_char(n % 10))
    }
}

/// Appends the decimal form of `n`.
pub fn push_decimal(s: &mut String, n: u64)
    ensures
        final(s)@ == old(s)@ + decimal(n as nat),
    decreases n,
{
    if n >= 10 {
        push_decimal(s, n / 10);
    }
    let c = hex_digit_exec((n % 10) as u32);
    push_char(s, c);
}

/// `n` is a character boundary of the UTF-8 encoding of `s`.
pub open spec fn is_byte_boundary(s: Seq<char>, n: nat) -> bool {
    exists|k: int| 0 <= k <= s.len() && utf8_len(s.take(k)) == n
}

/// The number of characters whose encoding takes the first `n` bytes.
pub open spec fn boundary_index(s: Seq<char>, n: nat) -> int {
    choose|k: int| 0 <= k <= s.len() && utf8_len(s.take(k)) == n
}

pub proof fn lemma_utf8_len_take_step(s: Seq<char>, k: int)
    requires
        0 <= k < s.len(),
    ensures
        utf8_len(s.take(k + 1)) == utf8_len(s.take(k)) + utf8_width(s[k]),
{
    assert(s.take(k + 1).drop_last() == s.take(k));
}

pub proof fn lemma_utf8_len_take_increasing(s: Seq<char>, i: int, j: int)
    requires
        0 <= i < j <= s.len(),
    ensures
        utf8_len(s.take(i)) < utf8_len(s.take(j)),
    decreases j - i,
{
    lemma_utf8_len_take_step(s, j - 1);
    if i < j - 1 {
        lemma_utf8_len_take_increasing(s, i, j - 1);
    }
}

/// The boundary found by scanning is the one `boundary_index` names.
pub proof fn lemma_boundary_unique(s: Seq<char>, n: nat, k: int)
    requires
        0 <= k <= s.len(),
        utf8_len(s.take(k)) == n,
    ensures
        boundary_index(s, n) == k,
{
    let b = boundary_index(s, n);
    assert(0 <= b <= s.len() && utf8_len(s.take(b)) == n);
    if b < k {
        lemma_utf8_len_take_increasing(s, b, k);
    } else if b > k {
        lemma_utf8_len_take_increasing(s, k, b);
    }
}

/// The number of characters that make up the first `n` bytes.
pub fn boundary_index_exec(s: &[char], n: usize) -> (k: usize)
    requires
        is_byte_boundary(s@, n as nat),
    ensures
        k as int == boundary_index(s@, n as nat),
        k <= s.len(),
{
    let ghost b = boundary_index(s@, n as nat);
    let mut k: usize = 0;
    let mut acc: usize = 0;
    assert(s@.take(0).len() == 0);
    while acc < n
        invariant
            0 <= b <= s.len(),
            utf8_len(s@.take(b)) == n,
            k <= b,
            acc == utf8_len(s@.take(k as int)),
        decreases n - acc,
    {
        proof {
            assert(k < b);
            lemma_utf8_len_take_step(s@, k as int);
            if k + 1 < b {
                lemma_utf8_len_take_increasing(s@, k + 1, b);
            }
        }
        let w = utf8_width_exec(s[k]);
        acc = acc + w;
        k = k + 1;
        proof {
            if k < b {
                lemma_utf8_len_take_increasing(s@, k as int, b);
            }
        }
    }
    proof {
        if k < b {
            lemma_utf8_len_take_increasing(s@, k as int, b);
        }
        lemma_boundary_unique(s@, n as nat, k as int);
    }
    k
}

/// How `serde_json` writes one character inside a JSON string.
pub open spec fn json_escape_char(c: char) -> Seq<char> {
    let u = c as u32;
    if c == '"' {
        seq!['\\', '"']
    } else if c == '\\' {
        seq!['\\', '\\']
    } else if u == 0x08 {
        seq!['\\', 'b']
    } else if u == 0x09 {
        seq!['\\', 't']
    } else if u == 0x0A {
        seq!['\\', 'n']
    } else if u == 0x0C {
        seq!['\\', 'f']
    } else if u == 0x0D {
        seq!['\\', 'r']
    } else if u < 0x20 {
        seq!['\\', 'u', '0', '0', hex_digit(u / 16), hex_digit(u % 16)]
    } else {
        seq![c]
    }
}

pub open spec fn hex_digit(d: u32) -> char {
    if d < 10 {
        ((d + 48) as u32) as char
    } else {
        ((d + 87) as u32) as char
    }
}

pub open spec fn json_escape(s: Seq<char>) -> Seq<char>
    decreases s.len(),
{
    if s.len() == 0 {
        Seq::<char>::empty()
    } else {
        json_escape(s.drop_last()) + json_escape_char(s.last())
    }
}

/// A JSON string literal holding `s`, as `serde_json` writes it.
pub open spec fn json_string(s: Seq<char>) -> Seq<char> {
    seq!['"'] + json_escape(s) + seq!['"']
}

pub fn hex_digit_exec(d: u32) -> (c: char)
    requires
        d < 16,
    ensures
        c == hex_digit(d),
{
    match d {
        0 => '0',
        1 => '1',
        2 => '2',
        3 => '3',
        4 => '4',
        5 => '5',
        6 => '6',
        7 => '7',
        8 => '8',
        9 => '9',
        10 => 'a',
        11 => 'b',
        12 => 'c',
        13 => 'd',
        14 => 'e',
        _ => 'f',
    }
}

/// Appends `s` as a JSON string literal, as `serde_json` writes it.
pub fn push_json_string(out: &mut String, s: &str)
    ensures
        final(out)@ == old(out)@ + json_string(s@),
{
    let lit = json_string_text(s);
    push_str(out, lit.as_str());
}

/// Is `n` a character boundary of the UTF-8 encoding of `s`?
pub fn is_byte_boundary_exec(s: &[char], n: usize) -> (r: bool)
    ensures
        r == is_byte_boundary(s@, n as nat),
{
    let mut k: usize = 0;
    let mut acc: usize = 0;
    assert(s@.take(0).len() == 0);
    while acc < n && k < s.len()
        invariant
            k <= s.len(),
            acc == utf8_len(s@.take(k as int)),
            acc <= n,
            forall|j: int| 0 <= j <= k ==> utf8_len(#[trigger] s@.take(j)) <= acc,
        decreases s.len() - k,
    {
        proof {
            lemma_utf8_len_take_step(s@, k as int);
        }
        let w = utf8_width_exec(s[k]);
        if w > n - acc {
            proof {
                assert forall|j: int| 0 <= j <= s.len() implies utf8_len(
                    #[trigger] s@.take(j),
                ) != n by {
                    if j <= k {
                    } else {
                        if j > k + 1 {
                            lemma_utf8_len_take_increasing(s@, k + 1, j);
                        }
                    }
                }
            }
            return false;
        }
        acc = acc + w;
        k = k + 1;
        proof {
            assert forall|j: int| 0 <= j <= k implies utf8_len(#[trigger] s@.take(j)) <= acc by {
                if j < k {
                    lemma_utf8_len_take_increasing(s@, j, k as int);
                }
            }
        }
    }
    if acc == n {
        return true;
    }
    proof {
        assert(k == s.len());
        assert forall|j: int| 0 <= j <= s.len() implies utf8_len(#[trigger] s@.take(j)) != n by {
        }
    }
    false
}

} // verus!
