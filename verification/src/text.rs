//! Character and string helpers shared by the rest of the library: character
//! classes, trimming, ASCII case mapping, substring tests, number formatting
//! and lexicographic order, each with a specification over `Seq<char>`.
use vstd::prelude::*;

verus! {

// ---------------------------------------------------------------------------
// character classes
// ---------------------------------------------------------------------------

/// ASCII letters and digits (`char::is_ascii_alphanumeric`).
pub open spec fn is_ascii_alnum(c: char) -> bool {
    ('a' <= c && c <= 'z') || ('A' <= c && c <= 'Z') || ('0' <= c && c <= '9')
}

/// The characters kept in file names, labels, peer ids and room codes:
/// ASCII letters, digits, `-` and `_`.
pub open spec fn is_safe_char(c: char) -> bool {
    is_ascii_alnum(c) || c == '-' || c == '_'
}

/// Unicode `White_Space` (what `char::is_whitespace` and `str::trim` use).
pub open spec fn is_ws(c: char) -> bool {
    ('\u{9}' <= c && c <= '\u{d}') || c == ' ' || c == '\u{85}' || c == '\u{a0}'
        || c == '\u{1680}' || ('\u{2000}' <= c && c <= '\u{200a}') || c == '\u{2028}'
        || c == '\u{2029}' || c == '\u{202f}' || c == '\u{205f}' || c == '\u{3000}'
}

pub open spec fn upper_ascii(c: char) -> char {
    if 'a' <= c && c <= 'z' {
        ((c as u32) - 32) as char
    } else {
        c
    }
}

pub open spec fn lower_ascii(c: char) -> char {
    if 'A' <= c && c <= 'Z' {
        ((c as u32) + 32) as char
    } else {
        c
    }
}

pub open spec fn safe_filter(s: Seq<char>) -> Seq<char> {
    s.filter(|c: char| is_safe_char(c))
}

pub open spec fn upper_seq(s: Seq<char>) -> Seq<char> {
    s.map_values(|c: char| upper_ascii(c))
}

pub open spec fn lower_seq(s: Seq<char>) -> Seq<char> {
    s.map_values(|c: char| lower_ascii(c))
}

// ---------------------------------------------------------------------------
// trimming
// ---------------------------------------------------------------------------

pub open spec fn trim_start_seq(s: Seq<char>) -> Seq<char>
    decreases s.len(),
{
    if s.len() > 0 && is_ws(s[0]) {
        trim_start_seq(s.drop_first())
    } else {
        s
    }
}

pub open spec fn trim_end_seq(s: Seq<char>) -> Seq<char>
    decreases s.len(),
{
    if s.len() > 0 && is_ws(s.last()) {
        trim_end_seq(s.drop_last())
    } else {
        s
    }
}

/// `str::trim`: leading and trailing white space removed.
pub open spec fn trim_seq(s: Seq<char>) -> Seq<char> {
    trim_end_seq(trim_start_seq(s))
}

/// Removes every trailing occurrence of `c` (`str::trim_end_matches` with a char).
pub open spec fn trim_end_char(s: Seq<char>, c: char) -> Seq<char>
    decreases s.len(),
{
    if s.len() > 0 && s.last() == c {
        trim_end_char(s.drop_last(), c)
    } else {
        s
    }
}

// ---------------------------------------------------------------------------
// substrings
// ---------------------------------------------------------------------------

pub open spec fn has_prefix(s: Seq<char>, p: Seq<char>) -> bool {
    p.len() <= s.len() && s.subrange(0, p.len() as int) == p
}

pub open spec fn has_suffix(s: Seq<char>, p: Seq<char>) -> bool {
    p.len() <= s.len() && s.subrange(s.len() - p.len(), s.len() as int) == p
}

pub open spec fn occurs_at(s: Seq<char>, p: Seq<char>, i: int) -> bool {
    0 <= i && i + p.len() <= s.len() && s.subrange(i, i + p.len()) == p
}

/// `str::contains` with a string pattern.
pub open spec fn has_substring(s: Seq<char>, p: Seq<char>) -> bool {
    exists|i: int| occurs_at(s, p, i)
}

// ---------------------------------------------------------------------------
// numbers as text
// ---------------------------------------------------------------------------

pub open spec fn digit_char(d: nat, upper: bool) -> char {
    if d < 10 {
        ((d + 48) as u32) as char
    } else if upper {
        ((d + 55) as u32) as char
    } else {
        ((d + 87) as u32) as char
    }
}

/// Digits of `n` in base `base` (2..=16), most significant first, without
/// leading zeros ("0" for zero).
pub open spec fn digits(n: nat, base: nat, upper: bool) -> Seq<char>
    recommends
        2 <= base <= 16,
    decreases n,
{
    if base < 2 || n < base {
        seq![digit_char(n % 16, upper)]
    } else {
        proof {
            lemma_div_smaller(n, base);
        }
        digits(n / base, base, upper).push(digit_char(n % base, upper))
    }
}

/// Dividing by a base of at least two makes a number of at least the base smaller.
pub proof fn lemma_div_smaller(n: nat, base: nat)
    requires
        2 <= base <= n,
    ensures
        n / base < n,
{
    assert(n / base < n) by (nonlinear_arith)
        requires
            2 <= base <= n,
    ;
}

/// `format!("{n}")`.
pub open spec fn decimal(n: nat) -> Seq<char> {
    digits(n, 10, false)
}

/// `format!("{n:x}")`.
pub open spec fn hex_lower(n: nat) -> Seq<char> {
    digits(n, 16, false)
}

/// `format!("{n:02X}")`: upper-case hex, zero-padded to two digits.
pub open spec fn hex_upper2(n: nat) -> Seq<char> {
    if n < 16 {
        seq!['0', digit_char(n, true)]
    } else {
        digits(n, 16, true)
    }
}

/// `format!("{n:02x}")`.
pub open spec fn hex_lower2(n: nat) -> Seq<char> {
    if n < 16 {
        seq!['0', digit_char(n, false)]
    } else {
        digits(n, 16, false)
    }
}

// ---------------------------------------------------------------------------
// order
// ---------------------------------------------------------------------------

/// Lexicographic order on code points, which is the order `str`'s `Ord`
/// gives (UTF-8 byte order agrees with code point order).
pub open spec fn lex_lt(a: Seq<char>, b: Seq<char>) -> bool
    decreases a.len(),
{
    if a.len() == 0 {
        b.len() > 0
    } else if b.len() == 0 {
        false
    } else if a[0] != b[0] {
        a[0] < b[0]
    } else {
        lex_lt(a.drop_first(), b.drop_first())
    }
}

/// Strictly increasing in [`lex_lt`] (sorted, without repeats).
pub open spec fn sorted_strict(s: Seq<Seq<char>>) -> bool {
    forall|i: int, j: int| 0 <= i < j < s.len() ==> lex_lt(#[trigger] s[i], #[trigger] s[j])
}

/// No string sorts before itself.
pub proof fn lemma_lex_irrefl(a: Seq<char>)
    ensures
        !lex_lt(a, a),
    decreases a.len(),
{
    if a.len() > 0 {
        lemma_lex_irrefl(a.drop_first());
    }
}

/// [`lex_lt`] is transitive.
pub proof fn lemma_lex_trans(a: Seq<char>, b: Seq<char>, c: Seq<char>)
    requires
        lex_lt(a, b),
        lex_lt(b, c),
    ensures
        lex_lt(a, c),
    decreases a.len(),
{
    if a.len() > 0 && b.len() > 0 && c.len() > 0 && a[0] == b[0] && b[0] == c[0] {
        lemma_lex_trans(a.drop_first(), b.drop_first(), c.drop_first());
    }
}

/// Of two different strings, one sorts before the other, and not both ways.
pub proof fn lemma_lex_total(a: Seq<char>, b: Seq<char>)
    ensures
        a != b ==> (lex_lt(a, b) || lex_lt(b, a)),
        !(lex_lt(a, b) && lex_lt(b, a)),
    decreases a.len(),
{
    if a.len() > 0 && b.len() > 0 && a[0] == b[0] {
        lemma_lex_total(a.drop_first(), b.drop_first());
        if a.drop_first() == b.drop_first() {
            assert(a =~= seq![a[0]] + a.drop_first());
            assert(b =~= seq![b[0]] + b.drop_first());
            assert(a == b);
        }
    } else if a.len() == 0 && b.len() == 0 {
        assert(a =~= b);
    }
}

// ---------------------------------------------------------------------------
// paths
// ---------------------------------------------------------------------------

/// Paths are `/`-separated strings. Joining a relative name appends it after
/// a separator; an absolute name replaces the base (as `Path::join` does).
pub open spec fn path_join(base: Seq<char>, name: Seq<char>) -> Seq<char> {
    if name.len() > 0 && name[0] == '/' {
        name
    } else if base.len() == 0 {
        name
    } else if base.last() == '/' {
        base + name
    } else {
        base + seq!['/'] + name
    }
}

// ---------------------------------------------------------------------------
// executable helpers
// ---------------------------------------------------------------------------

/// `String::push`.
#[verifier::external_body]
pub(crate) fn push_char(s: &mut String, c: char)
    ensures
        final(s)@ == old(s)@.push(c),
{
    s.push(c);
}

/// The characters of `s`.
pub fn chars_of(s: &str) -> (v: Vec<char>)
    ensures
        v@ == s@,
{
    let mut v: Vec<char> = Vec::new();
    for c in it: s.chars()
        invariant
            v@ == it.seq().take(it.index() as int),
    {
        v.push(c);
    }
    v
}

/// A string made of the characters of `v`.
pub fn string_of(v: &Vec<char>) -> (s: String)
    ensures
        s@ == v@,
{
    let mut s = String::new();
    let mut i: usize = 0;
    while i < v.len()
        invariant
            i <= v@.len(),
            s@ == v@.take(i as int),
        decreases v.len() - i,
    {
        push_char(&mut s, v[i]);
        assert(v@.take(i + 1) == v@.take(i as int).push(v@[i as int]));
        i += 1;
    }
    assert(v@.take(v@.len() as int) == v@);
    s
}

/// An owned copy of `s`.
pub fn owned(s: &str) -> (r: String)
    ensures
        r@ == s@,
{
    let v = chars_of(s);
    string_of(&v)
}

/// Appends the characters of `t` to `s`.
pub fn push_str(s: &mut String, t: &str)
    ensures
        final(s)@ == old(s)@ + t@,
{
    let v = chars_of(t);
    let ghost start = s@;
    let mut i: usize = 0;
    while i < v.len()
        invariant
            i <= v@.len(),
            v@ == t@,
            s@ == start + v@.take(i as int),
        decreases v.len() - i,
    {
        push_char(s, v[i]);
        assert(v@.take(i + 1) == v@.take(i as int).push(v@[i as int]));
        i += 1;
    }
    assert(v@.take(v@.len() as int) == v@);
}

pub fn is_safe_exec(c: char) -> (b: bool)
    ensures
        b == is_safe_char(c),
{
    ('a' <= c && c <= 'z') || ('A' <= c && c <= 'Z') || ('0' <= c && c <= '9') || c == '-'
        || c == '_'
}

pub fn is_ws_exec(c: char) -> (b: bool)
    ensures
        b == is_ws(c),
{
    ('\u{9}' <= c && c <= '\u{d}') || c == ' ' || c == '\u{85}' || c == '\u{a0}' || c
        == '\u{1680}' || ('\u{2000}' <= c && c <= '\u{200a}') || c == '\u{2028}' || c
        == '\u{2029}' || c == '\u{202f}' || c == '\u{205f}' || c == '\u{3000}'
}

pub fn upper_exec(c: char) -> (r: char)
    ensures
        r == upper_ascii(c),
{
    if 'a' <= c && c <= 'z' {
        let u = (c as u32) - 32;
        assert(u == (c as u32) - 32);
        char_from_ascii(u as u8)
    } else {
        c
    }
}

pub fn lower_exec(c: char) -> (r: char)
    ensures
        r == lower_ascii(c),
{
    if 'A' <= c && c <= 'Z' {
        let u = (c as u32) + 32;
        char_from_ascii(u as u8)
    } else {
        c
    }
}

/// The ASCII character with code `b`.
pub fn char_from_ascii(b: u8) -> (c: char)
    requires
        b < 128,
    ensures
        c == (b as u32) as char,
        c as u32 == b as u32,
{
    b as char
}

/// Keeps the safe characters of `s` (see [`is_safe_char`]).
pub fn filter_safe(s: &str) -> (r: String)
    ensures
        r@ == safe_filter(s@),
{
    let cs = chars_of(s);
    let mut r = String::new();
    let mut i: usize = 0;
    while i < cs.len()
        invariant
            i <= cs@.len(),
            cs@ == s@,
            r@ == safe_filter(cs@.take(i as int)),
        decreases cs.len() - i,
    {
        let c = cs[i];
        proof {
            assert(cs@.take(i + 1).drop_last() == cs@.take(i as int));
            reveal_with_fuel(Seq::filter, 1);
        }
        if is_safe_exec(c) {
            push_char(&mut r, c);
        }
        i += 1;
    }
    assert(cs@.take(cs@.len() as int) == cs@);
    r
}

/// Keeps the safe characters of `s` and maps them to ASCII upper case.
pub fn filter_safe_upper(s: &str) -> (r: String)
    ensures
        r@ == upper_seq(safe_filter(s@)),
{
    let f = filter_safe(s);
    let cs = chars_of(f.as_str());
    let mut r = String::new();
    let mut i: usize = 0;
    while i < cs.len()
        invariant
            i <= cs@.len(),
            cs@ == safe_filter(s@),
            r@ == upper_seq(cs@.take(i as int)),
        decreases cs.len() - i,
    {
        push_char(&mut r, upper_exec(cs[i]));
        assert(upper_seq(cs@.take(i + 1)) == upper_seq(cs@.take(i as int)).push(
            upper_ascii(cs@[i as int]),
        ));
        i += 1;
    }
    assert(cs@.take(cs@.len() as int) == cs@);
    r
}

/// Maps the ASCII letters of `s` to lower case.
pub fn lower_ascii_string(s: &str) -> (r: String)
    ensures
        r@ == lower_seq(s@),
{
    let cs = chars_of(s);
    let mut r = String::new();
    let mut i: usize = 0;
    while i < cs.len()
        invariant
            i <= cs@.len(),
            cs@ == s@,
            r@ == lower_seq(cs@.take(i as int)),
        decreases cs.len() - i,
    {
        push_char(&mut r, lower_exec(cs[i]));
        assert(lower_seq(cs@.take(i + 1)) == lower_seq(cs@.take(i as int)).push(
            lower_ascii(cs@[i as int]),
        ));
        i += 1;
    }
    assert(cs@.take(cs@.len() as int) == cs@);
    r
}

proof fn lemma_trim_start_skip(s: Seq<char>, i: int)
    requires
        0 <= i <= s.len(),
        forall|j: int| 0 <= j < i ==> is_ws(#[trigger] s[j]),
    ensures
        trim_start_seq(s) == trim_start_seq(s.skip(i)),
    decreases i,
{
    if i > 0 {
        assert(s.drop_first().skip(i - 1) == s.skip(i));
        lemma_trim_start_skip(s.drop_first(), i - 1);
    } else {
        assert(s.skip(0) == s);
    }
}

proof fn lemma_trim_end_take(s: Seq<char>, i: int)
    requires
        0 <= i <= s.len(),
        forall|j: int| i <= j < s.len() ==> is_ws(#[trigger] s[j]),
    ensures
        trim_end_seq(s) == trim_end_seq(s.take(i)),
    decreases s.len() - i,
{
    if i < s.len() {
        assert(s.drop_last().take(i) == s.take(i));
        lemma_trim_end_take(s.drop_last(), i);
    } else {
        assert(s.take(i) == s);
    }
}

/// What `trim_end_seq` leaves is a prefix that does not end in white space.
proof fn lemma_trim_end_shape(s: Seq<char>)
    ensures
        trim_end_seq(s).len() <= s.len(),
        trim_end_seq(s) == s.take(trim_end_seq(s).len() as int),
        trim_end_seq(s).len() > 0 ==> !is_ws(trim_end_seq(s).last()),
    decreases s.len(),
{
    if s.len() > 0 && is_ws(s.last()) {
        lemma_trim_end_shape(s.drop_last());
        let k = trim_end_seq(s.drop_last()).len() as int;
        assert(s.drop_last().take(k) =~= s.take(k));
    } else {
        assert(s.take(s.len() as int) =~= s);
    }
}

/// What `trim_start_seq` leaves is a suffix that does not start with white
/// space.
proof fn lemma_trim_start_shape(s: Seq<char>)
    ensures
        trim_start_seq(s).len() <= s.len(),
        trim_start_seq(s) == s.skip(s.len() - trim_start_seq(s).len()),
        trim_start_seq(s).len() > 0 ==> !is_ws(trim_start_seq(s)[0]),
    decreases s.len(),
{
    if s.len() > 0 && is_ws(s[0]) {
        lemma_trim_start_shape(s.drop_first());
        let k = trim_start_seq(s.drop_first()).len() as int;
        assert(s.drop_first().skip(s.len() - 1 - k) =~= s.skip(s.len() - k));
    } else {
        assert(s.skip(0) =~= s);
    }
}

/// Trimming twice is trimming once.
pub proof fn lemma_trim_idempotent(s: Seq<char>)
    ensures
        trim_seq(trim_seq(s)) == trim_seq(s),
        trim_seq(s).len() <= s.len(),
{
    let t = trim_start_seq(s);
    lemma_trim_start_shape(s);
    let e = trim_end_seq(t);
    lemma_trim_end_shape(t);
    if e.len() > 0 {
        assert(e[0] == t[0]);
    }
    assert(trim_start_seq(e) == e);
    assert(trim_end_seq(e) == e);
}

/// `str::trim`, as an owned string.
pub fn trim(s: &str) -> (r: String)
    ensures
        r@ == trim_seq(s@),
{
    let cs = chars_of(s);
    let n = cs.len();
    let mut lo: usize = 0;
    while lo < n && is_ws_exec(cs[lo])
        invariant
            lo <= n,
            n == cs@.len(),
            forall|j: int| 0 <= j < lo ==> is_ws(#[trigger] cs@[j]),
        decreases n - lo,
    {
        lo += 1;
    }
    proof {
        lemma_trim_start_skip(cs@, lo as int);
        assert(trim_start_seq(cs@.skip(lo as int)) == cs@.skip(lo as int));
    }
    let mut hi: usize = n;
    while hi > lo && is_ws_exec(cs[hi - 1])
        invariant
            lo <= hi <= n,
            n == cs@.len(),
            forall|j: int| hi <= j < n ==> is_ws(#[trigger] cs@[j]),
        decreases hi,
    {
        hi -= 1;
    }
    let ghost t = cs@.skip(lo as int);
    proof {
        assert forall|j: int| (hi - lo) <= j < t.len() implies is_ws(#[trigger] t[j]) by {
            assert(t[j] == cs@[lo + j]);
        }
        lemma_trim_end_take(t, (hi - lo) as int);
        let u = t.take((hi - lo) as int);
        if u.len() > 0 {
            assert(u.last() == cs@[hi - 1]);
        }
        assert(trim_end_seq(u) == u);
        assert(u == cs@.subrange(lo as int, hi as int));
    }
    let mut r = String::new();
    let mut k: usize = lo;
    while k < hi
        invariant
            lo <= k <= hi <= n,
            n == cs@.len(),
            r@ == cs@.subrange(lo as int, k as int),
        decreases hi - k,
    {
        push_char(&mut r, cs[k]);
        assert(cs@.subrange(lo as int, k + 1) == cs@.subrange(lo as int, k as int).push(
            cs@[k as int],
        ));
        k += 1;
    }
    r
}

/// Whether `s` and `t` hold the same characters.
pub fn str_eq(s: &str, t: &str) -> (b: bool)
    ensures
        b == (s@ == t@),
{
    let a = chars_of(s);
    let c = chars_of(t);
    if a.len() != c.len() {
        return false;
    }
    let mut i: usize = 0;
    while i < a.len()
        invariant
            i <= a@.len(),
            a@.len() == c@.len(),
            a@ == s@,
            c@ == t@,
            forall|j: int| 0 <= j < i ==> a@[j] == c@[j],
        decreases a.len() - i,
    {
        if a[i] != c[i] {
            assert(a@[i as int] != c@[i as int]);
            return false;
        }
        i += 1;
    }
    assert(a@ =~= c@);
    true
}

/// Whether `p` occurs in `s` at character position `i`.
pub fn occurs_at_exec(s: &Vec<char>, p: &Vec<char>, i: usize) -> (b: bool)
    ensures
        b == occurs_at(s@, p@, i as int),
{
    if i > s.len() || p.len() > s.len() - i {
        return false;
    }
    let mut k: usize = 0;
    while k < p.len()
        invariant
            k <= p@.len(),
            i + p@.len() <= s@.len(),
            s@.len() <= usize::MAX,
            forall|j: int| 0 <= j < k ==> s@[i + j] == p@[j],
        decreases p.len() - k,
    {
        if s[i + k] != p[k] {
            assert(s@.subrange(i as int, i + p@.len())[k as int] == s@[i + k]);
            return false;
        }
        k += 1;
    }
    assert(s@.subrange(i as int, i + p@.len()) =~= p@);
    true
}

/// `str::contains` with a string pattern.
pub fn contains_exec(s: &str, p: &str) -> (b: bool)
    ensures
        b == has_substring(s@, p@),
{
    let sv = chars_of(s);
    let pv = chars_of(p);
    if pv.len() > sv.len() {
        assert forall|i: int| !occurs_at(s@, p@, i) by {}
        return false;
    }
    let last = sv.len() - pv.len();
    let mut i: usize = 0;
    loop
        invariant
            pv@.len() <= sv@.len(),
            last == sv@.len() - pv@.len(),
            i <= last,
            sv@ == s@,
            pv@ == p@,
            forall|j: int| 0 <= j < i ==> !occurs_at(s@, p@, j),
        ensures
            forall|j: int| 0 <= j <= last ==> !occurs_at(s@, p@, j),
        decreases last - i,
    {
        if occurs_at_exec(&sv, &pv, i) {
            return true;
        }
        if i == last {
            assert(!occurs_at(s@, p@, i as int));
            break;
        }
        i += 1;
    }
    assert forall|j: int| !occurs_at(s@, p@, j) by {}
    false
}

/// `str::starts_with` with a string pattern.
pub fn starts_with_exec(s: &str, p: &str) -> (b: bool)
    ensures
        b == has_prefix(s@, p@),
{
    let sv = chars_of(s);
    let pv = chars_of(p);
    let b = occurs_at_exec(&sv, &pv, 0);
    b
}

/// `str::ends_with` with a string pattern.
pub fn ends_with_exec(s: &str, p: &str) -> (b: bool)
    ensures
        b == has_suffix(s@, p@),
{
    let sv = chars_of(s);
    let pv = chars_of(p);
    if pv.len() > sv.len() {
        return false;
    }
    occurs_at_exec(&sv, &pv, sv.len() - pv.len())
}

/// Joins `name` onto the path `base` (see [`path_join`]).
pub fn join_path(base: &str, name: &str) -> (r: String)
    ensures
        r@ == path_join(base@, name@),
{
    let n = chars_of(name);
    if n.len() > 0 && n[0] == '/' {
        return owned(name);
    }
    let b = chars_of(base);
    if b.len() == 0 {
        return owned(name);
    }
    let mut r = owned(base);
    if b[b.len() - 1] != '/' {
        push_char(&mut r, '/');
    }
    push_str(&mut r, name);
    r
}

/// `str::trim_end_matches(c)` for a single character.
pub fn trim_end_matches_char(s: &str, c: char) -> (r: String)
    ensures
        r@ == trim_end_char(s@, c),
{
    let mut cs = chars_of(s);
    let ghost orig = cs@;
    while cs.len() > 0 && cs[cs.len() - 1] == c
        invariant
            trim_end_char(cs@, c) == trim_end_char(orig, c),
        decreases cs.len(),
    {
        let ghost before = cs@;
        cs.pop();
        assert(cs@ == before.drop_last());
    }
    string_of(&cs)
}

pub fn digit_char_exec(d: u64, upper: bool) -> (c: char)
    requires
        d < 16,
    ensures
        c == digit_char(d as nat, upper),
{
    if d < 10 {
        char_from_ascii((d + 48) as u8)
    } else if upper {
        char_from_ascii((d + 55) as u8)
    } else {
        char_from_ascii((d + 87) as u8)
    }
}

/// The digits of `n` in base `base`, most significant first.
pub fn digits_exec(n: u64, base: u64, upper: bool) -> (r: String)
    requires
        2 <= base <= 16,
    ensures
        r@ == digits(n as nat, base as nat, upper),
    decreases n,
{
    if n < base {
        let mut r = String::new();
        push_char(&mut r, digit_char_exec(n % 16, upper));
        r
    } else {
        proof {
            lemma_div_smaller(n as nat, base as nat);
        }
        let mut r = digits_exec(n / base, base, upper);
        push_char(&mut r, digit_char_exec(n % base, upper));
        r
    }
}

/// `format!("{n}")`.
pub fn decimal_exec(n: u64) -> (r: String)
    ensures
        r@ == decimal(n as nat),
{
    digits_exec(n, 10, false)
}

/// `format!("{n:x}")`.
pub fn hex_lower_exec(n: u64) -> (r: String)
    ensures
        r@ == hex_lower(n as nat),
{
    digits_exec(n, 16, false)
}

/// `format!("{n:02X}")`.
pub fn hex_upper2_exec(n: u64) -> (r: String)
    ensures
        r@ == hex_upper2(n as nat),
{
    if n < 16 {
        let mut r = String::new();
        push_char(&mut r, '0');
        push_char(&mut r, digit_char_exec(n, true));
        r
    } else {
        digits_exec(n, 16, true)
    }
}

/// `format!("{n:02x}")`.
pub fn hex_lower2_exec(n: u64) -> (r: String)
    ensures
        r@ == hex_lower2(n as nat),
{
    if n < 16 {
        let mut r = String::new();
        push_char(&mut r, '0');
        push_char(&mut r, digit_char_exec(n, false));
        r
    } else {
        digits_exec(n, 16, false)
    }
}

/// Whether `a` sorts strictly before `b` (see [`lex_lt`]).
pub fn lex_lt_exec(a: &str, b: &str) -> (r: bool)
    ensures
        r == lex_lt(a@, b@),
{
    let av = chars_of(a);
    let bv = chars_of(b);
    let mut i: usize = 0;
    assert(a@.skip(0) == a@);
    assert(b@.skip(0) == b@);
    while i < av.len() && i < bv.len() && av[i] == bv[i]
        invariant
            i <= av@.len(),
            i <= bv@.len(),
            av@ == a@,
            bv@ == b@,
            lex_lt(a@, b@) == lex_lt(a@.skip(i as int), b@.skip(i as int)),
        decreases av.len() - i,
    {
        proof {
            let x = a@.skip(i as int);
            let y = b@.skip(i as int);
            assert(x.drop_first() == a@.skip(i + 1));
            assert(y.drop_first() == b@.skip(i + 1));
        }
        i += 1;
    }
    let ghost x = a@.skip(i as int);
    let ghost y = b@.skip(i as int);
    if i == av.len() {
        assert(x.len() == 0);
        i < bv.len()
    } else if i == bv.len() {
        assert(y.len() == 0);
        false
    } else {
        assert(x[0] == av@[i as int]);
        assert(y[0] == bv@[i as int]);
        av[i] < bv[i]
    }
}

// ---------------------------------------------------------------------------
// parsing unsigned integers
// ---------------------------------------------------------------------------

pub open spec fn is_digit(c: char) -> bool {
    '0' <= c && c <= '9'
}

pub open spec fn all_digits(s: Seq<char>) -> bool {
    forall|i: int| 0 <= i < s.len() ==> is_digit(#[trigger] s[i])
}

/// The number the decimal digits of `s` spell.
pub open spec fn digits_value(s: Seq<char>) -> nat
    decreases s.len(),
{
    if s.len() == 0 {
        0
    } else {
        digits_value(s.drop_last()) * 10 + ((s.last() as u32) - 48) as nat
    }
}

/// What `str::parse` gives for an unsigned integer type whose largest value
/// is `max`: an optional `+`, then at least one decimal digit and nothing
/// else, with a value of at most `max`.
pub open spec fn parse_unsigned_spec(s: Seq<char>, max: nat) -> Option<nat> {
    let d = if s.len() > 0 && s[0] == '+' {
        s.drop_first()
    } else {
        s
    };
    if d.len() == 0 || !all_digits(d) || digits_value(d) > max {
        None
    } else {
        Some(digits_value(d))
    }
}

proof fn lemma_digits_value_monotone(s: Seq<char>, i: int)
    requires
        0 <= i <= s.len(),
        all_digits(s),
    ensures
        digits_value(s.take(i)) <= digits_value(s),
    decreases s.len() - i,
{
    if i < s.len() {
        lemma_digits_value_monotone(s, i + 1);
        assert(s.take(i + 1).drop_last() =~= s.take(i));
    } else {
        assert(s.take(i) =~= s);
    }
}

/// `str::parse` for an unsigned integer type whose largest value is `max`.
pub fn parse_unsigned(s: &str, max: u64) -> (r: Option<u64>)
    ensures
        match parse_unsigned_spec(s@, max as nat) {
            Some(v) => r == Some(v as u64),
            None => r is None,
        },
{
    let cs = chars_of(s);
    let start: usize = if cs.len() > 0 && cs[0] == '+' {
        1
    } else {
        0
    };
    let ghost d = if s@.len() > 0 && s@[0] == '+' {
        s@.drop_first()
    } else {
        s@
    };
    assert(d =~= cs@.skip(start as int));
    if start == cs.len() {
        return None;
    }
    let mut acc: u64 = 0;
    let mut i: usize = start;
    while i < cs.len()
        invariant
            start <= i <= cs@.len(),
            cs@ == s@,
            d == cs@.skip(start as int),
            d == (if s@.len() > 0 && s@[0] == '+' {
                s@.drop_first()
            } else {
                s@
            }),
            d.len() > 0,
            acc as nat == digits_value(d.take(i - start)),
            all_digits(d.take(i - start)),
            acc <= max,
        decreases cs.len() - i,
    {
        let c = cs[i];
        let ghost t0 = d.take(i - start);
        let ghost t1 = d.take(i - start + 1);
        proof {
            assert(t1.drop_last() =~= t0);
            assert(t1.last() == c);
        }
        if !('0' <= c && c <= '9') {
            proof {
                assert(d[i - start] == c);
                assert(!is_digit(d[i - start]));
                assert(!all_digits(d));
            }
            return None;
        }
        let digit = (c as u32 - 48) as u64;
        let next: u128 = acc as u128 * 10 + digit as u128;
        proof {
            assert(digits_value(t1) == digits_value(t0) * 10 + digit);
            assert forall|k: int| 0 <= k < t1.len() implies is_digit(#[trigger] t1[k]) by {
                if k < t0.len() {
                    assert(t1[k] == t0[k]);
                }
            }
        }
        if next > max as u128 {
            proof {
                if all_digits(d) {
                    lemma_digits_value_monotone(d, i - start + 1);
                }
            }
            return None;
        }
        acc = next as u64;
        i += 1;
    }
    assert(d.take(i - start) =~= d);
    Some(acc)
}

// ---------------------------------------------------------------------------
// splitting and joining
// ---------------------------------------------------------------------------

/// `str::split` with a char: the pieces between occurrences of `c` (one
/// empty piece for an empty string).
pub open spec fn split_char(s: Seq<char>, c: char) -> Seq<Seq<char>>
    decreases s.len(),
{
    if s.len() == 0 {
        seq![Seq::empty()]
    } else {
        let pre = split_char(s.drop_last(), c);
        if s.last() == c {
            pre.push(Seq::empty())
        } else {
            pre.update(pre.len() - 1, pre.last().push(s.last()))
        }
    }
}

pub proof fn lemma_split_char_len(s: Seq<char>, c: char)
    ensures
        split_char(s, c).len() >= 1,
    decreases s.len(),
{
    if s.len() > 0 {
        lemma_split_char_len(s.drop_last(), c);
    }
}

pub open spec fn strs_view(v: Seq<String>) -> Seq<Seq<char>> {
    v.map_values(|s: String| s@)
}

/// `str::split` with a char, as owned pieces.
pub fn split_on(s: &str, c: char) -> (r: Vec<String>)
    ensures
        strs_view(r@) == split_char(s@, c),
{
    let cs = chars_of(s);
    let mut done: Vec<String> = Vec::new();
    let mut cur: Vec<char> = Vec::new();
    let mut i: usize = 0;
    while i < cs.len()
        invariant
            i <= cs@.len(),
            cs@ == s@,
            strs_view(done@).push(cur@) == split_char(cs@.take(i as int), c),
        decreases cs.len() - i,
    {
        let ghost t0 = cs@.take(i as int);
        let ghost t1 = cs@.take(i + 1);
        proof {
            assert(t1.drop_last() =~= t0);
            assert(t1.last() == cs@[i as int]);
            lemma_split_char_len(t0, c);
        }
        let ghost before = strs_view(done@);
        let ghost cur0 = cur@;
        if cs[i] == c {
            let piece = string_of(&cur);
            done.push(piece);
            cur = Vec::new();
            assert(strs_view(done@) =~= before.push(cur0));
            assert(strs_view(done@).push(cur@) =~= before.push(cur0).push(Seq::empty()));
        } else {
            cur.push(cs[i]);
            assert(before.push(cur0).update(before.len() as int, cur0.push(cs@[i as int]))
                =~= before.push(cur@));
        }
        i += 1;
    }
    assert(cs@.take(cs@.len() as int) =~= cs@);
    let last = string_of(&cur);
    let ghost before = strs_view(done@);
    done.push(last);
    assert(strs_view(done@) =~= before.push(cur@));
    done
}

/// `join` with a separator.
pub open spec fn join_seq(parts: Seq<Seq<char>>, sep: Seq<char>) -> Seq<char>
    decreases parts.len(),
{
    if parts.len() == 0 {
        Seq::empty()
    } else if parts.len() == 1 {
        parts[0]
    } else {
        join_seq(parts.drop_last(), sep) + sep + parts.last()
    }
}

pub fn join_with(parts: &Vec<String>, sep: &str) -> (r: String)
    ensures
        r@ == join_seq(strs_view(parts@), sep@),
{
    let mut out = String::new();
    let mut i: usize = 0;
    while i < parts.len()
        invariant
            i <= parts@.len(),
            out@ == join_seq(strs_view(parts@.take(i as int)), sep@),
        decreases parts.len() - i,
    {
        let ghost t1 = strs_view(parts@.take(i + 1));
        proof {
            assert(t1.drop_last() =~= strs_view(parts@.take(i as int)));
            assert(t1.last() == parts@[i as int]@);
        }
        if i > 0 {
            push_str(&mut out, sep);
        }
        push_str(&mut out, parts[i].as_str());
        i += 1;
    }
    assert(parts@.take(parts@.len() as int) =~= parts@);
    out
}

/// `str::eq_ignore_ascii_case`.
pub open spec fn eq_ignore_ascii_case(a: Seq<char>, b: Seq<char>) -> bool {
    lower_seq(a) == lower_seq(b)
}

pub fn eq_ignore_ascii_case_exec(a: &str, b: &str) -> (r: bool)
    ensures
        r == eq_ignore_ascii_case(a@, b@),
{
    let la = lower_ascii_string(a);
    let lb = lower_ascii_string(b);
    str_eq(la.as_str(), lb.as_str())
}

/// `str::trim_start`, as an owned string.
pub fn trim_start_exec(s: &str) -> (r: String)
    ensures
        r@ == trim_start_seq(s@),
{
    let cs = chars_of(s);
    let mut lo: usize = 0;
    while lo < cs.len() && is_ws_exec(cs[lo])
        invariant
            lo <= cs@.len(),
            forall|j: int| 0 <= j < lo ==> is_ws(#[trigger] cs@[j]),
        decreases cs.len() - lo,
    {
        lo += 1;
    }
    proof {
        lemma_trim_start_skip(cs@, lo as int);
        assert(trim_start_seq(cs@.skip(lo as int)) == cs@.skip(lo as int));
    }
    let mut v: Vec<char> = Vec::new();
    let mut k: usize = lo;
    while k < cs.len()
        invariant
            lo <= k <= cs@.len(),
            v@ == cs@.subrange(lo as int, k as int),
        decreases cs.len() - k,
    {
        v.push(cs[k]);
        assert(cs@.subrange(lo as int, k + 1) =~= cs@.subrange(lo as int, k as int).push(
            cs@[k as int],
        ));
        k += 1;
    }
    assert(cs@.subrange(lo as int, cs@.len() as int) =~= cs@.skip(lo as int));
    string_of(&v)
}

/// The lines of a text (`str::lines`): split after each `\n`, the `\n` and
/// a `\r` just before it dropped; no line after a final `\n`, none at all
/// for an empty text.
pub open spec fn text_lines(s: Seq<char>) -> Seq<Seq<char>> {
    let parts = split_char(s, '\n');
    let last = parts.last();
    let body = parts.drop_last().map_values(
        |p: Seq<char>|
            if p.len() > 0 && p.last() == '\r' {
                p.drop_last()
            } else {
                p
            },
    );
    if last.len() == 0 {
        body
    } else {
        body.push(last)
    }
}

pub fn lines_of(s: &str) -> (r: Vec<String>)
    ensures
        strs_view(r@) == text_lines(s@),
{
    let parts = split_on(s, '\n');
    proof {
        lemma_split_char_len(s@, '\n');
    }
    let ghost pv = strs_view(parts@);
    let n = parts.len();
    let mut out: Vec<String> = Vec::new();
    let mut i: usize = 0;
    while i + 1 < n
        invariant
            n == parts@.len(),
            n >= 1,
            i + 1 <= n,
            pv == strs_view(parts@),
            strs_view(out@) == pv.drop_last().take(i as int).map_values(
                |p: Seq<char>|
                    if p.len() > 0 && p.last() == '\r' {
                        p.drop_last()
                    } else {
                        p
                    },
            ),
        decreases n - i,
    {
        let p = &parts[i];
        let cs = chars_of(p.as_str());
        let piece = if cs.len() > 0 && cs[cs.len() - 1] == '\r' {
            let mut v = cs;
            v.pop();
            string_of(&v)
        } else {
            p.clone()
        };
        let ghost before = strs_view(out@);
        out.push(piece);
        assert(strs_view(out@) =~= before.push(piece@));
        assert(pv.drop_last().take(i + 1) =~= pv.drop_last().take(i as int).push(pv[i as int]));
        i += 1;
    }
    assert(pv.drop_last().take(i as int) =~= pv.drop_last());
    let last = &parts[n - 1];
    if !last.as_str().is_empty() {
        let ghost before = strs_view(out@);
        out.push(last.clone());
        assert(strs_view(out@) =~= before.push(pv.last()));
    }
    out
}

// ---------------------------------------------------------------------------
// facts
// ---------------------------------------------------------------------------

/// The decimal form of a number is a non-empty run of digits spelling it.
pub proof fn lemma_decimal_digits(n: nat)
    ensures
        decimal(n).len() > 0,
        all_digits(decimal(n)),
        digits_value(decimal(n)) == n,
    decreases n,
{
    if n < 10 {
        let c = digit_char(n % 16, false);
        assert(n % 16 == n);
        assert(c == ((n + 48) as u32) as char);
        assert((c as u32) == n + 48);
        assert(decimal(n) == seq![c]);
        assert(decimal(n).drop_last() =~= Seq::<char>::empty());
        assert(decimal(n).last() == c);
        assert(digits_value(Seq::<char>::empty()) == 0);
        assert(digits_value(decimal(n)) == digits_value(decimal(n).drop_last()) * 10 + ((c as u32)
            - 48) as nat);
    } else {
        lemma_div_smaller(n, 10);
        lemma_decimal_digits(n / 10);
        let pre = decimal(n / 10);
        let c = digit_char(n % 10, false);
        assert(decimal(n) == pre.push(c));
        assert(c as u32 == n % 10 + 48);
        assert(pre.push(c).drop_last() =~= pre);
        assert(pre.push(c).last() == c);
        assert(digits_value(pre.push(c)) == digits_value(pre) * 10 + ((c as u32) - 48) as nat);
        assert(digits_value(pre.push(c)) == (n / 10) * 10 + n % 10);
        assert(n == (n / 10) * 10 + n % 10);
        assert forall|i: int| 0 <= i < pre.push(c).len() implies is_digit(#[trigger] pre.push(c)[i]) by {
            if i < pre.len() {
                assert(pre.push(c)[i] == pre[i]);
            }
        }
    }
}

/// A number written in decimal reads back as itself: `str::parse` of
/// `format!("{n}")` gives `n` for every `n` the type can hold.
pub proof fn law_decimal_parses_back(n: nat, max: nat)
    requires
        n <= max,
    ensures
        parse_unsigned_spec(decimal(n), max) == Some(n),
{
    lemma_decimal_digits(n);
    let d = decimal(n);
    assert(is_digit(d[0]));
}

/// Two sorted lists of distinct strings with the same elements are equal.
pub proof fn lemma_sorted_same_elements(a: Seq<Seq<char>>, b: Seq<Seq<char>>)
    requires
        sorted_strict(a),
        sorted_strict(b),
        forall|n: Seq<char>| a.contains(n) <==> b.contains(n),
    ensures
        a == b,
    decreases a.len() + b.len(),
{
    if a.len() == 0 {
        if b.len() > 0 {
            assert(b.contains(b[0]));
        }
        assert(b =~= a);
    } else if b.len() == 0 {
        assert(a.contains(a[0]));
    } else {
        assert(a.contains(a[0]));
        assert(b.contains(b[0]));
        let k = choose|k: int| 0 <= k < b.len() && b[k] == a[0];
        let m = choose|m: int| 0 <= m < a.len() && a[m] == b[0];
        if k > 0 && m > 0 {
            assert(lex_lt(b[0], b[k]));
            assert(lex_lt(a[0], a[m]));
            lemma_lex_total(a[0], b[0]);
        } else if k > 0 {
            assert(lex_lt(b[0], b[k]));
            lemma_lex_irrefl(a[0]);
        } else if m > 0 {
            assert(lex_lt(a[0], a[m]));
            lemma_lex_irrefl(b[0]);
        }
        assert(a[0] == b[0]);
        let ta = a.drop_first();
        let tb = b.drop_first();
        assert forall|n: Seq<char>| ta.contains(n) <==> tb.contains(n) by {
            if ta.contains(n) {
                let i = choose|i: int| 0 <= i < ta.len() && ta[i] == n;
                assert(a[i + 1] == n);
                assert(lex_lt(a[0], a[i + 1]));
                lemma_lex_irrefl(n);
                assert(a.contains(n));
                let j = choose|j: int| 0 <= j < b.len() && b[j] == n;
                assert(j != 0);
                assert(tb[j - 1] == n);
            }
            if tb.contains(n) {
                let i = choose|i: int| 0 <= i < tb.len() && tb[i] == n;
                assert(b[i + 1] == n);
                assert(lex_lt(b[0], b[i + 1]));
                lemma_lex_irrefl(n);
                assert(b.contains(n));
                let j = choose|j: int| 0 <= j < a.len() && a[j] == n;
                assert(j != 0);
                assert(ta[j - 1] == n);
            }
        }
        assert forall|i: int, j: int| 0 <= i < j < ta.len() implies lex_lt(
            #[trigger] ta[i],
            #[trigger] ta[j],
        ) by {
            assert(ta[i] == a[i + 1] && ta[j] == a[j + 1]);
        }
        assert forall|i: int, j: int| 0 <= i < j < tb.len() implies lex_lt(
            #[trigger] tb[i],
            #[trigger] tb[j],
        ) by {
            assert(tb[i] == b[i + 1] && tb[j] == b[j + 1]);
        }
        lemma_sorted_same_elements(ta, tb);
        assert(a =~= seq![a[0]] + ta);
        assert(b =~= seq![b[0]] + tb);
    }
}

} // verus!
