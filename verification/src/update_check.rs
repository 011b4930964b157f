//! Release-tag parsing and version comparison for the "a newer version is
//! available" notice.
//!
//! The network request lives outside the library; what it hands back (the
//! body of a GitHub "latest release" response) is read here: the value of
//! its `"tag_name"` field is extracted without a JSON parser, and release
//! tags are compared as `major.minor.patch` triples. A leading `v` is
//! ignored and any non-numeric or missing component reads as `0`, so a
//! malformed tag can only ever compare as "not newer".

use vstd::prelude::*;
use vstd::string::*;

verus! {

broadcast use vstd::string::group_string_axioms;

// ── Character classes ────────────────────────────────────────────────────

/// Unicode `White_Space`, the set `char::is_whitespace` tests.
pub open spec fn is_space(c: char) -> bool {
    let u = c as u32;
    ||| 0x9 <= u <= 0xd
    ||| u == 0x20
    ||| u == 0x85
    ||| u == 0xa0
    ||| u == 0x1680
    ||| 0x2000 <= u <= 0x200a
    ||| u == 0x2028
    ||| u == 0x2029
    ||| u == 0x202f
    ||| u == 0x205f
    ||| u == 0x3000
}

/// An ASCII decimal digit.
pub open spec fn is_digit(c: char) -> bool {
    48 <= (c as u32) <= 57
}

/// Holds of whitespace.
pub open spec fn space_pred() -> spec_fn(char) -> bool {
    |c: char| is_space(c)
}

/// Holds of `v`.
pub open spec fn v_pred() -> spec_fn(char) -> bool {
    |c: char| c == 'v'
}

/// Holds of every character but `c`.
pub open spec fn other_than(c: char) -> spec_fn(char) -> bool {
    |x: char| x != c
}

// ── Sequence helpers ─────────────────────────────────────────────────────

/// Length of the longest prefix of `s` whose characters all satisfy `p`.
pub open spec fn span(s: Seq<char>, p: spec_fn(char) -> bool) -> nat
    decreases s.len(),
{
    if s.len() > 0 && p(s[0]) {
        1 + span(s.drop_first(), p)
    } else {
        0
    }
}

/// Length of the longest suffix of `s` whose characters all satisfy `p`.
pub open spec fn rspan(s: Seq<char>, p: spec_fn(char) -> bool) -> nat
    decreases s.len(),
{
    if s.len() > 0 && p(s.last()) {
        1 + rspan(s.drop_last(), p)
    } else {
        0
    }
}

/// `str::trim_start`.
pub open spec fn trim_start(s: Seq<char>) -> Seq<char> {
    s.skip(span(s, space_pred()) as int)
}

/// `str::trim_end`.
pub open spec fn trim_end(s: Seq<char>) -> Seq<char> {
    s.take(s.len() - rspan(s, space_pred()))
}

/// `str::trim`.
pub open spec fn trim(s: Seq<char>) -> Seq<char> {
    trim_end(trim_start(s))
}

/// `s` with every leading `v` removed.
pub open spec fn strip_vs(s: Seq<char>) -> Seq<char> {
    s.skip(span(s, v_pred()) as int)
}

/// Index of the first `c` in `s`, or `s.len()` when there is none.
pub open spec fn index_of(s: Seq<char>, c: char) -> nat {
    span(s, other_than(c))
}

/// `k` occurs in `s` starting at index `i`.
pub open spec fn occurs_at(s: Seq<char>, k: Seq<char>, i: int) -> bool {
    0 <= i && i + k.len() <= s.len() && s.subrange(i, i + k.len()) == k
}

/// Index of the first occurrence of `k` in `s` (`str::find`).
pub open spec fn find(s: Seq<char>, k: Seq<char>) -> Option<nat>
    decreases s.len(),
{
    if s.len() < k.len() {
        None
    } else if s.take(k.len() as int) == k {
        Some(0)
    } else if s.len() == 0 {
        None
    } else {
        match find(s.drop_first(), k) {
            Some(i) => Some(i + 1),
            None => None,
        }
    }
}

// ── Numbers ──────────────────────────────────────────────────────────────

/// Decimal value of a string of digits.
pub open spec fn digits_value(d: Seq<char>) -> nat
    decreases d.len(),
{
    if d.len() == 0 {
        0
    } else {
        digits_value(d.drop_last()) * 10 + ((d.last() as u32) - 48) as nat
    }
}

/// Every character is an ASCII digit.
pub open spec fn all_digits(d: Seq<char>) -> bool {
    forall|i: int| 0 <= i < d.len() ==> is_digit(#[trigger] d[i])
}

/// `u32::from_str`: an optional `+`, then at least one ASCII digit, with a
/// value that fits in `u32`.
pub open spec fn parse_u32(p: Seq<char>) -> Option<u32> {
    let d = if p.len() > 0 && p[0] == '+' {
        p.drop_first()
    } else {
        p
    };
    if d.len() > 0 && all_digits(d) && digits_value(d) <= u32::MAX {
        Some(digits_value(d) as u32)
    } else {
        None
    }
}

// ── Versions ─────────────────────────────────────────────────────────────

/// `str::splitn(n, '.')`: at most `n` pieces, the last holding the rest.
pub open spec fn split_dots(s: Seq<char>, n: nat) -> Seq<Seq<char>>
    decreases n,
{
    let i = index_of(s, '.');
    if n <= 1 || i == s.len() {
        seq![s]
    } else {
        seq![s.take(i as int)] + split_dots(s.skip(i + 1 as int), (n - 1) as nat)
    }
}

/// Component `k` of a version: the `k`-th piece, trimmed and read as a
/// `u32`, or `0` where it is missing or is no number.
pub open spec fn component(parts: Seq<Seq<char>>, k: int) -> u32 {
    if 0 <= k < parts.len() {
        match parse_u32(trim(parts[k])) {
            Some(n) => n,
            None => 0,
        }
    } else {
        0
    }
}

/// The `[major, minor, patch]` triple that a version string reads as.
pub open spec fn semver(s: Seq<char>) -> Seq<u32> {
    let parts = split_dots(strip_vs(trim(s)), 3);
    seq![component(parts, 0), component(parts, 1), component(parts, 2)]
}

/// Lexicographic "greater than" on version triples.
pub open spec fn semver_gt(a: Seq<u32>, b: Seq<u32>) -> bool {
    ||| a[0] > b[0]
    ||| a[0] == b[0] && a[1] > b[1]
    ||| a[0] == b[0] && a[1] == b[1] && a[2] > b[2]
}

// ── Tag extraction ───────────────────────────────────────────────────────

/// The quoted key `"tag_name"`.
pub open spec fn tag_key() -> Seq<char> {
    seq!['"', 't', 'a', 'g', '_', 'n', 'a', 'm', 'e', '"']
}

/// The value of the `"tag_name"` field of a response body: after the first
/// `"tag_name"`, optional whitespace, a colon, optional whitespace and an
/// opening quote, everything up to the next quote.
pub open spec fn tag_name(body: Seq<char>) -> Option<Seq<char>> {
    match find(body, tag_key()) {
        None => None,
        Some(i) => {
            let a = trim_start(body.skip((i + tag_key().len()) as int));
            if a.len() == 0 || a[0] != ':' {
                None
            } else {
                let b = trim_start(a.drop_first());
                if b.len() == 0 || b[0] != '"' {
                    None
                } else {
                    let inner = b.drop_first();
                    let e = index_of(inner, '"');
                    if e == inner.len() {
                        None
                    } else {
                        Some(inner.take(e as int))
                    }
                }
            }
        }
    }
}


// ── Lemmas ───────────────────────────────────────────────────────────────

/// `span` is the length of the prefix that satisfies `p`, cut at the first
/// character that does not.
pub proof fn lemma_span(s: Seq<char>, p: spec_fn(char) -> bool, n: int)
    requires
        0 <= n <= s.len(),
        forall|j: int| 0 <= j < n ==> p(#[trigger] s[j]),
        n < s.len() ==> !p(s[n]),
    ensures
        span(s, p) == n,
    decreases n,
{
    if n > 0 {
        let t = s.drop_first();
        assert forall|j: int| 0 <= j < n - 1 implies p(#[trigger] t[j]) by {
            assert(t[j] == s[j + 1]);
        }
        lemma_span(t, p, n - 1);
    }
}

/// `rspan` is the length of the suffix that satisfies `p`, cut at the last
/// character that does not.
pub proof fn lemma_rspan(s: Seq<char>, p: spec_fn(char) -> bool, n: int)
    requires
        0 <= n <= s.len(),
        forall|j: int| s.len() - n <= j < s.len() ==> p(#[trigger] s[j]),
        n < s.len() ==> !p(s[s.len() - n - 1]),
    ensures
        rspan(s, p) == n,
    decreases n,
{
    if n > 0 {
        let t = s.drop_last();
        assert forall|j: int| t.len() - (n - 1) <= j < t.len() implies p(#[trigger] t[j]) by {
            assert(t[j] == s[j]);
        }
        lemma_rspan(t, p, n - 1);
    }
}

/// `find` gives the first index at which `k` occurs.
pub proof fn lemma_find(s: Seq<char>, k: Seq<char>, i: int)
    requires
        k.len() > 0,
        0 <= i,
        forall|j: int| 0 <= j < i ==> !occurs_at(s, k, j),
        occurs_at(s, k, i) || i + k.len() > s.len(),
    ensures
        find(s, k) == (if occurs_at(s, k, i) {
            Some(i as nat)
        } else {
            None::<nat>
        }),
    decreases i,
{
    if i > 0 && s.len() >= k.len() {
        assert(!occurs_at(s, k, 0));
        assert(s.subrange(0, k.len() as int) =~= s.take(k.len() as int));
        let t = s.drop_first();
        assert forall|j: int| 0 <= j < i - 1 implies !occurs_at(t, k, j) by {
            if j + k.len() <= t.len() {
                assert(t.subrange(j, j + k.len()) =~= s.subrange(j + 1, j + 1 + k.len()));
                assert(!occurs_at(s, k, j + 1));
            }
        }
        if occurs_at(s, k, i) {
            assert(t.subrange(i - 1, i - 1 + k.len()) =~= s.subrange(i, i + k.len()));
        }
        lemma_find(t, k, i - 1);
    } else if i == 0 && occurs_at(s, k, 0) {
        assert(s.subrange(0, k.len() as int) =~= s.take(k.len() as int));
    }
}

// ── Scanning ─────────────────────────────────────────────────────────────

/// The character classes the scanner skips over.
enum CharClass {
    Space,
    Vee,
    Except(char),
}

spec fn class_pred(k: CharClass) -> spec_fn(char) -> bool {
    match k {
        CharClass::Space => space_pred(),
        CharClass::Vee => v_pred(),
        CharClass::Except(c) => other_than(c),
    }
}

fn is_space_char(c: char) -> (b: bool)
    ensures
        b == is_space(c),
{
    let u = c as u32;
    (0x9 <= u && u <= 0xd) || u == 0x20 || u == 0x85 || u == 0xa0 || u == 0x1680 || (0x2000 <= u
        && u <= 0x200a) || u == 0x2028 || u == 0x2029 || u == 0x202f || u == 0x205f || u == 0x3000
}

fn class_holds(k: &CharClass, c: char) -> (b: bool)
    ensures
        b == class_pred(*k)(c),
{
    match k {
        CharClass::Space => is_space_char(c),
        CharClass::Vee => c == 'v',
        CharClass::Except(x) => c != *x,
    }
}

/// First index in `lo..hi` whose character is not in the class, or `hi`.
fn skip_class(v: &Vec<char>, lo: usize, hi: usize, k: CharClass) -> (r: usize)
    requires
        lo <= hi <= v.len(),
    ensures
        lo <= r <= hi,
        r - lo == span(v@.subrange(lo as int, hi as int), class_pred(k)),
{
    let mut i = lo;
    while i < hi && class_holds(&k, v[i])
        invariant
            lo <= i <= hi,
            hi <= v.len(),
            forall|j: int| lo <= j < i ==> class_pred(k)(#[trigger] v@[j]),
        decreases hi - i,
    {
        i += 1;
    }
    proof {
        let s = v@.subrange(lo as int, hi as int);
        assert forall|j: int| 0 <= j < i - lo implies class_pred(k)(#[trigger] s[j]) by {
            assert(s[j] == v@[lo + j]);
        }
        lemma_span(s, class_pred(k), i - lo);
    }
    i
}

/// Index just past the last character in `lo..hi` that is not in the
/// class, or `lo`.
fn skip_class_back(v: &Vec<char>, lo: usize, hi: usize, k: CharClass) -> (r: usize)
    requires
        lo <= hi <= v.len(),
    ensures
        lo <= r <= hi,
        hi - r == rspan(v@.subrange(lo as int, hi as int), class_pred(k)),
{
    let mut i = hi;
    while i > lo && class_holds(&k, v[i - 1])
        invariant
            lo <= i <= hi,
            hi <= v.len(),
            forall|j: int| i <= j < hi ==> class_pred(k)(#[trigger] v@[j]),
        decreases i - lo,
    {
        i -= 1;
    }
    proof {
        let s = v@.subrange(lo as int, hi as int);
        assert forall|j: int| s.len() - (hi - i) <= j < s.len() implies class_pred(k)(
            #[trigger] s[j],
        ) by {
            assert(s[j] == v@[lo + j]);
        }
        if i > lo {
            assert(s[s.len() - (hi - i) - 1] == v@[i - 1]);
        }
        lemma_rspan(s, class_pred(k), hi - i);
    }
    i
}

/// The characters of a string.
fn to_chars(s: &str) -> (v: Vec<char>)
    ensures
        v@ == s@,
{
    let mut v: Vec<char> = Vec::new();
    for c in it: s.chars()
        invariant
            v@ == it.seq().take(it.index() as int),
    {
        v.push(c);
    }
    v
}

/// Whether `k` occurs in `v` at index `i`.
fn occurs_at_exec(v: &Vec<char>, k: &Vec<char>, i: usize) -> (b: bool)
    requires
        i + k.len() <= v.len(),
    ensures
        b == occurs_at(v@, k@, i as int),
{
    let mut j: usize = 0;
    while j < k.len()
        invariant
            j <= k.len(),
            i + k.len() <= v.len(),
            forall|m: int| 0 <= m < j ==> v@[i + m] == k@[m],
        decreases k.len() - j,
    {
        if v[i + j] != k[j] {
            assert(v@.subrange(i as int, i + k.len())[j as int] != k@[j as int]);
            return false;
        }
        j += 1;
    }
    assert(v@.subrange(i as int, i + k.len()) =~= k@);
    true
}

/// `str::find` on character vectors.
fn find_exec(v: &Vec<char>, k: &Vec<char>) -> (r: Option<usize>)
    requires
        k.len() > 0,
    ensures
        match r {
            Some(i) => find(v@, k@) == Some(i as nat),
            None => find(v@, k@) is None,
        },
        r matches Some(i) ==> occurs_at(v@, k@, i as int),
{
    if v.len() < k.len() {
        proof {
            lemma_find(v@, k@, 0);
        }
        return None;
    }
    let last = v.len() - k.len();
    let mut i: usize = 0;
    while i <= last
        invariant
            last == v.len() - k.len(),
            k.len() > 0,
            i <= last + 1,
            forall|j: int| 0 <= j < i ==> !occurs_at(v@, k@, j),
        decreases last + 1 - i,
    {
        if occurs_at_exec(v, k, i) {
            proof {
                lemma_find(v@, k@, i as int);
            }
            return Some(i);
        }
        i += 1;
    }
    proof {
        lemma_find(v@, k@, i as int);
    }
    None
}

fn tag_key_exec() -> (k: Vec<char>)
    ensures
        k@ == tag_key(),
{
    let mut k: Vec<char> = Vec::new();
    k.push('"');
    k.push('t');
    k.push('a');
    k.push('g');
    k.push('_');
    k.push('n');
    k.push('a');
    k.push('m');
    k.push('e');
    k.push('"');
    assert(k@ =~= tag_key());
    k
}

// ── Public surface ───────────────────────────────────────────────────────

/// Extracts the value of the `"tag_name"` field from a GitHub release JSON
/// body without a full JSON parser. Returns `None` if the field is absent
/// or malformed.
pub fn parse_tag_name(body: &str) -> (r: Option<String>)
    ensures
        match r {
            Some(t) => tag_name(body@) == Some(t@),
            None => tag_name(body@) is None,
        },
{
    let v = to_chars(body);
    let key = tag_key_exec();
    let n = v.len();
    let i = match find_exec(&v, &key) {
        Some(i) => i,
        None => return None,
    };
    assert(occurs_at(v@, key@, i as int));
    let a = skip_class(&v, i + 10, n, CharClass::Space);
    assert(body@.skip((i + tag_key().len()) as int) =~= v@.subrange(i + 10, n as int));
    let ghost sa = trim_start(body@.skip((i + tag_key().len()) as int));
    assert(sa =~= v@.subrange(a as int, n as int));
    if a == n || v[a] != ':' {
        return None;
    }
    let b = skip_class(&v, a + 1, n, CharClass::Space);
    assert(sa.drop_first() =~= v@.subrange(a + 1, n as int));
    let ghost sb = trim_start(sa.drop_first());
    assert(sb =~= v@.subrange(b as int, n as int));
    if b == n || v[b] != '"' {
        return None;
    }
    let start = b + 1;
    let e = skip_class(&v, start, n, CharClass::Except('"'));
    assert(sb.drop_first() =~= v@.subrange(start as int, n as int));
    if e == n {
        return None;
    }
    let t = body.substring_char(start, e).to_owned();
    assert(sb.drop_first().take(e - start) =~= v@.subrange(start as int, e as int));
    Some(t)
}


/// The digit part of `u32::from_str`.
pub open spec fn parse_digits(d: Seq<char>) -> Option<u32> {
    if d.len() > 0 && all_digits(d) && digits_value(d) <= u32::MAX {
        Some(digits_value(d) as u32)
    } else {
        None
    }
}

/// `u32::from_str` on `v[a..b]`.
fn parse_u32_range(v: &Vec<char>, a: usize, b: usize) -> (r: Option<u32>)
    requires
        a <= b <= v.len(),
    ensures
        r == parse_u32(v@.subrange(a as int, b as int)),
{
    let ghost p = v@.subrange(a as int, b as int);
    let mut i = a;
    if i < b && v[i] == '+' {
        i += 1;
        assert(p.drop_first() =~= v@.subrange(i as int, b as int));
    } else {
        assert(p =~= v@.subrange(i as int, b as int));
    }
    assert(parse_u32(p) == parse_digits(v@.subrange(i as int, b as int)));
    if i == b {
        return None;
    }
    let start = i;
    let mut acc: u64 = 0;
    let mut over = false;
    assert(v@.subrange(start as int, start as int) =~= Seq::<char>::empty());
    while i < b
        invariant
            start <= i <= b,
            start < b,
            b <= v.len(),
            parse_u32(v@.subrange(a as int, b as int)) == parse_digits(
                v@.subrange(start as int, b as int),
            ),
            all_digits(v@.subrange(start as int, i as int)),
            over ==> digits_value(v@.subrange(start as int, i as int)) > u32::MAX,
            !over ==> acc == digits_value(v@.subrange(start as int, i as int)) && acc <= u32::MAX,
        decreases b - i,
    {
        let c = v[i];
        let u = c as u32;
        if u < 48 || u > 57 {
            proof {
                let d = v@.subrange(start as int, b as int);
                assert(d[i - start] == c);
                assert(!is_digit(d[i - start]));
                assert(!all_digits(d));
            }
            return None;
        }
        proof {
            let s1 = v@.subrange(start as int, i + 1);
            assert(s1.drop_last() =~= v@.subrange(start as int, i as int));
            assert(s1.last() == c);
            assert forall|j: int| 0 <= j < s1.len() implies is_digit(#[trigger] s1[j]) by {
                if j < s1.len() - 1 {
                    assert(s1[j] == v@.subrange(start as int, i as int)[j]);
                }
            }
        }
        if !over {
            acc = acc * 10 + (u - 48) as u64;
            if acc > 0xffff_ffff {
                over = true;
            }
        }
        i += 1;
    }
    assert(v@.subrange(start as int, i as int) =~= v@.subrange(start as int, b as int));
    if over {
        None
    } else {
        Some(acc as u32)
    }
}

/// One version component: `v[a..b]` trimmed and read as a `u32`, or `0`.
fn component_range(v: &Vec<char>, a: usize, b: usize) -> (n: u32)
    requires
        a <= b <= v.len(),
    ensures
        n == (match parse_u32(trim(v@.subrange(a as int, b as int))) {
            Some(m) => m,
            None => 0,
        }),
{
    let lo = skip_class(v, a, b, CharClass::Space);
    let hi = skip_class_back(v, lo, b, CharClass::Space);
    assert(trim_start(v@.subrange(a as int, b as int)) =~= v@.subrange(lo as int, b as int));
    assert(trim(v@.subrange(a as int, b as int)) =~= v@.subrange(lo as int, hi as int));
    match parse_u32_range(v, lo, hi) {
        Some(m) => m,
        None => 0,
    }
}

/// Unfolds `split_dots` on a string cut at `i`.
proof fn lemma_split_at(t: Seq<char>, n: nat)
    requires
        n >= 2,
        index_of(t, '.') < t.len(),
    ensures
        split_dots(t, n) == seq![t.take(index_of(t, '.') as int)] + split_dots(
            t.skip(index_of(t, '.') + 1 as int),
            (n - 1) as nat,
        ),
{
}

/// The three components of the version text `v[lo..hi]`.
#[verifier::rlimit(30)]
fn components(v: &Vec<char>, lo: usize, hi: usize) -> (r: [u32; 3])
    requires
        lo <= hi <= v.len(),
    ensures
        ({
            let parts = split_dots(v@.subrange(lo as int, hi as int), 3);
            r@ == seq![component(parts, 0), component(parts, 1), component(parts, 2)]
        }),
{
    let ghost t = v@.subrange(lo as int, hi as int);
    let d0 = skip_class(v, lo, hi, CharClass::Except('.'));
    let mut out = [0u32; 3];
    out[0] = component_range(v, lo, d0);
    assert(t.take(d0 - lo) =~= v@.subrange(lo as int, d0 as int));
    if d0 < hi {
        assert(t[d0 - lo] == v@[d0 as int]);
        let d1 = skip_class(v, d0 + 1, hi, CharClass::Except('.'));
        out[1] = component_range(v, d0 + 1, d1);
        let ghost t2 = t.skip((d0 - lo) + 1);
        assert(t2 =~= v@.subrange(d0 + 1, hi as int));
        proof {
            lemma_split_at(t, 3);
        }
        if d1 < hi {
            out[2] = component_range(v, d1 + 1, hi);
            let ghost t3 = t2.skip((d1 - (d0 + 1)) + 1);
            assert(t3 =~= v@.subrange(d1 + 1, hi as int));
            assert(t2.take(d1 - (d0 + 1)) =~= v@.subrange(d0 + 1, d1 as int));
            assert(t2[d1 - (d0 + 1)] == v@[d1 as int]);
            proof {
                lemma_split_at(t2, 2);
            }
            assert(split_dots(t3, 1) == seq![t3]);
            assert(split_dots(t, 3) =~= seq![t.take(d0 - lo), t2.take(d1 - (d0 + 1)), t3]);
        } else {
            assert(split_dots(t2, 2) == seq![t2]);
            assert(split_dots(t, 3) =~= seq![t.take(d0 - lo), t2]);
        }
    } else {
        assert(split_dots(t, 3) == seq![t]);
        assert(t.take(d0 - lo) =~= t);
    }
    assert(out@ =~= seq![
        component(split_dots(t, 3), 0),
        component(split_dots(t, 3), 1),
        component(split_dots(t, 3), 2),
    ]);
    out
}

/// Parses `major.minor.patch` into a comparable triple, tolerating a
/// leading `v` and missing or garbage components (which become `0`).
pub fn parse_semver(s: &str) -> (r: [u32; 3])
    ensures
        r@ == semver(s@),
{
    let v = to_chars(s);
    let n = v.len();
    let lo0 = skip_class(&v, 0, n, CharClass::Space);
    let hi = skip_class_back(&v, lo0, n, CharClass::Space);
    assert(s@ =~= v@.subrange(0, n as int));
    assert(trim_start(s@) =~= v@.subrange(lo0 as int, n as int));
    assert(trim(s@) =~= v@.subrange(lo0 as int, hi as int));
    let lo = skip_class(&v, lo0, hi, CharClass::Vee);
    assert(strip_vs(trim(s@)) =~= v@.subrange(lo as int, hi as int));
    components(&v, lo, hi)
}

/// Returns `true` if release tag `tag` is a strictly newer version than the
/// running `current` version.
pub fn is_newer(tag: &str, current: &str) -> (b: bool)
    ensures
        b == semver_gt(semver(tag@), semver(current@)),
{
    let a = parse_semver(tag);
    let c = parse_semver(current);
    a[0] > c[0] || (a[0] == c[0] && (a[1] > c[1] || (a[1] == c[1] && a[2] > c[2])))
}

/// The tag a release body announces, when it is strictly newer than the
/// running version.
pub open spec fn notice(body: Seq<char>, current: Seq<char>) -> Option<Seq<char>> {
    match tag_name(body) {
        Some(t) => if semver_gt(semver(t), semver(current)) {
            Some(t)
        } else {
            None
        },
        None => None,
    }
}

/// What the update check does with a fetched release body: the release
/// tag to announce, or `None` when the body has no tag or the tag is not
/// newer than `current`.
pub fn update_notice(body: &str, current: &str) -> (r: Option<String>)
    ensures
        match r {
            Some(t) => notice(body@, current@) == Some(t@),
            None => notice(body@, current@) is None,
        },
{
    match parse_tag_name(body) {
        Some(tag) => {
            if is_newer(tag.as_str(), current) {
                Some(tag)
            } else {
                None
            }
        },
        None => None,
    }
}


// ── Laws ─────────────────────────────────────────────────────────────────

/// "Newer than" is irreflexive: no version is newer than itself.
pub proof fn lemma_not_newer_than_itself(s: Seq<char>)
    ensures
        !semver_gt(semver(s), semver(s)),
{
}

/// "Newer than" is asymmetric: of two versions at most one is newer.
pub proof fn lemma_newer_asymmetric(a: Seq<char>, b: Seq<char>)
    ensures
        !(semver_gt(semver(a), semver(b)) && semver_gt(semver(b), semver(a))),
{
}

/// "Newer than" is transitive.
pub proof fn lemma_newer_transitive(a: Seq<char>, b: Seq<char>, c: Seq<char>)
    requires
        semver_gt(semver(a), semver(b)),
        semver_gt(semver(b), semver(c)),
    ensures
        semver_gt(semver(a), semver(c)),
{
}

/// A tag that reads as `0.0.0` (every component missing or garbage) is
/// never newer than any running version.
pub proof fn lemma_malformed_never_newer(tag: Seq<char>, current: Seq<char>)
    requires
        semver(tag) == seq![0u32, 0u32, 0u32],
    ensures
        !semver_gt(semver(tag), semver(current)),
{
}

proof fn lemma_span_bound(s: Seq<char>, p: spec_fn(char) -> bool)
    ensures
        span(s, p) <= s.len(),
        rspan(s, p) <= s.len(),
    decreases s.len(),
{
    if s.len() > 0 {
        lemma_span_bound(s.drop_first(), p);
        lemma_span_bound(s.drop_last(), p);
    }
}

proof fn lemma_rspan_after_v(s: Seq<char>)
    ensures
        rspan(seq!['v'] + s, space_pred()) == rspan(s, space_pred()),
    decreases s.len(),
{
    let w = seq!['v'] + s;
    if s.len() > 0 {
        assert(w.last() == s.last());
        assert(w.drop_last() =~= seq!['v'] + s.drop_last());
        lemma_rspan_after_v(s.drop_last());
    } else {
        assert(w.drop_last() =~= Seq::<char>::empty());
        assert(!is_space(w.last()));
    }
}

/// A leading `v` is ignored: `v1.2.3` reads as `1.2.3`. (The text after
/// the `v` must not start with whitespace, which a bare tag would trim.)
pub proof fn lemma_leading_v_ignored(s: Seq<char>)
    requires
        s.len() == 0 || !is_space(s[0]),
    ensures
        semver(seq!['v'] + s) == semver(s),
{
    let w = seq!['v'] + s;
    assert(!is_space(w[0]));
    assert(span(w, space_pred()) == 0);
    assert(trim_start(w) =~= w);
    assert(span(s, space_pred()) == 0);
    assert(trim_start(s) =~= s);
    lemma_rspan_after_v(s);
    lemma_span_bound(s, space_pred());
    let x = trim_end(s);
    assert(trim(w) == trim_end(w));
    assert(w.take(w.len() - rspan(w, space_pred())) =~= seq!['v'] + x);
    assert(trim(w) =~= seq!['v'] + x);
    assert(trim(s) == x);
    let y = seq!['v'] + x;
    assert(y.drop_first() =~= x);
    assert(span(y, v_pred()) == 1 + span(x, v_pred()));
    lemma_span_bound(x, v_pred());
    assert(y.skip(1 + span(x, v_pred()) as int) =~= x.skip(span(x, v_pred()) as int));
    assert(strip_vs(y) =~= strip_vs(x));
}

} // verus!
