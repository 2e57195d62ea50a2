//! Recognition of decimal floating-point literals.
//!
//! A lexeme is a number exactly when it is accepted by the grammar that
//! Rust's `f64::from_str` documents:
//!
//! ```text
//! Float  ::= Sign? ( 'inf' | 'infinity' | 'nan' | Number )
//! Number ::= ( Digit+ | Digit+ '.' Digit* | Digit* '.' Digit+ ) Exp?
//! Exp    ::= 'e' Sign? Digit+
//! Sign   ::= [+-]
//! Digit  ::= [0-9]
//! ```
//!
//! where letters are compared after ASCII lowercasing.
use vstd::prelude::*;
use vstd::string::StringSliceAdditionalSpecFns;

verus! {

pub const PLUS: u8 = 43;

pub const MINUS: u8 = 45;

pub const DOT: u8 = 46;

pub const LOWER_E: u8 = 101;

pub open spec fn is_digit(b: u8) -> bool {
    48 <= b <= 57
}

pub open spec fn is_sign(b: u8) -> bool {
    b == PLUS || b == MINUS
}

pub open spec fn ascii_lower(b: u8) -> u8 {
    if 65 <= b <= 90 {
        (b + 32) as u8
    } else {
        b
    }
}

pub open spec fn lowercase(s: Seq<u8>) -> Seq<u8> {
    s.map_values(|b: u8| ascii_lower(b))
}

pub open spec fn all_digits(s: Seq<u8>) -> bool {
    forall|i: int| 0 <= i < s.len() ==> #[trigger] is_digit(s[i])
}

/// `Digit+ | Digit+ '.' Digit* | Digit* '.' Digit+`
pub open spec fn is_mantissa(m: Seq<u8>) -> bool {
    ||| m.len() > 0 && all_digits(m)
    ||| exists|k: int|
        0 <= k < m.len() && #[trigger] m[k] == DOT && all_digits(m.take(k)) && all_digits(
            m.skip(k + 1),
        ) && (k > 0 || k + 1 < m.len())
}

/// `'e' Sign? Digit+`
pub open spec fn is_exponent(e: Seq<u8>) -> bool {
    &&& e.len() > 0
    &&& e[0] == LOWER_E
    &&& {
        ||| e.len() > 1 && all_digits(e.skip(1))
        ||| e.len() > 2 && is_sign(e[1]) && all_digits(e.skip(2))
    }
}

/// `Mantissa Exp?`
pub open spec fn is_number(n: Seq<u8>) -> bool {
    ||| is_mantissa(n)
    ||| exists|k: int| 0 <= k < n.len() && is_mantissa(n.take(k)) && #[trigger] is_exponent(n.skip(k))
}

/// The lowercased lexeme with an optional leading sign removed.
pub open spec fn unsigned_body(t: Seq<u8>) -> Seq<u8> {
    let l = lowercase(t);
    if l.len() > 0 && is_sign(l[0]) {
        l.skip(1)
    } else {
        l
    }
}

/// `t` is accepted by the documented `f64` grammar.
pub open spec fn is_float_literal(t: Seq<u8>) -> bool {
    let b = unsigned_body(t);
    ||| b == "inf".spec_bytes()
    ||| b == "infinity".spec_bytes()
    ||| b == "nan".spec_bytes()
    ||| is_number(b)
}

/// Index of the first non-digit at or after `i`, or the length.
pub open spec fn digits_end(s: Seq<u8>, i: int) -> int
    decreases s.len() - i,
{
    if i >= s.len() {
        s.len() as int
    } else if is_digit(s[i]) {
        digits_end(s, i + 1)
    } else {
        i
    }
}

proof fn lemma_digits_end(s: Seq<u8>, i: int)
    requires
        0 <= i <= s.len(),
    ensures
        i <= digits_end(s, i) <= s.len(),
        forall|k: int| i <= k < digits_end(s, i) ==> is_digit(#[trigger] s[k]),
        digits_end(s, i) == s.len() || !is_digit(s[digits_end(s, i)]),
    decreases s.len() - i,
{
    if i < s.len() && is_digit(s[i]) {
        lemma_digits_end(s, i + 1);
    }
}

proof fn lemma_digits_end_unique(s: Seq<u8>, i: int, j: int)
    requires
        0 <= i <= j <= s.len(),
        forall|k: int| i <= k < j ==> is_digit(#[trigger] s[k]),
        j == s.len() || !is_digit(s[j]),
    ensures
        digits_end(s, i) == j,
    decreases j - i,
{
    if i < j {
        lemma_digits_end_unique(s, i + 1, j);
    }
}

/// The mantissa grammar read as a left-to-right scan: digits, then an
/// optional dot followed by digits, reaching the end of `m`.
proof fn lemma_mantissa_scan(m: Seq<u8>)
    ensures
        is_mantissa(m) <==> {
            let a = digits_end(m, 0);
            ||| a == m.len() && m.len() > 0
            ||| a < m.len() && m[a] == DOT && digits_end(m, a + 1) == m.len() && (a > 0 || a + 1
                < m.len())
        },
{
    lemma_digits_end(m, 0);
    let a = digits_end(m, 0);
    if a < m.len() {
        lemma_digits_end(m, a + 1);
    }
    if m.len() > 0 && all_digits(m) {
        lemma_digits_end_unique(m, 0, m.len() as int);
    }
    if exists|k: int|
        0 <= k < m.len() && #[trigger] m[k] == DOT && all_digits(m.take(k)) && all_digits(
            m.skip(k + 1),
        ) && (k > 0 || k + 1 < m.len()) {
        let k = choose|k: int|
            0 <= k < m.len() && #[trigger] m[k] == DOT && all_digits(m.take(k)) && all_digits(
                m.skip(k + 1),
            ) && (k > 0 || k + 1 < m.len());
        assert forall|j: int| 0 <= j < k implies is_digit(#[trigger] m[j]) by {
            assert(m.take(k)[j] == m[j]);
        }
        lemma_digits_end_unique(m, 0, k);
        assert forall|j: int| k + 1 <= j < m.len() implies is_digit(#[trigger] m[j]) by {
            assert(m.skip(k + 1)[j - k - 1] == m[j]);
        }
        lemma_digits_end_unique(m, k + 1, m.len() as int);
    }
    if a == m.len() && m.len() > 0 {
        assert(all_digits(m));
    }
    if a < m.len() && m[a] == DOT && digits_end(m, a + 1) == m.len() && (a > 0 || a + 1
        < m.len()) {
        assert(all_digits(m.take(a)));
        assert(all_digits(m.skip(a + 1)));
        assert(m[a] == DOT);
    }
}

/// Where a mantissa-shaped prefix of `n` ends when it is read left to right.
pub open spec fn mantissa_scan_end(n: Seq<u8>) -> int {
    let a = digits_end(n, 0);
    if a < n.len() && n[a] == DOT {
        digits_end(n, a + 1)
    } else {
        a
    }
}

proof fn lemma_mantissa_prefix(n: Seq<u8>, k: int)
    requires
        0 <= k <= n.len(),
        is_mantissa(n.take(k)),
        k == n.len() || !is_digit(n[k]) && n[k] != DOT,
    ensures
        mantissa_scan_end(n) == k,
{
    let m = n.take(k);
    lemma_mantissa_scan(m);
    lemma_digits_end(m, 0);
    let a = digits_end(m, 0);
    assert forall|j: int| 0 <= j < a implies is_digit(#[trigger] n[j]) by {
        assert(m[j] == n[j]);
    }
    if a == m.len() {
        lemma_digits_end_unique(n, 0, k);
    } else {
        assert(m[a] == n[a]);
        lemma_digits_end_unique(n, 0, a);
        lemma_digits_end(m, a + 1);
        assert forall|j: int| a + 1 <= j < k implies is_digit(#[trigger] n[j]) by {
            assert(m[j] == n[j]);
        }
        lemma_digits_end_unique(n, a + 1, k);
    }
}

proof fn lemma_exponent_no_mantissa_char(n: Seq<u8>, k: int)
    requires
        0 <= k < n.len(),
        is_exponent(n.skip(k)),
    ensures
        n[k] == LOWER_E,
{
    assert(n.skip(k)[0] == n[k]);
}

/// `is_number` read as a left-to-right scan.
proof fn lemma_number_scan(n: Seq<u8>)
    ensures
        is_number(n) <==> {
            let c = mantissa_scan_end(n);
            &&& is_mantissa(n.take(c))
            &&& (c == n.len() || is_exponent(n.skip(c)))
        },
{
    let c = mantissa_scan_end(n);
    lemma_digits_end(n, 0);
    let a = digits_end(n, 0);
    if a < n.len() && n[a] == DOT {
        lemma_digits_end(n, a + 1);
    }
    assert(0 <= c <= n.len());
    if is_mantissa(n) {
        assert(n.take(n.len() as int) =~= n);
        lemma_mantissa_prefix(n, n.len() as int);
    }
    if exists|k: int| 0 <= k < n.len() && is_mantissa(n.take(k)) && #[trigger] is_exponent(n.skip(k)) {
        let k = choose|k: int|
            0 <= k < n.len() && is_mantissa(n.take(k)) && #[trigger] is_exponent(n.skip(k));
        lemma_exponent_no_mantissa_char(n, k);
        lemma_mantissa_prefix(n, k);
    }
    if is_mantissa(n.take(c)) && c == n.len() {
        assert(n.take(c) =~= n);
    }
    if is_mantissa(n.take(c)) && c < n.len() && is_exponent(n.skip(c)) {
        assert(0 <= c < n.len() && is_mantissa(n.take(c)) && is_exponent(n.skip(c)));
    }
}

proof fn lemma_digits_end_skip(s: Seq<u8>, start: int, i: int)
    requires
        0 <= start <= s.len(),
        0 <= i <= s.len() - start,
    ensures
        digits_end(s.skip(start), i) == digits_end(s, start + i) - start,
    decreases s.len() - start - i,
{
    if i < s.len() - start {
        assert(s.skip(start)[i] == s[start + i]);
        lemma_digits_end_skip(s, start, i + 1);
    }
}

/// The mantissa found by the left-to-right scan is well formed exactly when
/// it has a digit on either side of its dot.
proof fn lemma_mantissa_at_scan_end(n: Seq<u8>)
    ensures
        ({
            let a = digits_end(n, 0);
            let c = mantissa_scan_end(n);
            is_mantissa(n.take(c)) <==> (a > 0 || (c > a && c > a + 1))
        }),
{
    lemma_digits_end(n, 0);
    let a = digits_end(n, 0);
    let c = mantissa_scan_end(n);
    if a < n.len() && n[a] == DOT {
        lemma_digits_end(n, a + 1);
    }
    let m = n.take(c);
    lemma_mantissa_scan(m);
    assert forall|k: int| 0 <= k < a implies is_digit(#[trigger] m[k]) by {
        assert(m[k] == n[k]);
    }
    if a < m.len() {
        assert(m[a] == n[a]);
    }
    lemma_digits_end_unique(m, 0, a);
    if c > a {
        assert forall|k: int| a + 1 <= k < c implies is_digit(#[trigger] m[k]) by {
            assert(m[k] == n[k]);
        }
        lemma_digits_end_unique(m, a + 1, c);
    }
}

/// The exponent grammar read as a scan.
proof fn lemma_exponent_scan(x: Seq<u8>)
    ensures
        is_exponent(x) <==> {
            &&& x.len() > 0
            &&& x[0] == LOWER_E
            &&& {
                let d: int = if x.len() > 1 && is_sign(x[1]) {
                    2
                } else {
                    1
                };
                x.len() > d && digits_end(x, d) == x.len()
            }
        },
{
    if x.len() > 0 && x[0] == LOWER_E {
        let d: int = if x.len() > 1 && is_sign(x[1]) {
            2
        } else {
            1
        };
        if x.len() > d {
            lemma_digits_end(x, d);
            if digits_end(x, d) == x.len() {
                assert forall|k: int| 0 <= k < x.skip(d).len() implies is_digit(
                    #[trigger] x.skip(d)[k],
                ) by {
                    assert(x.skip(d)[k] == x[k + d]);
                }
            }
        }
        if x.len() > 1 && all_digits(x.skip(1)) {
            assert(x.skip(1)[0] == x[1]);
            assert forall|k: int| 1 <= k < x.len() implies is_digit(#[trigger] x[k]) by {
                assert(x.skip(1)[k - 1] == x[k]);
            }
            lemma_digits_end_unique(x, 1, x.len() as int);
        }
        if x.len() > 2 && is_sign(x[1]) && all_digits(x.skip(2)) {
            assert forall|k: int| 2 <= k < x.len() implies is_digit(#[trigger] x[k]) by {
                assert(x.skip(2)[k - 2] == x[k]);
            }
            lemma_digits_end_unique(x, 2, x.len() as int);
        }
    }
}

/// Whether `t` is a decimal floating-point literal (see the module docs).
pub fn is_float_literal_bytes(t: &[u8]) -> (r: bool)
    ensures
        r == is_float_literal(t@),
{
    // Lowercase copy of the lexeme
    let mut l: Vec<u8> = Vec::new();
    let mut i: usize = 0;
    while i < t.len()
        invariant
            i <= t@.len(),
            l@ =~= lowercase(t@).take(i as int),
        decreases t@.len() - i,
    {
        let b = t[i];
        let lb = if 65 <= b && b <= 90 {
            b + 32
        } else {
            b
        };
        l.push(lb);
        i += 1;
    }
    assert(l@ =~= lowercase(t@));
    let start: usize = if l.len() > 0 && (l[0] == PLUS || l[0] == MINUS) {
        1
    } else {
        0
    };
    assert(unsigned_body(t@) =~= l@.skip(start as int));
    if suffix_equals(&l, start, "inf".as_bytes()) || suffix_equals(&l, start, "infinity".as_bytes())
        || suffix_equals(&l, start, "nan".as_bytes()) {
        return true;
    }
    is_number_suffix(&l, start)
}

/// Whether `l` from index `start` on is a `Number` of the grammar.
fn is_number_suffix(l: &Vec<u8>, start: usize) -> (r: bool)
    requires
        start <= l@.len(),
    ensures
        r == is_number(l@.skip(start as int)),
{
    let ghost body = l@.skip(start as int);
    let n = l.len();
    proof {
        lemma_number_scan(body);
        lemma_mantissa_at_scan_end(body);
        lemma_digits_end_skip(l@, start as int, 0);
    }
    let a = scan_digits(l, start);
    let mut c = a;
    if a < n && l[a] == DOT {
        assert(body[a - start] == l@[a as int]);
        c = scan_digits(l, a + 1);
        proof {
            lemma_digits_end_skip(l@, start as int, a - start + 1);
        }
    } else {
        if a < n {
            assert(body[a - start] == l@[a as int]);
        }
    }
    assert(c - start == mantissa_scan_end(body));
    let mantissa_ok = a > start || (c > a && c > a + 1);
    if !mantissa_ok {
        return false;
    }
    if c == n {
        return true;
    }
    let ghost x = l@.skip(c as int);
    assert(body.skip(c - start) =~= x);
    proof {
        lemma_exponent_scan(x);
    }
    assert(x[0] == l@[c as int]);
    if l[c] != LOWER_E {
        return false;
    }
    let mut d = c + 1;
    if d < n && (l[d] == PLUS || l[d] == MINUS) {
        d = d + 1;
    }
    if d < n {
        assert(x[1] == l@[c + 1]);
    }
    proof {
        lemma_digits_end(l@, c as int);
        lemma_digits_end_skip(l@, c as int, d - c);
    }
    if c + 1 < n {
        assert(x[1] == l@[c + 1]);
    }
    let e = scan_digits(l, d);
    e == n && e > d
}

/// Index of the first non-digit of `s` at or after `i`, or its length.
fn scan_digits(s: &Vec<u8>, i: usize) -> (r: usize)
    requires
        i <= s@.len(),
    ensures
        r == digits_end(s@, i as int),
        i <= r <= s@.len(),
{
    let mut j = i;
    while j < s.len() && 48 <= s[j] && s[j] <= 57
        invariant
            i <= j <= s@.len(),
            digits_end(s@, j as int) == digits_end(s@, i as int),
        decreases s@.len() - j,
    {
        j += 1;
    }
    j
}

/// Whether `s` from index `start` on equals `word`.
fn suffix_equals(s: &Vec<u8>, start: usize, word: &[u8]) -> (r: bool)
    requires
        start <= s@.len(),
    ensures
        r == (s@.skip(start as int) == word@),
{
    if s.len() - start != word.len() {
        assert(s@.skip(start as int).len() != word@.len());
        return false;
    }
    assert(start + word@.len() == s@.len());
    let n = s.len();
    let mut i: usize = 0;
    while i < word.len()
        invariant
            i <= word@.len(),
            n == s@.len(),
            start + word@.len() == s@.len(),
            forall|k: int| 0 <= k < i ==> s@[start + k] == word@[k],
        decreases word@.len() - i,
    {
        if s[start + i] != word[i] {
            assert(s@.skip(start as int)[i as int] != word@[i as int]);
            return false;
        }
        i += 1;
    }
    assert(s@.skip(start as int) =~= word@);
    true
}

} // verus!
