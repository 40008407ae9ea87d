//! Character-level helpers shared by the document codecs: decimal
//! rendering and scanning, literal matching, and quoted-string scanning.

use vstd::prelude::*;
use vstd::std_specs::iter::IteratorSpec;

verus! {

/// Whether `c` is a decimal digit.
pub open spec fn is_digit_char(c: char) -> bool {
    c == '0' || c == '1' || c == '2' || c == '3' || c == '4' || c == '5' || c == '6' || c == '7'
        || c == '8' || c == '9'
}

/// The numeric value of a digit character (0 for anything else).
pub open spec fn digit_val(c: char) -> nat {
    if c == '1' {
        1
    } else if c == '2' {
        2
    } else if c == '3' {
        3
    } else if c == '4' {
        4
    } else if c == '5' {
        5
    } else if c == '6' {
        6
    } else if c == '7' {
        7
    } else if c == '8' {
        8
    } else if c == '9' {
        9
    } else {
        0
    }
}

/// The digit character for a value below ten.
pub open spec fn digit_char(d: nat) -> char {
    if d == 1 {
        '1'
    } else if d == 2 {
        '2'
    } else if d == 3 {
        '3'
    } else if d == 4 {
        '4'
    } else if d == 5 {
        '5'
    } else if d == 6 {
        '6'
    } else if d == 7 {
        '7'
    } else if d == 8 {
        '8'
    } else if d == 9 {
        '9'
    } else {
        '0'
    }
}

pub proof fn lemma_digit_char_val(d: nat)
    requires
        d < 10,
    ensures
        is_digit_char(digit_char(d)),
        digit_val(digit_char(d)) == d,
{
}

/// Decimal rendering of a natural number, most significant digit first.
pub open spec fn spec_dec(n: nat) -> Seq<char>
    decreases n,
{
    if n < 10 {
        seq![digit_char(n)]
    } else {
        spec_dec(n / 10) + seq![digit_char(n % 10)]
    }
}

pub proof fn lemma_dec_digits(n: nat)
    ensures
        spec_dec(n).len() >= 1,
        forall|k: int| 0 <= k < spec_dec(n).len() ==> is_digit_char(#[trigger] spec_dec(n)[k]),
    decreases n,
{
    if n < 10 {
        lemma_digit_char_val(n);
    } else {
        lemma_dec_digits(n / 10);
        lemma_digit_char_val(n % 10);
    }
}

/// Left-to-right value of a digit sequence on top of an accumulator.
pub open spec fn val_acc(ds: Seq<char>, acc: nat) -> nat
    decreases ds.len(),
{
    if ds.len() == 0 {
        acc
    } else {
        val_acc(ds.drop_first(), acc * 10 + digit_val(ds[0]))
    }
}

pub proof fn lemma_val_acc_append(ds: Seq<char>, d: char, acc: nat)
    ensures
        val_acc(ds.push(d), acc) == val_acc(ds, acc) * 10 + digit_val(d),
    decreases ds.len(),
{
    if ds.len() == 0 {
        assert(ds.push(d)[0] == d);
        assert(ds.push(d).drop_first() =~= Seq::<char>::empty());
        assert(val_acc(ds.push(d), acc) == val_acc(ds.push(d).drop_first(), acc * 10 + digit_val(
            ds.push(d)[0],
        )));
        assert(val_acc(ds.push(d), acc) == acc * 10 + digit_val(d));
    } else {
        assert(ds.push(d)[0] == ds[0]);
        assert(ds.push(d).drop_first() =~= ds.drop_first().push(d));
        lemma_val_acc_append(ds.drop_first(), d, acc * 10 + digit_val(ds[0]));
        assert(val_acc(ds.push(d), acc) == val_acc(ds.drop_first().push(d), acc * 10 + digit_val(
            ds[0],
        )));
    }
}

pub proof fn lemma_val_dec(n: nat)
    ensures
        val_acc(spec_dec(n), 0) == n,
    decreases n,
{
    if n < 10 {
        lemma_digit_char_val(n);
        assert(seq![digit_char(n)][0] == digit_char(n));
        assert(seq![digit_char(n)].drop_first() =~= Seq::<char>::empty());
        assert(val_acc(spec_dec(n), 0) == val_acc(Seq::<char>::empty(), digit_val(digit_char(n))));
    } else {
        lemma_val_dec(n / 10);
        lemma_digit_char_val(n % 10);
        assert(spec_dec(n) =~= spec_dec(n / 10).push(digit_char(n % 10)));
        lemma_val_acc_append(spec_dec(n / 10), digit_char(n % 10), 0);
        vstd::arithmetic::div_mod::lemma_fundamental_div_mod(n as int, 10);
    }
}

pub proof fn lemma_val_acc_lower(ds: Seq<char>, acc: nat)
    ensures
        val_acc(ds, acc) >= acc,
    decreases ds.len(),
{
    if ds.len() > 0 {
        lemma_val_acc_lower(ds.drop_first(), acc * 10 + digit_val(ds[0]));
    }
}

/// Maximal-munch scan of decimal digits starting at `i`, folding them
/// onto `acc`; fails if the running value would exceed `cap`.
pub open spec fn spec_scan_digits(s: Seq<char>, i: int, acc: nat, cap: nat) -> Option<(nat, int)>
    decreases s.len() - i,
{
    if i < 0 || i >= s.len() || !is_digit_char(s[i]) {
        Some((acc, i))
    } else {
        let v = acc * 10 + digit_val(s[i]);
        if v > cap {
            None
        } else {
            spec_scan_digits(s, i + 1, v, cap)
        }
    }
}

/// Scanning a rendered digit block lands exactly past it, with the
/// folded value, provided the block is followed by a non-digit.
pub proof fn lemma_scan_digit_seq(s: Seq<char>, i: int, ds: Seq<char>, acc: nat, cap: nat)
    requires
        0 <= i,
        i + ds.len() <= s.len(),
        forall|k: int| 0 <= k < ds.len() ==> is_digit_char(#[trigger] ds[k]),
        s.subrange(i, i + ds.len()) == ds,
        i + ds.len() == s.len() || !is_digit_char(s[i + ds.len()]),
        val_acc(ds, acc) <= cap,
    ensures
        spec_scan_digits(s, i, acc, cap) == Some((val_acc(ds, acc), i + ds.len())),
    decreases ds.len(),
{
    if ds.len() == 0 {
        if i < s.len() {
            assert(!is_digit_char(s[i]));
        }
    } else {
        assert(s[i] == ds[0]) by {
            assert(s.subrange(i, i + ds.len())[0] == s[i]);
        }
        let acc2 = acc * 10 + digit_val(ds[0]);
        lemma_val_acc_lower(ds.drop_first(), acc2);
        assert(s.subrange(i + 1, i + ds.len()) =~= ds.drop_first()) by {
            assert(forall|k: int|
                0 <= k < ds.len() - 1 ==> s.subrange(i + 1, i + ds.len())[k] == s[i + 1 + k]
                    && #[trigger] ds.drop_first()[k] == s.subrange(i, i + ds.len())[k + 1]);
        }
        lemma_scan_digit_seq(s, i + 1, ds.drop_first(), acc2, cap);
    }
}

/// Combined: scanning the decimal rendering of `n` yields `n`.
pub proof fn lemma_scan_dec(s: Seq<char>, i: int, n: nat, cap: nat)
    requires
        0 <= i,
        i + spec_dec(n).len() <= s.len(),
        s.subrange(i, i + spec_dec(n).len()) == spec_dec(n),
        i + spec_dec(n).len() == s.len() || !is_digit_char(s[i + spec_dec(n).len()]),
        n <= cap,
    ensures
        spec_scan_digits(s, i, 0, cap) == Some((n, i + spec_dec(n).len())),
{
    lemma_dec_digits(n);
    lemma_val_dec(n);
    lemma_scan_digit_seq(s, i, spec_dec(n), 0, cap);
}

/// Exec digit test.
pub fn is_digit(c: char) -> (r: bool)
    ensures
        r == is_digit_char(c),
{
    c == '0' || c == '1' || c == '2' || c == '3' || c == '4' || c == '5' || c == '6' || c == '7'
        || c == '8' || c == '9'
}

/// Exec digit value.
pub fn digit_value(c: char) -> (r: u64)
    ensures
        r as nat == digit_val(c),
        r < 10,
{
    if c == '1' {
        1
    } else if c == '2' {
        2
    } else if c == '3' {
        3
    } else if c == '4' {
        4
    } else if c == '5' {
        5
    } else if c == '6' {
        6
    } else if c == '7' {
        7
    } else if c == '8' {
        8
    } else if c == '9' {
        9
    } else {
        0
    }
}

/// Exec digit character.
pub fn digit_to_char(d: u64) -> (r: char)
    requires
        d < 10,
    ensures
        r == digit_char(d as nat),
{
    if d == 1 {
        '1'
    } else if d == 2 {
        '2'
    } else if d == 3 {
        '3'
    } else if d == 4 {
        '4'
    } else if d == 5 {
        '5'
    } else if d == 6 {
        '6'
    } else if d == 7 {
        '7'
    } else if d == 8 {
        '8'
    } else if d == 9 {
        '9'
    } else {
        '0'
    }
}

/// Appends the decimal rendering of `n` to `out`.
pub fn push_dec(out: &mut Vec<char>, n: u64)
    ensures
        final(out)@ == old(out)@ + spec_dec(n as nat),
    decreases n,
{
    if n < 10 {
        out.push(digit_to_char(n));
    } else {
        push_dec(out, n / 10);
        out.push(digit_to_char(n % 10));
        assert(out@ =~= old(out)@ + spec_dec(n as nat));
    }
}

/// Exec counterpart of [`spec_scan_digits`].
pub fn scan_digits(s: &Vec<char>, i: usize, cap: u64) -> (r: Option<(u64, usize)>)
    requires
        i <= s.len(),
        cap <= 1_000_000_000_000_000_000,
    ensures
        match r {
            Some((v, j)) => spec_scan_digits(s@, i as int, 0, cap as nat) == Some(
                (v as nat, j as int),
            ) && i <= j <= s.len() && v <= cap,
            None => spec_scan_digits(s@, i as int, 0, cap as nat) is None,
        },
{
    let mut acc: u64 = 0;
    let mut j: usize = i;
    loop
        invariant
            i <= j <= s.len(),
            acc <= cap,
            cap <= 1_000_000_000_000_000_000,
            spec_scan_digits(s@, i as int, 0, cap as nat) == spec_scan_digits(
                s@,
                j as int,
                acc as nat,
                cap as nat,
            ),
        decreases s.len() - j,
    {
        if j == s.len() || !is_digit(s[j]) {
            return Some((acc, j));
        }
        let d = digit_value(s[j]);
        let v = acc * 10 + d;
        if v > cap {
            return None;
        }
        acc = v;
        j = j + 1;
    }
}

/// Whether the literal `lit` occurs in `s` at position `i`.
pub open spec fn spec_expect(s: Seq<char>, i: int, lit: Seq<char>) -> Option<int> {
    if 0 <= i && i + lit.len() <= s.len() && s.subrange(i, i + lit.len()) == lit {
        Some(i + lit.len())
    } else {
        None
    }
}

/// Exec literal match at a position.
pub fn expect_lit(s: &Vec<char>, i: usize, lit: &str) -> (r: Option<usize>)
    ensures
        match r {
            Some(j) => spec_expect(s@, i as int, lit@) == Some(j as int) && j == i + lit@.len()
                && j <= s.len(),
            None => spec_expect(s@, i as int, lit@) is None,
        },
{
    let n = lit.unicode_len();
    if i > s.len() || n > s.len() - i {
        return None;
    }
    let mut k: usize = 0;
    while k < n
        invariant
            0 <= k <= n,
            n == lit@.len(),
            i + n <= s.len(),
            forall|m: int| 0 <= m < k ==> s@[i + m] == lit@[m],
        decreases n - k,
    {
        if s[i + k] != lit.get_char(k) {
            proof {
                assert(s@.subrange(i as int, i + n) != lit@) by {
                    assert(s@.subrange(i as int, i + n)[k as int] == s@[i + k]);
                }
            }
            return None;
        }
        k = k + 1;
    }
    proof {
        assert(s@.subrange(i as int, i + n) =~= lit@);
    }
    Some(i + n)
}

/// Appends every character of `lit` to `out`.
pub fn push_lit(out: &mut Vec<char>, lit: &str)
    ensures
        final(out)@ == old(out)@ + lit@,
{
    let n = lit.unicode_len();
    let mut k: usize = 0;
    while k < n
        invariant
            0 <= k <= n,
            n == lit@.len(),
            out@ == old(out)@ + lit@.subrange(0, k as int),
        decreases n - k,
    {
        out.push(lit.get_char(k));
        proof {
            assert(out@ =~= old(out)@ + lit@.subrange(0, k + 1));
        }
        k = k + 1;
    }
    proof {
        assert(lit@.subrange(0, n as int) =~= lit@);
    }
}

/// Scan of a quoted string body starting at `i`: the characters up to
/// the next double quote, and the position just past that quote.
pub open spec fn spec_scan_string(s: Seq<char>, i: int) -> Option<(Seq<char>, int)>
    decreases s.len() - i,
{
    if i < 0 || i >= s.len() {
        None
    } else if s[i] == '"' {
        Some((Seq::empty(), i + 1))
    } else {
        match spec_scan_string(s, i + 1) {
            None => None,
            Some((cs, j)) => Some((seq![s[i]] + cs, j)),
        }
    }
}

/// Scanning a quote-free block followed by a quote yields exactly that
/// block.
pub proof fn lemma_scan_string(s: Seq<char>, i: int, cs: Seq<char>)
    requires
        0 <= i,
        i + cs.len() + 1 <= s.len(),
        forall|k: int| 0 <= k < cs.len() ==> #[trigger] cs[k] != '"',
        s.subrange(i, i + cs.len()) == cs,
        s[i + cs.len()] == '"',
    ensures
        spec_scan_string(s, i) == Some((cs, i + cs.len() + 1)),
    decreases cs.len(),
{
    if cs.len() == 0 {
    } else {
        assert(s[i] == cs[0]) by {
            assert(s.subrange(i, i + cs.len())[0] == s[i]);
        }
        assert(s.subrange(i + 1, i + cs.len()) =~= cs.drop_first()) by {
            assert(forall|k: int|
                0 <= k < cs.len() - 1 ==> s.subrange(i + 1, i + cs.len())[k] == #[trigger] s[i + 1
                    + k] && cs.drop_first()[k] == s.subrange(i, i + cs.len())[k + 1]);
        }
        lemma_scan_string(s, i + 1, cs.drop_first());
        assert(seq![s[i]] + cs.drop_first() =~= cs);
    }
}

proof fn lemma_scan_string_none(s: Seq<char>, i: int)
    requires
        0 <= i <= s.len(),
        forall|k: int| i <= k < s.len() ==> #[trigger] s[k] != '"',
    ensures
        spec_scan_string(s, i) is None,
    decreases s.len() - i,
{
    if i < s.len() {
        lemma_scan_string_none(s, i + 1);
    }
}

/// Copies `s[i..j]` into a fresh vector.
pub fn copy_range(s: &Vec<char>, i: usize, j: usize) -> (r: Vec<char>)
    requires
        i <= j <= s.len(),
    ensures
        r@ == s@.subrange(i as int, j as int),
{
    let mut out: Vec<char> = Vec::new();
    let mut k: usize = i;
    while k < j
        invariant
            i <= k <= j <= s.len(),
            out@ == s@.subrange(i as int, k as int),
        decreases j - k,
    {
        out.push(s[k]);
        proof {
            assert(out@ =~= s@.subrange(i as int, k + 1));
        }
        k = k + 1;
    }
    out
}

/// Exec counterpart of [`spec_scan_string`].
pub fn scan_string(s: &Vec<char>, i: usize) -> (r: Option<(Vec<char>, usize)>)
    requires
        i <= s.len(),
    ensures
        match r {
            Some((cs, j)) => spec_scan_string(s@, i as int) == Some((cs@, j as int)) && i < j
                <= s.len() && (forall|k: int| 0 <= k < cs@.len() ==> #[trigger] cs@[k] != '"'),
            None => spec_scan_string(s@, i as int) is None,
        },
{
    let mut j: usize = i;
    while j < s.len() && s[j] != '"'
        invariant
            i <= j <= s.len(),
            forall|k: int| i <= k < j ==> #[trigger] s@[k] != '"',
        decreases s.len() - j,
    {
        j = j + 1;
    }
    if j == s.len() {
        proof {
            lemma_scan_string_none(s@, i as int);
        }
        return None;
    }
    let body = copy_range(s, i, j);
    proof {
        lemma_scan_string(s@, i as int, s@.subrange(i as int, j as int));
        assert(forall|k: int|
            0 <= k < body@.len() ==> #[trigger] body@[k] == s@[i + k] && s@[i + k] != '"');
    }
    Some((body, j + 1))
}

/// The characters of a string, as a vector.
pub fn chars_vec(s: &str) -> (r: Vec<char>)
    ensures
        r@ == s@,
{
    broadcast use vstd::string::axiom_spec_iter, vstd::string::next_postcondition;

    let mut it = s.chars();
    let mut out: Vec<char> = Vec::new();
    loop
        invariant
            IteratorSpec::obeys_prophetic_iter_laws(&it),
            IteratorSpec::decrease(&it) is Some,
            out@ + IteratorSpec::remaining(&it) == s@,
        decreases IteratorSpec::decrease(&it)->0,
    {
        match it.next() {
            Some(c) => {
                out.push(c);
            },
            None => {
                proof {
                    assert(out@ =~= s@);
                }
                return out;
            },
        }
    }
}

/// Relies on `String`'s `FromIterator` impl: collecting characters
/// yields the string of exactly those characters.
#[verifier::external_body]
pub(crate) fn string_of(v: Vec<char>) -> (r: String)
    ensures
        r@ == v@,
{
    v.into_iter().collect()
}

/// Appends every character of `v` to `out`.
pub fn push_chars(out: &mut Vec<char>, v: &Vec<char>)
    ensures
        final(out)@ == old(out)@ + v@,
{
    let mut k: usize = 0;
    while k < v.len()
        invariant
            k <= v.len(),
            out@ == old(out)@ + v@.subrange(0, k as int),
        decreases v.len() - k,
    {
        out.push(v[k]);
        proof {
            assert(out@ =~= old(out)@ + v@.subrange(0, k + 1));
        }
        k = k + 1;
    }
    proof {
        assert(v@.subrange(0, v@.len() as int) =~= v@);
    }
}

/// Splitting fact: when a range of `s` equals a concatenation, each
/// part occupies its own subrange.
pub proof fn lemma_split_range(s: Seq<char>, i: int, x: Seq<char>, y: Seq<char>)
    requires
        0 <= i,
        i + x.len() + y.len() <= s.len(),
        s.subrange(i, i + x.len() + y.len()) == x + y,
    ensures
        s.subrange(i, i + x.len()) == x,
        s.subrange(i + x.len(), i + x.len() + y.len()) == y,
{
    assert(s.subrange(i, i + x.len()) =~= x) by {
        assert(forall|k: int|
            0 <= k < x.len() ==> s.subrange(i, i + x.len() + y.len())[k] == #[trigger] s[i + k]);
    }
    assert forall|k: int| 0 <= k < y.len() implies s.subrange(
        i + x.len(),
        i + x.len() + y.len(),
    )[k] == y[k] by {
        assert(s.subrange(i, i + x.len() + y.len())[x.len() + k] == s[i + x.len() + k]);
        assert((x + y)[x.len() + k] == y[k]);
    }
    assert(s.subrange(i + x.len(), i + x.len() + y.len()) =~= y);
}

/// `val_acc` over a concatenation folds the first block into the
/// accumulator for the second.
pub proof fn lemma_val_acc_concat(a: Seq<char>, b: Seq<char>, acc: nat)
    ensures
        val_acc(a + b, acc) == val_acc(b, val_acc(a, acc)),
    decreases a.len(),
{
    if a.len() == 0 {
        assert(a + b =~= b);
    } else {
        assert((a + b)[0] == a[0]);
        assert((a + b).drop_first() =~= a.drop_first() + b);
        lemma_val_acc_concat(a.drop_first(), b, acc * 10 + digit_val(a[0]));
    }
}

/// Whitespace as trimmed from message text.
pub open spec fn is_ws_char(c: char) -> bool {
    c == ' ' || c == '\t' || c == '\n' || c == '\r'
}

pub open spec fn trim_start_s(s: Seq<char>) -> Seq<char>
    decreases s.len(),
{
    if s.len() > 0 && is_ws_char(s[0]) {
        trim_start_s(s.drop_first())
    } else {
        s
    }
}

pub open spec fn trim_end_s(s: Seq<char>) -> Seq<char>
    decreases s.len(),
{
    if s.len() > 0 && is_ws_char(s.last()) {
        trim_end_s(s.drop_last())
    } else {
        s
    }
}

/// The text with leading and trailing whitespace removed.
pub open spec fn spec_trim(s: Seq<char>) -> Seq<char> {
    trim_end_s(trim_start_s(s))
}

proof fn lemma_trim_start_at(s: Seq<char>, a: int)
    requires
        0 <= a <= s.len(),
        forall|m: int| 0 <= m < a ==> is_ws_char(#[trigger] s[m]),
        a < s.len() ==> !is_ws_char(s[a]),
    ensures
        trim_start_s(s) == s.subrange(a, s.len() as int),
    decreases a,
{
    if a == 0 {
        assert(s.subrange(0, s.len() as int) =~= s);
    } else {
        assert(is_ws_char(s[0]));
        let t = s.drop_first();
        assert(forall|m: int| 0 <= m < a - 1 ==> #[trigger] t[m] == s[m + 1]);
        lemma_trim_start_at(t, a - 1);
        assert(t.subrange(a - 1, t.len() as int) =~= s.subrange(a, s.len() as int));
    }
}

proof fn lemma_trim_end_at(s: Seq<char>, b: int)
    requires
        0 <= b <= s.len(),
        forall|m: int| b <= m < s.len() ==> is_ws_char(#[trigger] s[m]),
        b > 0 ==> !is_ws_char(s[b - 1]),
    ensures
        trim_end_s(s) == s.subrange(0, b),
    decreases s.len(),
{
    if s.len() == 0 {
        assert(s.subrange(0, 0) =~= s);
    } else if b == s.len() {
        assert(!is_ws_char(s.last()));
        assert(s.subrange(0, b) =~= s);
    } else {
        assert(is_ws_char(s.last()));
        let t = s.drop_last();
        assert(forall|m: int| b <= m < t.len() ==> #[trigger] t[m] == s[m]);
        assert(b > 0 ==> t[b - 1] == s[b - 1]);
        lemma_trim_end_at(t, b);
        assert(t.subrange(0, b) =~= s.subrange(0, b));
    }
}

/// Exec whitespace test.
pub fn is_ws(c: char) -> (r: bool)
    ensures
        r == is_ws_char(c),
{
    c == ' ' || c == '\t' || c == '\n' || c == '\r'
}

/// Copies `s` without its leading and trailing whitespace.
pub fn trim_chars(s: &Vec<char>) -> (r: Vec<char>)
    ensures
        r@ == spec_trim(s@),
{
    let mut a: usize = 0;
    while a < s.len() && is_ws(s[a])
        invariant
            a <= s.len(),
            forall|m: int| 0 <= m < a ==> is_ws_char(#[trigger] s@[m]),
        decreases s.len() - a,
    {
        a = a + 1;
    }
    proof {
        lemma_trim_start_at(s@, a as int);
    }
    let mut b: usize = s.len();
    while b > a && is_ws(s[b - 1])
        invariant
            a <= b <= s.len(),
            forall|m: int| b <= m < s.len() ==> is_ws_char(#[trigger] s@[m]),
        decreases b,
    {
        b = b - 1;
    }
    let r = copy_range(s, a, b);
    proof {
        let t = trim_start_s(s@);
        assert(t == s@.subrange(a as int, s@.len() as int));
        assert(forall|m: int|
            b - a <= m < t.len() ==> is_ws_char(#[trigger] t[m]) && t[m] == s@[m + a]);
        if b > a {
            assert(t[b - a - 1] == s@[b - 1]);
        }
        lemma_trim_end_at(t, b - a);
        assert(t.subrange(0, b - a) =~= s@.subrange(a as int, b as int));
    }
    r
}

/// Decimal rendering of a signed number.
pub open spec fn spec_dec_int(n: int) -> Seq<char> {
    if n < 0 {
        seq!['-'] + spec_dec((-n) as nat)
    } else {
        spec_dec(n as nat)
    }
}

/// Appends the decimal rendering of a signed 32-bit number.
pub fn push_dec_i32(out: &mut Vec<char>, n: i32)
    ensures
        final(out)@ == old(out)@ + spec_dec_int(n as int),
{
    if n < 0 {
        out.push('-');
        let a: u64 = (-(n as i64)) as u64;
        push_dec(out, a);
        proof {
            assert(out@ =~= old(out)@ + spec_dec_int(n as int));
        }
    } else {
        push_dec(out, n as u64);
    }
}

} // verus!
