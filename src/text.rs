//! Decimal text: rendering unsigned integers and reading them back.
use vstd::prelude::*;
use vstd::string::*;

verus! {

/// The texts held by `v`, in order.
pub open spec fn texts(v: Seq<String>) -> Seq<Seq<char>> {
    v.map_values(|s: String| s@)
}

/// Whether some element of `v` reads `t`.
pub open spec fn has_text(v: Seq<String>, t: Seq<char>) -> bool {
    exists|i: int| 0 <= i < v.len() && (#[trigger] v[i])@ == t
}

/// Whether `v` holds the text `t`.
pub fn contains_text(v: &Vec<String>, t: &String) -> (r: bool)
    ensures
        r == has_text(v@, t@),
        r == texts(v@).contains(t@),
{
    let mut i: usize = 0;
    while i < v.len()
        invariant
            i <= v.len(),
            forall|k: int| 0 <= k < i ==> (#[trigger] v@[k])@ != t@,
        decreases v.len() - i,
    {
        if v[i] == *t {
            assert(texts(v@)[i as int] == t@);
            return true;
        }
        i = i + 1;
    }
    proof {
        if texts(v@).contains(t@) {
            let k = choose|k: int| 0 <= k < texts(v@).len() && texts(v@)[k] == t@;
            assert(v@[k]@ == t@);
        }
    }
    false
}

/// `a` and `b` joined by a `/`, unless `a` is empty or already ends with one.
pub open spec fn join_path_spec(a: Seq<char>, b: Seq<char>) -> Seq<char> {
    if a.len() == 0 || a.last() == '/' {
        a + b
    } else {
        a + "/"@ + b
    }
}

/// Joins a directory and a relative name.
pub fn join_path(a: &str, b: &str) -> (r: String)
    ensures
        r@ == join_path_spec(a@, b@),
{
    let n = a.unicode_len();
    let mut r = String::from_str(a);
    if n > 0 && a.get_char(n - 1) != '/' {
        r.append("/");
    }
    r.append(b);
    r
}

pub open spec fn is_digit(c: char) -> bool {
    '0' <= c && c <= '9'
}

pub open spec fn all_digits(s: Seq<char>) -> bool {
    forall|i: int| 0 <= i < s.len() ==> #[trigger] is_digit(s[i])
}

pub open spec fn digit_value(c: char) -> nat {
    ((c as int) - ('0' as int)) as nat
}

/// The value of a string of decimal digits, most significant first.
pub open spec fn digits_value(s: Seq<char>) -> nat
    decreases s.len(),
{
    if s.len() == 0 {
        0
    } else {
        digits_value(s.drop_last()) * 10 + digit_value(s.last())
    }
}

pub open spec fn pow10(n: nat) -> nat
    decreases n,
{
    if n == 0 {
        1
    } else {
        10 * pow10((n - 1) as nat)
    }
}

pub open spec fn digit_char(d: nat) -> char {
    if d == 0 { '0' }
    else if d == 1 { '1' }
    else if d == 2 { '2' }
    else if d == 3 { '3' }
    else if d == 4 { '4' }
    else if d == 5 { '5' }
    else if d == 6 { '6' }
    else if d == 7 { '7' }
    else if d == 8 { '8' }
    else { '9' }
}

/// The shortest decimal rendering of `n`.
pub open spec fn decimal(n: nat) -> Seq<char>
    decreases n,
{
    if n < 10 {
        seq![digit_char(n)]
    } else {
        decimal(n / 10) + seq![digit_char(n % 10)]
    }
}

fn digit_str(d: u64) -> (r: &'static str)
    requires
        d < 10,
    ensures
        r@ == seq![digit_char(d as nat)],
{
    proof {
        reveal_strlit("0");
        reveal_strlit("1");
        reveal_strlit("2");
        reveal_strlit("3");
        reveal_strlit("4");
        reveal_strlit("5");
        reveal_strlit("6");
        reveal_strlit("7");
        reveal_strlit("8");
        reveal_strlit("9");
    }
    if d == 0 { "0" }
    else if d == 1 { "1" }
    else if d == 2 { "2" }
    else if d == 3 { "3" }
    else if d == 4 { "4" }
    else if d == 5 { "5" }
    else if d == 6 { "6" }
    else if d == 7 { "7" }
    else if d == 8 { "8" }
    else { "9" }
}

/// Renders `n` in decimal.
pub fn decimal_string(n: u64) -> (r: String)
    ensures
        r@ == decimal(n as nat),
    decreases n,
{
    if n < 10 {
        String::from_str(digit_str(n))
    } else {
        let mut s = decimal_string(n / 10);
        s.append(digit_str(n % 10));
        s
    }
}


/// Index of the first `c` in `s`, or the length of `s` when there is none.
pub open spec fn first_index_of(s: Seq<char>, c: char) -> int {
    if exists|k: int| 0 <= k < s.len() && s[k] == c && (forall|j: int| 0 <= j < k ==> s[j] != c) {
        choose|k: int| 0 <= k < s.len() && s[k] == c && (forall|j: int| 0 <= j < k ==> s[j] != c)
    } else {
        s.len() as int
    }
}

/// Index of the first `'.'` in `s`, or its length when there is none.
pub open spec fn dot_index(s: Seq<char>) -> int {
    first_index_of(s, '.')
}

/// Finds the first `c` in `s`.
pub fn find_char(s: &str, c: char) -> (r: usize)
    ensures
        r as int == first_index_of(s@, c),
        r <= s@.len(),
{
    let n = s.unicode_len();
    let mut k: usize = 0;
    while k < n && s.get_char(k) != c
        invariant
            k <= n,
            n == s@.len(),
            forall|j: int| 0 <= j < k ==> s@[j] != c,
        decreases n - k,
    {
        k = k + 1;
    }
    proof {
        if k < n {
            let kk = k as int;
            assert(s@[kk] == c && (forall|j: int| 0 <= j < kk ==> s@[j] != c));
            let m = first_index_of(s@, c);
            assert(0 <= m < s@.len() && s@[m] == c && (forall|j: int| 0 <= j < m ==> s@[j] != c));
            assert(m == kk);
        } else {
            assert(first_index_of(s@, c) == n as int);
        }
    }
    k
}

/// Some(value) of an unsigned decimal integer that fits in a `u64`, else None.
/// A leading `+` is allowed.
pub open spec fn parse_u64_spec(s: Seq<char>) -> Option<u64> {
    let d = if s.len() > 0 && s[0] == '+' { s.drop_first() } else { s };
    if d.len() > 0 && all_digits(d) && digits_value(d) <= u64::MAX {
        Some(digits_value(d) as u64)
    } else {
        None
    }
}

/// The number written `int` or `int.frac` in units of `10^-scale`: digits of
/// `frac` beyond `scale` are dropped, missing ones count as zero.
pub open spec fn scaled_value(s: Seq<char>, scale: nat) -> Option<nat> {
    let k = dot_index(s);
    let int_part = s.subrange(0, k);
    let frac = if k < s.len() { s.subrange(k + 1, s.len() as int) } else { Seq::<char>::empty() };
    if int_part.len() > 0 && all_digits(int_part) && all_digits(frac) {
        let taken: nat = if frac.len() < scale { frac.len() } else { scale };
        Some(digits_value(int_part) * pow10(scale) + digits_value(frac.subrange(0, taken as int))
            * pow10((scale - taken) as nat))
    } else {
        None
    }
}

/// `scaled_value` where the result fits in a `u64`.
pub open spec fn parse_scaled_spec(s: Seq<char>, scale: nat) -> Option<u64> {
    match scaled_value(s, scale) {
        Some(v) => if v <= u64::MAX { Some(v as u64) } else { None },
        None => None,
    }
}

proof fn lemma_prefix_value_le(s: Seq<char>, j: int)
    requires
        0 <= j <= s.len(),
    ensures
        digits_value(s.subrange(0, j)) <= digits_value(s),
    decreases s.len(),
{
    if j == s.len() {
        assert(s.subrange(0, j) =~= s);
    } else {
        lemma_prefix_value_le(s.drop_last(), j);
        assert(s.drop_last().subrange(0, j) =~= s.subrange(0, j));
    }
}

proof fn lemma_extend_value(s: Seq<char>, i: int)
    requires
        0 <= i < s.len(),
    ensures
        digits_value(s.subrange(0, i + 1)) == digits_value(s.subrange(0, i)) * 10 + digit_value(s[i]),
{
    assert(s.subrange(0, i + 1).drop_last() =~= s.subrange(0, i));
}

proof fn lemma_pow10_bound(n: nat)
    ensures
        pow10(n) >= 1,
    decreases n,
{
    if n > 0 {
        lemma_pow10_bound((n - 1) as nat);
    }
}

/// Reads the digits of `s` between `from` and `to`.
fn digits_in(s: &str, from: usize, to: usize) -> (r: Option<u64>)
    requires
        from <= to <= s@.len(),
    ensures
        r == (if all_digits(s@.subrange(from as int, to as int)) && digits_value(
            s@.subrange(from as int, to as int),
        ) <= u64::MAX {
            Some(digits_value(s@.subrange(from as int, to as int)) as u64)
        } else {
            None::<u64>
        }),
{
    let ghost sub = s@.subrange(from as int, to as int);
    let mut acc: u64 = 0;
    let mut i: usize = from;
    while i < to
        invariant
            from <= i <= to <= s@.len(),
            sub == s@.subrange(from as int, to as int),
            all_digits(sub.subrange(0, i - from)),
            acc as nat == digits_value(sub.subrange(0, i - from)),
        decreases to - i,
    {
        let c = s.get_char(i);
        assert(c == sub[i - from]);
        if !(c >= '0' && c <= '9') {
            assert(!is_digit(sub[i - from]));
            return None;
        }
        let d = (c as u32 - '0' as u32) as u64;
        proof {
            lemma_extend_value(sub, i - from);
        }
        if acc > (u64::MAX - d) / 10 {
            proof {
                if all_digits(sub) {
                    lemma_prefix_value_le(sub, i - from + 1);
                }
            }
            return None;
        }
        acc = acc * 10 + d;
        i = i + 1;
        assert(all_digits(sub.subrange(0, i - from))) by {
            assert forall|j: int| 0 <= j < i - from implies #[trigger] is_digit(sub.subrange(0, i - from)[j]) by {
                if j < i - from - 1 {
                    assert(sub.subrange(0, i - from)[j] == sub.subrange(0, i - from - 1)[j]);
                }
            }
        }
    }
    assert(sub.subrange(0, i - from) =~= sub);
    Some(acc)
}

/// Reads the unsigned decimal integer written in `s` between `from` and `to`.
pub fn parse_u64_in(s: &str, from: usize, to: usize) -> (r: Option<u64>)
    requires
        from <= to <= s@.len(),
    ensures
        r == parse_u64_spec(s@.subrange(from as int, to as int)),
{
    if from == to {
        return None;
    }
    let ghost whole = s@.subrange(from as int, to as int);
    let start = if s.get_char(from) == '+' { from + 1 } else { from };
    assert(start == from + 1 ==> whole.drop_first() =~= s@.subrange(start as int, to as int));
    assert(start == from ==> whole =~= s@.subrange(start as int, to as int));
    if start == to {
        return None;
    }
    digits_in(s, start, to)
}

/// Reads an unsigned decimal integer.
pub fn parse_u64(s: &str) -> (r: Option<u64>)
    ensures
        r == parse_u64_spec(s@),
{
    let n = s.unicode_len();
    let r = parse_u64_in(s, 0, n);
    assert(s@.subrange(0, n as int) =~= s@);
    r
}

proof fn lemma_pow10_mono(a: nat, b: nat)
    requires
        a <= b,
    ensures
        pow10(a) <= pow10(b),
    decreases b,
{
    if a < b {
        lemma_pow10_mono(a, (b - 1) as nat);
    }
}

proof fn lemma_pow10_max(n: nat)
    requires
        n <= 18,
    ensures
        pow10(n) <= 1_000_000_000_000_000_000,
{
    lemma_pow10_mono(n, 18);
    reveal_with_fuel(pow10, 19);
}

fn pow10_u64(n: usize) -> (r: u64)
    requires
        n <= 18,
    ensures
        r as nat == pow10(n as nat),
{
    let mut r: u64 = 1;
    let mut i: usize = 0;
    while i < n
        invariant
            i <= n <= 18,
            r as nat == pow10(i as nat),
        decreases n - i,
    {
        proof {
            lemma_pow10_max(i as nat);
        }
        r = r * 10;
        i = i + 1;
    }
    r
}

proof fn lemma_digits_bound(t: Seq<char>)
    requires
        all_digits(t),
    ensures
        digits_value(t) < pow10(t.len()),
    decreases t.len(),
{
    if t.len() > 0 {
        let u = t.drop_last();
        assert(all_digits(u)) by {
            assert forall|j: int| 0 <= j < u.len() implies #[trigger] is_digit(u[j]) by {
                assert(is_digit(t[j]));
            }
        }
        lemma_digits_bound(u);
        assert(is_digit(t[t.len() - 1]));
        let a = digits_value(u);
        let p = pow10(u.len());
        let d = digit_value(t.last());
        assert(d <= 9);
        assert(a * 10 + d < 10 * p) by (nonlinear_arith)
            requires
                a < p,
                d <= 9,
        ;
    }
}

/// Whether every character of `s` between `from` and `to` is a digit.
fn digits_only_in(s: &str, from: usize, to: usize) -> (r: bool)
    requires
        from <= to <= s@.len(),
    ensures
        r == all_digits(s@.subrange(from as int, to as int)),
{
    let mut i: usize = from;
    while i < to
        invariant
            from <= i <= to <= s@.len(),
            forall|j: int| from <= j < i ==> #[trigger] is_digit(s@[j]),
        decreases to - i,
    {
        let c = s.get_char(i);
        if !(c >= '0' && c <= '9') {
            assert(!is_digit(s@.subrange(from as int, to as int)[i - from]));
            return false;
        }
        i = i + 1;
    }
    assert forall|j: int| 0 <= j < to - from implies #[trigger] is_digit(
        s@.subrange(from as int, to as int)[j],
    ) by {
        assert(is_digit(s@[from + j]));
    }
    true
}

/// Reads a decimal number with an optional fraction as a whole number of
/// `10^-scale` units (`"1.5"` at scale 3 is 1500).
pub fn parse_scaled(s: &str, scale: usize) -> (r: Option<u64>)
    requires
        scale <= 18,
    ensures
        r == parse_scaled_spec(s@, scale as nat),
{
    let n = s.unicode_len();
    let k = find_char(s, '.');
    let ghost int_part = s@.subrange(0, k as int);
    let fs: usize = if k < n { k + 1 } else { n };
    let ghost frac = s@.subrange(fs as int, n as int);
    assert(frac =~= (if k < n { s@.subrange(k + 1, s@.len() as int) } else { Seq::<char>::empty() }));
    if k == 0 {
        return None;
    }
    let int_v = match digits_in(s, 0, k) {
        Some(v) => v,
        None => {
            proof {
                if all_digits(int_part) {
                    lemma_pow10_bound(scale as nat);
                    let a = digits_value(int_part);
                    let p = pow10(scale as nat);
                    assert(a * p >= a) by (nonlinear_arith)
                        requires
                            p >= 1,
                    ;
                }
            }
            return None;
        },
    };
    let taken: usize = if n - fs < scale { n - fs } else { scale };
    let ghost head = frac.subrange(0, taken as int);
    assert(head =~= s@.subrange(fs as int, fs + taken));
    let frac_v = match digits_in(s, fs, fs + taken) {
        Some(v) => v,
        None => {
            proof {
                if all_digits(head) {
                    lemma_digits_bound(head);
                    lemma_pow10_max(taken as nat);
                }
                if all_digits(frac) {
                    assert forall|j: int| 0 <= j < head.len() implies #[trigger] is_digit(head[j]) by {
                        assert(is_digit(frac[j]));
                    }
                }
            }
            return None;
        },
    };
    if !digits_only_in(s, fs + taken, n) {
        proof {
            let tail = s@.subrange(fs + taken, n as int);
            let j = choose|j: int| 0 <= j < tail.len() && !is_digit(#[trigger] tail[j]);
            assert(frac[taken + j] == tail[j]);
        }
        return None;
    }
    proof {
        let tail = s@.subrange(fs + taken, n as int);
        assert forall|j: int| 0 <= j < frac.len() implies #[trigger] is_digit(frac[j]) by {
            if j < taken {
                assert(frac[j] == head[j]);
            } else {
                assert(frac[j] == tail[j - taken]);
            }
        }
    }
    assert(int_part.len() > 0 && all_digits(int_part) && all_digits(frac));
    let p1 = pow10_u64(scale);
    let p2 = pow10_u64(scale - taken);
    proof {
        lemma_pow10_max(scale as nat);
        lemma_pow10_max((scale - taken) as nat);
        lemma_digits_bound(head);
        lemma_pow10_max(taken as nat);
    }
    let a = int_v as u128;
    let b = frac_v as u128;
    assert(a * (p1 as u128) <= 18446744073709551615u128 * 1_000_000_000_000_000_000u128) by (nonlinear_arith)
        requires
            a <= 18446744073709551615u128,
            p1 <= 1_000_000_000_000_000_000u64,
    ;
    assert(b * (p2 as u128) <= 1_000_000_000_000_000_000u128 * 1_000_000_000_000_000_000u128) by (nonlinear_arith)
        requires
            b <= 1_000_000_000_000_000_000u128,
            p2 <= 1_000_000_000_000_000_000u64,
    ;
    let total: u128 = a * (p1 as u128) + b * (p2 as u128);
    if total > u64::MAX as u128 {
        None
    } else {
        Some(total as u64)
    }
}

} // verus!
