use vstd::prelude::*;

verus! {

// ---------------------------------------------------------------------------
// Decimal numerals
//
// The server sends durations, percentages and timestamps as decimal numbers.
// The client stores them as integers at a fixed scale (milliseconds, tenths of
// a percent, whole seconds), so it needs to read a decimal numeral `-?d+(.d+)?`
// into an integer scaled by a power of ten, truncating toward zero.  It also
// prints integers back as decimal text for the report.
// ---------------------------------------------------------------------------

pub open spec fn is_digit(c: char) -> bool {
    48 <= c as u32 && c as u32 <= 57
}

pub open spec fn digit_val(c: char) -> int {
    c as u32 - 48
}

pub open spec fn all_digits(s: Seq<char>) -> bool {
    forall|i: int| 0 <= i < s.len() ==> is_digit(#[trigger] s[i])
}

/// The value of a string of decimal digits, most significant first.
pub open spec fn digits_val(s: Seq<char>) -> int
    decreases s.len(),
{
    if s.len() == 0 {
        0
    } else {
        digits_val(s.drop_last()) * 10 + digit_val(s.last())
    }
}

pub open spec fn pow10(k: nat) -> int
    decreases k,
{
    if k == 0 {
        1
    } else {
        10 * pow10((k - 1) as nat)
    }
}

/// The first position of `c` in `s` at or after `i`.
pub open spec fn find_char(s: Seq<char>, c: char, i: int) -> Option<int>
    decreases s.len() - i,
{
    if i < 0 || i >= s.len() {
        None
    } else if s[i] == c {
        Some(i)
    } else {
        find_char(s, c, i + 1)
    }
}

/// The first `k` fractional digits read as an integer, padded with zeros when
/// fewer were written.
pub open spec fn scaled_frac(fp: Seq<char>, k: nat) -> int {
    let kept = if k <= fp.len() { k as int } else { fp.len() as int };
    digits_val(fp.subrange(0, kept)) * pow10((k - kept) as nat)
}

/// The value of the decimal numeral `s`, scaled by `10^k` and truncated
/// toward zero; `None` unless `s` matches `-?d+(.d+)?`.
pub open spec fn numeral_value(s: Seq<char>, k: nat) -> Option<int> {
    let neg = s.len() > 0 && s[0] == '-';
    let body = if neg {
        s.subrange(1, s.len() as int)
    } else {
        s
    };
    match find_char(body, '.', 0) {
        Some(d) => {
            let ip = body.subrange(0, d);
            let fp = body.subrange(d + 1, body.len() as int);
            if ip.len() >= 1 && fp.len() >= 1 && all_digits(ip) && all_digits(fp) {
                let m = digits_val(ip) * pow10(k) + scaled_frac(fp, k);
                Some(
                    if neg {
                        -m
                    } else {
                        m
                    },
                )
            } else {
                None
            }
        },
        None => {
            if body.len() >= 1 && all_digits(body) {
                let m = digits_val(body) * pow10(k);
                Some(
                    if neg {
                        -m
                    } else {
                        m
                    },
                )
            } else {
                None
            }
        },
    }
}

/// What `parse_decimal` returns: the scaled value when the numeral is well
/// formed and the magnitude fits an `i64`, and `None` otherwise.
pub open spec fn parse_decimal_spec(s: Seq<char>, k: nat) -> Option<i64> {
    match numeral_value(s, k) {
        Some(v) => if -0x7fff_ffff_ffff_ffff <= v <= 0x7fff_ffff_ffff_ffff {
            Some(v as i64)
        } else {
            None
        },
        None => None,
    }
}

proof fn lemma_find_char_at(s: Seq<char>, c: char, i: int, p: int)
    requires
        0 <= i <= p < s.len(),
        s[p] == c,
        forall|m: int| i <= m < p ==> s[m] != c,
    ensures
        find_char(s, c, i) == Some(p),
    decreases p - i,
{
    if i < p {
        lemma_find_char_at(s, c, i + 1, p);
    }
}

proof fn lemma_find_char_none(s: Seq<char>, c: char, i: int)
    requires
        0 <= i <= s.len(),
        forall|m: int| i <= m < s.len() ==> s[m] != c,
    ensures
        find_char(s, c, i) is None,
    decreases s.len() - i,
{
    if i < s.len() {
        lemma_find_char_none(s, c, i + 1);
    }
}

proof fn lemma_digits_val_nonneg(s: Seq<char>)
    requires
        all_digits(s),
    ensures
        digits_val(s) >= 0,
    decreases s.len(),
{
    if s.len() > 0 {
        assert(all_digits(s.drop_last()));
        lemma_digits_val_nonneg(s.drop_last());
    }
}

/// A digit string is worth at least any of its prefixes.
proof fn lemma_digits_val_prefix(s: Seq<char>, j: int)
    requires
        0 <= j <= s.len(),
        all_digits(s),
    ensures
        digits_val(s.subrange(0, j)) <= digits_val(s),
    decreases s.len() - j,
{
    if j == s.len() {
        assert(s.subrange(0, j) =~= s);
    } else {
        let pre = s.subrange(0, j);
        let ext = s.subrange(0, j + 1);
        assert(ext.drop_last() =~= pre);
        assert(all_digits(pre));
        lemma_digits_val_nonneg(pre);
        assert(digits_val(ext) == digits_val(pre) * 10 + digit_val(s[j]));
        lemma_digits_val_prefix(s, j + 1);
    }
}

proof fn lemma_digits_val_bound(s: Seq<char>)
    requires
        all_digits(s),
    ensures
        digits_val(s) < pow10(s.len()),
    decreases s.len(),
{
    if s.len() == 0 {
    } else {
        assert(all_digits(s.drop_last()));
        lemma_digits_val_bound(s.drop_last());
    }
}

proof fn lemma_pow10_pos(k: nat)
    ensures
        pow10(k) >= 1,
    decreases k,
{
    if k > 0 {
        lemma_pow10_pos((k - 1) as nat);
    }
}

/// Scaling a nonnegative value by a power of ten does not shrink it.
proof fn lemma_scale_grows(x: int, k: nat)
    requires
        x >= 0,
    ensures
        x * pow10(k) >= x,
        x * pow10(k) >= 0,
    decreases k,
{
    lemma_pow10_pos(k);
    assert(x * pow10(k) >= x && x * pow10(k) >= 0) by (nonlinear_arith)
        requires
            x >= 0,
            pow10(k) >= 1,
    ;
}

/// The first position of `c` in `s` at or after `from`.
fn find_from(s: &str, from: usize, c: char) -> (r: usize)
    requires
        from <= s@.len(),
    ensures
        from <= r <= s@.len(),
        forall|m: int| from <= m < r ==> s@[m] != c,
        r < s@.len() ==> s@[r as int] == c,
{
    let n = s.unicode_len();
    let mut i: usize = from;
    while i < n && s.get_char(i) != c
        invariant
            from <= i <= n,
            n == s@.len(),
            forall|m: int| from <= m < i ==> s@[m] != c,
        decreases n - i,
    {
        i = i + 1;
    }
    i
}

/// Read the decimal numeral `s` as an integer scaled by `10^k`, truncating
/// toward zero past the `k`-th fractional digit.
#[verifier::loop_isolation(false)]
#[verifier::rlimit(80)]
pub fn parse_decimal(s: &str, k: u32) -> (r: Option<i64>)
    requires
        k <= 3,
    ensures
        r == parse_decimal_spec(s@, k as nat),
{
    let n = s.unicode_len();
    let ghost sq = s@;
    let neg = n > 0 && s.get_char(0) == '-';
    let start: usize = if neg {
        1
    } else {
        0
    };
    let ghost body = if neg {
        sq.subrange(1, sq.len() as int)
    } else {
        sq
    };
    assert(body.len() == n - start);
    assert(forall|m: int| 0 <= m < body.len() ==> body[m] == sq[m + start]);

    let max: u64 = 0x7fff_ffff_ffff_ffff;

    let dot = find_from(s, start, '.');
    proof {
        if dot < n {
            lemma_find_char_at(body, '.', 0, dot - start);
        } else {
            lemma_find_char_none(body, '.', 0);
        }
    }
    if dot == start {
        // Empty integer part (or an empty body altogether).
        return None;
    }

    // Integer part: every character before the dot must be a digit.
    let mut j: usize = start;
    let mut int_mag: u64 = 0;
    while j < dot
        invariant
            start <= j <= dot,
            int_mag <= max,
            int_mag == digits_val(body.subrange(0, j - start)),
            forall|m: int| start <= m < j ==> is_digit(#[trigger] sq[m]),
        decreases dot - j,
    {
        let c = s.get_char(j);
        let cu = c as u32;
        if cu < 48 || cu > 57 {
            // A character that is neither a digit nor the first dot: the
            // numeral is malformed whether or not a dot follows.
            proof {
                let bj = j - start;
                assert(body[bj] == sq[j as int]);
                if dot < n {
                    let ip = body.subrange(0, dot - start);
                    assert(ip[bj] == body[bj]);
                    assert(!all_digits(ip));
                } else {
                    assert(!all_digits(body));
                }
            }
            return None;
        }
        let d = (cu - 48) as u64;
        proof {
            let pre = body.subrange(0, j - start);
            let ext = body.subrange(0, j - start + 1);
            assert(ext.drop_last() =~= pre);
            assert(ext.last() == body[j - start]);
            assert(body[j - start] == sq[j as int]);
        }
        if int_mag > (max - d) / 10 {
            // The integer part alone already exceeds what an i64 can hold,
            // and reading further digits can only grow it.
            proof {
                lemma_overflow_means_none(
                    sq,
                    body,
                    start as int,
                    j as int,
                    k as nat,
                    int_mag as int,
                    d as int,
                );
            }
            return None;
        }
        int_mag = int_mag * 10 + d;
        j = j + 1;
    }

    let scale: u64 = pow10_exec(k);

    if dot >= n {
        // No dot: the whole body is a nonempty digit string.
        proof {
            assert(body.subrange(0, n - start) =~= body);
            assert(forall|m: int| 0 <= m < body.len() ==> is_digit(#[trigger] body[m])) by {
                assert(forall|m: int|
                    0 <= m < body.len() ==> #[trigger] body[m] == sq[m + start]);
            }
            assert(digits_val(body) * scale + 0 == digits_val(body) * pow10(k as nat));
        }
        return combine(neg, int_mag, 0, scale, Ghost(sq), Ghost(body), Ghost(k as nat));
    }

    // There is a dot; the fractional part runs from dot + 1 to the end.
    let ghost dotb = dot - start;
    let ghost ip = body.subrange(0, dotb);
    let ghost fp = body.subrange(dotb + 1, body.len() as int);
    if dot + 1 >= n {
        // Empty fractional part.
        assert(fp.len() == 0);
        return None;
    }

    let mut j2: usize = dot + 1;
    let mut frac_mag: u64 = 0;
    let mut cnt: u32 = 0;
    while j2 < n
        invariant
            dot + 1 <= j2 <= n,
            cnt == (if k as int <= j2 - (dot + 1) {
                k as int
            } else {
                j2 - (dot + 1)
            }),
            frac_mag == digits_val(fp.subrange(0, cnt as int)),
            frac_mag < pow10(cnt as nat),
            forall|m: int| dot + 1 <= m < j2 ==> is_digit(#[trigger] sq[m]),
        decreases n - j2,
    {
        let c = s.get_char(j2);
        let cu = c as u32;
        if cu < 48 || cu > 57 {
            // A non-digit after the dot: the fractional part is malformed.
            proof {
                let m = j2 - (dot + 1);
                assert(fp[m] == body[m + dotb + 1]);
                assert(body[m + dotb + 1] == sq[j2 as int]);
                assert(!all_digits(fp));
            }
            return None;
        }
        if cnt < k {
            let d = (cu - 48) as u64;
            proof {
                let pre = fp.subrange(0, cnt as int);
                let ext = fp.subrange(0, cnt as int + 1);
                assert(ext.drop_last() =~= pre);
                assert(ext.last() == fp[cnt as int]);
                assert(fp[cnt as int] == body[cnt + dotb + 1]);
                assert(body[cnt + dotb + 1] == sq[j2 as int]);
                assert(pow10((cnt + 1) as nat) == 10 * pow10(cnt as nat));
                assert(pow10(0) == 1);
                assert(pow10(1) == 10);
                assert(pow10(2) == 100);
                assert(cnt == 0 || cnt == 1 || cnt == 2);
            }
            frac_mag = frac_mag * 10 + d;
            cnt = cnt + 1;
        }
        j2 = j2 + 1;
    }

    // Pad to exactly k fractional digits.
    let ghost kept = cnt as int;
    proof {
        assert(pow10(0) == 1);
        assert(digits_val(fp.subrange(0, kept)) * 1 == digits_val(fp.subrange(0, kept)));
    }
    while cnt < k
        invariant
            kept <= cnt <= k,
            k <= 3,
            frac_mag < pow10(cnt as nat),
            frac_mag == digits_val(fp.subrange(0, kept)) * pow10((cnt - kept) as nat),
        decreases k - cnt,
    {
        proof {
            lemma_digits_val_nonneg_sub(fp, kept);
            assert(pow10(0) == 1);
            assert(pow10(1) == 10);
            assert(pow10(2) == 100);
            assert(cnt == 0 || cnt == 1 || cnt == 2);
            assert(pow10((cnt + 1 - kept) as nat) == 10 * pow10((cnt - kept) as nat));
            assert(digits_val(fp.subrange(0, kept)) * (10 * pow10((cnt - kept) as nat)) == (
            digits_val(fp.subrange(0, kept)) * pow10((cnt - kept) as nat)) * 10) by (nonlinear_arith);
            assert(pow10((cnt + 1) as nat) == 10 * pow10(cnt as nat));
        }
        frac_mag = frac_mag * 10;
        cnt = cnt + 1;
    }

    assert(frac_mag == scaled_frac(fp, k as nat)) by {
        assert(kept == if k as int <= fp.len() {
            k as int
        } else {
            fp.len() as int
        });
    }
    proof {
        assert(ip =~= body.subrange(0, dot - start));
        assert(forall|m: int| 0 <= m < ip.len() ==> is_digit(#[trigger] ip[m])) by {
            assert(forall|m: int| 0 <= m < ip.len() ==> #[trigger] ip[m] == sq[m + start]);
        }
        assert(forall|m: int| 0 <= m < fp.len() ==> is_digit(#[trigger] fp[m])) by {
            assert(forall|m: int| 0 <= m < fp.len() ==> #[trigger] fp[m] == sq[m + dot + 1]);
        }
        assert(ip.len() >= 1 && fp.len() >= 1);
    }
    combine(neg, int_mag, frac_mag, scale, Ghost(sq), Ghost(body), Ghost(k as nat))
}

/// Digits seen so far already exceed `i64::MAX`, so whatever follows, the
/// numeral's value cannot be returned.
proof fn lemma_overflow_means_none(
    sq: Seq<char>,
    body: Seq<char>,
    start: int,
    j: int,
    k: nat,
    int_mag: int,
    d: int,
)
    requires
        0 <= start <= j < sq.len(),
        body.len() == sq.len() - start,
        forall|m: int| 0 <= m < body.len() ==> body[m] == sq[m + start],
        forall|m: int| start <= m < j ==> is_digit(#[trigger] sq[m]) && sq[m] != '.',
        is_digit(sq[j]),
        sq[j] != '.',
        0 <= d <= 9,
        d == digit_val(sq[j]),
        int_mag == digits_val(body.subrange(0, j - start)),
        int_mag * 10 + d > 0x7fff_ffff_ffff_ffff,
        (if sq.len() > 0 && sq[0] == '-' {
            start == 1
        } else {
            start == 0
        }),
    ensures
        parse_decimal_spec(sq, k) is None,
{
    let max: int = 0x7fff_ffff_ffff_ffff;
    assert(body =~= (if sq.len() > 0 && sq[0] == '-' {
        sq.subrange(1, sq.len() as int)
    } else {
        sq
    }));
    let bj = j - start;
    let pre = body.subrange(0, bj);
    let ext = body.subrange(0, bj + 1);
    assert(ext.drop_last() =~= pre);
    assert(ext.last() == body[bj]);
    assert(body[bj] == sq[j]);
    assert(digits_val(ext) == int_mag * 10 + d);
    assert(all_digits(ext));
    match find_char(body, '.', 0) {
        Some(p) => {
            lemma_find_char_some_props(body, '.', 0);
            assert(p > bj);
            let ip = body.subrange(0, p);
            let fp = body.subrange(p + 1, body.len() as int);
            if ip.len() >= 1 && fp.len() >= 1 && all_digits(ip) && all_digits(fp) {
                assert(ip.subrange(0, bj + 1) =~= ext);
                lemma_digits_val_prefix(ip, bj + 1);
                lemma_digits_val_nonneg(ip);
                lemma_scale_grows(digits_val(ip), k);
                lemma_digits_val_nonneg_sub(fp, if k <= fp.len() {
                    k as int
                } else {
                    fp.len() as int
                });
                lemma_pow10_pos((k - (if k <= fp.len() {
                    k as int
                } else {
                    fp.len() as int
                })) as nat);
                assert(scaled_frac(fp, k) >= 0) by {
                    let kept = if k <= fp.len() {
                        k as int
                    } else {
                        fp.len() as int
                    };
                    assert(digits_val(fp.subrange(0, kept)) * pow10((k - kept) as nat) >= 0)
                        by (nonlinear_arith)
                        requires
                            digits_val(fp.subrange(0, kept)) >= 0,
                            pow10((k - kept) as nat) >= 1,
                    ;
                }
                assert(digits_val(ip) * pow10(k) + scaled_frac(fp, k) > max);
            }
        },
        None => {
            if body.len() >= 1 && all_digits(body) {
                assert(body.subrange(0, bj + 1) =~= ext);
                lemma_digits_val_prefix(body, bj + 1);
                lemma_digits_val_nonneg(body);
                lemma_scale_grows(digits_val(body), k);
                assert(digits_val(body) * pow10(k) > max);
            }
        },
    }
}

proof fn lemma_digits_val_nonneg_sub(s: Seq<char>, j: int)
    ensures
        0 <= j <= s.len() && all_digits(s) ==> digits_val(s.subrange(0, j)) >= 0,
{
    if 0 <= j <= s.len() && all_digits(s) {
        assert(all_digits(s.subrange(0, j)));
        lemma_digits_val_nonneg(s.subrange(0, j));
    }
}

proof fn lemma_find_char_some_props(s: Seq<char>, c: char, i: int)
    ensures
        find_char(s, c, i) matches Some(p) ==> i <= p < s.len() && s[p] == c && (forall|m: int|
            i <= m < p ==> s[m] != c),
    decreases s.len() - i,
{
    if i < 0 || i >= s.len() {
    } else if s[i] == c {
    } else {
        lemma_find_char_some_props(s, c, i + 1);
    }
}

/// `10^k` for the scales the client uses.
fn pow10_exec(k: u32) -> (r: u64)
    requires
        k <= 3,
    ensures
        r == pow10(k as nat),
        1 <= r <= 1000,
{
    proof {
        assert(pow10(0) == 1);
        assert(pow10(1) == 10);
        assert(pow10(2) == 100);
        assert(pow10(3) == 1000);
    }
    if k == 0 {
        1
    } else if k == 1 {
        10
    } else if k == 2 {
        100
    } else {
        1000
    }
}

/// Assemble the scaled value, rejecting magnitudes beyond `i64::MAX`.
fn combine(
    neg: bool,
    int_mag: u64,
    frac_mag: u64,
    scale: u64,
    Ghost(sq): Ghost<Seq<char>>,
    Ghost(body): Ghost<Seq<char>>,
    Ghost(k): Ghost<nat>,
) -> (r: Option<i64>)
    requires
        scale == pow10(k),
        1 <= scale <= 1000,
        numeral_value(sq, k) matches Some(v) && (if sq.len() > 0 && sq[0] == '-' {
            v == -(int_mag * scale + frac_mag)
        } else {
            v == int_mag * scale + frac_mag
        }),
        neg == (sq.len() > 0 && sq[0] == '-'),
    ensures
        r == parse_decimal_spec(sq, k),
{
    let max: u64 = 0x7fff_ffff_ffff_ffff;
    let prod = match int_mag.checked_mul(scale) {
        Some(p) => p,
        None => {
            return None;
        },
    };
    let total = match prod.checked_add(frac_mag) {
        Some(t) => t,
        None => {
            return None;
        },
    };
    if total > max {
        return None;
    }
    if neg {
        Some(-(total as i64))
    } else {
        Some(total as i64)
    }
}

// ---------------------------------------------------------------------------
// Rendering integers back to decimal text
// ---------------------------------------------------------------------------

pub open spec fn dec_digit_char(d: int) -> char {
    if d == 0 {
        '0'
    } else if d == 1 {
        '1'
    } else if d == 2 {
        '2'
    } else if d == 3 {
        '3'
    } else if d == 4 {
        '4'
    } else if d == 5 {
        '5'
    } else if d == 6 {
        '6'
    } else if d == 7 {
        '7'
    } else if d == 8 {
        '8'
    } else {
        '9'
    }
}

/// The decimal text of a nonnegative integer.
pub open spec fn dec_str_nat(n: nat) -> Seq<char>
    decreases n,
{
    if n < 10 {
        seq![dec_digit_char(n as int)]
    } else {
        dec_str_nat(n / 10) + seq![dec_digit_char(n as int % 10)]
    }
}

/// The decimal text of an integer, with a leading minus when negative.
pub open spec fn dec_str_int(n: int) -> Seq<char> {
    if n < 0 {
        seq!['-'] + dec_str_nat((-n) as nat)
    } else {
        dec_str_nat(n as nat)
    }
}

fn digit_str(d: u64) -> (r: &'static str)
    requires
        d < 10,
    ensures
        r@ == seq![dec_digit_char(d as int)],
{
    proof {
        reveal_strlit("0");
        reveal_strlit("1");
        reveal_strlit("2");
        reveal_strlit("3");
        reveal_strlit("4");
        reveal_strlit("5");
        reveal_strlit("6");
        reveal_strlit("7");
        reveal_strlit("8");
        reveal_strlit("9");
    }
    let r = if d == 0 {
        "0"
    } else if d == 1 {
        "1"
    } else if d == 2 {
        "2"
    } else if d == 3 {
        "3"
    } else if d == 4 {
        "4"
    } else if d == 5 {
        "5"
    } else if d == 6 {
        "6"
    } else if d == 7 {
        "7"
    } else if d == 8 {
        "8"
    } else {
        "9"
    };
    proof {
        assert(r@ =~= seq![dec_digit_char(d as int)]);
    }
    r
}

/// Print a nonnegative integer in decimal.
pub fn u64_to_dec(n: u64) -> (r: String)
    ensures
        r@ == dec_str_nat(n as nat),
    decreases n,
{
    if n < 10 {
        String::from_str(digit_str(n))
    } else {
        let mut r = u64_to_dec(n / 10);
        r.append(digit_str(n % 10));
        r
    }
}

/// Print an integer in decimal, with a minus sign when negative.
pub fn i64_to_dec(n: i64) -> (r: String)
    ensures
        r@ == dec_str_int(n as int),
{
    if n >= 0 {
        u64_to_dec(n as u64)
    } else {
        let m: u64 = ((-(n + 1)) as u64) + 1;
        assert(m == -(n as int));
        let mut r = String::from_str("-");
        let tail = u64_to_dec(m);
        r.append(tail.as_str());
        proof {
            reveal_strlit("-");
            assert(r@ =~= seq!['-'] + dec_str_nat(m as nat));
        }
        r
    }
}

/// Print a value below 100 as exactly two decimal digits.
pub open spec fn two_digit_str(n: nat) -> Seq<char> {
    if n < 10 {
        seq!['0'] + dec_str_nat(n)
    } else {
        dec_str_nat(n)
    }
}

pub fn u64_to_two_digits(n: u64) -> (r: String)
    requires
        n < 100,
    ensures
        r@ == two_digit_str(n as nat),
{
    if n < 10 {
        let mut r = String::from_str("0");
        r.append(digit_str(n));
        proof {
            reveal_strlit("0");
            assert(r@ =~= seq!['0'] + dec_str_nat(n as nat));
        }
        r
    } else {
        u64_to_dec(n)
    }
}

} // verus!
