//! Verified string utilities: equality, decimal literals, comma-separated
//! lists and substring search.  Everything is specified over `Seq<char>`.

use vstd::prelude::*;
use vstd::string::*;

verus! {

/// Character-wise string equality.
pub fn str_eq(a: &str, b: &str) -> (r: bool)
    ensures
        r == (a@ == b@),
{
    let la = a.unicode_len();
    let lb = b.unicode_len();
    if la != lb {
        proof {
            assert(a@.len() != b@.len());
        }
        return false;
    }
    let mut i: usize = 0;
    while i < la
        invariant
            la == a@.len() && la == b@.len(),
            i <= la,
            forall|j: int| 0 <= j < i ==> a@[j] == b@[j],
        decreases la - i,
    {
        if a.get_char(i) != b.get_char(i) {
            return false;
        }
        i += 1;
    }
    proof {
        assert(a@ =~= b@);
    }
    true
}

/// Whether `c` is a decimal digit.
pub open spec fn is_digit(c: char) -> bool {
    48 <= c as u32 <= 57
}

/// The value of a digit.
pub open spec fn digit_val(c: char) -> int {
    c as u32 - 48
}

/// Whether `s` is a non-empty run of decimal digits.
pub open spec fn dec_digits_ok(s: Seq<char>) -> bool {
    s.len() > 0 && forall|i: int| 0 <= i < s.len() ==> is_digit(s[i])
}

/// The value of a digit run, most significant first.
pub open spec fn dec_val(s: Seq<char>) -> int
    decreases s.len(),
{
    if s.len() == 0 {
        0
    } else {
        dec_val(s.drop_last()) * 10 + digit_val(s.last())
    }
}

/// A digit run's value is non-negative.
pub proof fn lemma_dec_val_nonneg(s: Seq<char>)
    requires
        forall|i: int| 0 <= i < s.len() ==> is_digit(s[i]),
    ensures
        dec_val(s) >= 0,
    decreases s.len(),
{
    if s.len() > 0 {
        lemma_dec_val_nonneg(s.drop_last());
    }
}

/// Extending a digit run never shrinks its value.
pub proof fn lemma_dec_val_prefix(s: Seq<char>, k: int)
    requires
        0 <= k <= s.len(),
        forall|i: int| 0 <= i < s.len() ==> is_digit(s[i]),
    ensures
        dec_val(s.subrange(0, k)) <= dec_val(s),
    decreases s.len() - k,
{
    if k < s.len() {
        lemma_dec_val_prefix(s, k + 1);
        let pre = s.subrange(0, k);
        let ext = s.subrange(0, k + 1);
        assert(ext.drop_last() =~= pre);
        assert(ext.last() == s[k]);
        lemma_dec_val_nonneg(pre);
        assert(dec_val(ext) == dec_val(pre) * 10 + digit_val(s[k]));
        assert(dec_val(pre) * 10 >= dec_val(pre)) by (nonlinear_arith)
            requires dec_val(pre) >= 0;
    } else {
        assert(s.subrange(0, k) =~= s);
    }
}

/// Reads the digit run `s[from..]` as a magnitude.
///
/// Returns its value when the run is well-formed and the value is at most
/// `cap`; `None` when the run is empty, holds a non-digit, or its value
/// passes `cap`.
fn dec_magnitude(s: &str, from: usize, cap: u128) -> (r: Option<u128>)
    requires
        from as int <= s@.len(),
        cap < u128::MAX / 16,
    ensures
        ({
            let digits = s@.skip(from as int);
            if dec_digits_ok(digits) && dec_val(digits) <= cap {
                r matches Option::Some(v) && v as int == dec_val(digits)
            } else {
                r is None
            }
        }),
{
    let ghost digits = s@.skip(from as int);
    let n = s.unicode_len();
    if from == n {
        return None;
    }
    let mut acc: u128 = 0;
    let mut i: usize = from;
    while i < n
        invariant
            from <= i <= n,
            n == s@.len(),
            digits == s@.skip(from as int),
            cap < u128::MAX / 16,
            forall|j: int| from <= j < i ==> is_digit(s@[j]),
            acc as int == dec_val(s@.subrange(from as int, i as int)),
            acc <= cap,
        decreases n - i,
    {
        let c = s.get_char(i);
        let cv = c as u32;
        if cv < 48 || cv > 57 {
            proof {
                assert(!is_digit(digits[i - from]));
            }
            return None;
        }
        let d: u128 = (cv - 48) as u128;
        proof {
            let pre = s@.subrange(from as int, i as int);
            let ext = s@.subrange(from as int, i as int + 1);
            assert(ext.drop_last() =~= pre);
            assert(ext.last() == s@[i as int]);
            assert(acc * 10 <= cap * 10) by (nonlinear_arith)
                requires acc <= cap, acc >= 0;
        }
        acc = acc * 10 + d;
        i += 1;
        if acc > cap {
            // Every later digit only grows the value, so it stays over `cap`.
            proof {
                let pre = s@.subrange(from as int, i as int);
                assert(pre =~= digits.subrange(0, i - from as int));
                if dec_digits_ok(digits) {
                    lemma_dec_val_prefix(digits, i - from as int);
                }
            }
            return None;
        }
    }
    proof {
        assert(s@.subrange(from as int, n as int) =~= digits);
    }
    Some(acc)
}

/// Whether `s` is a decimal integer literal with an optional sign.
pub open spec fn int_literal_ok(s: Seq<char>) -> bool {
    if s.len() > 0 && (s[0] == '-' || s[0] == '+') {
        dec_digits_ok(s.skip(1))
    } else {
        dec_digits_ok(s)
    }
}

/// The value of a decimal integer literal.
pub open spec fn int_literal_val(s: Seq<char>) -> int {
    if s.len() > 0 && s[0] == '-' {
        -dec_val(s.skip(1))
    } else if s.len() > 0 && s[0] == '+' {
        dec_val(s.skip(1))
    } else {
        dec_val(s)
    }
}

/// Whether `s` is an unsigned decimal literal (optional leading `+`).
pub open spec fn uint_literal_ok(s: Seq<char>) -> bool {
    if s.len() > 0 && s[0] == '+' {
        dec_digits_ok(s.skip(1))
    } else {
        dec_digits_ok(s)
    }
}

/// The value of an unsigned decimal literal.
pub open spec fn uint_literal_val(s: Seq<char>) -> int {
    if s.len() > 0 && s[0] == '+' {
        dec_val(s.skip(1))
    } else {
        dec_val(s)
    }
}

/// Parses a signed machine integer, exactly as far as the value fits.
pub fn parse_isize(s: &str) -> (r: Option<isize>)
    ensures
        ({
            if int_literal_ok(s@) && isize::MIN <= int_literal_val(s@) <= isize::MAX {
                r matches Option::Some(v) && v as int == int_literal_val(s@)
            } else {
                r is None
            }
        }),
{
    let n = s.unicode_len();
    if n == 0 {
        return None;
    }
    let c0 = s.get_char(0);
    let bound: u128 = (isize::MAX as u128) + 1;
    if c0 == '-' {
        let ghost digits = s@.skip(1);
        let r = dec_magnitude(s, 1, bound);
        proof {
            assert(isize::MIN as int == -(isize::MAX as int) - 1);
            if dec_digits_ok(digits) {
                lemma_dec_val_nonneg(digits);
            }
            assert(int_literal_val(s@) == -dec_val(digits));
        }
        match r {
            None => None,
            Some(m) => {
                let v: i128 = -(m as i128);
                Some(v as isize)
            },
        }
    } else if c0 == '+' {
        let ghost digits = s@.skip(1);
        let r = dec_magnitude(s, 1, isize::MAX as u128);
        proof {
            if dec_digits_ok(digits) {
                lemma_dec_val_nonneg(digits);
            }
            assert(int_literal_val(s@) == dec_val(digits));
        }
        match r {
            None => None,
            Some(m) => Some(m as isize),
        }
    } else {
        let ghost digits = s@.skip(0);
        let r = dec_magnitude(s, 0, isize::MAX as u128);
        proof {
            assert(digits =~= s@);
            if dec_digits_ok(digits) {
                lemma_dec_val_nonneg(digits);
            }
        }
        match r {
            None => None,
            Some(m) => Some(m as isize),
        }
    }
}

/// Parses an unsigned 8-bit integer, exactly as far as the value fits.
pub fn parse_u8(s: &str) -> (r: Option<u8>)
    ensures
        ({
            if uint_literal_ok(s@) && uint_literal_val(s@) <= u8::MAX {
                r matches Option::Some(v) && v as int == uint_literal_val(s@)
            } else {
                r is None
            }
        }),
{
    let n = s.unicode_len();
    if n == 0 {
        return None;
    }
    let c0 = s.get_char(0);
    let from: usize = if c0 == '+' { 1 } else { 0 };
    let ghost digits = s@.skip(from as int);
    let r = dec_magnitude(s, from, u8::MAX as u128);
    proof {
        if from == 0 {
            assert(digits =~= s@);
        }
        if dec_digits_ok(digits) {
            lemma_dec_val_nonneg(digits);
        }
        assert(uint_literal_val(s@) == dec_val(digits));
    }
    match r {
        None => None,
        Some(m) => Some(m as u8),
    }
}

/// Parses a boolean exactly as the schema writes one: `true` or `false`.
pub fn parse_bool(s: &str) -> (r: Option<bool>)
    ensures
        r == if s@ == "true"@ {
            Option::Some(true)
        } else if s@ == "false"@ {
            Option::Some(false)
        } else {
            Option::<bool>::None
        },
{
    if str_eq(s, "true") {
        Some(true)
    } else if str_eq(s, "false") {
        Some(false)
    } else {
        None
    }
}

/// The fields of a comma-separated list: splitting at every comma, keeping
/// empty fields, so the list always has one field more than it has commas.
pub open spec fn csv_of(s: Seq<char>) -> Seq<Seq<char>>
    decreases s.len(),
{
    if s.len() == 0 {
        seq![Seq::<char>::empty()]
    } else if s[0] == ',' {
        seq![Seq::<char>::empty()] + csv_of(s.skip(1))
    } else {
        let rest = csv_of(s.skip(1));
        seq![seq![s[0]] + rest[0]] + rest.skip(1)
    }
}

/// `csv_of` has at least one field.
pub proof fn lemma_csv_nonempty(s: Seq<char>)
    ensures
        csv_of(s).len() >= 1,
    decreases s.len(),
{
    if s.len() > 0 && s[0] != ',' {
        lemma_csv_nonempty(s.skip(1));
    }
}

/// Splitting at the first comma: the head field is everything before it, the
/// remaining fields are those of what follows it.
pub proof fn lemma_csv_first_field(s: Seq<char>, k: int)
    requires
        0 <= k <= s.len(),
        forall|j: int| 0 <= j < k ==> s[j] != ',',
        k < s.len() ==> s[k] == ',',
    ensures
        k < s.len() ==> csv_of(s) == seq![s.subrange(0, k)] + csv_of(s.skip(k + 1)),
        k == s.len() ==> csv_of(s) == seq![s],
    decreases k,
{
    if k == 0 {
        if k < s.len() {
            assert(s.skip(1int) =~= s.skip(1));
            assert(s.subrange(0, 0) =~= Seq::<char>::empty());
        } else {
            assert(s =~= Seq::<char>::empty());
        }
    } else {
        let t = s.skip(1);
        lemma_csv_first_field(t, k - 1);
        lemma_csv_nonempty(t);
        if k < s.len() {
            assert(t.subrange(0, k - 1) =~= s.subrange(1, k));
            assert(t.skip(k) =~= s.skip(k + 1));
            let rest = csv_of(t);
            assert(rest == seq![s.subrange(1, k)] + csv_of(s.skip(k + 1)));
            assert(seq![s[0]] + rest[0] =~= s.subrange(0, k));
            assert(rest.skip(1) =~= csv_of(s.skip(k + 1)));
            assert(csv_of(s) =~= seq![s.subrange(0, k)] + csv_of(s.skip(k + 1)));
        } else {
            assert(t.subrange(0, k - 1) =~= t);
            assert(csv_of(t) == seq![t]);
            assert(seq![s[0]] + t =~= s);
            assert(csv_of(s) =~= seq![s]);
        }
    }
}

/// View of a sequence of owned strings.
pub open spec fn strings_view(v: Seq<String>) -> Seq<Seq<char>> {
    v.map_values(|x: String| x@)
}

/// Splits a comma-separated attribute value into its fields.
pub fn split_csv(s: &str) -> (r: Vec<String>)
    ensures
        strings_view(r@) == csv_of(s@),
{
    let n = s.unicode_len();
    let mut r: Vec<String> = Vec::new();
    let mut start: usize = 0;
    proof {
        assert(s@.skip(0int) =~= s@);
        assert(strings_view(r@) =~= Seq::<Seq<char>>::empty());
        assert(csv_of(s@) =~= strings_view(r@) + csv_of(s@.skip(0int)));
    }
    loop
        invariant_except_break
            start <= n,
            n == s@.len(),
            csv_of(s@) == strings_view(r@) + csv_of(s@.skip(start as int)),
        ensures
            strings_view(r@) == csv_of(s@),
        decreases n - start,
    {
        // Find the next comma at or after `start`.
        let mut k: usize = start;
        while k < n
            invariant
                start <= k <= n,
                n == s@.len(),
                forall|j: int| start <= j < k ==> s@[j] != ',',
            ensures
                start <= k <= n,
                n == s@.len(),
                forall|j: int| start <= j < k ==> s@[j] != ',',
                k < n ==> s@[k as int] == ',',
            decreases n - k,
        {
            if s.get_char(k) == ',' {
                break;
            }
            k += 1;
        }
        let field = s.substring_char(start, k).to_owned();
        proof {
            let suffix = s@.skip(start as int);
            assert(suffix.subrange(0, k - start) =~= s@.subrange(start as int, k as int));
            assert(forall|j: int| 0 <= j < k - start ==> suffix[j] == s@[start + j]);
            lemma_csv_first_field(suffix, k - start);
            if k < n {
                assert(suffix[k - start] == s@[k as int]);
                assert(suffix.skip(k - start + 1) =~= s@.skip(k as int + 1));
            }
            assert(strings_view(r@.push(field)) =~= strings_view(r@) + seq![field@]);
        }
        r.push(field);
        if k == n {
            proof {
                assert(strings_view(r@) =~= csv_of(s@));
            }
            break;
        }
        start = k + 1;
        proof {
            assert(csv_of(s@) =~= strings_view(r@) + csv_of(s@.skip(start as int)));
        }
    }
    r
}

/// Whether the pattern occurs inside `s[lo..hi]`.
pub open spec fn has_sub(s: Seq<char>, lo: int, hi: int, pat: Seq<char>) -> bool {
    exists|i: int| lo <= i && i + pat.len() <= hi && #[trigger] s.subrange(i, i + pat.len()) == pat
}

/// Searches `s[lo..hi]` for the pattern.
pub fn find_sub(s: &str, lo: usize, hi: usize, pat: &str) -> (r: bool)
    requires
        lo <= hi,
        hi as int <= s@.len(),
    ensures
        r == has_sub(s@, lo as int, hi as int, pat@),
{
    let m = pat.unicode_len();
    if m > hi - lo {
        proof {
            assert(forall|i: int| lo <= i && i + pat@.len() <= hi ==>
                #[trigger] s@.subrange(i, i + pat@.len()) != pat@);
        }
        return false;
    }
    let mut i: usize = lo;
    while i <= hi - m
        invariant
            lo <= i,
            i <= hi - m + 1,
            m == pat@.len(),
            m <= hi - lo,
            lo <= hi,
            hi as int <= s@.len(),
            forall|x: int| lo <= x < i ==> #[trigger] s@.subrange(x, x + pat@.len()) != pat@,
        decreases hi + 1 - m - i,
    {
        let mut j: usize = 0;
        let mut all: bool = true;
        while j < m
            invariant
                0 <= j <= m,
                m == pat@.len(),
                lo <= i,
                i + m <= hi,
                hi as int <= s@.len(),
                all == (forall|y: int| 0 <= y < j ==> s@[i + y] == pat@[y]),
            decreases m - j,
        {
            if s.get_char(i + j) != pat.get_char(j) {
                all = false;
                proof {
                    assert(s@[i as int + j as int] != pat@[j as int]);
                }
                j = m;
            } else {
                j += 1;
            }
        }
        if all {
            proof {
                assert(s@.subrange(i as int, i + pat@.len()) =~= pat@);
            }
            return true;
        }
        proof {
            assert(s@.subrange(i as int, i + pat@.len()) != pat@) by {
                assert(!(forall|y: int| 0 <= y < pat@.len() ==> s@[i + y] == pat@[y]));
                let y = choose|y: int| 0 <= y < pat@.len() && s@[i as int + y] != pat@[y];
                assert(s@.subrange(i as int, i + pat@.len())[y] == s@[i + y]);
            }
        }
        i += 1;
    }
    proof {
        assert forall|x: int| lo <= x && x + pat@.len() <= hi implies
            #[trigger] s@.subrange(x, x + pat@.len()) != pat@ by {
            assert(x < i);
        }
    }
    false
}

} // verus!
