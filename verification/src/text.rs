//! Character-level text helpers: conversions between strings and
//! character vectors, string equality, case-insensitive substring
//! search, and exact decimal parsing and printing for the numeric form
//! fields (ages, years, staff counts, and grade point averages carried
//! as hundredths).

use vstd::prelude::*;

verus! {

/// `c` is one of the ten decimal digits.
pub open spec fn is_digit_char(c: char) -> bool {
    48 <= c as int <= 57
}

/// Numeric value of a decimal digit character.
pub open spec fn digit_val(c: char) -> nat {
    (c as int - 48) as nat
}

/// The digit character for a value below ten.
pub open spec fn digit_char(d: nat) -> char {
    (48 + d) as char
}

/// A non-empty sequence of decimal digits.
pub open spec fn is_digits(s: Seq<char>) -> bool {
    s.len() > 0 && forall|i: int| 0 <= i < s.len() ==> is_digit_char(#[trigger] s[i])
}

/// The number a digit sequence denotes, most significant digit first.
pub open spec fn digits_val(s: Seq<char>) -> nat
    decreases s.len(),
{
    if s.len() == 0 {
        0
    } else {
        digits_val(s.drop_last()) * 10 + digit_val(s.last())
    }
}

/// The canonical decimal rendering of `n`, without leading zeros.
pub open spec fn dec_str(n: nat) -> Seq<char>
    decreases n,
{
    if n < 10 {
        seq![digit_char(n)]
    } else {
        dec_str(n / 10).push(digit_char(n % 10))
    }
}

pub proof fn lemma_digits_val_push(s: Seq<char>, c: char)
    ensures
        digits_val(s.push(c)) == digits_val(s) * 10 + digit_val(c),
{
    assert(s.push(c).drop_last() =~= s);
    assert(s.push(c).last() == c);
}

/// The canonical rendering of `n` is made of digits and reads back as `n`.
pub proof fn lemma_dec_str_digits(n: nat)
    ensures
        is_digits(dec_str(n)),
        digits_val(dec_str(n)) == n,
    decreases n,
{
    if n < 10 {
        let s = dec_str(n);
        assert(s.drop_last() =~= Seq::<char>::empty());
        assert(digits_val(Seq::<char>::empty()) == 0);
        assert(digits_val(s) == digit_val(digit_char(n)));
    } else {
        lemma_dec_str_digits(n / 10);
        lemma_digits_val_push(dec_str(n / 10), digit_char(n % 10));
        assert(forall|i: int|
            0 <= i < dec_str(n).len() ==> is_digit_char(#[trigger] dec_str(n)[i])) by {
            assert(forall|i: int|
                0 <= i < dec_str(n / 10).len() ==> is_digit_char(#[trigger] dec_str(n / 10)[i]));
        }
    }
}

/// Reading one more digit never shrinks the value.
pub proof fn lemma_digits_val_take_grows(s: Seq<char>, i: int, j: int)
    requires
        0 <= i <= j <= s.len(),
    ensures
        digits_val(s.take(j)) >= digits_val(s.take(i)),
    decreases j - i,
{
    if i < j {
        lemma_digits_val_take_grows(s, i, j - 1);
        assert(s.take(j).drop_last() =~= s.take(j - 1));
    }
}

/// Relies on `String::push`: appends the given character to the end of
/// the string.
#[verifier::external_body]
pub(crate) fn push_char(s: &mut String, c: char)
    ensures
        final(s)@ == old(s)@.push(c),
{
    s.push(c);
}

/// The characters of `s`, in order.
pub fn chars_of(s: &str) -> (r: Vec<char>)
    ensures
        r@ == s@,
{
    let n = s.unicode_len();
    let mut r: Vec<char> = Vec::new();
    let mut i: usize = 0;
    while i < n
        invariant
            n == s@.len(),
            i <= n,
            r@ =~= s@.take(i as int),
        decreases n - i,
    {
        r.push(s.get_char(i));
        i = i + 1;
    }
    assert(s@.take(n as int) =~= s@);
    r
}

/// The string holding exactly the characters of `v`.
pub fn string_from_chars(v: &Vec<char>) -> (r: String)
    ensures
        r@ == v@,
{
    let mut r = String::new();
    let mut i: usize = 0;
    while i < v.len()
        invariant
            i <= v@.len(),
            r@ =~= v@.take(i as int),
        decreases v@.len() - i,
    {
        push_char(&mut r, v[i]);
        assert(v@.take(i as int).push(v@[i as int]) =~= v@.take(i + 1));
        i = i + 1;
    }
    assert(v@.take(v@.len() as int) =~= v@);
    r
}

/// Character-for-character equality of two string slices.
pub fn str_eq(a: &str, b: &str) -> (r: bool)
    ensures
        r == (a@ == b@),
{
    let na = a.unicode_len();
    let nb = b.unicode_len();
    if na != nb {
        return false;
    }
    let mut i: usize = 0;
    while i < na
        invariant
            na == a@.len(),
            na == b@.len(),
            i <= na,
            forall|j: int| 0 <= j < i ==> a@[j] == b@[j],
        decreases na - i,
    {
        if a.get_char(i) != b.get_char(i) {
            return false;
        }
        i = i + 1;
    }
    assert(a@ =~= b@);
    true
}

/// `needle` occurs as a contiguous run inside `hay` (the empty sequence
/// occurs everywhere).
pub open spec fn seq_contains(hay: Seq<char>, needle: Seq<char>) -> bool {
    exists|i: int|
        0 <= i <= hay.len() - needle.len() && #[trigger] hay.subrange(
            i,
            i + needle.len(),
        ) == needle
}

/// Substring search over character vectors.
pub fn contains_chars(hay: &Vec<char>, needle: &Vec<char>) -> (r: bool)
    ensures
        r == seq_contains(hay@, needle@),
{
    let nh = hay.len();
    let nn = needle.len();
    if nn > nh {
        return false;
    }
    if nn == 0 {
        assert(seq_contains(hay@, needle@)) by {
            assert(hay@.subrange(0, 0 + needle@.len() as int) =~= needle@);
        }
        return true;
    }
    let mut i: usize = 0;
    while i <= nh - nn
        invariant
            0 < nn <= nh,
            nh == hay@.len(),
            nn == needle@.len(),
            i <= nh - nn + 1,
            forall|k: int|
                0 <= k < i ==> #[trigger] hay@.subrange(k, k + needle@.len()) != needle@,
        decreases nh - nn + 1 - i,
    {
        let mut j: usize = 0;
        let mut matched = true;
        while j < nn
            invariant
                0 < nn <= nh,
                nh == hay@.len(),
                nn == needle@.len(),
                i <= nh - nn,
                j <= nn,
                matched ==> forall|l: int| 0 <= l < j ==> hay@[i + l] == needle@[l],
                !matched ==> hay@.subrange(i as int, i + nn) != needle@,
            decreases nn - j,
        {
            if hay[i + j] != needle[j] {
                assert(hay@.subrange(i as int, i + nn)[j as int] != needle@[j as int]);
                matched = false;
                j = nn;
            } else {
                j = j + 1;
            }
        }
        if matched {
            assert(hay@.subrange(i as int, i + nn) =~= needle@);
            return true;
        }
        i = i + 1;
    }
    assert(forall|k: int|
        0 <= k <= hay@.len() - needle@.len() ==> #[trigger] hay@.subrange(
            k,
            k + needle@.len(),
        ) != needle@);
    false
}

/// Whether `c` occurs in `s`.
pub fn str_contains_char(s: &str, c: char) -> (r: bool)
    ensures
        r == s@.contains(c),
{
    let n = s.unicode_len();
    let mut i: usize = 0;
    while i < n
        invariant
            n == s@.len(),
            i <= n,
            forall|j: int| 0 <= j < i ==> s@[j] != c,
        decreases n - i,
    {
        if s.get_char(i) == c {
            return true;
        }
        i = i + 1;
    }
    assert(forall|j: int| 0 <= j < s@.len() ==> s@[j] != c);
    false
}

/// What `str::to_lowercase` returns for a given character sequence: a
/// fixed function of the input, left without a definition here.
pub uninterp spec fn lower_of(s: Seq<char>) -> Seq<char>;

/// Relies on `str::to_lowercase`: the lowercased text depends on the
/// input characters alone.
#[verifier::external_body]
pub(crate) fn lowercase(s: &str) -> (r: String)
    ensures
        r@ == lower_of(s@),
{
    s.to_lowercase()
}

/// Exact decimal parse of a form field: `Some(n)` exactly when the
/// field is a non-empty run of digits denoting a value that fits in a
/// `u32`.
pub fn parse_u32(s: &str) -> (r: Option<u32>)
    ensures
        match r {
            Some(n) => is_digits(s@) && digits_val(s@) == n as nat,
            None => !is_digits(s@) || digits_val(s@) > u32::MAX,
        },
{
    let n = s.unicode_len();
    if n == 0 {
        return None;
    }
    let mut acc: u32 = 0;
    let mut i: usize = 0;
    while i < n
        invariant
            n == s@.len(),
            0 < n,
            i <= n,
            forall|j: int| 0 <= j < i ==> is_digit_char(#[trigger] s@[j]),
            acc as nat == digits_val(s@.take(i as int)),
        decreases n - i,
    {
        let c = s.get_char(i);
        let cv = c as u32;
        if cv < 48 || cv > 57 {
            assert(!is_digit_char(s@[i as int]));
            return None;
        }
        let d = cv - 48;
        proof {
            lemma_digits_val_push(s@.take(i as int), s@[i as int]);
            assert(s@.take(i as int).push(s@[i as int]) =~= s@.take(i + 1));
        }
        if acc > (u32::MAX - d) / 10 {
            proof {
                lemma_digits_val_take_grows(s@, i + 1, s@.len() as int);
                assert(s@.take(s@.len() as int) =~= s@);
            }
            return None;
        }
        acc = acc * 10 + d;
        i = i + 1;
    }
    assert(s@.take(n as int) =~= s@);
    Some(acc)
}

/// Exec mirror of [`digit_char`].
pub fn digit_to_char(d: u32) -> (c: char)
    requires
        d < 10,
    ensures
        c == digit_char(d as nat),
{
    (48 + d as u8) as char
}

/// The canonical decimal rendering of `n` as a character vector.
pub fn u32_to_chars(n: u32) -> (r: Vec<char>)
    ensures
        r@ == dec_str(n as nat),
    decreases n,
{
    if n < 10 {
        let mut r: Vec<char> = Vec::new();
        r.push(digit_to_char(n));
        assert(r@ =~= dec_str(n as nat));
        r
    } else {
        let mut r = u32_to_chars(n / 10);
        r.push(digit_to_char(n % 10));
        assert(r@ =~= dec_str(n as nat));
        r
    }
}

/// The canonical decimal rendering of a count as a character vector.
pub fn usize_to_chars(n: usize) -> (r: Vec<char>)
    ensures
        r@ == dec_str(n as nat),
    decreases n,
{
    if n < 10 {
        let mut r: Vec<char> = Vec::new();
        r.push(digit_to_char((n % 10) as u32));
        assert(r@ =~= dec_str(n as nat));
        r
    } else {
        let mut r = usize_to_chars(n / 10);
        r.push(digit_to_char((n % 10) as u32));
        assert(r@ =~= dec_str(n as nat));
        r
    }
}

/// The canonical decimal rendering of a count as a string.
pub fn usize_to_string(n: usize) -> (r: String)
    ensures
        r@ == dec_str(n as nat),
{
    let v = usize_to_chars(n);
    string_from_chars(&v)
}

/// The canonical decimal rendering of `n` as a string.
pub fn u32_to_string(n: u32) -> (r: String)
    ensures
        r@ == dec_str(n as nat),
{
    let v = u32_to_chars(n);
    string_from_chars(&v)
}

/// The digits before the first decimal point (the whole text when there
/// is none).
pub open spec fn int_part(s: Seq<char>) -> Seq<char>
    decreases s.len(),
{
    if s.len() == 0 || s[0] == '.' {
        Seq::empty()
    } else {
        seq![s[0]] + int_part(s.drop_first())
    }
}

/// What follows the first decimal point (empty when there is none).
pub open spec fn frac_part(s: Seq<char>) -> Seq<char>
    decreases s.len(),
{
    if s.len() == 0 {
        Seq::empty()
    } else if s[0] == '.' {
        s.drop_first()
    } else {
        frac_part(s.drop_first())
    }
}

/// A well-formed grade point entry: digits with at most one decimal
/// point, holding at least one digit.
pub open spec fn gpa_text_wf(s: Seq<char>) -> bool {
    &&& s.len() > 0
    &&& forall|i: int| 0 <= i < s.len() ==> (is_digit_char(#[trigger] s[i]) || s[i] == '.')
    &&& forall|i: int| 0 <= i < frac_part(s).len() ==> is_digit_char(#[trigger] frac_part(s)[i])
    &&& exists|i: int| 0 <= i < s.len() && is_digit_char(s[i])
}

pub open spec fn all_zero_digits(f: Seq<char>) -> bool {
    forall|i: int| 0 <= i < f.len() ==> f[i] == '0'
}

/// The denoted value is at most 4.0 exactly: the whole part is below
/// four, or equals four with nothing after the point.
pub open spec fn gpa_in_range(s: Seq<char>) -> bool {
    digits_val(int_part(s)) < 4 || (digits_val(int_part(s)) == 4 && all_zero_digits(
        frac_part(s),
    ))
}

/// The value scaled by one hundred, truncated past the second decimal.
pub open spec fn frac_hundredths(f: Seq<char>) -> nat {
    (if f.len() >= 1 {
        digit_val(f[0]) * 10
    } else {
        0
    }) + (if f.len() >= 2 {
        digit_val(f[1])
    } else {
        0
    })
}

pub open spec fn gpa_value_hundredths(s: Seq<char>) -> nat {
    digits_val(int_part(s)) * 100 + frac_hundredths(frac_part(s))
}

proof fn lemma_parts_no_dot(s: Seq<char>)
    requires
        forall|i: int| 0 <= i < s.len() ==> s[i] != '.',
    ensures
        int_part(s) == s,
        frac_part(s) == Seq::<char>::empty(),
    decreases s.len(),
{
    if s.len() > 0 {
        assert(forall|i: int| 0 <= i < s.drop_first().len() ==> s.drop_first()[i] != '.');
        lemma_parts_no_dot(s.drop_first());
        assert(seq![s[0]] + s.drop_first() =~= s);
    }
}

proof fn lemma_parts_at_dot(s: Seq<char>, k: int)
    requires
        0 <= k < s.len(),
        s[k] == '.',
        forall|i: int| 0 <= i < k ==> s[i] != '.',
    ensures
        int_part(s) == s.take(k),
        frac_part(s) == s.subrange(k + 1, s.len() as int),
    decreases k,
{
    if k == 0 {
        assert(int_part(s) =~= s.take(0));
        assert(s.drop_first() =~= s.subrange(1, s.len() as int));
    } else {
        let t = s.drop_first();
        assert(forall|i: int| 0 <= i < k - 1 ==> t[i] != '.');
        lemma_parts_at_dot(t, k - 1);
        assert(seq![s[0]] + t.take(k - 1) =~= s.take(k));
        assert(t.subrange(k, t.len() as int) =~= s.subrange(k + 1, s.len() as int));
    }
}

/// Exact parse of a grade point entry into hundredths: `Some(h)`
/// exactly when the text is well formed and denotes a value of at most
/// 4.0; `h` is that value scaled by one hundred, truncated past the
/// second decimal.
pub fn parse_gpa(s: &str) -> (r: Option<u32>)
    ensures
        match r {
            Some(h) => gpa_text_wf(s@) && gpa_in_range(s@) && h as nat == gpa_value_hundredths(
                s@,
            ) && h <= 400,
            None => !(gpa_text_wf(s@) && gpa_in_range(s@)),
        },
{
    let n = s.unicode_len();
    if n == 0 {
        return None;
    }
    // First pass: every character is a digit or a point; find the first point.
    let mut fd: usize = n;
    let mut i: usize = 0;
    while i < n
        invariant
            n == s@.len(),
            i <= n,
            forall|j: int| 0 <= j < i ==> (is_digit_char(#[trigger] s@[j]) || s@[j] == '.'),
            fd == n || (fd < i && s@[fd as int] == '.'),
            forall|j: int| 0 <= j < i && j < fd ==> s@[j] != '.',
        decreases n - i,
    {
        let c = s.get_char(i);
        let cv = c as u32;
        if cv == 46 {
            if fd == n {
                fd = i;
            }
        } else if cv < 48 || cv > 57 {
            assert(!is_digit_char(s@[i as int]) && s@[i as int] != '.');
            return None;
        }
        i = i + 1;
    }
    let ip_end: usize = if fd < n {
        fd
    } else {
        n
    };
    proof {
        if fd < n {
            lemma_parts_at_dot(s@, fd as int);
        } else {
            lemma_parts_no_dot(s@);
            assert(s@.take(n as int) =~= s@);
        }
    }
    // Second pass: the fractional digits; reject a second point, note
    // whether all of them are zero, and read the first two.
    let mut all_zero = true;
    let mut f0: u32 = 0;
    let mut f1: u32 = 0;
    if fd < n {
        let mut j: usize = fd + 1;
        while j < n
            invariant
                n == s@.len(),
                fd < n,
                forall|k: int| 0 <= k < n ==> (is_digit_char(#[trigger] s@[k]) || s@[k] == '.'),
                frac_part(s@) == s@.subrange(fd + 1, n as int),
                fd + 1 <= j <= n,
                forall|k: int| fd + 1 <= k < j ==> is_digit_char(#[trigger] s@[k]),
                all_zero == (forall|k: int| fd + 1 <= k < j ==> s@[k] == '0'),
                f0 as nat == (if fd + 1 < j {
                    digit_val(s@[fd + 1])
                } else {
                    0
                }),
                f1 as nat == (if fd + 2 < j {
                    digit_val(s@[fd + 2])
                } else {
                    0
                }),
            decreases n - j,
        {
            let c = s.get_char(j);
            let cv = c as u32;
            if cv == 46 {
                assert(frac_part(s@)[j - fd - 1] == '.');
                assert(!is_digit_char(frac_part(s@)[j - fd - 1]));
                return None;
            }
            // A character that is neither the point nor a digit was
            // rejected in the first pass.
            assert(is_digit_char(s@[j as int]));
            if cv != 48 {
                all_zero = false;
            }
            if j == fd + 1 {
                f0 = cv - 48;
            }
            if j == fd + 2 {
                f1 = cv - 48;
            }
            j = j + 1;
        }
    }
    // At least one digit somewhere.
    if ip_end == 0 && (fd >= n || fd + 1 >= n) {
        assert(forall|i2: int| 0 <= i2 < s@.len() ==> !is_digit_char(#[trigger] s@[i2]));
        return None;
    }
    // Third pass: the whole part, capped just above four.
    let mut acc: u32 = 0;
    let mut k: usize = 0;
    while k < ip_end
        invariant
            n == s@.len(),
            ip_end <= n,
            int_part(s@) == s@.take(ip_end as int),
            forall|j: int| 0 <= j < ip_end ==> (is_digit_char(#[trigger] s@[j]) || s@[j] == '.'),
            forall|j: int| 0 <= j < ip_end ==> s@[j] != '.',
            k <= ip_end,
            digits_val(s@.take(k as int)) <= 4 ==> acc as nat == digits_val(s@.take(k as int)),
            digits_val(s@.take(k as int)) > 4 ==> acc == 5,
            acc <= 5,
        decreases ip_end - k,
    {
        let c = s.get_char(k);
        let cv = c as u32;
        assert(is_digit_char(s@[k as int]));
        let d = cv - 48;
        proof {
            lemma_digits_val_push(s@.take(k as int), s@[k as int]);
            assert(s@.take(k as int).push(s@[k as int]) =~= s@.take(k + 1));
        }
        if acc == 5 {
            // Already past four; one more digit keeps it past four.
        } else {
            let t = acc * 10 + d;
            if t > 4 {
                acc = 5;
            } else {
                acc = t;
            }
        }
        k = k + 1;
    }
    let iv = acc;
    assert(s@.take(ip_end as int) == int_part(s@));
    if iv == 5 {
        return None;
    }
    proof {
        if fd < n {
            assert(frac_part(s@).len() == n - fd - 1);
            if n - fd - 1 >= 1 {
                assert(frac_part(s@)[0] == s@[fd + 1]);
            }
            if n - fd - 1 >= 2 {
                assert(frac_part(s@)[1] == s@[fd + 2]);
            }
            if all_zero {
                assert forall|i2: int|
                    0 <= i2 < frac_part(s@).len() implies frac_part(s@)[i2] == '0' by {
                    assert(frac_part(s@)[i2] == s@[fd + 1 + i2]);
                }
            } else {
                assert(exists|k: int| fd + 1 <= k < n && s@[k] != '0');
                let k0 = choose|k: int| fd + 1 <= k < n && s@[k] != '0';
                assert(frac_part(s@)[k0 - fd - 1] == s@[k0]);
                assert(!all_zero_digits(frac_part(s@)));
            }
            assert(all_zero == all_zero_digits(frac_part(s@)));
        } else {
            assert(frac_part(s@).len() == 0);
        }
        if ip_end > 0 {
            assert(is_digit_char(s@[0]));
        } else {
            assert(fd < n && fd + 1 < n);
            assert(is_digit_char(s@[fd + 1]));
        }
    }
    if iv == 4 {
        if !all_zero {
            return None;
        }
        assert(frac_hundredths(frac_part(s@)) == 0);
        return Some(400);
    }
    Some(iv * 100 + f0 * 10 + f1)
}

/// The canonical rendering of a grade point held in hundredths: the
/// whole part, a point, and exactly two decimals.
pub open spec fn gpa_str(h: u32) -> Seq<char> {
    dec_str((h / 100) as nat) + seq![
        '.',
        digit_char((h % 100 / 10) as nat),
        digit_char((h % 10) as nat),
    ]
}

pub fn gpa_to_string(h: u32) -> (r: String)
    ensures
        r@ == gpa_str(h),
{
    let mut v = u32_to_chars(h / 100);
    v.push('.');
    v.push(digit_to_char(h % 100 / 10));
    v.push(digit_to_char(h % 10));
    assert(v@ =~= gpa_str(h));
    string_from_chars(&v)
}

} // verus!
