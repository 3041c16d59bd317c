//! Character-level string helpers with specifications over `Seq<char>`.
use vstd::prelude::*;
use vstd::string::*;

verus! {

/// Exact comparison of two strings.
pub fn str_eq(a: &str, b: &str) -> (r: bool)
    ensures
        r == (a@ == b@),
{
    let n: usize = a.unicode_len();
    let m: usize = b.unicode_len();
    if n != m {
        return false;
    }
    let mut i: usize = 0;
    while i < n
        invariant
            n == a@.len(),
            n == b@.len(),
            i <= n,
            forall|j: int| 0 <= j < i ==> a@[j] == b@[j],
        decreases n - i,
    {
        if a.get_char(i) != b.get_char(i) {
            return false;
        }
        i = i + 1;
    }
    assert(a@ =~= b@);
    true
}

/// The code of a character after mapping ASCII upper-case letters to lower case.
pub open spec fn ascii_lower_code(c: char) -> int {
    if 'A' <= c && c <= 'Z' {
        c as int + 32
    } else {
        c as int
    }
}

/// Two character sequences are equal up to ASCII case.
pub open spec fn eq_ignore_ascii_case_spec(a: Seq<char>, b: Seq<char>) -> bool {
    &&& a.len() == b.len()
    &&& forall|i: int| 0 <= i < a.len() ==> ascii_lower_code(a[i]) == ascii_lower_code(b[i])
}

fn lower_code(c: char) -> (r: u32)
    ensures
        r == ascii_lower_code(c),
{
    if 'A' <= c && c <= 'Z' {
        c as u32 + 32
    } else {
        c as u32
    }
}

/// Comparison of two strings ignoring the case of ASCII letters.
pub fn eq_ignore_ascii_case(a: &str, b: &str) -> (r: bool)
    ensures
        r == eq_ignore_ascii_case_spec(a@, b@),
{
    let n: usize = a.unicode_len();
    let m: usize = b.unicode_len();
    if n != m {
        return false;
    }
    let mut i: usize = 0;
    while i < n
        invariant
            n == a@.len(),
            n == b@.len(),
            i <= n,
            forall|j: int| 0 <= j < i ==> ascii_lower_code(a@[j]) == ascii_lower_code(b@[j]),
        decreases n - i,
    {
        if lower_code(a.get_char(i)) != lower_code(b.get_char(i)) {
            return false;
        }
        i = i + 1;
    }
    true
}

/// Index of the first occurrence of `sep` in `s` at or after `from`, or `s.len()`.
pub open spec fn next_sep(s: Seq<char>, sep: char, from: int) -> int
    decreases s.len() - from,
{
    if from >= s.len() {
        s.len() as int
    } else if s[from] == sep {
        from
    } else {
        next_sep(s, sep, from + 1)
    }
}

/// The pieces of `s` between occurrences of `sep`, starting at position `from`
/// (like `str::split` with a single character separator).
pub open spec fn split_from(s: Seq<char>, sep: char, from: int) -> Seq<Seq<char>>
    decreases s.len() - from, 0int,
{
    if from < 0 || from > s.len() {
        seq![]
    } else {
        let e = next_sep(s, sep, from);
        proof {
            lemma_next_sep_bounds(s, sep, from);
        }
        if e >= s.len() {
            seq![s.subrange(from, s.len() as int)]
        } else {
            seq![s.subrange(from, e)] + split_from(s, sep, e + 1)
        }
    }
}

/// The pieces of `s` separated by `sep`.
pub open spec fn split_spec(s: Seq<char>, sep: char) -> Seq<Seq<char>> {
    split_from(s, sep, 0)
}

pub proof fn lemma_next_sep_bounds(s: Seq<char>, sep: char, from: int)
    requires
        0 <= from <= s.len(),
    ensures
        from <= next_sep(s, sep, from) <= s.len(),
        next_sep(s, sep, from) < s.len() ==> s[next_sep(s, sep, from)] == sep,
        forall|k: int| from <= k < next_sep(s, sep, from) ==> s[k] != sep,
    decreases s.len() - from,
{
    if from < s.len() && s[from] != sep {
        lemma_next_sep_bounds(s, sep, from + 1);
    }
}

/// Splits `s` at every occurrence of `sep`.
pub fn split_chars(s: &str, sep: char) -> (r: Vec<Vec<char>>)
    ensures
        r@.len() == split_spec(s@, sep).len(),
        forall|i: int| 0 <= i < r@.len() ==> #[trigger] r@[i]@ == split_spec(s@, sep)[i],
{
    let n: usize = s.unicode_len();
    let mut pieces: Vec<Vec<char>> = Vec::new();
    let mut current: Vec<char> = Vec::new();
    let mut start: usize = 0;
    let mut i: usize = 0;
    let ghost mut done: Seq<Seq<char>> = seq![];
    while i < n
        invariant
            n == s@.len(),
            start <= i <= n,
            current@ == s@.subrange(start as int, i as int),
            forall|k: int| start <= k < i ==> s@[k] != sep,
            done + split_from(s@, sep, start as int) == split_spec(s@, sep),
            pieces@.len() == done.len(),
            forall|j: int| 0 <= j < pieces@.len() ==> #[trigger] pieces@[j]@ == done[j],
        decreases n - i,
    {
        let c = s.get_char(i);
        if c == sep {
            proof {
                lemma_next_sep_at(s@, sep, start as int, i as int);
                let piece = s@.subrange(start as int, i as int);
                let tail = split_from(s@, sep, i as int + 1);
                assert(split_from(s@, sep, start as int) =~= seq![piece] + tail);
                assert(done.push(piece) + tail =~= done + (seq![piece] + tail));
                done = done.push(piece);
            }
            pieces.push(current);
            current = Vec::new();
            start = i + 1;
        } else {
            current.push(c);
            proof {
                assert(current@ =~= s@.subrange(start as int, i as int + 1));
            }
        }
        i = i + 1;
    }
    proof {
        lemma_next_sep_at(s@, sep, start as int, n as int);
        let piece = s@.subrange(start as int, n as int);
        assert(split_from(s@, sep, start as int) =~= seq![piece]);
        assert(done + seq![piece] =~= done.push(piece));
        done = done.push(piece);
    }
    pieces.push(current);
    pieces
}

pub proof fn lemma_next_sep_at(s: Seq<char>, sep: char, from: int, at: int)
    requires
        0 <= from <= at <= s.len(),
        forall|k: int| from <= k < at ==> s[k] != sep,
        at < s.len() ==> s[at] == sep,
    ensures
        next_sep(s, sep, from) == at,
    decreases at - from,
{
    if from < at {
        lemma_next_sep_at(s, sep, from + 1, at);
    }
}

/// Whether `v` holds a piece equal to `x`.
pub fn contains_piece(v: &Vec<Vec<char>>, x: &Vec<char>) -> (r: bool)
    ensures
        r == (exists|i: int| 0 <= i < v@.len() && #[trigger] v@[i]@ == x@),
{
    let mut i: usize = 0;
    while i < v.len()
        invariant
            i <= v@.len(),
            forall|j: int| 0 <= j < i ==> #[trigger] v@[j]@ != x@,
        decreases v.len() - i,
    {
        if chars_eq(&v[i], x) {
            return true;
        }
        i = i + 1;
    }
    false
}

/// Equality of two character vectors.
pub fn chars_eq(a: &Vec<char>, b: &Vec<char>) -> (r: bool)
    ensures
        r == (a@ == b@),
{
    if a.len() != b.len() {
        return false;
    }
    let mut i: usize = 0;
    while i < a.len()
        invariant
            a@.len() == b@.len(),
            i <= a@.len(),
            forall|j: int| 0 <= j < i ==> a@[j] == b@[j],
        decreases a.len() - i,
    {
        if a[i] != b[i] {
            return false;
        }
        i = i + 1;
    }
    assert(a@ =~= b@);
    true
}


/// The character sequences of a list of string slices.
pub open spec fn strs_view(v: Seq<&str>) -> Seq<Seq<char>> {
    v.map_values(|p: &str| p@)
}

/// Splits `s` at every occurrence of `sep` into slices of `s`.
pub fn split_str<'a>(s: &'a str, sep: char) -> (r: Vec<&'a str>)
    ensures
        strs_view(r@) == split_spec(s@, sep),
{
    let n: usize = s.unicode_len();
    let mut pieces: Vec<&'a str> = Vec::new();
    let mut start: usize = 0;
    let mut i: usize = 0;
    let ghost mut done: Seq<Seq<char>> = seq![];
    while i < n
        invariant
            n == s@.len(),
            start <= i <= n,
            forall|k: int| start <= k < i ==> s@[k] != sep,
            done + split_from(s@, sep, start as int) == split_spec(s@, sep),
            strs_view(pieces@) == done,
        decreases n - i,
    {
        let c = s.get_char(i);
        if c == sep {
            let piece = s.substring_char(start, i);
            proof {
                lemma_next_sep_at(s@, sep, start as int, i as int);
                let tail = split_from(s@, sep, i as int + 1);
                assert(split_from(s@, sep, start as int) =~= seq![piece@] + tail);
                assert(done.push(piece@) + tail =~= done + (seq![piece@] + tail));
                assert(strs_view(pieces@.push(piece)) =~= done.push(piece@));
                done = done.push(piece@);
            }
            pieces.push(piece);
            start = i + 1;
        }
        i = i + 1;
    }
    let piece = s.substring_char(start, n);
    proof {
        lemma_next_sep_at(s@, sep, start as int, n as int);
        assert(split_from(s@, sep, start as int) =~= seq![piece@]);
        assert(done + seq![piece@] =~= done.push(piece@));
        assert(strs_view(pieces@.push(piece)) =~= done.push(piece@));
    }
    pieces.push(piece);
    pieces
}

/// An ASCII decimal digit.
pub open spec fn is_digit(c: char) -> bool {
    '0' <= c && c <= '9'
}

/// Every character is an ASCII decimal digit.
pub open spec fn all_digits(s: Seq<char>) -> bool {
    forall|i: int| 0 <= i < s.len() ==> is_digit(#[trigger] s[i])
}

/// A `+` or `-` sign.
pub open spec fn is_sign(c: char) -> bool {
    c == '+' || c == '-'
}

/// `s` without a leading sign.
pub open spec fn unsigned_part(s: Seq<char>) -> Seq<char> {
    if s.len() > 0 && is_sign(s[0]) {
        s.skip(1)
    } else {
        s
    }
}

/// Position of the first exponent mark (`e` or `E`) at or after `i`, or `s.len()`.
pub open spec fn exponent_mark_from(s: Seq<char>, i: int) -> int
    decreases s.len() - i,
{
    if i >= s.len() {
        s.len() as int
    } else if s[i] == 'e' || s[i] == 'E' {
        i
    } else {
        exponent_mark_from(s, i + 1)
    }
}

/// Position of the first exponent mark (`e` or `E`) in `s`, or `s.len()`.
pub open spec fn exponent_mark(s: Seq<char>) -> int {
    exponent_mark_from(s, 0)
}

/// Digits with at most one decimal point and at least one digit:
/// `d+`, `d+.d*` or `d*.d+`.
pub open spec fn is_mantissa(m: Seq<char>) -> bool {
    ||| (m.len() > 0 && all_digits(m))
    ||| exists|p: int|
        0 <= p < m.len() && m[p] == '.' && all_digits(m.take(p)) && all_digits(m.skip(p + 1)) && (p
            > 0 || p + 1 < m.len())
}

/// Empty, or an exponent mark followed by an optional sign and digits.
pub open spec fn is_exponent(x: Seq<char>) -> bool {
    x.len() == 0 || (unsigned_part(x.skip(1)).len() > 0 && all_digits(unsigned_part(x.skip(1))))
}

/// The text of a floating point number as `f64::from_str` accepts it: an
/// optional sign, then `inf`, `infinity` or `nan` in any case, or a mantissa
/// with an optional exponent.
pub open spec fn is_number_text(s: Seq<char>) -> bool {
    let u = unsigned_part(s);
    ||| eq_ignore_ascii_case_spec(u, "inf"@)
    ||| eq_ignore_ascii_case_spec(u, "infinity"@)
    ||| eq_ignore_ascii_case_spec(u, "nan"@)
    ||| (is_mantissa(u.take(exponent_mark(u))) && is_exponent(u.skip(exponent_mark(u))))
}


fn is_digit_char(c: char) -> (r: bool)
    ensures
        r == is_digit(c),
{
    '0' <= c && c <= '9'
}

fn find_exponent_mark(u: &str) -> (r: usize)
    ensures
        r == exponent_mark(u@),
        r <= u@.len(),
{
    let n = u.unicode_len();
    let mut i: usize = 0;
    while i < n
        invariant
            n == u@.len(),
            i <= n,
            exponent_mark_from(u@, i as int) == exponent_mark(u@),
        decreases n - i,
    {
        let c = u.get_char(i);
        if c == 'e' || c == 'E' {
            return i;
        }
        i = i + 1;
    }
    i
}

/// Whether the characters of `s` in `[from, to)` form a mantissa.
fn mantissa_ok(s: &str, from: usize, to: usize) -> (r: bool)
    requires
        from <= to <= s@.len(),
    ensures
        r == is_mantissa(s@.subrange(from as int, to as int)),
{
    let ghost m = s@.subrange(from as int, to as int);
    let mut dot: usize = to;
    let mut i: usize = from;
    while i < to
        invariant
            from <= i <= to,
            to <= s@.len(),
            m == s@.subrange(from as int, to as int),
            dot == to || (from <= dot < i && s@[dot as int] == '.'),
            forall|k: int| from <= k < i && k != dot ==> is_digit(#[trigger] s@[k]),
        decreases to - i,
    {
        let c = s.get_char(i);
        if c == '.' {
            if dot < to {
                proof {
                    let a = dot - from;
                    let b = i - from;
                    assert(m[a] == '.' && m[b] == '.');
                    assert(!all_digits(m)) by {
                        assert(!is_digit(m[a]));
                    }
                    assert forall|p: int|
                        0 <= p < m.len() && m[p] == '.' implies !(all_digits(m.take(p)) && all_digits(
                            m.skip(p + 1),
                        )) by {
                        if p < b {
                            assert(!is_digit(m.skip(p + 1)[b - p - 1]));
                        } else {
                            assert(!is_digit(m.take(p)[a]));
                        }
                    }
                }
                return false;
            }
            dot = i;
        } else if !is_digit_char(c) {
            proof {
                let b = i - from;
                assert(!is_digit(m[b]));
                assert forall|p: int|
                    0 <= p < m.len() && m[p] == '.' implies !(all_digits(m.take(p)) && all_digits(
                        m.skip(p + 1),
                    )) by {
                    if p < b {
                        assert(!is_digit(m.skip(p + 1)[b - p - 1]));
                    } else {
                        assert(!is_digit(m.take(p)[b]));
                    }
                }
            }
            return false;
        }
        i = i + 1;
    }
    if dot == to {
        proof {
            assert forall|k: int| 0 <= k < m.len() implies is_digit(#[trigger] m[k]) by {
                assert(m[k] == s@[from + k]);
            }
            assert forall|p: int| 0 <= p < m.len() implies m[p] != '.' by {
                assert(is_digit(s@[from + p]));
            }
        }
        to > from
    } else {
        proof {
            let a = dot - from;
            assert forall|k: int| 0 <= k < m.take(a).len() implies is_digit(#[trigger] m.take(a)[k]) by {
                assert(m.take(a)[k] == s@[from + k]);
            }
            assert forall|k: int| 0 <= k < m.skip(a + 1).len() implies is_digit(
                #[trigger] m.skip(a + 1)[k],
            ) by {
                assert(m.skip(a + 1)[k] == s@[from + a + 1 + k]);
            }
            assert(!is_digit(m[a]));
            assert forall|p: int| 0 <= p < m.len() && m[p] == '.' implies p == a by {
                if p != a {
                    assert(is_digit(s@[from + p]));
                }
            }
        }
        dot > from || dot + 1 < to
    }
}

/// Whether the characters of `s` from `from` on form an exponent part.
fn exponent_ok(s: &str, from: usize) -> (r: bool)
    requires
        from <= s@.len(),
    ensures
        r == is_exponent(s@.skip(from as int)),
{
    let n = s.unicode_len();
    if from == n {
        return true;
    }
    let ghost x = s@.skip(from as int);
    let mut j: usize = from + 1;
    if j < n && (s.get_char(j) == '+' || s.get_char(j) == '-') {
        j = j + 1;
    }
    proof {
        assert(unsigned_part(x.skip(1)) =~= s@.skip(j as int));
    }
    if j >= n {
        return false;
    }
    let mut k: usize = j;
    while k < n
        invariant
            n == s@.len(),
            j <= k <= n,
            from < n,
            unsigned_part(s@.skip(from as int).skip(1)) == s@.skip(j as int),
            forall|t: int| j <= t < k ==> is_digit(#[trigger] s@[t]),
        decreases n - k,
    {
        if !is_digit_char(s.get_char(k)) {
            proof {
                assert(!is_digit(s@.skip(j as int)[k - j]));
            }
            return false;
        }
        k = k + 1;
    }
    proof {
        assert forall|t: int| 0 <= t < s@.skip(j as int).len() implies is_digit(
            #[trigger] s@.skip(j as int)[t],
        ) by {
            assert(s@.skip(j as int)[t] == s@[j + t]);
        }
    }
    true
}

/// Whether `s` is the text of a floating point number (see [`is_number_text`]).
pub fn number_text(s: &str) -> (r: bool)
    ensures
        r == is_number_text(s@),
{
    let n = s.unicode_len();
    let start: usize = if n > 0 && (s.get_char(0) == '+' || s.get_char(0) == '-') {
        1
    } else {
        0
    };
    let u = s.substring_char(start, n);
    proof {
        assert(u@ =~= unsigned_part(s@));
    }
    if eq_ignore_ascii_case(u, "inf") || eq_ignore_ascii_case(u, "infinity") || eq_ignore_ascii_case(
        u,
        "nan",
    ) {
        return true;
    }
    let e = find_exponent_mark(u);
    proof {
        assert(u@.subrange(0, e as int) =~= u@.take(e as int));
    }
    mantissa_ok(u, 0, e) && exponent_ok(u, e)
}

} // verus!
