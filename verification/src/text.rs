//! Character-level helpers shared by the naming and formatting rules.
use vstd::prelude::*;

verus! {

/// The character for a decimal or hexadecimal digit value `d < 16`, lower case.
pub open spec fn digit_char(d: nat) -> char {
    if d < 10 {
        (48 + d) as char
    } else {
        (87 + d) as char
    }
}

/// `n` written in decimal without leading zeros.
pub open spec fn decimal(n: nat) -> Seq<char>
    decreases n,
{
    if n < 10 {
        seq![digit_char(n)]
    } else {
        decimal(n / 10).push(digit_char(n % 10))
    }
}

/// The low `width` hexadecimal digits of `n`, lower case, most significant first.
pub open spec fn hex_fixed(n: nat, width: nat) -> Seq<char>
    decreases width,
{
    if width == 0 {
        Seq::empty()
    } else {
        hex_fixed(n / 16, (width - 1) as nat).push(digit_char(n % 16))
    }
}

pub fn digit(d: u64) -> (c: char)
    requires
        d < 16,
    ensures
        c == digit_char(d as nat),
{
    if d < 10 {
        ((48 + d) as u8) as char
    } else {
        ((87 + d) as u8) as char
    }
}

/// Appends the decimal representation of `n`.
pub fn push_decimal(out: &mut Vec<char>, n: u64)
    ensures
        final(out)@ == old(out)@ + decimal(n as nat),
    decreases n,
{
    if n >= 10 {
        push_decimal(out, n / 10);
    }
    out.push(digit(n % 10));
    proof {
        assert(old(out)@ + decimal(n as nat) =~= final(out)@) by {
            if n >= 10 {
                assert(decimal(n as nat) == decimal((n / 10) as nat).push(digit_char((n % 10) as nat)));
            }
        }
    }
}


/// Appends the decimal representation of a 128-bit `n`.
pub fn push_decimal_wide(out: &mut Vec<char>, n: u128)
    ensures
        final(out)@ == old(out)@ + decimal(n as nat),
    decreases n,
{
    if n >= 10 {
        push_decimal_wide(out, n / 10);
    }
    out.push(digit((n % 10) as u64));
    proof {
        assert(old(out)@ + decimal(n as nat) =~= final(out)@) by {
            if n >= 10 {
                assert(decimal(n as nat) == decimal((n / 10) as nat).push(digit_char((n % 10) as nat)));
            }
        }
    }
}

/// Appends the low `width` hexadecimal digits of `n`, zero padded.
pub fn push_hex(out: &mut Vec<char>, n: u64, width: u32)
    ensures
        final(out)@ == old(out)@ + hex_fixed(n as nat, width as nat),
    decreases width,
{
    if width > 0 {
        push_hex(out, n / 16, width - 1);
        out.push(digit(n % 16));
        proof {
            assert(hex_fixed(n as nat, width as nat) == hex_fixed((n / 16) as nat, (width - 1) as nat).push(
                digit_char((n % 16) as nat),
            ));
            assert(old(out)@ + hex_fixed(n as nat, width as nat) =~= final(out)@);
        }
    } else {
        assert(old(out)@ + hex_fixed(n as nat, width as nat) =~= final(out)@);
    }
}

/// Appends the low `width` hexadecimal digits of a 128-bit `n`, zero padded.
pub fn push_hex_wide(out: &mut Vec<char>, n: u128, width: u32)
    ensures
        final(out)@ == old(out)@ + hex_fixed(n as nat, width as nat),
    decreases width,
{
    if width > 0 {
        push_hex_wide(out, n / 16, width - 1);
        out.push(digit((n % 16) as u64));
        proof {
            assert(hex_fixed(n as nat, width as nat) == hex_fixed((n / 16) as nat, (width - 1) as nat).push(
                digit_char((n % 16) as nat),
            ));
            assert(old(out)@ + hex_fixed(n as nat, width as nat) =~= final(out)@);
        }
    } else {
        assert(old(out)@ + hex_fixed(n as nat, width as nat) =~= final(out)@);
    }
}

/// `hex_fixed` has `width` characters.
pub proof fn lemma_hex_fixed_len(n: nat, width: nat)
    ensures
        hex_fixed(n, width).len() == width,
    decreases width,
{
    if width > 0 {
        lemma_hex_fixed_len(n / 16, (width - 1) as nat);
    }
}

/// Two numbers below `16^width` with the same `width` hexadecimal digits are
/// equal.
pub proof fn lemma_hex_fixed_injective(a: nat, b: nat, width: nat)
    requires
        a < vstd::arithmetic::power::pow(16, width),
        b < vstd::arithmetic::power::pow(16, width),
        hex_fixed(a, width) == hex_fixed(b, width),
    ensures
        a == b,
    decreases width,
{
    if width == 0 {
        vstd::arithmetic::power::lemma_pow0(16);
    } else {
        let w1 = (width - 1) as nat;
        let p = vstd::arithmetic::power::pow(16, w1);
        vstd::arithmetic::power::lemma_pow_positive(16, w1);
        assert(vstd::arithmetic::power::pow(16, width) == 16 * p) by {
            vstd::arithmetic::power::lemma_pow_adds(16, 1, w1);
            vstd::arithmetic::power::lemma_pow1(16);
        }
        let ha = hex_fixed(a / 16, w1);
        let hb = hex_fixed(b / 16, w1);
        assert(hex_fixed(a, width) == ha.push(digit_char(a % 16)));
        assert(hex_fixed(b, width) == hb.push(digit_char(b % 16)));
        assert(ha =~= hex_fixed(a, width).drop_last());
        assert(hb =~= hex_fixed(b, width).drop_last());
        assert(digit_char(a % 16) == hex_fixed(a, width).last());
        assert(digit_char(b % 16) == hex_fixed(b, width).last());
        assert(a % 16 == b % 16);
        assert(a / 16 < p) by (nonlinear_arith)
            requires
                a < 16 * p,
                p > 0,
        ;
        assert(b / 16 < p) by (nonlinear_arith)
            requires
                b < 16 * p,
                p > 0,
        ;
        lemma_hex_fixed_injective(a / 16, b / 16, w1);
        assert(a == 16 * (a / 16) + a % 16) by (nonlinear_arith);
        assert(b == 16 * (b / 16) + b % 16) by (nonlinear_arith);
    }
}

/// `'-'` followed by the magnitude for negative values, as `{}` prints an integer.
pub open spec fn signed_decimal(n: int) -> Seq<char> {
    if n < 0 {
        seq!['-'] + decimal((-n) as nat)
    } else {
        decimal(n as nat)
    }
}

/// Appends the decimal representation of a signed 32-bit value.
pub fn push_signed_decimal(out: &mut Vec<char>, n: i32)
    ensures
        final(out)@ == old(out)@ + signed_decimal(n as int),
{
    if n < 0 {
        out.push('-');
        let magnitude: u64 = (0i64 - n as i64) as u64;
        push_decimal(out, magnitude);
        assert(final(out)@ =~= old(out)@ + signed_decimal(n as int));
    } else {
        push_decimal(out, n as u64);
    }
}

/// The characters of `s`, in order.
#[verifier::external_body]
pub fn chars_of(s: &str) -> (v: Vec<char>)
    ensures
        v@ == s@,
{
    s.chars().collect()
}

/// The string made of the characters of `v`, in order.
#[verifier::external_body]
pub fn string_of(v: &[char]) -> (s: String)
    ensures
        s@ == v@,
{
    v.iter().collect()
}

/// Appends the characters of `s`.
pub fn push_str(out: &mut Vec<char>, s: &str)
    ensures
        final(out)@ == old(out)@ + s@,
{
    let cs = chars_of(s);
    let mut i: usize = 0;
    while i < cs.len()
        invariant
            cs@ == s@,
            i <= cs.len(),
            out@ == old(out)@ + s@.subrange(0, i as int),
        decreases cs.len() - i,
    {
        out.push(cs[i]);
        i = i + 1;
        assert(out@ =~= old(out)@ + s@.subrange(0, i as int));
    }
    assert(s@.subrange(0, i as int) =~= s@);
}

/// Whether two character sequences are equal.
pub fn chars_eq(a: &[char], b: &[char]) -> (r: bool)
    ensures
        r == (a@ == b@),
{
    if a.len() != b.len() {
        return false;
    }
    let mut i: usize = 0;
    while i < a.len()
        invariant
            a.len() == b.len(),
            i <= a.len(),
            forall|k: int| 0 <= k < i ==> a@[k] == b@[k],
        decreases a.len() - i,
    {
        if a[i] != b[i] {
            return false;
        }
        i = i + 1;
    }
    assert(a@ =~= b@);
    true
}

/// Whether two strings hold the same characters.
pub fn str_eq(a: &str, b: &str) -> (r: bool)
    ensures
        r == (a@ == b@),
{
    let x = chars_of(a);
    let y = chars_of(b);
    chars_eq(x.as_slice(), y.as_slice())
}

/// Whether `c` has Unicode's White_Space property, the set that
/// `char::is_whitespace` tests: U+0009 to U+000D, space, U+0085, U+00A0,
/// U+1680, U+2000 to U+200A, U+2028, U+2029, U+202F, U+205F and U+3000.
pub open spec fn char_is_whitespace(c: char) -> bool {
    let n = c as u32;
    (9 <= n <= 13) || n == 32 || n == 0x85 || n == 0xA0 || n == 0x1680 || (0x2000 <= n <= 0x200A)
        || n == 0x2028 || n == 0x2029 || n == 0x202F || n == 0x205F || n == 0x3000
}

/// Whether `c` is white space, as `char::is_whitespace` decides.
pub fn is_whitespace(c: char) -> (r: bool)
    ensures
        r == char_is_whitespace(c),
{
    let n = c as u32;
    (9 <= n && n <= 13) || n == 32 || n == 0x85 || n == 0xA0 || n == 0x1680 || (0x2000 <= n && n
        <= 0x200A) || n == 0x2028 || n == 0x2029 || n == 0x202F || n == 0x205F || n == 0x3000
}

/// A set of characters that trimming removes.
#[derive(Clone, Copy)]
pub enum TrimSet {
    Whitespace,
    Only(char),
}

pub open spec fn in_trim_set(set: TrimSet, c: char) -> bool {
    match set {
        TrimSet::Whitespace => char_is_whitespace(c),
        TrimSet::Only(x) => c == x,
    }
}

fn is_in_trim_set(set: TrimSet, c: char) -> (r: bool)
    ensures
        r == in_trim_set(set, c),
{
    match set {
        TrimSet::Whitespace => is_whitespace(c),
        TrimSet::Only(x) => c == x,
    }
}

/// `s` without its leading characters from `set`.
pub open spec fn trim_start(s: Seq<char>, set: TrimSet) -> Seq<char>
    decreases s.len(),
{
    if s.len() > 0 && in_trim_set(set, s[0]) {
        trim_start(s.drop_first(), set)
    } else {
        s
    }
}

/// `s` without its trailing characters from `set`.
pub open spec fn trim_end(s: Seq<char>, set: TrimSet) -> Seq<char>
    decreases s.len(),
{
    if s.len() > 0 && in_trim_set(set, s.last()) {
        trim_end(s.drop_last(), set)
    } else {
        s
    }
}

/// `s` without its leading and trailing characters from `set`.
pub open spec fn trim(s: Seq<char>, set: TrimSet) -> Seq<char> {
    trim_end(trim_start(s, set), set)
}

proof fn lemma_trim_start(s: Seq<char>, set: TrimSet, i: int)
    requires
        0 <= i <= s.len(),
        forall|k: int| 0 <= k < i ==> in_trim_set(set, #[trigger] s[k]),
        i < s.len() ==> !in_trim_set(set, s[i]),
    ensures
        trim_start(s, set) == s.subrange(i, s.len() as int),
    decreases i,
{
    if i == 0 {
        assert(s.subrange(0, s.len() as int) =~= s);
    } else {
        assert(in_trim_set(set, s[0]));
        let t = s.drop_first();
        assert forall|k: int| 0 <= k < i - 1 implies in_trim_set(set, #[trigger] t[k]) by {
            assert(t[k] == s[k + 1]);
        }
        lemma_trim_start(t, set, i - 1);
        assert(t.subrange(i - 1, t.len() as int) =~= s.subrange(i, s.len() as int));
    }
}

proof fn lemma_trim_end(s: Seq<char>, set: TrimSet, j: int)
    requires
        0 <= j <= s.len(),
        forall|k: int| j <= k < s.len() ==> in_trim_set(set, #[trigger] s[k]),
        j > 0 ==> !in_trim_set(set, s[j - 1]),
    ensures
        trim_end(s, set) == s.subrange(0, j),
    decreases s.len() - j,
{
    if j == s.len() {
        assert(s.subrange(0, j) =~= s);
    } else {
        assert(in_trim_set(set, s[s.len() - 1]));
        let t = s.drop_last();
        assert forall|k: int| j <= k < t.len() implies in_trim_set(set, #[trigger] t[k]) by {
            assert(t[k] == s[k]);
        }
        lemma_trim_end(t, set, j);
        assert(t.subrange(0, j) =~= s.subrange(0, j));
    }
}

/// `s` without its leading and trailing characters from `set`.
pub fn trim_chars(s: &[char], set: TrimSet) -> (r: Vec<char>)
    ensures
        r@ == trim(s@, set),
{
    let n = s.len();
    let mut i: usize = 0;
    while i < n && is_in_trim_set(set, s[i])
        invariant
            n == s.len(),
            i <= n,
            forall|k: int| 0 <= k < i ==> in_trim_set(set, #[trigger] s@[k]),
        decreases n - i,
    {
        i = i + 1;
    }
    proof {
        lemma_trim_start(s@, set, i as int);
    }
    let mut j: usize = n;
    while j > i && is_in_trim_set(set, s[j - 1])
        invariant
            n == s.len(),
            i <= j <= n,
            forall|k: int| j <= k < n ==> in_trim_set(set, #[trigger] s@[k]),
        decreases j,
    {
        j = j - 1;
    }
    let ghost t = s@.subrange(i as int, n as int);
    proof {
        assert forall|k: int| (j - i) <= k < t.len() implies in_trim_set(set, #[trigger] t[k]) by {
            assert(t[k] == s@[k + i]);
        }
        if j > i {
            assert(t[j - i - 1] == s@[j - 1]);
        }
        lemma_trim_end(t, set, (j - i) as int);
    }
    let mut r: Vec<char> = Vec::new();
    let mut k: usize = i;
    while k < j
        invariant
            i <= k <= j <= n,
            n == s.len(),
            r@ == s@.subrange(i as int, k as int),
        decreases j - k,
    {
        r.push(s[k]);
        k = k + 1;
        assert(r@ =~= s@.subrange(i as int, k as int));
    }
    assert(t.subrange(0, (j - i) as int) =~= s@.subrange(i as int, j as int));
    r
}

/// An ASCII upper-case letter mapped to lower case; every other character unchanged.
pub open spec fn ascii_lower(c: char) -> char {
    if 'A' <= c && c <= 'Z' {
        ((c as u32) + 32) as char
    } else {
        c
    }
}

/// Every character of `s` through [`ascii_lower`], as `to_ascii_lowercase` does.
pub open spec fn ascii_lowercase(s: Seq<char>) -> Seq<char> {
    s.map_values(|c: char| ascii_lower(c))
}

/// Appends `s` with ASCII letters lowered.
pub fn push_ascii_lowercase(out: &mut Vec<char>, s: &[char])
    ensures
        final(out)@ == old(out)@ + ascii_lowercase(s@),
{
    let mut i: usize = 0;
    while i < s.len()
        invariant
            i <= s.len(),
            out@ == old(out)@ + ascii_lowercase(s@.subrange(0, i as int)),
        decreases s.len() - i,
    {
        let c = s[i];
        let l = if 'A' <= c && c <= 'Z' {
            ((c as u8) + 32) as char
        } else {
            c
        };
        out.push(l);
        i = i + 1;
        assert(out@ =~= old(out)@ + ascii_lowercase(s@.subrange(0, i as int)));
    }
    assert(s@.subrange(0, i as int) =~= s@);
}


/// Trimming keeps a middle part of `s`: everything before it and after it is
/// in `set`, and its own ends are not.
pub proof fn lemma_trim_shape(s: Seq<char>, set: TrimSet)
    ensures
        exists|i: int, j: int|
            #![trigger s.subrange(i, j)]
            0 <= i <= j <= s.len() && trim(s, set) == s.subrange(i, j) && (forall|k: int|
                0 <= k < i ==> in_trim_set(set, #[trigger] s[k])) && (forall|k: int|
                j <= k < s.len() ==> in_trim_set(set, #[trigger] s[k])) && (i < j ==> !in_trim_set(set, s[i])
                && !in_trim_set(set, s[j - 1])),
{
    let i = lemma_trim_start_index(s, set);
    let t = s.subrange(i, s.len() as int);
    let j = lemma_trim_end_index(t, set);
    assert(trim(s, set) == t.subrange(0, j));
    assert(t.subrange(0, j) =~= s.subrange(i, i + j));
    assert forall|k: int| i + j <= k < s.len() implies in_trim_set(set, #[trigger] s[k]) by {
        assert(s[k] == t[k - i]);
    }
    if i < i + j {
        assert(s[i] == t[0]);
        assert(s[i + j - 1] == t[j - 1]);
    }
    assert(s.subrange(i, i + j) == s.subrange(i, i + j));
}

proof fn lemma_trim_start_index(s: Seq<char>, set: TrimSet) -> (i: int)
    ensures
        0 <= i <= s.len(),
        trim_start(s, set) == s.subrange(i, s.len() as int),
        forall|k: int| 0 <= k < i ==> in_trim_set(set, #[trigger] s[k]),
        i < s.len() ==> !in_trim_set(set, s[i]),
    decreases s.len(),
{
    if s.len() > 0 && in_trim_set(set, s[0]) {
        let t = s.drop_first();
        let i0 = lemma_trim_start_index(t, set);
        assert(t.subrange(i0, t.len() as int) =~= s.subrange(i0 + 1, s.len() as int));
        assert forall|k: int| 0 <= k < i0 + 1 implies in_trim_set(set, #[trigger] s[k]) by {
            if k > 0 {
                assert(s[k] == t[k - 1]);
            }
        }
        if i0 < t.len() {
            assert(s[i0 + 1] == t[i0]);
        }
        i0 + 1
    } else {
        assert(s.subrange(0, s.len() as int) =~= s);
        0
    }
}

proof fn lemma_trim_end_index(s: Seq<char>, set: TrimSet) -> (j: int)
    ensures
        0 <= j <= s.len(),
        trim_end(s, set) == s.subrange(0, j),
        forall|k: int| j <= k < s.len() ==> in_trim_set(set, #[trigger] s[k]),
        j > 0 ==> !in_trim_set(set, s[j - 1]),
    decreases s.len(),
{
    if s.len() > 0 && in_trim_set(set, s.last()) {
        let t = s.drop_last();
        let j0 = lemma_trim_end_index(t, set);
        assert(t.subrange(0, j0) =~= s.subrange(0, j0));
        assert forall|k: int| j0 <= k < s.len() implies in_trim_set(set, #[trigger] s[k]) by {
            if k < t.len() {
                assert(s[k] == t[k]);
            }
        }
        if j0 > 0 {
            assert(s[j0 - 1] == t[j0 - 1]);
        }
        j0
    } else {
        assert(s.subrange(0, s.len() as int) =~= s);
        s.len() as int
    }
}

/// A sequence whose ends hold nothing from `set` is its own trim.
pub proof fn lemma_trim_none(s: Seq<char>, set: TrimSet)
    requires
        s.len() > 0 ==> !in_trim_set(set, s[0]) && !in_trim_set(set, s[s.len() - 1]),
    ensures
        trim(s, set) == s,
{
    lemma_trim_start(s, set, 0);
    assert(s.subrange(0, s.len() as int) =~= s);
    lemma_trim_end(s, set, s.len() as int);
}

/// The file name of a path, as `Path::file_name` finds it (the final component,
/// none when the path ends in `..` or is a root or empty).
pub uninterp spec fn spec_path_file_name(path: Seq<char>) -> Option<Seq<char>>;

/// Calls `Path::file_name` on a UTF-8 path; the file name of a UTF-8 path is UTF-8.
#[verifier::external_body]
pub fn path_file_name(path: &str) -> (r: Option<String>)
    ensures
        r is Some <==> spec_path_file_name(path@) is Some,
        r matches Some(f) ==> f@ == spec_path_file_name(path@).unwrap(),
{
    std::path::Path::new(path).file_name().and_then(|n| n.to_str()).map(|n| n.to_owned())
}


/// The path `base` joined with `part`, as `Path::join` builds it.
pub uninterp spec fn spec_path_join(base: Seq<char>, part: Seq<char>) -> Seq<char>;

/// Calls `Path::join`; joining UTF-8 paths gives a UTF-8 path.
#[verifier::external_body]
pub fn path_join(base: &str, part: &str) -> (r: String)
    ensures
        r@ == spec_path_join(base@, part@),
{
    std::path::Path::new(base).join(part).to_string_lossy().into_owned()
}

/// The parent of a path, as `Path::parent` finds it (none for a root or an
/// empty path).
pub uninterp spec fn spec_path_parent(path: Seq<char>) -> Option<Seq<char>>;

/// Calls `Path::parent`; the parent of a UTF-8 path is UTF-8.
#[verifier::external_body]
pub fn path_parent(path: &str) -> (r: Option<String>)
    ensures
        r is Some <==> spec_path_parent(path@) is Some,
        r matches Some(p) ==> p@ == spec_path_parent(path@).unwrap(),
{
    std::path::Path::new(path).parent().map(|p| p.to_string_lossy().into_owned())
}

/// Calls `Path::exists`. Whether a file is there depends on the disk at the
/// moment of the call, so nothing is stated of the result.
#[verifier::external_body]
pub fn path_exists(path: &str) -> bool {
    std::path::Path::new(path).exists()
}


/// A word without white space at its ends, followed by a newline, trims to
/// the word.
pub proof fn lemma_trim_newline(w: Seq<char>)
    requires
        w.len() > 0,
        !char_is_whitespace(w[0]),
        !char_is_whitespace(w[w.len() - 1]),
    ensures
        trim(w + "\n"@, TrimSet::Whitespace) == w,
{
    reveal_strlit("\n");
    let m = w + "\n"@;
    lemma_trim_start(m, TrimSet::Whitespace, 0);
    assert(m.subrange(0, m.len() as int) =~= m);
    lemma_trim_end(m, TrimSet::Whitespace, w.len() as int);
    assert(m.subrange(0, w.len() as int) =~= w);
}

/// Lexicographic order of character sequences by code point, the order of
/// `String`'s `Ord` (UTF-8 byte order agrees with code point order).
pub open spec fn lex_le(a: Seq<char>, b: Seq<char>) -> bool
    decreases a.len(),
{
    if a.len() == 0 {
        true
    } else if b.len() == 0 {
        false
    } else if a[0] != b[0] {
        a[0] < b[0]
    } else {
        lex_le(a.drop_first(), b.drop_first())
    }
}

pub proof fn lemma_lex_total(a: Seq<char>, b: Seq<char>)
    ensures
        lex_le(a, b) || lex_le(b, a),
    decreases a.len(),
{
    if a.len() > 0 && b.len() > 0 && a[0] == b[0] {
        lemma_lex_total(a.drop_first(), b.drop_first());
    }
}

pub proof fn lemma_lex_reflexive(a: Seq<char>)
    ensures
        lex_le(a, a),
    decreases a.len(),
{
    if a.len() > 0 {
        lemma_lex_reflexive(a.drop_first());
    }
}

pub proof fn lemma_lex_antisymmetric(a: Seq<char>, b: Seq<char>)
    requires
        lex_le(a, b),
        lex_le(b, a),
    ensures
        a == b,
    decreases a.len(),
{
    if a.len() > 0 && b.len() > 0 {
        if a[0] == b[0] {
            lemma_lex_antisymmetric(a.drop_first(), b.drop_first());
            assert(a =~= seq![a[0]] + a.drop_first());
            assert(b =~= seq![b[0]] + b.drop_first());
        }
    } else {
        assert(a =~= b);
    }
}

pub proof fn lemma_lex_transitive(a: Seq<char>, b: Seq<char>, c: Seq<char>)
    requires
        lex_le(a, b),
        lex_le(b, c),
    ensures
        lex_le(a, c),
    decreases a.len(),
{
    if a.len() > 0 && b.len() > 0 && c.len() > 0 && a[0] == b[0] && b[0] == c[0] {
        lemma_lex_transitive(a.drop_first(), b.drop_first(), c.drop_first());
    }
}

pub fn lex_le_chars(a: &[char], b: &[char]) -> (r: bool)
    ensures
        r == lex_le(a@, b@),
{
    let mut i: usize = 0;
    assert(a@.subrange(0, a@.len() as int) =~= a@);
    assert(b@.subrange(0, b@.len() as int) =~= b@);
    loop
        invariant
            i <= a@.len(),
            i <= b@.len(),
            lex_le(a@, b@) == lex_le(a@.subrange(i as int, a@.len() as int), b@.subrange(i as int, b@.len() as int)),
        decreases a@.len() - i,
    {
        let ghost x = a@.subrange(i as int, a@.len() as int);
        let ghost y = b@.subrange(i as int, b@.len() as int);
        if i == a.len() {
            return true;
        }
        if i == b.len() {
            return false;
        }
        if a[i] != b[i] {
            assert(x[0] == a@[i as int] && y[0] == b@[i as int]);
            return a[i] < b[i];
        }
        assert(x.drop_first() =~= a@.subrange(i + 1, a@.len() as int));
        assert(y.drop_first() =~= b@.subrange(i + 1, b@.len() as int));
        i = i + 1;
    }
}

/// An ASCII decimal digit.
pub open spec fn is_ascii_digit(c: char) -> bool {
    '0' <= c && c <= '9'
}

/// Every character is an ASCII decimal digit.
pub open spec fn all_digits(ds: Seq<char>) -> bool {
    forall|i: int| 0 <= i < ds.len() ==> is_ascii_digit(#[trigger] ds[i])
}

/// The value of a string of decimal digits.
pub open spec fn digits_value(ds: Seq<char>) -> int
    decreases ds.len(),
{
    if ds.len() == 0 {
        0
    } else {
        digits_value(ds.drop_last()) * 10 + (ds.last() as int - '0' as int)
    }
}

/// The `i32` that `str::parse::<i32>` reads from `s`: an optional `+` or `-`,
/// then one or more ASCII digits, with a value that fits.
pub open spec fn parse_i32_spec(s: Seq<char>) -> Option<i32> {
    let negative = s.len() > 0 && s[0] == '-';
    let body = if s.len() > 0 && (s[0] == '-' || s[0] == '+') {
        s.drop_first()
    } else {
        s
    };
    if body.len() == 0 || !all_digits(body) {
        None
    } else {
        let v = if negative {
            -digits_value(body)
        } else {
            digits_value(body)
        };
        if i32::MIN <= v <= i32::MAX {
            Some(v as i32)
        } else {
            None
        }
    }
}

proof fn lemma_digits_value_nonneg(ds: Seq<char>)
    requires
        all_digits(ds),
    ensures
        digits_value(ds) >= 0,
    decreases ds.len(),
{
    if ds.len() > 0 {
        assert(is_ascii_digit(ds[ds.len() - 1]));
        lemma_digits_value_nonneg(ds.drop_last());
    }
}

/// Reads an `i32` as `str::parse::<i32>` does.
pub fn parse_i32(s: &[char]) -> (r: Option<i32>)
    ensures
        r == parse_i32_spec(s@),
{
    let cap: u64 = 2147483649;
    let negative = s.len() > 0 && s[0] == '-';
    let start: usize = if s.len() > 0 && (s[0] == '-' || s[0] == '+') {
        1
    } else {
        0
    };
    let ghost body = if s@.len() > 0 && (s@[0] == '-' || s@[0] == '+') {
        s@.drop_first()
    } else {
        s@
    };
    assert(body =~= s@.subrange(start as int, s@.len() as int));
    if start == s.len() {
        return None;
    }
    let mut magnitude: u64 = 0;
    let mut i: usize = start;
    while i < s.len()
        invariant
            cap == 2147483649,
            start <= i <= s@.len(),
            body == s@.subrange(start as int, s@.len() as int),
            body == (if s@.len() > 0 && (s@[0] == '-' || s@[0] == '+') {
                s@.drop_first()
            } else {
                s@
            }),
            negative == (s@.len() > 0 && s@[0] == '-'),
            all_digits(s@.subrange(start as int, i as int)),
            magnitude == if digits_value(s@.subrange(start as int, i as int)) >= cap {
                cap as int
            } else {
                digits_value(s@.subrange(start as int, i as int))
            },
        decreases s@.len() - i,
    {
        let c = s[i];
        if c < '0' || c > '9' {
            assert(!is_ascii_digit(body[i - start]));
            return None;
        }
        let ghost prefix = s@.subrange(start as int, i + 1);
        proof {
            assert(prefix.drop_last() =~= s@.subrange(start as int, i as int));
            assert(prefix.last() == c);
            lemma_digits_value_nonneg(s@.subrange(start as int, i as int));
            assert forall|k: int| 0 <= k < prefix.len() implies is_ascii_digit(#[trigger] prefix[k]) by {
                if k < prefix.len() - 1 {
                    assert(prefix[k] == s@.subrange(start as int, i as int)[k]);
                }
            }
        }
        let d: u64 = (c as u32 - '0' as u32) as u64;
        if magnitude < cap {
            magnitude = magnitude * 10 + d;
            if magnitude > cap {
                magnitude = cap;
            }
        }
        i = i + 1;
    }
    proof {
        assert(s@.subrange(start as int, i as int) =~= body);
        lemma_digits_value_nonneg(body);
    }
    if negative {
        if magnitude > 2147483648 {
            None
        } else {
            Some((0i64 - magnitude as i64) as i32)
        }
    } else {
        if magnitude > 2147483647 {
            None
        } else {
            Some(magnitude as i32)
        }
    }
}

/// A number written by [`decimal`] is digits only, and reads back as itself.
pub proof fn lemma_decimal_reads_back(n: nat)
    ensures
        decimal(n).len() > 0,
        all_digits(decimal(n)),
        digits_value(decimal(n)) == n,
    decreases n,
{
    if n < 10 {
        let d = decimal(n);
        assert(d.drop_last() =~= Seq::<char>::empty());
        assert(d.last() == digit_char(n));
        assert(digit_char(n) as int == 48 + n);
        assert('0' as int == 48);
        assert(digits_value(d) == digits_value(d.drop_last()) * 10 + (d.last() as int - '0' as int));
        assert(digits_value(Seq::<char>::empty()) == 0);
    } else {
        lemma_decimal_reads_back(n / 10);
        let d = decimal(n);
        assert(d.drop_last() =~= decimal(n / 10));
        assert(d.last() == digit_char(n % 10));
        assert(digit_char(n % 10) as int == 48 + n % 10);
        assert('0' as int == 48);
        assert(digits_value(d) == digits_value(d.drop_last()) * 10 + (d.last() as int - '0' as int));
        assert forall|i: int| 0 <= i < d.len() implies is_ascii_digit(#[trigger] d[i]) by {
            if i < d.len() - 1 {
                assert(d[i] == decimal(n / 10)[i]);
            }
        }
        assert((n / 10) * 10 + n % 10 == n) by (nonlinear_arith);
    }
}

} // verus!
