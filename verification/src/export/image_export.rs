//! Export naming: file names derived from the session name and time, and
//! collision-free destinations.
use vstd::prelude::*;

use crate::text::{
    lemma_trim_none, lemma_trim_shape, chars_of, decimal, in_trim_set, is_whitespace, path_exists, path_join, push_decimal, push_str,
    spec_path_join, string_of, trim, trim_chars, char_is_whitespace, TrimSet,
};

verus! {

#[derive(Debug, Clone, PartialEq, Eq, Structural)]
pub struct ExportSize {
    pub width: u32,
    pub height: u32,
}

#[derive(Debug, Clone, PartialEq, Eq, Structural)]
pub enum ExportBackground {
    Solid,
    Transparent,
}

/// Where and how a PNG export is written. Paths are UTF-8 text; the
/// timestamp is in whole seconds since the Unix epoch (zero for earlier times).
#[derive(Debug, Clone)]
pub struct ExportOptions {
    pub destination: Option<String>,
    pub default_directory: String,
    pub session_name: Option<String>,
    pub timestamp: u64,
    pub custom_size: Option<ExportSize>,
    pub background: ExportBackground,
}

pub open spec fn is_ascii_alphanumeric(c: char) -> bool {
    ('0' <= c && c <= '9') || ('a' <= c && c <= 'z') || ('A' <= c && c <= 'Z')
}

/// Characters kept as they are in a file name component.
pub open spec fn kept_in_filename(c: char) -> bool {
    is_ascii_alphanumeric(c) || c == '-' || c == '_'
}

/// Characters that separate words: each run of them becomes one underscore.
pub open spec fn filename_separator(c: char) -> bool {
    char_is_whitespace(c) || c == '.' || c == '/' || c == '\\' || c == ':' || c == '*' || c == '?'
        || c == '"' || c == '<' || c == '>' || c == '|'
}

/// The component built from `s` before trimming: kept characters copied,
/// separators collapsed to a single underscore, everything else dropped.
pub open spec fn sanitized_raw(s: Seq<char>) -> Seq<char>
    decreases s.len(),
{
    if s.len() == 0 {
        Seq::empty()
    } else {
        let prev = sanitized_raw(s.drop_last());
        let c = s.last();
        if kept_in_filename(c) {
            prev.push(c)
        } else if filename_separator(c) {
            if prev.len() > 0 && prev.last() == '_' {
                prev
            } else {
                prev.push('_')
            }
        } else {
            prev
        }
    }
}

/// A file name component made from free text: see [`sanitized_raw`], with
/// leading and trailing underscores removed.
pub open spec fn sanitized(s: Seq<char>) -> Seq<char> {
    trim(sanitized_raw(s), TrimSet::Only('_'))
}

/// The characters that carry a component's words: ASCII letters and digits,
/// and hyphens.
pub open spec fn word_char(c: char) -> bool {
    is_ascii_alphanumeric(c) || c == '-'
}

/// The word characters of `s`, in order.
pub open spec fn words_of(s: Seq<char>) -> Seq<char> {
    s.filter(|c: char| word_char(c))
}

proof fn lemma_raw_is_kept(s: Seq<char>)
    ensures
        forall|k: int| 0 <= k < sanitized_raw(s).len() ==> kept_in_filename(#[trigger] sanitized_raw(s)[k]),
    decreases s.len(),
{
    if s.len() > 0 {
        let prev = sanitized_raw(s.drop_last());
        lemma_raw_is_kept(s.drop_last());
        let r = sanitized_raw(s);
        assert forall|k: int| 0 <= k < r.len() implies kept_in_filename(#[trigger] r[k]) by {
            if k < prev.len() {
                assert(r[k] == prev[k]);
            }
        }
    }
}

proof fn lemma_raw_keeps_words(s: Seq<char>)
    ensures
        words_of(sanitized_raw(s)) == words_of(s),
    decreases s.len(),
{
    if s.len() > 0 {
        let p = |c: char| word_char(c);
        let prev = sanitized_raw(s.drop_last());
        lemma_raw_keeps_words(s.drop_last());
        assert(s =~= s.drop_last().push(s.last()));
        s.drop_last().lemma_filter_push(s.last(), p);
        prev.lemma_filter_push(s.last(), p);
        prev.lemma_filter_push('_', p);
    }
}

proof fn lemma_raw_of_kept(t: Seq<char>)
    requires
        forall|k: int| 0 <= k < t.len() ==> kept_in_filename(#[trigger] t[k]),
    ensures
        sanitized_raw(t) == t,
    decreases t.len(),
{
    if t.len() > 0 {
        lemma_raw_of_kept(t.drop_last());
        assert(t.drop_last().push(t.last()) =~= t);
    }
}

/// A sanitized file name component holds only letters, digits, hyphens and
/// underscores, neither starts nor ends with an underscore, keeps the
/// letters, digits and hyphens of the text in their order, and is its own
/// sanitized form.
pub proof fn lemma_sanitized_component(s: Seq<char>)
    ensures
        forall|k: int| 0 <= k < sanitized(s).len() ==> kept_in_filename(#[trigger] sanitized(s)[k]),
        sanitized(s).len() > 0 ==> sanitized(s)[0] != '_' && sanitized(s).last() != '_',
        words_of(sanitized(s)) == words_of(s),
        sanitized(sanitized(s)) == sanitized(s),
{
    let raw = sanitized_raw(s);
    let t = sanitized(s);
    lemma_raw_is_kept(s);
    lemma_raw_keeps_words(s);
    lemma_trim_shape(raw, TrimSet::Only('_'));
    let (i, j) = choose|i: int, j: int|
        #![trigger raw.subrange(i, j)]
        0 <= i <= j <= raw.len() && trim(raw, TrimSet::Only('_')) == raw.subrange(i, j) && (forall|k: int|
            0 <= k < i ==> in_trim_set(TrimSet::Only('_'), #[trigger] raw[k])) && (forall|k: int|
            j <= k < raw.len() ==> in_trim_set(TrimSet::Only('_'), #[trigger] raw[k])) && (i < j ==> !in_trim_set(
            TrimSet::Only('_'),
            raw[i],
        ) && !in_trim_set(TrimSet::Only('_'), raw[j - 1]));
    assert(t == raw.subrange(i, j));
    assert forall|k: int| 0 <= k < t.len() implies kept_in_filename(#[trigger] t[k]) by {
        assert(t[k] == raw[i + k]);
    }
    // Words: the trimmed ends hold only underscores.
    let p = |c: char| word_char(c);
    let front = raw.subrange(0, i);
    let back = raw.subrange(j, raw.len() as int);
    assert(raw =~= front + t + back);
    Seq::filter_distributes_over_add(front + t, back, p);
    Seq::filter_distributes_over_add(front, t, p);
    lemma_underscores_have_no_words(front);
    lemma_underscores_have_no_words(back);
    assert(words_of(t) =~= words_of(raw));
    // Idempotence.
    lemma_raw_of_kept(t);
    if t.len() > 0 {
        assert(t[0] == raw[i]);
        assert(t.last() == raw[j - 1]);
    }
    lemma_trim_none(t, TrimSet::Only('_'));
}

proof fn lemma_underscores_have_no_words(u: Seq<char>)
    requires
        forall|k: int| 0 <= k < u.len() ==> in_trim_set(TrimSet::Only('_'), #[trigger] u[k]),
    ensures
        words_of(u) == Seq::<char>::empty(),
    decreases u.len(),
{
    if u.len() > 0 {
        let p = |c: char| word_char(c);
        lemma_underscores_have_no_words(u.drop_last());
        assert(u.drop_last().push(u.last()) =~= u);
        u.drop_last().lemma_filter_push(u.last(), p);
        assert(in_trim_set(TrimSet::Only('_'), u[u.len() - 1]));
    }
}

/// The characters that break words in a file name component: white space
/// and `. / \\ : * ? " < > |`.
pub open spec fn word_break(c: char) -> bool {
    char_is_whitespace(c) || c == '.' || c == '/' || c == '\\' || c == ':' || c == '*' || c == '?' || c == '"'
        || c == '<' || c == '>' || c == '|'
}

/// Text sanitized so far stays as it is when more text follows.
proof fn lemma_raw_extends(s: Seq<char>, t: Seq<char>)
    ensures
        sanitized_raw(s).len() <= sanitized_raw(s + t).len(),
        sanitized_raw(s + t).subrange(0, sanitized_raw(s).len() as int) == sanitized_raw(s),
    decreases t.len(),
{
    if t.len() == 0 {
        assert(s + t =~= s);
        assert(sanitized_raw(s).subrange(0, sanitized_raw(s).len() as int) =~= sanitized_raw(s));
    } else {
        lemma_raw_extends(s, t.drop_last());
        assert((s + t).drop_last() =~= s + t.drop_last());
        let prev = sanitized_raw(s + t.drop_last());
        let cur = sanitized_raw(s + t);
        assert(cur.subrange(0, sanitized_raw(s).len() as int) =~= prev.subrange(0, sanitized_raw(s).len() as int));
    }
}

proof fn lemma_has_word_char(x: Seq<char>)
    requires
        words_of(x).len() > 0,
    ensures
        exists|k: int| 0 <= k < x.len() && word_char(#[trigger] x[k]),
{
    let p = |c: char| word_char(c);
    let e = x.filter(p)[0];
    x.lemma_filter_pred(p, 0);
    assert(x.filter(p).contains(e));
    x.lemma_filter_contains_rev(p, e);
    let k = choose|k: int| 0 <= k < x.len() && x[k] == e;
    assert(word_char(x[k]));
}

/// A word break between two pieces of text that both hold letters, digits
/// or hyphens keeps them apart: the sanitized whole starts with the first
/// piece sanitized and then an underscore, so words separated by a space, a
/// dot or another break never run together.
pub proof fn lemma_word_breaks_keep_words_apart(a: Seq<char>, c: char, b: Seq<char>)
    requires
        word_break(c),
        words_of(a).len() > 0,
        words_of(b).len() > 0,
    ensures
        sanitized(a).len() < sanitized(a.push(c) + b).len(),
        sanitized(a.push(c) + b).subrange(0, sanitized(a).len() as int) == sanitized(a),
        sanitized(a.push(c) + b)[sanitized(a).len() as int] == '_',
{
    let wp = |x: char| word_char(x);
    let p = sanitized_raw(a);
    let q = sanitized_raw(a.push(c));
    let whole = a.push(c) + b;
    let r = sanitized_raw(whole);
    // The raw forms extend one another.
    assert(a.push(c) =~= a + seq![c]);
    lemma_raw_extends(a, seq![c]);
    lemma_raw_extends(a.push(c), b);
    assert(a.push(c).drop_last() =~= a);
    assert(!kept_in_filename(c));
    assert(filename_separator(c));
    assert(q =~= (if p.len() > 0 && p.last() == '_' { p } else { p.push('_') }));
    // The first piece leaves a word character in its raw form.
    lemma_raw_keeps_words(a);
    lemma_has_word_char(p);
    let kp = choose|k: int| 0 <= k < p.len() && word_char(#[trigger] p[k]);
    // And so does the rest of the whole after the raw form of `a` and the break.
    let rest = r.subrange(q.len() as int, r.len() as int);
    assert(r =~= q + rest);
    lemma_raw_keeps_words(whole);
    lemma_raw_keeps_words(a.push(c));
    Seq::filter_distributes_over_add(a.push(c), b, wp);
    Seq::filter_distributes_over_add(q, rest, wp);
    let x = words_of(q);
    assert(words_of(r) == x + words_of(rest));
    assert(words_of(r) == x + words_of(b));
    assert(words_of(rest) =~= (x + words_of(rest)).subrange(x.len() as int, words_of(r).len() as int));
    assert(words_of(b) =~= (x + words_of(b)).subrange(x.len() as int, words_of(r).len() as int));
    lemma_has_word_char(rest);
    let kr = choose|k: int| 0 <= k < rest.len() && word_char(#[trigger] rest[k]);
    assert(r[q.len() + kr] == rest[kr]);
    assert forall|k: int| 0 <= k < p.len() implies #[trigger] r[k] == p[k] by {
        assert(r.subrange(0, p.len() as int)[k] == r[k]);
    }
    // The trims of both.
    lemma_trim_shape(p, TrimSet::Only('_'));
    let (i, j) = choose|i: int, j: int|
        #![trigger p.subrange(i, j)]
        0 <= i <= j <= p.len() && trim(p, TrimSet::Only('_')) == p.subrange(i, j) && (forall|k: int|
            0 <= k < i ==> in_trim_set(TrimSet::Only('_'), #[trigger] p[k])) && (forall|k: int|
            j <= k < p.len() ==> in_trim_set(TrimSet::Only('_'), #[trigger] p[k])) && (i < j ==> !in_trim_set(
            TrimSet::Only('_'),
            p[i],
        ) && !in_trim_set(TrimSet::Only('_'), p[j - 1]));
    lemma_trim_shape(r, TrimSet::Only('_'));
    let (i2, j2) = choose|i2: int, j2: int|
        #![trigger r.subrange(i2, j2)]
        0 <= i2 <= j2 <= r.len() && trim(r, TrimSet::Only('_')) == r.subrange(i2, j2) && (forall|k: int|
            0 <= k < i2 ==> in_trim_set(TrimSet::Only('_'), #[trigger] r[k])) && (forall|k: int|
            j2 <= k < r.len() ==> in_trim_set(TrimSet::Only('_'), #[trigger] r[k])) && (i2 < j2 ==> !in_trim_set(
            TrimSet::Only('_'),
            r[i2],
        ) && !in_trim_set(TrimSet::Only('_'), r[j2 - 1]));
    // A word character is never an underscore, so it lies inside each trim.
    assert(!in_trim_set(TrimSet::Only('_'), p[kp]));
    assert(i <= kp < j);
    assert(!in_trim_set(TrimSet::Only('_'), r[q.len() + kr]));
    assert(q.len() + kr < j2);
    assert(r[kp] == p[kp]);
    assert(i2 <= kp);
    if i2 < i {
        assert(r[i2] == p[i2]);
    }
    if i < i2 {
        assert(r[i] == p[i]);
    }
    assert(i2 == i);
    // After the first piece's trim comes an underscore.
    if j < p.len() {
        assert(r[j] == p[j]);
    } else {
        assert(p[j - 1] != '_');
        assert(q[p.len() as int] == '_');
        assert(r.subrange(0, q.len() as int)[p.len() as int] == r[p.len() as int]);
    }
    assert(r[j] == '_');
    let t = r.subrange(i2, j2);
    assert(t.subrange(0, j - i) =~= p.subrange(i, j)) by {
        assert forall|k: int| 0 <= k < j - i implies t[k] == p[i + k] by {
            assert(r[i + k] == p[i + k]);
        }
    }
    assert(t[j - i] == r[j]);
}

/// Turns free text into a safe file name component.
pub fn sanitize_filename_component(input: &str) -> (r: String)
    ensures
        r@ == sanitized(input@),
{
    let cs = chars_of(input);
    let mut out: Vec<char> = Vec::new();
    let mut i: usize = 0;
    while i < cs.len()
        invariant
            cs@ == input@,
            i <= cs@.len(),
            out@ == sanitized_raw(input@.subrange(0, i as int)),
        decreases cs@.len() - i,
    {
        let ch = cs[i];
        let alnum = ('0' <= ch && ch <= '9') || ('a' <= ch && ch <= 'z') || ('A' <= ch && ch <= 'Z');
        assert(input@.subrange(0, i + 1).drop_last() =~= input@.subrange(0, i as int));
        if alnum || ch == '-' || ch == '_' {
            out.push(ch);
        } else if is_whitespace(ch) || ch == '.' || ch == '/' || ch == '\\' || ch == ':' || ch == '*'
            || ch == '?' || ch == '"' || ch == '<' || ch == '>' || ch == '|' {
            let ends_with_underscore = out.len() > 0 && out[out.len() - 1] == '_';
            if !ends_with_underscore {
                out.push('_');
            }
        }
        i = i + 1;
    }
    assert(input@.subrange(0, i as int) =~= input@);
    let t = trim_chars(out.as_slice(), TrimSet::Only('_'));
    string_of(t.as_slice())
}

/// The name of a session in an export file name: its sanitized name, or
/// `session` when it has none or nothing survives sanitizing.
pub open spec fn export_session_name(o: Option<String>) -> Seq<char> {
    match o {
        Some(n) => if sanitized(n@).len() > 0 {
            sanitized(n@)
        } else {
            "session"@
        },
        None => "session"@,
    }
}

/// The stem of an export file: the session name, an underscore and the
/// timestamp in seconds.
pub fn base_filename(options: &ExportOptions) -> (r: String)
    ensures
        r@ == export_session_name(options.session_name) + "_"@ + decimal(options.timestamp as nat),
{
    let mut out: Vec<char> = Vec::new();
    let name = match &options.session_name {
        Some(n) => {
            let s = sanitize_filename_component(n.as_str());
            if chars_of(s.as_str()).len() > 0 {
                s
            } else {
                "session".to_owned()
            }
        },
        None => "session".to_owned(),
    };
    push_str(&mut out, name.as_str());
    push_str(&mut out, "_");
    push_decimal(&mut out, options.timestamp);
    string_of(out.as_slice())
}

/// The `n`th file name tried for a stem: `stem.ext`, then `stem-1.ext`,
/// `stem-2.ext` and so on.
pub open spec fn candidate_filename(stem: Seq<char>, extension: Seq<char>, n: nat) -> Seq<char> {
    if n == 0 {
        stem + "."@ + extension
    } else {
        stem + "-"@ + decimal(n) + "."@ + extension
    }
}

fn candidate(stem: &str, extension: &str, n: u64) -> (r: String)
    ensures
        r@ == candidate_filename(stem@, extension@, n as nat),
{
    let mut out: Vec<char> = Vec::new();
    push_str(&mut out, stem);
    if n != 0 {
        push_str(&mut out, "-");
        push_decimal(&mut out, n);
    }
    push_str(&mut out, ".");
    push_str(&mut out, extension);
    string_of(out.as_slice())
}

/// The position of the first answer that says a candidate is free.
pub open spec fn first_free(taken: Seq<bool>) -> Option<nat>
    decreases taken.len(),
{
    if taken.len() == 0 {
        None
    } else {
        match first_free(taken.drop_last()) {
            Some(n) => Some(n),
            None => if taken.last() {
                None
            } else {
                Some((taken.len() - 1) as nat)
            },
        }
    }
}

proof fn lemma_first_free_all_taken(taken: Seq<bool>)
    requires
        forall|j: int| 0 <= j < taken.len() ==> #[trigger] taken[j],
    ensures
        first_free(taken) is None,
    decreases taken.len(),
{
    if taken.len() > 0 {
        lemma_first_free_all_taken(taken.drop_last());
    }
}

/// Given, for the candidates `0, 1, ...` in turn, whether each is taken,
/// the first that is free, if any.
pub fn first_free_candidate(taken: &[bool]) -> (r: Option<usize>)
    ensures
        match first_free(taken@) {
            Some(n) => r == Some(n as usize),
            None => r is None,
        },
{
    let mut i: usize = 0;
    while i < taken.len()
        invariant
            i <= taken@.len(),
            forall|j: int| 0 <= j < i ==> #[trigger] taken@[j],
        decreases taken@.len() - i,
    {
        if !taken[i] {
            proof {
                lemma_first_free_all_taken(taken@.take(i as int));
                assert(taken@.take(i + 1).drop_last() =~= taken@.take(i as int));
                lemma_first_free_prefix(taken@, i as int);
            }
            return Some(i);
        }
        i = i + 1;
    }
    proof {
        lemma_first_free_all_taken(taken@);
    }
    None
}

/// Once the answers up to `i` hold their first free one at `i`, later
/// answers do not change it.
proof fn lemma_first_free_prefix(taken: Seq<bool>, i: int)
    requires
        0 <= i < taken.len(),
        first_free(taken.take(i + 1)) == Some(i as nat),
    ensures
        first_free(taken) == Some(i as nat),
    decreases taken.len(),
{
    if taken.len() > i + 1 {
        assert(taken.drop_last().take(i + 1) =~= taken.take(i + 1));
        lemma_first_free_prefix(taken.drop_last(), i);
    } else {
        assert(taken.take(i + 1) =~= taken);
    }
}

/// The `k`th path tried for a stem in `dir`.
pub open spec fn candidate_path(dir: Seq<char>, stem: Seq<char>, extension: Seq<char>, k: nat) -> Seq<char> {
    spec_path_join(dir, candidate_filename(stem, extension, k))
}

/// One look at the disk: whether `path` exists, added to the record `seen`
/// of the looks made so far.
fn look_up(path: &str, Ghost(seen): Ghost<Seq<(Seq<char>, bool)>>) -> (r: (bool, Ghost<Seq<(Seq<char>, bool)>>))
    ensures
        r.1@ == seen.push((path@, r.0)),
{
    let found = path_exists(path);
    (found, Ghost(seen.push((path@, found))))
}

/// Answers that report every candidate taken but the last, which is free.
proof fn lemma_first_free_is_last(taken: Seq<bool>)
    requires
        taken.len() >= 1,
        !taken.last(),
        forall|k: int| 0 <= k < taken.len() - 1 ==> #[trigger] taken[k],
    ensures
        first_free(taken) == Some((taken.len() - 1) as nat),
{
    lemma_first_free_all_taken(taken.drop_last());
}

/// Looks for a free name in `dir`, recording each look: the candidates are
/// looked at in turn from the first, every one before the result was
/// reported as existing, and the result is the first reported free, or the
/// candidate `i32::MAX`, where the count ends.
fn collision_safe_path_looked(dir: &str, stem: &str, extension: &str) -> (r: (String, Ghost<Seq<(Seq<char>, bool)>>))
    ensures
        1 <= r.1@.len() <= i32::MAX + 1,
        forall|k: int| 0 <= k < r.1@.len() ==> #[trigger] r.1@[k].0 == candidate_path(dir@, stem@, extension@, k as nat),
        forall|k: int| 0 <= k < r.1@.len() - 1 ==> #[trigger] r.1@[k].1,
        r.0@ == r.1@.last().0,
        !r.1@.last().1 || r.1@.len() == i32::MAX + 1,
{
    let mut taken: Vec<bool> = Vec::new();
    let ghost mut looks: Seq<(Seq<char>, bool)> = Seq::empty();
    let mut n: u64 = 0;
    loop
        invariant
            n <= i32::MAX,
            taken@.len() == n,
            looks.len() == n,
            forall|k: int| 0 <= k < n ==> #[trigger] looks[k].0 == candidate_path(dir@, stem@, extension@, k as nat),
            forall|k: int| 0 <= k < n ==> #[trigger] looks[k].1 == taken@[k],
            forall|k: int| 0 <= k < n ==> #[trigger] taken@[k],
            first_free(taken@) is None,
        decreases i32::MAX - n,
    {
        let filename = candidate(stem, extension, n);
        let path = path_join(dir, filename.as_str());
        let ghost before = taken@;
        let (found, Ghost(seen)) = look_up(path.as_str(), Ghost(looks));
        proof {
            looks = seen;
        }
        taken.push(found);
        assert(taken@.drop_last() =~= before);
        match first_free_candidate(taken.as_slice()) {
            Some(k) => {
                assert(k == n);
                return (path, Ghost(looks));
            },
            None => {},
        }
        if n == i32::MAX as u64 {
            return (path, Ghost(looks));
        }
        n = n + 1;
    }
}

/// The first path in `dir` named by [`candidate_filename`] that does not
/// exist yet; see [`first_free_candidate`]. Which names exist depends on the
/// disk; the candidates are looked at in turn, and the result is the first
/// reported free after every earlier one was reported taken, or the
/// candidate `i32::MAX` where the count ends.
pub fn collision_safe_path(dir: &str, stem: &str, extension: &str) -> (r: String)
    ensures
        exists|taken: Seq<bool>|
            {
                &&& taken.len() <= i32::MAX + 1
                &&& match first_free(taken) {
                    Some(n) => r@ == spec_path_join(dir@, candidate_filename(stem@, extension@, n)),
                    None => taken.len() == i32::MAX + 1 && r@ == spec_path_join(
                        dir@,
                        candidate_filename(stem@, extension@, i32::MAX as nat),
                    ),
                }
            },
{
    let (path, Ghost(looks)) = collision_safe_path_looked(dir, stem, extension);
    proof {
        let taken = looks.map_values(|l: (Seq<char>, bool)| l.1);
        assert forall|k: int| 0 <= k < taken.len() - 1 implies #[trigger] taken[k] by {
            assert(looks[k].1);
        }
        if !looks.last().1 {
            lemma_first_free_is_last(taken);
        } else {
            assert forall|k: int| 0 <= k < taken.len() implies #[trigger] taken[k] by {
                if k < taken.len() - 1 {
                    assert(looks[k].1);
                }
            }
            lemma_first_free_all_taken(taken);
        }
        assert(looks[looks.len() - 1].0 == candidate_path(dir@, stem@, extension@, (looks.len() - 1) as nat));
    }
    path
}

} // verus!
