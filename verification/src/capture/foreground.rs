//! Foreground application identity model.
//!
//! Privacy note: the default foreground model intentionally records only process
//! metadata (PID, executable name/path, optional window class, optional display
//! label). It does not collect window titles, typed text, window contents,
//! browser URLs, clicks, or keyboard data.
use vstd::prelude::*;

use crate::text::{
    ascii_lower, ascii_lowercase, char_is_whitespace, in_trim_set, lemma_trim_none, lemma_trim_shape, chars_of, path_file_name, push_ascii_lowercase, spec_path_file_name, str_eq, string_of, trim,
    trim_chars, TrimSet,
};

verus! {

#[derive(Debug, Clone, PartialEq, Eq, Hash)]
pub struct ApplicationIdentity {
    pub process_id: u32,
    pub executable_name: String,
    pub executable_path: Option<String>,
    pub window_class: Option<String>,
}

/// The name that stands for the system or an unknown process.
pub open spec fn unknown_system_name() -> Seq<char> {
    "unknown/system"@
}

/// A name as it is compared: with ASCII letters lowered where names are
/// compared without regard to case (`fold_case`, as on Windows), unchanged
/// elsewhere.
pub open spec fn case_normalized(s: Seq<char>, fold_case: bool) -> Seq<char> {
    if fold_case {
        ascii_lowercase(s)
    } else {
        s
    }
}

/// An executable name as it is stored: trimmed and, unless it is the
/// unknown/system marker, reduced to its file name (when it has one) and
/// brought to the platform's case.
pub open spec fn normalized_executable_name(name: Seq<char>, fold_case: bool) -> Seq<char> {
    let trimmed = trim(name, TrimSet::Whitespace);
    if trimmed == unknown_system_name() {
        trimmed
    } else {
        case_normalized(
            match spec_path_file_name(trimmed) {
                Some(f) => f,
                None => trimmed,
            },
            fold_case,
        )
    }
}

/// A path with every backslash turned into a forward slash.
pub open spec fn forward_slashes(s: Seq<char>) -> Seq<char> {
    s.map_values(|c: char| if c == '\\' { '/' } else { c })
}

/// An executable path as it is stored: trimmed, with forward slashes, in the
/// platform's case.
pub open spec fn normalized_executable_path(path: Seq<char>, fold_case: bool) -> Seq<char> {
    case_normalized(forward_slashes(trim(path, TrimSet::Whitespace)), fold_case)
}

/// A stored executable path is already normalized: normalizing it again
/// changes nothing, and it holds no backslash.
pub proof fn lemma_executable_path_is_normal(path: Seq<char>, fold_case: bool)
    ensures
        normalized_executable_path(normalized_executable_path(path, fold_case), fold_case)
            == normalized_executable_path(path, fold_case),
        forall|k: int|
            0 <= k < normalized_executable_path(path, fold_case).len() ==> #[trigger] normalized_executable_path(
                path,
                fold_case,
            )[k] != '\\',
{
    let t = trim(path, TrimSet::Whitespace);
    let f = forward_slashes(t);
    let x = normalized_executable_path(path, fold_case);
    lemma_trim_shape(path, TrimSet::Whitespace);
    assert(x.len() == t.len());
    assert forall|k: int| 0 <= k < x.len() implies #[trigger] x[k] != '\\' && (char_is_whitespace(x[k])
        <==> char_is_whitespace(t[k])) by {
        assert(f[k] == (if t[k] == '\\' { '/' } else { t[k] }));
        if fold_case {
            assert(x[k] == ascii_lower(f[k]));
        }
    }
    let (i, j) = choose|i: int, j: int|
        #![trigger path.subrange(i, j)]
        0 <= i <= j <= path.len() && trim(path, TrimSet::Whitespace) == path.subrange(i, j) && (forall|k: int|
            0 <= k < i ==> in_trim_set(TrimSet::Whitespace, #[trigger] path[k])) && (forall|k: int|
            j <= k < path.len() ==> in_trim_set(TrimSet::Whitespace, #[trigger] path[k])) && (i < j
            ==> !in_trim_set(TrimSet::Whitespace, path[i]) && !in_trim_set(TrimSet::Whitespace, path[j - 1]));
    if t.len() > 0 {
        assert(t[0] == path[i]);
        assert(t[t.len() - 1] == path[j - 1]);
    }
    lemma_trim_none(x, TrimSet::Whitespace);
    assert(forward_slashes(x) =~= x);
    if fold_case {
        assert forall|k: int| 0 <= k < x.len() implies #[trigger] ascii_lower(x[k]) == x[k] by {
            assert(x[k] == ascii_lower(f[k]));
        }
        assert(ascii_lowercase(x) =~= x);
    }
}

/// An optional label as it is stored: trimmed, and absent when nothing is left.
pub open spec fn normalized_label(value: Seq<char>) -> Option<Seq<char>> {
    let t = trim(value, TrimSet::Whitespace);
    if t.len() == 0 {
        None
    } else {
        Some(t)
    }
}

/// The view of an optional string.
pub open spec fn opt_view(o: Option<String>) -> Option<Seq<char>> {
    match o {
        Some(s) => Some(s@),
        None => None,
    }
}

/// The key under which an application's rules are found: its path when known,
/// else its name.
pub open spec fn identity_key(a: ApplicationIdentity) -> Seq<char> {
    match a.executable_path {
        Some(p) => p@,
        None => a.executable_name@,
    }
}

impl ApplicationIdentity {
    /// An identity with its name, path and window class normalized;
    /// `fold_case` is whether the platform compares names without regard to
    /// case (Windows).
    pub fn new(
        process_id: u32,
        executable_name: &str,
        executable_path: Option<String>,
        window_class: Option<String>,
        fold_case: bool,
    ) -> (a: Self)
        ensures
            a.process_id == process_id,
            a.executable_name@ == normalized_executable_name(executable_name@, fold_case),
            opt_view(a.executable_path) == (match executable_path {
                Some(p) => Some(normalized_executable_path(p@, fold_case)),
                None => None,
            }),
            opt_view(a.window_class) == (match window_class {
                Some(c) => normalized_label(c@),
                None => None,
            }),
    {
        ApplicationIdentity {
            process_id,
            executable_name: normalize_executable_name(executable_name, fold_case),
            executable_path: match executable_path {
                Some(p) => Some(normalize_executable_path(p.as_str(), fold_case)),
                None => None,
            },
            window_class: match window_class {
                Some(c) => normalize_optional_label(c.as_str()),
                None => None,
            },
        }
    }

    /// The identity that stands for the system or an unknown process.
    pub fn unknown() -> (a: Self)
        ensures
            a.process_id == 0,
            a.executable_name@ == unknown_system_name(),
            a.executable_path is None,
            opt_view(a.window_class) == Some("system"@),
    {
        let a = Self::new(0, "unknown/system", None, Some("system".to_owned()), false);
        proof {
            reveal_strlit("unknown/system");
            reveal_strlit("system");
            lemma_trim_plain("unknown/system"@);
            lemma_trim_plain("system"@);
        }
        a
    }

    /// The key under which this application's colour rule is found.
    pub fn stable_key(&self) -> (k: String)
        ensures
            k@ == identity_key(*self),
    {
        match &self.executable_path {
            Some(p) => p.clone(),
            None => self.executable_name.clone(),
        }
    }
}

impl Default for ApplicationIdentity {
    fn default() -> (a: Self)
        ensures
            a.process_id == 0,
            a.executable_name@ == unknown_system_name(),
            a.executable_path is None,
            opt_view(a.window_class) == Some("system"@),
    {
        Self::unknown()
    }
}

/// A string with no whitespace at either end is its own trim.
proof fn lemma_trim_plain(s: Seq<char>)
    requires
        forall|i: int| 0 <= i < s.len() ==> !crate::text::char_is_whitespace(#[trigger] s[i]),
    ensures
        trim(s, TrimSet::Whitespace) == s,
{
    crate::text::lemma_trim_none(s, TrimSet::Whitespace);
}

#[derive(Debug, Clone, PartialEq, Eq)]
pub struct ForegroundApplication {
    pub identity: ApplicationIdentity,
    pub display_label: Option<String>,
}

impl ForegroundApplication {
    pub fn unknown() -> (f: Self)
        ensures
            f.identity.process_id == 0,
            f.identity.executable_name@ == unknown_system_name(),
            f.identity.executable_path is None,
            opt_view(f.identity.window_class) == Some("system"@),
            opt_view(f.display_label) == Some("Unknown/System"@),
    {
        ForegroundApplication {
            identity: ApplicationIdentity::unknown(),
            display_label: Some("Unknown/System".to_owned()),
        }
    }

    /// The label shown for the application: its display label when it has one,
    /// else its executable name.
    pub fn label(&self) -> (l: &str)
        ensures
            l@ == (match self.display_label {
                Some(d) => d@,
                None => self.identity.executable_name@,
            }),
    {
        match &self.display_label {
            Some(d) => d.as_str(),
            None => self.identity.executable_name.as_str(),
        }
    }
}

impl Default for ForegroundApplication {
    fn default() -> (f: Self)
        ensures
            f.identity.executable_name@ == unknown_system_name(),
            opt_view(f.display_label) == Some("Unknown/System"@),
    {
        Self::unknown()
    }
}

#[derive(Debug, Clone, PartialEq, Eq)]
pub struct ForegroundError(pub String);

impl ForegroundError {
    /// The text of the error.
    pub fn message(&self) -> (m: &str)
        ensures
            m@ == self.0@,
    {
        self.0.as_str()
    }
}

/// Resolves the application that owns the foreground window.
pub trait ForegroundResolver {
    fn resolve_foreground(&mut self) -> Result<ForegroundApplication, ForegroundError>;
}

/// Normalizes an executable name: trimmed, reduced to its file name, in the
/// platform's case.
pub fn normalize_executable_name(name: &str, fold_case: bool) -> (r: String)
    ensures
        r@ == normalized_executable_name(name@, fold_case),
{
    let cs = chars_of(name);
    let trimmed_chars = trim_chars(cs.as_slice(), TrimSet::Whitespace);
    let trimmed = string_of(trimmed_chars.as_slice());
    if str_eq(trimmed.as_str(), "unknown/system") {
        return trimmed;
    }
    match path_file_name(trimmed.as_str()) {
        Some(f) => normalize_case(f.as_str(), fold_case),
        None => normalize_case(trimmed.as_str(), fold_case),
    }
}

/// Normalizes an executable path: trimmed, with forward slashes, in the
/// platform's case.
pub fn normalize_executable_path(path: &str, fold_case: bool) -> (r: String)
    ensures
        r@ == normalized_executable_path(path@, fold_case),
{
    let cs = chars_of(path);
    let t = trim_chars(cs.as_slice(), TrimSet::Whitespace);
    let mut out: Vec<char> = Vec::new();
    let mut i: usize = 0;
    while i < t.len()
        invariant
            i <= t@.len(),
            t@ == trim(path@, TrimSet::Whitespace),
            out@ == forward_slashes(t@.subrange(0, i as int)),
        decreases t@.len() - i,
    {
        let c = t[i];
        out.push(if c == '\\' { '/' } else { c });
        i = i + 1;
        assert(out@ =~= forward_slashes(t@.subrange(0, i as int)));
    }
    assert(t@.subrange(0, i as int) =~= t@);
    let slashed = string_of(out.as_slice());
    normalize_case(slashed.as_str(), fold_case)
}

/// A name in the platform's case: ASCII letters lowered when `fold_case`,
/// unchanged otherwise.
pub fn normalize_case(value: &str, fold_case: bool) -> (r: String)
    ensures
        r@ == case_normalized(value@, fold_case),
{
    let cs = chars_of(value);
    if fold_case {
        let mut out: Vec<char> = Vec::new();
        push_ascii_lowercase(&mut out, cs.as_slice());
        assert(out@ =~= ascii_lowercase(value@));
        string_of(out.as_slice())
    } else {
        string_of(cs.as_slice())
    }
}

fn normalize_optional_label(value: &str) -> (r: Option<String>)
    ensures
        opt_view(r) == normalized_label(value@),
{
    let cs = chars_of(value);
    let t = trim_chars(cs.as_slice(), TrimSet::Whitespace);
    if t.len() == 0 {
        None
    } else {
        Some(string_of(t.as_slice()))
    }
}

} // verus!
