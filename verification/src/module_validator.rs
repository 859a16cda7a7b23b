//! Module archive validation: the checks that a module ZIP and its
//! `module.prop` must pass before installation (path traversal, required
//! fields, module ID format, size limits).

use vstd::prelude::*;
use vstd::utf8::encode_utf8;

use crate::zip_archive::{
    zip_archive_bytes, zip_by_name_error, zip_entry, zip_entry_bytes, zip_entry_content,
    zip_entry_open_error, zip_entry_text, zip_len, zip_listing, zip_open, zip_read_text,
    ArchiveReadError,
};
use crate::fixed_str::{lossy_text, string_from_utf8_lossy};
use crate::text::{
    decimal, is_ascii_digit, parse_u64_range, parse_u64_spec, push_decimal, range_equals, str_chars,
    chars_to_string, find_char, first_index_of, trim, trim_range, byte_len,
};

verus! {

/// Maximum module ID length in bytes.
pub const MAX_MODULE_ID_LEN: usize = 64;

/// Maximum module name length in bytes.
pub const MAX_MODULE_NAME_LEN: usize = 256;

/// Maximum module version string length in bytes.
pub const MAX_MODULE_VERSION_LEN: usize = 64;

/// Maximum module description length in bytes.
pub const MAX_MODULE_DESCRIPTION_LEN: usize = 1024;

/// Maximum module author length in bytes.
pub const MAX_MODULE_AUTHOR_LEN: usize = 256;

/// Maximum total uncompressed size of a module ZIP (500 MB).
pub const MAX_TOTAL_UNCOMPRESSED_SIZE: u64 = 524288000;

/// Maximum single file size within the ZIP (100 MB).
pub const MAX_SINGLE_FILE_SIZE: u64 = 104857600;

/// The module ID pattern: a letter, then one or more letters, digits, dots,
/// underscores or hyphens.
pub const MODULE_ID_PATTERN: &'static str = "^[a-zA-Z][a-zA-Z0-9._-]+$";

/// Severity of a validation issue.
#[derive(Debug, Clone, Copy, PartialEq, Eq, Structural)]
pub enum IssueSeverity {
    /// Blocks installation.
    Error,
    /// Allowed but suspicious.
    Warning,
}

/// Result of a single validation check.
#[derive(Debug, Clone)]
pub struct ValidationIssue {
    /// What check failed.
    pub check: String,
    /// Severity of the issue.
    pub severity: IssueSeverity,
    /// Human-readable description of the problem.
    pub message: String,
    /// How to fix the issue.
    pub suggestion: String,
}

/// The abstract content of a [`ValidationIssue`].
#[verifier::ext_equal]
pub ghost struct IssueView {
    pub check: Seq<char>,
    pub severity: IssueSeverity,
    pub message: Seq<char>,
    pub suggestion: Seq<char>,
}

impl View for ValidationIssue {
    type V = IssueView;

    open spec fn view(&self) -> IssueView {
        IssueView {
            check: self.check@,
            severity: self.severity,
            message: self.message@,
            suggestion: self.suggestion@,
        }
    }
}

/// The abstract content of a list of issues.
pub open spec fn issues_view(v: Seq<ValidationIssue>) -> Seq<IssueView> {
    v.map_values(|i: ValidationIssue| i@)
}

/// Builds an abstract issue.
pub open spec fn issue(
    check: Seq<char>,
    severity: IssueSeverity,
    message: Seq<char>,
    suggestion: Seq<char>,
) -> IssueView {
    IssueView { check, severity, message, suggestion }
}

/// True when some issue of the list blocks installation.
pub open spec fn has_error(issues: Seq<IssueView>) -> bool {
    exists|i: int| 0 <= i < issues.len() && (#[trigger] issues[i]).severity == IssueSeverity::Error
}

proof fn lemma_issues_view_push(v: Seq<ValidationIssue>, x: ValidationIssue)
    ensures
        issues_view(v.push(x)) == issues_view(v).push(x@),
{
    assert(issues_view(v.push(x)) =~= issues_view(v).push(x@));
}

/// Appends one issue, keeping the abstract list in step.
fn push_issue(
    issues: &mut Vec<ValidationIssue>,
    check: String,
    severity: IssueSeverity,
    message: String,
    suggestion: String,
)
    ensures
        issues_view(final(issues)@) == issues_view(old(issues)@).push(
            issue(check@, severity, message@, suggestion@),
        ),
{
    let ghost before = issues@;
    let i = ValidationIssue { check, severity, message, suggestion };
    issues.push(i);
    proof {
        lemma_issues_view_push(before, i);
    }
}

// ---------------------------------------------------------------------------
// Entry names
// ---------------------------------------------------------------------------

/// A `..` followed by a path separator starts at position `i`.
pub open spec fn dot_dot_separator_at(s: Seq<char>, i: int) -> bool {
    &&& 0 <= i
    &&& i + 2 < s.len()
    &&& s[i] == '.'
    &&& s[i + 1] == '.'
    &&& (s[i + 2] == '/' || s[i + 2] == '\\')
}

/// An entry name climbs out of the module directory (`../` or `..\`
/// anywhere) or is absolute (starts with `/` or `\`).
pub open spec fn is_path_traversal(s: Seq<char>) -> bool {
    ||| (exists|i: int| dot_dot_separator_at(s, i))
    ||| (s.len() > 0 && (s[0] == '/' || s[0] == '\\'))
}

/// Check if a ZIP entry name contains path traversal sequences.
pub fn has_path_traversal(name: &str) -> (r: bool)
    ensures
        r == is_path_traversal(name@),
{
    let cs = str_chars(name);
    if cs.len() > 0 && (cs[0] == '/' || cs[0] == '\\') {
        return true;
    }
    let mut i: usize = 0;
    while i < cs.len() && cs.len() - i > 2
        invariant
            cs@ == name@,
            forall|j: int| 0 <= j < i ==> !dot_dot_separator_at(name@, j),
        decreases cs.len() - i,
    {
        if cs[i] == '.' && cs[i + 1] == '.' && (cs[i + 2] == '/' || cs[i + 2] == '\\') {
            assert(dot_dot_separator_at(name@, i as int));
            return true;
        }
        i = i + 1;
    }
    proof {
        assert forall|j: int| !dot_dot_separator_at(name@, j) by {
            if j >= i {
                assert(!(j + 2 < name@.len()));
            }
        }
    }
    false
}

// ---------------------------------------------------------------------------
// Module IDs
// ---------------------------------------------------------------------------

/// An ASCII letter.
pub open spec fn is_ascii_letter(c: char) -> bool {
    ('a' <= c && c <= 'z') || ('A' <= c && c <= 'Z')
}

/// A character allowed after the first one of a module ID.
pub open spec fn is_id_tail_char(c: char) -> bool {
    is_ascii_letter(c) || is_ascii_digit(c) || c == '.' || c == '_' || c == '-'
}

/// The whole string matches `^[a-zA-Z][a-zA-Z0-9._-]+$`.
pub open spec fn matches_id_pattern(s: Seq<char>) -> bool {
    &&& s.len() >= 2
    &&& is_ascii_letter(s[0])
    &&& forall|i: int| 1 <= i < s.len() ==> is_id_tail_char(#[trigger] s[i])
}

/// `regex_lite::Regex::new` on [`MODULE_ID_PATTERN`] followed by
/// `Regex::is_match` on `id`. The pattern is a fixed valid expression, so
/// compilation succeeds; the match is anchored at both ends and compares
/// code point by code point, so it holds exactly when the whole of `id` is
/// one ASCII letter followed by one or more characters of the class.
#[verifier::external_body]
fn id_pattern_is_match(id: &str) -> (r: bool)
    ensures
        r == matches_id_pattern(id@),
{
    match regex_lite::Regex::new(MODULE_ID_PATTERN) {
        Ok(re) => re.is_match(id),
        Err(_) => false,
    }
}

/// Why a module ID was refused.
#[derive(Debug, Clone, Copy, PartialEq, Eq, Structural)]
pub enum IdError {
    /// The ID is empty.
    Empty,
    /// The ID is longer than [`MAX_MODULE_ID_LEN`] bytes; holds its length.
    TooLong(usize),
    /// The ID does not match [`MODULE_ID_PATTERN`].
    InvalidFormat,
}

/// What [`validate_id`] answers for an ID.
pub open spec fn validate_id_spec(id: Seq<char>) -> Result<(), IdError> {
    if id.len() == 0 {
        Err(IdError::Empty)
    } else if byte_len(id) > MAX_MODULE_ID_LEN {
        Err(IdError::TooLong(byte_len(id)))
    } else if !matches_id_pattern(id) {
        Err(IdError::InvalidFormat)
    } else {
        Ok(())
    }
}

/// Validate a module ID string for format correctness.
///
/// Valid IDs match: `^[a-zA-Z][a-zA-Z0-9._-]+$` with max length 64.
pub fn validate_id(id: &str) -> (r: Result<(), IdError>)
    ensures
        r == validate_id_spec(id@),
{
    if id.is_empty() {
        return Err(IdError::Empty);
    }
    let len = id.len();
    if len > MAX_MODULE_ID_LEN {
        return Err(IdError::TooLong(len));
    }
    if !id_pattern_is_match(id) {
        return Err(IdError::InvalidFormat);
    }
    Ok(())
}

/// A module ID that [`validate_id`] accepts is safe to use as a path
/// component and in a command line: it contains no `../` or `..\`, is not
/// absolute, has no separator and no shell metacharacter (`;`, `|`, `&`,
/// `$`, quotes, blanks, ...), since every character is an ASCII letter or
/// digit, `.`, `_` or `-`.
pub proof fn valid_id_is_safe_path_component(id: Seq<char>)
    requires
        validate_id_spec(id) is Ok,
    ensures
        !is_path_traversal(id),
        forall|i: int| 0 <= i < id.len() ==> is_id_tail_char(#[trigger] id[i]),
        !id.contains('/') && !id.contains('\\'),
        !id.contains(';') && !id.contains('|') && !id.contains('&') && !id.contains('$'),
{
    assert forall|i: int| 0 <= i < id.len() implies is_id_tail_char(#[trigger] id[i]) by {
        if i == 0 {
            assert(is_ascii_letter(id[0]));
        }
    }
    assert forall|i: int| !dot_dot_separator_at(id, i) by {
        if 0 <= i && i + 2 < id.len() {
            assert(is_id_tail_char(id[i + 2]));
        }
    }
}

// ---------------------------------------------------------------------------
// module.prop
// ---------------------------------------------------------------------------

/// The lines of a text, split at `\n`; the last line is the text after the
/// last `\n` (possibly empty). Line ends that `str::lines` also strips
/// (`\r`) are removed by trimming.
pub open spec fn split_lines(s: Seq<char>) -> Seq<Seq<char>>
    decreases s.len(),
{
    if s.len() == 0 {
        seq![Seq::empty()]
    } else {
        let p = split_lines(s.drop_last());
        if s.last() == '\n' {
            p.push(Seq::empty())
        } else {
            p.update(p.len() - 1, p.last().push(s.last()))
        }
    }
}

/// The key/value pair that one line contributes: none for a blank line, a
/// comment (`#` after trimming) or a line without `=`; otherwise the trimmed
/// text before and after the first `=`.
pub open spec fn line_entry(line: Seq<char>) -> Seq<(Seq<char>, Seq<char>)> {
    let t = trim(line);
    if t.len() == 0 || t[0] == '#' {
        Seq::empty()
    } else {
        match first_index_of(t, '=') {
            Some(k) => seq![(trim(t.take(k)), trim(t.skip(k + 1)))],
            None => Seq::empty(),
        }
    }
}

/// The key/value pairs of a list of lines, in order.
pub open spec fn entries_of_lines(ls: Seq<Seq<char>>) -> Seq<(Seq<char>, Seq<char>)>
    decreases ls.len(),
{
    if ls.len() == 0 {
        Seq::empty()
    } else {
        entries_of_lines(ls.drop_last()) + line_entry(ls.last())
    }
}

/// The key/value pairs of a `module.prop` text, in order.
pub open spec fn module_props(content: Seq<char>) -> Seq<(Seq<char>, Seq<char>)> {
    entries_of_lines(split_lines(content))
}

/// The value of a key: the one given by its last occurrence.
pub open spec fn prop_lookup(props: Seq<(Seq<char>, Seq<char>)>, key: Seq<char>) -> Option<
    Seq<char>,
>
    decreases props.len(),
{
    if props.len() == 0 {
        None
    } else if props.last().0 == key {
        Some(props.last().1)
    } else {
        prop_lookup(props.drop_last(), key)
    }
}

/// The issue for a required field, if any.
pub open spec fn required_field_issues(props: Seq<(Seq<char>, Seq<char>)>, field: Seq<char>) -> Seq<
    IssueView,
> {
    match prop_lookup(props, field) {
        None => seq![
            issue(
                "required_field_"@ + field,
                IssueSeverity::Error,
                "Required field '"@ + field + "' missing from module.prop"@,
                "Add '"@ + field + "=<value>' to module.prop"@,
            ),
        ],
        Some(v) => if v.len() == 0 {
            seq![
                issue(
                    "empty_field_"@ + field,
                    IssueSeverity::Error,
                    "Required field '"@ + field + "' is empty in module.prop"@,
                    "Set a value for '"@ + field + "' in module.prop"@,
                ),
            ]
        } else {
            Seq::empty()
        },
    }
}

/// The issues for the module ID, if present.
pub open spec fn id_issues(props: Seq<(Seq<char>, Seq<char>)>) -> Seq<IssueView> {
    match prop_lookup(props, "id"@) {
        None => Seq::empty(),
        Some(id) => (if byte_len(id) > MAX_MODULE_ID_LEN {
            seq![
                issue(
                    "module_id_length"@,
                    IssueSeverity::Error,
                    "Module ID too long: "@ + decimal(byte_len(id) as nat) + " chars (max: 64)"@,
                    "Shorten the module ID"@,
                ),
            ]
        } else {
            Seq::empty()
        }) + (if !matches_id_pattern(id) {
            seq![
                issue(
                    "module_id_format"@,
                    IssueSeverity::Error,
                    "Invalid module ID format: '"@ + id + "'"@,
                    "ID must start with a letter, followed by alphanumeric, dot, underscore, or hyphen"@,
                ),
            ]
        } else {
            Seq::empty()
        }),
    }
}

/// The issue for a `versionCode` that is not an unsigned integer.
pub open spec fn version_code_issues(props: Seq<(Seq<char>, Seq<char>)>) -> Seq<IssueView> {
    match prop_lookup(props, "versionCode"@) {
        Some(vc) => if parse_u64_spec(vc) is None {
            seq![
                issue(
                    "version_code_format"@,
                    IssueSeverity::Error,
                    "versionCode is not a valid integer: '"@ + vc + "'"@,
                    "Set versionCode to a positive integer"@,
                ),
            ]
        } else {
            Seq::empty()
        },
        None => Seq::empty(),
    }
}

/// The warning for a field longer than its recommended length.
pub open spec fn length_issues(
    props: Seq<(Seq<char>, Seq<char>)>,
    field: Seq<char>,
    max_len: nat,
) -> Seq<IssueView> {
    match prop_lookup(props, field) {
        Some(v) => if byte_len(v) > max_len {
            seq![
                issue(
                    field + "_length"@,
                    IssueSeverity::Warning,
                    "Field '"@ + field + "' is very long: "@ + decimal(byte_len(v) as nat)
                        + " chars (recommended max: "@ + decimal(max_len) + ")"@,
                    "Consider shortening '"@ + field + "'"@,
                ),
            ]
        } else {
            Seq::empty()
        },
        None => Seq::empty(),
    }
}

/// The issues for the four required fields.
pub open spec fn all_required_field_issues(p: Seq<(Seq<char>, Seq<char>)>) -> Seq<IssueView> {
    required_field_issues(p, "id"@) + required_field_issues(p, "name"@) + required_field_issues(
        p,
        "version"@,
    ) + required_field_issues(p, "versionCode"@)
}

/// The warnings for over-long descriptive fields.
pub open spec fn all_length_issues(p: Seq<(Seq<char>, Seq<char>)>) -> Seq<IssueView> {
    length_issues(p, "name"@, MAX_MODULE_NAME_LEN as nat) + length_issues(
        p,
        "version"@,
        MAX_MODULE_VERSION_LEN as nat,
    ) + length_issues(p, "description"@, MAX_MODULE_DESCRIPTION_LEN as nat) + length_issues(
        p,
        "author"@,
        MAX_MODULE_AUTHOR_LEN as nat,
    )
}

/// All issues of a `module.prop` text, in the order they are reported:
/// required fields, module ID, `versionCode`, field lengths.
pub open spec fn prop_issues(content: Seq<char>) -> Seq<IssueView> {
    let p = module_props(content);
    all_required_field_issues(p) + id_issues(p) + version_code_issues(p) + all_length_issues(p)
}

/// The character ranges `(key_lo, key_hi, value_lo, value_hi)` of parsed
/// pairs, read against `cs`.
spec fn ranges_view(cs: Seq<char>, r: Seq<(usize, usize, usize, usize)>) -> Seq<
    (Seq<char>, Seq<char>),
> {
    r.map_values(
        |x: (usize, usize, usize, usize)|
            (cs.subrange(x.0 as int, x.1 as int), cs.subrange(x.2 as int, x.3 as int)),
    )
}

spec fn ranges_in_bounds(cs: Seq<char>, r: Seq<(usize, usize, usize, usize)>) -> bool {
    forall|j: int|
        0 <= j < r.len() ==> {
            &&& (#[trigger] r[j]).0 <= r[j].1 <= cs.len()
            &&& r[j].2 <= r[j].3 <= cs.len()
        }
}

/// The pair (if any) that the line `cs[lo..hi]` contributes.
fn line_pair(cs: &Vec<char>, lo: usize, hi: usize) -> (r: Option<(usize, usize, usize, usize)>)
    requires
        lo <= hi <= cs@.len(),
    ensures
        match r {
            Some(x) => {
                &&& x.0 <= x.1 <= cs@.len()
                &&& x.2 <= x.3 <= cs@.len()
                &&& line_entry(cs@.subrange(lo as int, hi as int)) == seq![
                    (cs@.subrange(x.0 as int, x.1 as int), cs@.subrange(x.2 as int, x.3 as int)),
                ]
            },
            None => line_entry(cs@.subrange(lo as int, hi as int)).len() == 0,
        },
{
    let ghost line = cs@.subrange(lo as int, hi as int);
    let (a, b) = trim_range(cs, lo, hi);
    let ghost t = cs@.subrange(a as int, b as int);
    if a == b {
        return None;
    }
    assert(t[0] == cs@[a as int]);
    if cs[a] == '#' {
        return None;
    }
    match find_char(cs, a, b, '=') {
        None => None,
        Some(k) => {
            let ghost ki = k - a;
            assert(t.take(ki) =~= cs@.subrange(a as int, k as int));
            assert(t.skip(ki + 1) =~= cs@.subrange(k + 1, b as int));
            let (ka, kb) = trim_range(cs, a, k);
            let (va, vb) = trim_range(cs, k + 1, b);
            assert(trim(line) == t);
            assert(first_index_of(t, '=') == Some(ki));
            assert(line_entry(line) == seq![(trim(t.take(ki)), trim(t.skip(ki + 1)))]);
            Some((ka, kb, va, vb))
        },
    }
}

proof fn lemma_ranges_view_push(
    cs: Seq<char>,
    r: Seq<(usize, usize, usize, usize)>,
    x: (usize, usize, usize, usize),
)
    ensures
        ranges_view(cs, r.push(x)) == ranges_view(cs, r) + seq![
            (cs.subrange(x.0 as int, x.1 as int), cs.subrange(x.2 as int, x.3 as int)),
        ],
{
    assert(ranges_view(cs, r.push(x)) =~= ranges_view(cs, r) + seq![
        (cs.subrange(x.0 as int, x.1 as int), cs.subrange(x.2 as int, x.3 as int)),
    ]);
}

/// Parses the key/value pairs of a `module.prop` text held as characters.
fn parse_props(cs: &Vec<char>) -> (r: Vec<(usize, usize, usize, usize)>)
    ensures
        ranges_in_bounds(cs@, r@),
        ranges_view(cs@, r@) == module_props(cs@),
{
    let mut r: Vec<(usize, usize, usize, usize)> = Vec::new();
    let mut start: usize = 0;
    let mut i: usize = 0;
    let n = cs.len();
    proof {
        assert(cs@.take(0) =~= Seq::<char>::empty());
        assert(ranges_view(cs@, r@) =~= Seq::empty());
    }
    while i < n
        invariant
            n == cs@.len(),
            start <= i <= n,
            ranges_in_bounds(cs@, r@),
            split_lines(cs@.take(i as int)).len() >= 1,
            split_lines(cs@.take(i as int)).last() == cs@.subrange(start as int, i as int),
            ranges_view(cs@, r@) == entries_of_lines(split_lines(cs@.take(i as int)).drop_last()),
        decreases n - i,
    {
        let ghost prev = split_lines(cs@.take(i as int));
        assert(cs@.take(i + 1).drop_last() =~= cs@.take(i as int));
        assert(cs@.take(i + 1).last() == cs@[i as int]);
        if cs[i] == '\n' {
            let ghost next = split_lines(cs@.take(i + 1));
            assert(next == prev.push(Seq::empty()));
            assert(next.drop_last() =~= prev);
            let ghost before = r@;
            match line_pair(cs, start, i) {
                Some(x) => {
                    r.push(x);
                    proof {
                        lemma_ranges_view_push(cs@, before, x);
                    }
                },
                None => {},
            }
            proof {
                assert(entries_of_lines(prev) == entries_of_lines(prev.drop_last()) + line_entry(
                    prev.last(),
                ));
                assert(ranges_view(cs@, r@) =~= entries_of_lines(prev));
            }
            start = i + 1;
            i = i + 1;
            assert(next.last() =~= cs@.subrange(start as int, i as int));
        } else {
            let ghost next = split_lines(cs@.take(i + 1));
            assert(next == prev.update(prev.len() - 1, prev.last().push(cs@[i as int])));
            assert(next.drop_last() =~= prev.drop_last());
            i = i + 1;
            assert(next.last() =~= cs@.subrange(start as int, i as int));
        }
    }
    assert(cs@.take(n as int) =~= cs@);
    let ghost all = split_lines(cs@);
    let ghost before = r@;
    match line_pair(cs, start, n) {
        Some(x) => {
            r.push(x);
            proof {
                lemma_ranges_view_push(cs@, before, x);
            }
        },
        None => {},
    }
    proof {
        assert(entries_of_lines(all) == entries_of_lines(all.drop_last()) + line_entry(all.last()));
        assert(ranges_view(cs@, r@) =~= entries_of_lines(all));
    }
    r
}

/// Finds the value range of the last pair whose key is `key`.
fn lookup_prop(cs: &Vec<char>, props: &Vec<(usize, usize, usize, usize)>, key: &str) -> (r: Option<
    (usize, usize),
>)
    requires
        ranges_in_bounds(cs@, props@),
    ensures
        match prop_lookup(ranges_view(cs@, props@), key@) {
            Some(v) => r matches Some(x) && x.0 <= x.1 <= cs@.len() && cs@.subrange(
                x.0 as int,
                x.1 as int,
            ) == v,
            None => r is None,
        },
{
    let kc = str_chars(key);
    let ghost all = ranges_view(cs@, props@);
    let mut j = props.len();
    assert(all.take(j as int) =~= all);
    while j > 0
        invariant
            j <= props@.len(),
            kc@ == key@,
            ranges_in_bounds(cs@, props@),
            all == ranges_view(cs@, props@),
            prop_lookup(all, key@) == prop_lookup(all.take(j as int), key@),
        decreases j,
    {
        let ghost part = all.take(j as int);
        assert(part.drop_last() =~= all.take(j - 1));
        assert(part.last() == all[j - 1]);
        let p = props[j - 1];
        if range_equals(cs, p.0, p.1, &kc) {
            return Some((p.2, p.3));
        }
        j = j - 1;
    }
    assert(all.take(0) =~= Seq::<(Seq<char>, Seq<char>)>::empty());
    None
}

/// Appends the characters `cs[lo..hi]` to `s`.
fn push_range(s: &mut String, cs: &Vec<char>, lo: usize, hi: usize)
    requires
        lo <= hi <= cs@.len(),
    ensures
        final(s)@ == old(s)@ + cs@.subrange(lo as int, hi as int),
{
    let t = chars_to_string(cs, lo, hi);
    s.append(t.as_str());
}

/// Reports a missing or empty required field.
fn check_required_field(
    cs: &Vec<char>,
    props: &Vec<(usize, usize, usize, usize)>,
    field: &str,
    issues: &mut Vec<ValidationIssue>,
)
    requires
        ranges_in_bounds(cs@, props@),
    ensures
        issues_view(final(issues)@) == issues_view(old(issues)@) + required_field_issues(
            ranges_view(cs@, props@),
            field@,
        ),
{
    match lookup_prop(cs, props, field) {
        None => {
            let mut check = String::from_str("required_field_");
            check.append(field);
            let mut message = String::from_str("Required field '");
            message.append(field);
            message.append("' missing from module.prop");
            let mut suggestion = String::from_str("Add '");
            suggestion.append(field);
            suggestion.append("=<value>' to module.prop");
            push_issue(issues, check, IssueSeverity::Error, message, suggestion);
        },
        Some((lo, hi)) => {
            if lo == hi {
                let mut check = String::from_str("empty_field_");
                check.append(field);
                let mut message = String::from_str("Required field '");
                message.append(field);
                message.append("' is empty in module.prop");
                let mut suggestion = String::from_str("Set a value for '");
                suggestion.append(field);
                suggestion.append("' in module.prop");
                push_issue(issues, check, IssueSeverity::Error, message, suggestion);
            } else {
                assert(issues_view(issues@) =~= issues_view(issues@) + Seq::<IssueView>::empty());
            }
        },
    }
}

/// Reports an over-long field as a warning.
fn check_field_length(
    cs: &Vec<char>,
    props: &Vec<(usize, usize, usize, usize)>,
    field: &str,
    max_len: usize,
    issues: &mut Vec<ValidationIssue>,
)
    requires
        ranges_in_bounds(cs@, props@),
    ensures
        issues_view(final(issues)@) == issues_view(old(issues)@) + length_issues(
            ranges_view(cs@, props@),
            field@,
            max_len as nat,
        ),
{
    match lookup_prop(cs, props, field) {
        None => {
            assert(issues_view(issues@) =~= issues_view(issues@) + Seq::<IssueView>::empty());
        },
        Some((lo, hi)) => {
            let value = chars_to_string(cs, lo, hi);
            let len = value.as_str().len();
            if len > max_len {
                let mut check = String::from_str(field);
                check.append("_length");
                let mut message = String::from_str("Field '");
                message.append(field);
                message.append("' is very long: ");
                push_decimal(&mut message, len as u64);
                message.append(" chars (recommended max: ");
                push_decimal(&mut message, max_len as u64);
                message.append(")");
                let mut suggestion = String::from_str("Consider shortening '");
                suggestion.append(field);
                suggestion.append("'");
                push_issue(issues, check, IssueSeverity::Warning, message, suggestion);
            } else {
                assert(issues_view(issues@) =~= issues_view(issues@) + Seq::<IssueView>::empty());
            }
        },
    }
}

/// Reports an over-long or malformed module ID and records it.
fn check_module_id(
    cs: &Vec<char>,
    props: &Vec<(usize, usize, usize, usize)>,
    issues: &mut Vec<ValidationIssue>,
    module_id: &mut Option<String>,
)
    requires
        ranges_in_bounds(cs@, props@),
    ensures
        issues_view(final(issues)@) == issues_view(old(issues)@) + id_issues(
            ranges_view(cs@, props@),
        ),
        opt_string_view(*final(module_id)) == match prop_lookup(ranges_view(cs@, props@), "id"@) {
            Some(id) => Some(id),
            None => opt_string_view(*old(module_id)),
        },
{
    let ghost p = ranges_view(cs@, props@);
    let ghost before = issues_view(issues@);
    match lookup_prop(cs, props, "id") {
        Some((lo, hi)) => {
            let id = chars_to_string(cs, lo, hi);
            let len = id.as_str().len();
            if len > MAX_MODULE_ID_LEN {
                let check = String::from_str("module_id_length");
                let mut message = String::from_str("Module ID too long: ");
                push_decimal(&mut message, len as u64);
                message.append(" chars (max: 64)");
                let suggestion = String::from_str("Shorten the module ID");
                push_issue(issues, check, IssueSeverity::Error, message, suggestion);
            }
            let ghost mid = issues_view(issues@);
            assert(mid == before + (if byte_len(id@) > MAX_MODULE_ID_LEN {
                seq![
                    issue(
                        "module_id_length"@,
                        IssueSeverity::Error,
                        "Module ID too long: "@ + decimal(byte_len(id@) as nat) + " chars (max: 64)"@,
                        "Shorten the module ID"@,
                    ),
                ]
            } else {
                Seq::empty()
            })) by {
                if !(len > MAX_MODULE_ID_LEN) {
                    assert(mid =~= before + Seq::<IssueView>::empty());
                }
            }
            if !id_pattern_is_match(id.as_str()) {
                let check = String::from_str("module_id_format");
                let mut message = String::from_str("Invalid module ID format: '");
                message.append(id.as_str());
                message.append("'");
                let suggestion = String::from_str(
                    "ID must start with a letter, followed by alphanumeric, dot, underscore, or hyphen",
                );
                push_issue(issues, check, IssueSeverity::Error, message, suggestion);
            }
            assert(issues_view(issues@) =~= before + id_issues(p));
            *module_id = Some(id);
        },
        None => {
            assert(issues_view(issues@) =~= before + id_issues(p));
        },
    }
}

/// Reports a `versionCode` that is not an unsigned integer.
fn check_version_code(
    cs: &Vec<char>,
    props: &Vec<(usize, usize, usize, usize)>,
    issues: &mut Vec<ValidationIssue>,
)
    requires
        ranges_in_bounds(cs@, props@),
    ensures
        issues_view(final(issues)@) == issues_view(old(issues)@) + version_code_issues(
            ranges_view(cs@, props@),
        ),
{
    let ghost p = ranges_view(cs@, props@);
    let ghost before = issues_view(issues@);
    match lookup_prop(cs, props, "versionCode") {
        Some((lo, hi)) => {
            if parse_u64_range(cs, lo, hi).is_none() {
                let check = String::from_str("version_code_format");
                let mut message = String::from_str("versionCode is not a valid integer: '");
                push_range(&mut message, cs, lo, hi);
                message.append("'");
                let suggestion = String::from_str("Set versionCode to a positive integer");
                push_issue(issues, check, IssueSeverity::Error, message, suggestion);
            }
            assert(issues_view(issues@) =~= before + version_code_issues(p));
        },
        None => {
            assert(issues_view(issues@) =~= before + version_code_issues(p));
        },
    }
}

/// Reports missing or empty required fields.
fn check_required_fields(
    cs: &Vec<char>,
    props: &Vec<(usize, usize, usize, usize)>,
    issues: &mut Vec<ValidationIssue>,
)
    requires
        ranges_in_bounds(cs@, props@),
    ensures
        issues_view(final(issues)@) == issues_view(old(issues)@) + all_required_field_issues(
            ranges_view(cs@, props@),
        ),
{
    let ghost p = ranges_view(cs@, props@);
    let ghost s0 = issues_view(issues@);
    check_required_field(cs, props, "id", issues);
    check_required_field(cs, props, "name", issues);
    check_required_field(cs, props, "version", issues);
    check_required_field(cs, props, "versionCode", issues);
    assert(issues_view(issues@) =~= s0 + all_required_field_issues(p));
}

/// Reports over-long descriptive fields.
fn check_field_lengths(
    cs: &Vec<char>,
    props: &Vec<(usize, usize, usize, usize)>,
    issues: &mut Vec<ValidationIssue>,
)
    requires
        ranges_in_bounds(cs@, props@),
    ensures
        issues_view(final(issues)@) == issues_view(old(issues)@) + all_length_issues(
            ranges_view(cs@, props@),
        ),
{
    let ghost p = ranges_view(cs@, props@);
    let ghost s0 = issues_view(issues@);
    check_field_length(cs, props, "name", MAX_MODULE_NAME_LEN, issues);
    check_field_length(cs, props, "version", MAX_MODULE_VERSION_LEN, issues);
    check_field_length(cs, props, "description", MAX_MODULE_DESCRIPTION_LEN, issues);
    check_field_length(cs, props, "author", MAX_MODULE_AUTHOR_LEN, issues);
    assert(issues_view(issues@) =~= s0 + all_length_issues(p));
}

/// The value of an optional string.
pub open spec fn opt_string_view(o: Option<String>) -> Option<Seq<char>> {
    match o {
        Some(s) => Some(s@),
        None => None,
    }
}

/// Validate module.prop content and extract module ID.
///
/// Appends the issues of `content` to `issues`; sets `module_id` to the
/// module ID when the text has an `id` key and leaves it unchanged otherwise.
pub fn validate_module_prop(
    content: &str,
    issues: &mut Vec<ValidationIssue>,
    module_id: &mut Option<String>,
)
    ensures
        issues_view(final(issues)@) == issues_view(old(issues)@) + prop_issues(content@),
        opt_string_view(*final(module_id)) == match prop_lookup(module_props(content@), "id"@) {
            Some(id) => Some(id),
            None => opt_string_view(*old(module_id)),
        },
{
    let cs = str_chars(content);
    let props = parse_props(&cs);
    let ghost p = module_props(content@);
    assert(ranges_view(cs@, props@) == p);
    let ghost s0 = issues_view(issues@);
    check_required_fields(&cs, &props, issues);
    let ghost s1 = issues_view(issues@);
    check_module_id(&cs, &props, issues, module_id);
    let ghost s2 = issues_view(issues@);
    check_version_code(&cs, &props, issues);
    let ghost s3 = issues_view(issues@);
    check_field_lengths(&cs, &props, issues);
    let ghost s4 = issues_view(issues@);
    proof {
        let a = all_required_field_issues(p);
        let b = id_issues(p);
        let c = version_code_issues(p);
        let d = all_length_issues(p);
        assert(s4 == s0 + a + b + c + d);
        assert(prop_issues(content@) == a + b + c + d);
        assert(s4 =~= s0 + (a + b + c + d));
    }
}


// ---------------------------------------------------------------------------
// Archives
// ---------------------------------------------------------------------------

/// One entry of a module archive: its name, uncompressed size and, for a
/// symbolic link, its target.
#[derive(Debug, Clone)]
pub struct ArchiveEntry {
    /// Name of the entry as stored in the archive.
    pub name: String,
    /// Uncompressed size in bytes.
    pub size: u64,
    /// Target of the link, as the bytes stored for it, when the entry is a
    /// symbolic link.
    pub link_target: Option<Vec<u8>>,
}

/// The value of optional bytes.
pub open spec fn opt_bytes_view(o: Option<Vec<u8>>) -> Option<Seq<u8>> {
    match o {
        Some(v) => Some(v@),
        None => None,
    }
}

/// The abstract content of a list of entries.
pub open spec fn entries_view(v: Seq<ArchiveEntry>) -> Seq<(Seq<char>, u64, Option<Seq<u8>>)> {
    v.map_values(|e: ArchiveEntry| (e.name@, e.size, opt_bytes_view(e.link_target)))
}

/// Result of validating a module ZIP.
#[derive(Debug)]
pub struct ValidationReport {
    /// All issues found during validation.
    pub issues: Vec<ValidationIssue>,
    /// Module ID extracted from module.prop, if available.
    pub module_id: Option<String>,
    /// Total uncompressed size of all entries.
    pub total_size: u64,
    /// Number of entries in the ZIP.
    pub entry_count: usize,
}

/// The abstract content of a [`ValidationReport`].
#[verifier::ext_equal]
pub ghost struct ReportView {
    pub issues: Seq<IssueView>,
    pub module_id: Option<Seq<char>>,
    pub total_size: u64,
    pub entry_count: usize,
}

impl View for ValidationReport {
    type V = ReportView;

    open spec fn view(&self) -> ReportView {
        ReportView {
            issues: issues_view(self.issues@),
            module_id: opt_string_view(self.module_id),
            total_size: self.total_size,
            entry_count: self.entry_count,
        }
    }
}

impl ValidationReport {
    /// Returns true if there are no blocking errors.
    pub fn is_valid(&self) -> (r: bool)
        ensures
            r == !has_error(self@.issues),
    {
        let mut i: usize = 0;
        while i < self.issues.len()
            invariant
                i <= self.issues@.len(),
                forall|j: int|
                    0 <= j < i ==> (#[trigger] issues_view(self.issues@)[j]).severity
                        != IssueSeverity::Error,
            decreases self.issues@.len() - i,
        {
            if self.issues[i].severity == IssueSeverity::Error {
                assert(issues_view(self.issues@)[i as int].severity == IssueSeverity::Error);
                return false;
            }
            i = i + 1;
        }
        true
    }
}

/// A path separator: `/`, or `\` as entry names may use it.
pub open spec fn is_separator_byte(b: u8) -> bool {
    b == 0x2f || b == 0x5c
}

/// What is known of the path component being read, after byte `b`: `0`
/// nothing read yet, `1` it is `.`, `2` it is `..`, `3` anything else.
pub open spec fn component_after(k: u8, b: u8) -> u8 {
    if b == 0x2e && k < 2 {
        (k + 1) as u8
    } else {
        3
    }
}

/// The depth below the module root after a component of kind `k`: `..`
/// goes up one level, `.` and empty components stay, any other name goes
/// down one level.
pub open spec fn depth_after(d: int, k: u8) -> int {
    if k == 2 {
        d - 1
    } else if k == 3 {
        d + 1
    } else {
        d
    }
}

/// Reading the rest `t` of a relative path from depth `d`, with a current
/// component of kind `k`, goes above the module root at some point.
pub open spec fn climbs_out_from(t: Seq<u8>, d: int, k: u8) -> bool
    decreases t.len(),
{
    if t.len() == 0 {
        depth_after(d, k) < 0
    } else if is_separator_byte(t[0]) {
        depth_after(d, k) < 0 || climbs_out_from(t.drop_first(), depth_after(d, k), 0)
    } else {
        climbs_out_from(t.drop_first(), d, component_after(k, t[0]))
    }
}

/// The bytes `/../`, which lead from a link to the directory holding it.
pub open spec fn up_from_link() -> Seq<u8> {
    seq![0x2fu8, 0x2eu8, 0x2eu8, 0x2fu8]
}

/// A symbolic link called `name` whose target is the bytes `target` leads
/// out of the module directory: the target is absolute, or, resolved from
/// the directory that holds the link, it goes above the module root.
pub open spec fn link_escapes(name: Seq<char>, target: Seq<u8>) -> bool {
    ||| target.len() > 0 && is_separator_byte(target[0])
    ||| climbs_out_from(encode_utf8(name) + up_from_link() + target, 0, 0)
}

/// The issues that one entry raises: path traversal, then size, then a
/// symbolic link leading out of the module directory.
pub open spec fn entry_issues(name: Seq<char>, size: u64, link: Option<Seq<u8>>) -> Seq<
    IssueView,
> {
    (if is_path_traversal(name) {
        seq![
            issue(
                "path_traversal"@,
                IssueSeverity::Error,
                "Entry contains path traversal or absolute path: '"@ + name + "'"@,
                "Remove ../ components and use relative paths in ZIP entries"@,
            ),
        ]
    } else {
        Seq::empty()
    }) + (if size > MAX_SINGLE_FILE_SIZE {
        seq![
            issue(
                "file_size"@,
                IssueSeverity::Error,
                "Entry '"@ + name + "' is too large: "@ + decimal(size as nat)
                    + " bytes (max: 104857600 bytes)"@,
                "Reduce file size or split into multiple files"@,
            ),
        ]
    } else {
        Seq::empty()
    }) + match link {
        Some(t) => if link_escapes(name, t) {
            seq![
                issue(
                    "symlink_escape"@,
                    IssueSeverity::Error,
                    "Symlink '"@ + name + "' points outside the module directory: '"@
                        + lossy_text(t) + "'"@,
                    "Make symlinks point to paths inside the module"@,
                ),
            ]
        } else {
            Seq::empty()
        },
        None => Seq::empty(),
    }
}

/// The issues that the entries raise, in archive order.
pub open spec fn entries_issues(es: Seq<(Seq<char>, u64, Option<Seq<u8>>)>) -> Seq<IssueView>
    decreases es.len(),
{
    if es.len() == 0 {
        Seq::empty()
    } else {
        entries_issues(es.drop_last()) + entry_issues(es.last().0, es.last().1, es.last().2)
    }
}

/// The sum of the entry sizes, saturating at `u64::MAX`.
pub open spec fn total_size_of(es: Seq<(Seq<char>, u64, Option<Seq<u8>>)>) -> u64
    decreases es.len(),
{
    if es.len() == 0 {
        0
    } else {
        let t = total_size_of(es.drop_last());
        if t + es.last().1 > u64::MAX {
            u64::MAX
        } else {
            (t + es.last().1) as u64
        }
    }
}

/// Some entry is the root `module.prop`.
pub open spec fn has_module_prop(es: Seq<(Seq<char>, u64, bool)>) -> bool {
    exists|i: int| 0 <= i < es.len() && (#[trigger] es[i]).0 == "module.prop"@
}

/// The issue for a total size over the limit.
pub open spec fn total_size_issues(total: u64) -> Seq<IssueView> {
    if total > MAX_TOTAL_UNCOMPRESSED_SIZE {
        seq![
            issue(
                "total_size"@,
                IssueSeverity::Error,
                "Total uncompressed size too large: "@ + decimal(total as nat)
                    + " bytes (max: 524288000 bytes)"@,
                "Reduce total module size"@,
            ),
        ]
    } else {
        Seq::empty()
    }
}

/// The issue for an archive without `module.prop`.
pub open spec fn missing_prop_issue() -> IssueView {
    issue(
        "module_prop_missing"@,
        IssueSeverity::Error,
        "module.prop not found in ZIP root"@,
        "Add a module.prop file at the root of the ZIP"@,
    )
}

/// The report for an archive with entries `es` whose `module.prop` text is
/// `prop` (`None` when the archive has no `module.prop`).
pub open spec fn assess_spec(es: Seq<(Seq<char>, u64, Option<Seq<u8>>)>, prop: Option<Seq<char>>) -> ReportView {
    let total = total_size_of(es);
    let base = entries_issues(es) + total_size_issues(total);
    match prop {
        Some(c) => ReportView {
            issues: base + prop_issues(c),
            module_id: prop_lookup(module_props(c), "id"@),
            total_size: total,
            entry_count: es.len() as usize,
        },
        None => ReportView {
            issues: base.push(missing_prop_issue()),
            module_id: None,
            total_size: total,
            entry_count: es.len() as usize,
        },
    }
}

/// The value of an optional string slice.
pub open spec fn opt_str_view(o: Option<&str>) -> Option<Seq<char>> {
    match o {
        Some(s) => Some(s@),
        None => None,
    }
}

/// Whether a relative path goes above the module root while it is read.
fn path_climbs_out(path: &Vec<u8>) -> (r: bool)
    ensures
        r == climbs_out_from(path@, 0, 0),
{
    let mut d: usize = 0;
    let mut k: u8 = 0;
    let mut i: usize = 0;
    assert(path@.subrange(0, path@.len() as int) =~= path@);
    while i < path.len()
        invariant
            i <= path@.len(),
            d <= i,
            k <= 3,
            climbs_out_from(path@, 0, 0) == climbs_out_from(
                path@.subrange(i as int, path@.len() as int),
                d as int,
                k,
            ),
        decreases path@.len() - i,
    {
        let ghost rest = path@.subrange(i as int, path@.len() as int);
        assert(rest.drop_first() =~= path@.subrange(i + 1, path@.len() as int));
        let b = path[i];
        if b == 0x2f || b == 0x5c {
            if k == 2 {
                if d == 0 {
                    return true;
                }
                d = d - 1;
            } else if k == 3 {
                d = d + 1;
            }
            k = 0;
        } else if b == 0x2e && k < 2 {
            k = k + 1;
        } else {
            k = 3;
        }
        i = i + 1;
    }
    k == 2 && d == 0
}

/// Whether a symbolic link called `name` with target `target` leads out of
/// the module directory.
pub fn link_leaves_module(name: &str, target: &[u8]) -> (r: bool)
    ensures
        r == link_escapes(name@, target@),
{
    if target.len() > 0 && (target[0] == 0x2f || target[0] == 0x5c) {
        return true;
    }
    let mut path: Vec<u8> = Vec::new();
    let name_bytes = name.as_bytes();
    let mut i: usize = 0;
    while i < name_bytes.len()
        invariant
            i <= name_bytes@.len(),
            path@ == name_bytes@.take(i as int),
        decreases name_bytes@.len() - i,
    {
        path.push(name_bytes[i]);
        i = i + 1;
        assert(path@ =~= name_bytes@.take(i as int));
    }
    assert(name_bytes@.take(name_bytes@.len() as int) =~= name_bytes@);
    path.push(0x2f);
    path.push(0x2e);
    path.push(0x2e);
    path.push(0x2f);
    let ghost head = path@;
    assert(head =~= encode_utf8(name@) + up_from_link());
    let mut j: usize = 0;
    while j < target.len()
        invariant
            j <= target@.len(),
            path@ == head + target@.take(j as int),
        decreases target@.len() - j,
    {
        path.push(target[j]);
        j = j + 1;
        assert(path@ =~= head + target@.take(j as int));
    }
    assert(target@.take(target@.len() as int) =~= target@);
    path_climbs_out(&path)
}

/// Reports the issues of one entry.
fn check_entry(e: &ArchiveEntry, issues: &mut Vec<ValidationIssue>)
    ensures
        issues_view(final(issues)@) == issues_view(old(issues)@) + entry_issues(
            e.name@,
            e.size,
            opt_bytes_view(e.link_target),
        ),
{
    let ghost before = issues_view(issues@);
    if has_path_traversal(e.name.as_str()) {
        let check = String::from_str("path_traversal");
        let mut message = String::from_str("Entry contains path traversal or absolute path: '");
        message.append(e.name.as_str());
        message.append("'");
        let suggestion = String::from_str(
            "Remove ../ components and use relative paths in ZIP entries",
        );
        push_issue(issues, check, IssueSeverity::Error, message, suggestion);
    }
    let ghost mid = issues_view(issues@);
    if e.size > MAX_SINGLE_FILE_SIZE {
        let check = String::from_str("file_size");
        let mut message = String::from_str("Entry '");
        message.append(e.name.as_str());
        message.append("' is too large: ");
        push_decimal(&mut message, e.size);
        message.append(" bytes (max: 104857600 bytes)");
        let suggestion = String::from_str("Reduce file size or split into multiple files");
        push_issue(issues, check, IssueSeverity::Error, message, suggestion);
    }
    let ghost late = issues_view(issues@);
    match &e.link_target {
        Some(t) => {
            if link_leaves_module(e.name.as_str(), t.as_slice()) {
                let check = String::from_str("symlink_escape");
                let mut message = String::from_str("Symlink '");
                message.append(e.name.as_str());
                message.append("' points outside the module directory: '");
                let shown = string_from_utf8_lossy(t.as_slice());
                message.append(shown.as_str());
                message.append("'");
                let suggestion = String::from_str("Make symlinks point to paths inside the module");
                push_issue(issues, check, IssueSeverity::Error, message, suggestion);
            }
        },
        None => {},
    }
    assert(issues_view(issues@) =~= before + entry_issues(
        e.name@,
        e.size,
        opt_bytes_view(e.link_target),
    ));
}

/// Turns the entry listing of an archive and the text of its
/// `module.prop` (`None` when it has none) into the validation report.
pub fn assess_module_archive(entries: &Vec<ArchiveEntry>, module_prop: Option<&str>) -> (r:
    ValidationReport)
    ensures
        r@ == assess_spec(entries_view(entries@), opt_str_view(module_prop)),
{
    let ghost es = entries_view(entries@);
    let mut issues: Vec<ValidationIssue> = Vec::new();
    let mut total_size: u64 = 0;
    let mut i: usize = 0;
    proof {
        assert(es.take(0) =~= Seq::<(Seq<char>, u64, Option<Seq<u8>>)>::empty());
        assert(issues_view(issues@) =~= Seq::<IssueView>::empty());
    }
    while i < entries.len()
        invariant
            i <= entries@.len(),
            es == entries_view(entries@),
            issues_view(issues@) == entries_issues(es.take(i as int)),
            total_size == total_size_of(es.take(i as int)),
        decreases entries@.len() - i,
    {
        let ghost part = es.take(i + 1);
        assert(part.drop_last() =~= es.take(i as int));
        assert(part.last() == (
            entries@[i as int].name@,
            entries@[i as int].size,
            opt_bytes_view(entries@[i as int].link_target),
        ));
        let e = &entries[i];
        check_entry(e, &mut issues);
        total_size = total_size.saturating_add(e.size);
        i = i + 1;
    }
    assert(es.take(i as int) =~= es);
    let ghost base = issues_view(issues@);
    if total_size > MAX_TOTAL_UNCOMPRESSED_SIZE {
        let check = String::from_str("total_size");
        let mut message = String::from_str("Total uncompressed size too large: ");
        push_decimal(&mut message, total_size);
        message.append(" bytes (max: 524288000 bytes)");
        let suggestion = String::from_str("Reduce total module size");
        push_issue(&mut issues, check, IssueSeverity::Error, message, suggestion);
    }
    assert(issues_view(issues@) =~= base + total_size_issues(total_size));
    let mut module_id: Option<String> = None;
    match module_prop {
        Some(content) => {
            validate_module_prop(content, &mut issues, &mut module_id);
        },
        None => {
            let check = String::from_str("module_prop_missing");
            let message = String::from_str("module.prop not found in ZIP root");
            let suggestion = String::from_str("Add a module.prop file at the root of the ZIP");
            push_issue(&mut issues, check, IssueSeverity::Error, message, suggestion);
        },
    }
    ValidationReport { issues, module_id, total_size, entry_count: entries.len() }
}

/// The report for bytes that are not an archive: one `zip_structure`
/// error whose message carries the `zip` error text `e`.
pub open spec fn invalid_archive_report(e: Seq<char>) -> ReportView {
    ReportView {
        issues: seq![
            issue(
                "zip_structure"@,
                IssueSeverity::Error,
                "Not a valid ZIP archive: "@ + e,
                "Provide a valid ZIP file"@,
            ),
        ],
        module_id: None,
        total_size: 0,
        entry_count: 0,
    }
}

/// Entry `k` of the listing `ls` of the archive held in `data` can be read:
/// it opens and, when it is a symbolic link, its target can be read.
pub open spec fn entry_readable(data: Seq<u8>, ls: Seq<(Seq<char>, u64, bool)>, k: int) -> bool {
    &&& zip_entry_open_error(data, k as nat) is None
    &&& ls[k].2 ==> zip_entry_content(data, k as nat) is Ok
}

/// The first `n` entries of the listing can be read.
pub open spec fn entries_readable(data: Seq<u8>, ls: Seq<(Seq<char>, u64, bool)>, n: int) -> bool {
    forall|k: int| 0 <= k < n ==> #[trigger] entry_readable(data, ls, k)
}

/// The entries of the archive held in `data` as they are assessed: name,
/// size and, for a symbolic link, its target as text.
pub open spec fn archive_entries(data: Seq<u8>, ls: Seq<(Seq<char>, u64, bool)>) -> Seq<
    (Seq<char>, u64, Option<Seq<u8>>),
> {
    Seq::new(
        ls.len(),
        |k: int|
            (
                ls[k].0,
                ls[k].1,
                if ls[k].2 {
                    Some(zip_entry_content(data, k as nat)->Ok_0)
                } else {
                    None
                },
            ),
    )
}

/// `module.prop` can be read whenever the archive has one.
pub open spec fn prop_readable(data: Seq<u8>, ls: Seq<(Seq<char>, u64, bool)>) -> bool {
    has_module_prop(ls) ==> zip_by_name_error(data, "module.prop"@) is None && zip_entry_text(
        data,
        "module.prop"@,
    ) is Ok
}

/// The text of `module.prop` as assessed, `None` when the archive has none.
pub open spec fn prop_text(data: Seq<u8>, ls: Seq<(Seq<char>, u64, bool)>) -> Option<Seq<char>> {
    if has_module_prop(ls) {
        Some(zip_entry_text(data, "module.prop"@)->Ok_0)
    } else {
        None
    }
}

/// Validate a module ZIP archive held in memory.
///
/// Bytes that are not an archive give a report with a single
/// `zip_structure` error. Otherwise every entry is listed and checked (the
/// target of each symbolic link is read for that), and the root
/// `module.prop`, when present, is read and validated. An entry, a link
/// target or `module.prop` that cannot be read makes the whole call fail,
/// with the first such failure.
pub fn validate_module_zip_bytes(data: &[u8]) -> (r: Result<ValidationReport, ArchiveReadError>)
    ensures
        match zip_listing(data@) {
            Err(e) => r matches Ok(rep) && rep@ == invalid_archive_report(e),
            Ok(ls) => {
                &&& r is Ok <==> entries_readable(data@, ls, ls.len() as int) && prop_readable(
                    data@,
                    ls,
                )
                &&& r matches Ok(rep) ==> rep@ == assess_spec(
                    archive_entries(data@, ls),
                    prop_text(data@, ls),
                )
                &&& r matches Err(ArchiveReadError::EntryUnreadable(k, m)) ==> {
                    &&& k < ls.len()
                    &&& entries_readable(data@, ls, k as int)
                    &&& zip_entry_open_error(data@, k as nat) == Some(m@)
                }
                &&& r matches Err(ArchiveReadError::LinkTargetUnreadable(k, m)) ==> {
                    &&& k < ls.len()
                    &&& entries_readable(data@, ls, k as int)
                    &&& zip_entry_open_error(data@, k as nat) is None
                    &&& ls[k as int].2
                    &&& zip_entry_content(data@, k as nat) == Err::<Seq<u8>, Seq<char>>(m@)
                }
                &&& r matches Err(ArchiveReadError::ModulePropUnreadable(m)) ==> {
                    &&& entries_readable(data@, ls, ls.len() as int)
                    &&& has_module_prop(ls)
                    &&& zip_by_name_error(data@, "module.prop"@) == Some(m@)
                }
                &&& r matches Err(ArchiveReadError::ModulePropContentUnreadable(m)) ==> {
                    &&& entries_readable(data@, ls, ls.len() as int)
                    &&& has_module_prop(ls)
                    &&& zip_by_name_error(data@, "module.prop"@) is None
                    &&& zip_entry_text(data@, "module.prop"@) == Err::<Seq<char>, Seq<char>>(m@)
                }
            },
        },
{
    let mut archive = match zip_open(data) {
        Ok(a) => a,
        Err(e) => {
            let mut issues: Vec<ValidationIssue> = Vec::new();
            let check = String::from_str("zip_structure");
            let mut message = String::from_str("Not a valid ZIP archive: ");
            message.append(e.as_str());
            let suggestion = String::from_str("Provide a valid ZIP file");
            push_issue(&mut issues, check, IssueSeverity::Error, message, suggestion);
            let rep = ValidationReport { issues, module_id: None, total_size: 0, entry_count: 0 };
            assert(rep@.issues =~= invalid_archive_report(e@).issues);
            assert(rep@ =~= invalid_archive_report(e@));
            return Ok(rep);
        },
    };
    let ghost ls = zip_listing(data@)->Ok_0;
    let ghost es = archive_entries(data@, ls);
    let n = zip_len(&archive);
    let mut entries: Vec<ArchiveEntry> = Vec::new();
    let mut i: usize = 0;
    while i < n
        invariant
            i <= n,
            n == ls.len(),
            es == archive_entries(data@, ls),
            zip_listing(data@) == Ok::<Seq<(Seq<char>, u64, bool)>, Seq<char>>(ls),
            zip_archive_bytes(archive) == data@,
            entries_view(entries@) == es.take(i as int),
            entries_readable(data@, ls, i as int),
        decreases n - i,
    {
        match zip_entry(&mut archive, i) {
            Ok((name, size, is_link)) => {
                let link_target = if is_link {
                    match zip_entry_bytes(&mut archive, i) {
                        Ok(bytes) => Some(bytes),
                        Err(reason) => {
                            assert(!entry_readable(data@, ls, i as int));
                            return Err(ArchiveReadError::LinkTargetUnreadable(i, reason));
                        },
                    }
                } else {
                    None
                };
                let ghost before = entries@;
                let e = ArchiveEntry { name, size, link_target };
                assert(entry_readable(data@, ls, i as int));
                assert((e.name@, e.size, opt_bytes_view(e.link_target)) == es[i as int]);
                entries.push(e);
                assert(entries_view(entries@) =~= entries_view(before).push(es[i as int]));
                assert(es.take(i + 1) =~= es.take(i as int).push(es[i as int]));
            },
            Err(reason) => {
                assert(!entry_readable(data@, ls, i as int));
                return Err(ArchiveReadError::EntryUnreadable(i, reason));
            },
        }
        i = i + 1;
    }
    assert(es.take(n as int) =~= es);
    let prop_name = String::from_str("module.prop");
    let mut has_prop = false;
    let mut j: usize = 0;
    while j < entries.len()
        invariant
            j <= entries@.len(),
            entries_view(entries@) == es,
            es == archive_entries(data@, ls),
            es.len() == ls.len(),
            prop_name@ == "module.prop"@,
            has_prop == exists|k: int| 0 <= k < j && (#[trigger] ls[k]).0 == "module.prop"@,
        decreases entries@.len() - j,
    {
        assert(entries_view(entries@)[j as int].0 == entries@[j as int].name@);
        assert(es[j as int].0 == ls[j as int].0);
        if entries[j].name == prop_name {
            has_prop = true;
        }
        j = j + 1;
    }
    if has_prop {
        match zip_read_text(&mut archive, "module.prop") {
            Ok(text) => Ok(assess_module_archive(&entries, Some(text.as_str()))),
            Err(e) => Err(e),
        }
    } else {
        Ok(assess_module_archive(&entries, None))
    }
}

/// An entry that climbs out of the module directory or is absolute, is
/// over the single-file limit, or is a symbolic link leading out of the
/// module directory.
pub open spec fn entry_unsafe(name: Seq<char>, size: u64, link: Option<Seq<u8>>) -> bool {
    ||| is_path_traversal(name)
    ||| size > MAX_SINGLE_FILE_SIZE
    ||| link matches Some(t) && link_escapes(name, t)
}

/// Entry `i` of the list is unsafe.
pub open spec fn unsafe_entry(es: Seq<(Seq<char>, u64, Option<Seq<u8>>)>, i: int) -> bool {
    0 <= i < es.len() && entry_unsafe(es[i].0, es[i].1, es[i].2)
}

proof fn lemma_entry_error(name: Seq<char>, size: u64, link: Option<Seq<u8>>)
    ensures
        has_error(entry_issues(name, size, link)) == entry_unsafe(name, size, link),
{
    let e = entry_issues(name, size, link);
    if entry_unsafe(name, size, link) {
        assert(e[0].severity == IssueSeverity::Error);
    } else {
        assert(e.len() == 0);
    }
}

proof fn lemma_total_size_error(total: u64)
    ensures
        has_error(total_size_issues(total)) == (total > MAX_TOTAL_UNCOMPRESSED_SIZE),
{
    if total > MAX_TOTAL_UNCOMPRESSED_SIZE {
        assert(total_size_issues(total)[0].severity == IssueSeverity::Error);
    }
}

/// An archive with an entry that climbs out of the module directory or is
/// absolute, with an entry over the single-file limit, with a symbolic link
/// leading out of the module directory, over the total size limit, or
/// without `module.prop`, is never valid.
pub proof fn unsafe_archive_is_invalid(es: Seq<(Seq<char>, u64, Option<Seq<u8>>)>, prop: Option<Seq<char>>)
    requires
        (exists|i: int| #[trigger] unsafe_entry(es, i)) || total_size_of(es) > MAX_TOTAL_UNCOMPRESSED_SIZE
            || prop is None,
    ensures
        has_error(assess_spec(es, prop).issues),
{
    let base = entries_issues(es) + total_size_issues(total_size_of(es));
    lemma_entries_error(es);
    lemma_total_size_error(total_size_of(es));
    lemma_has_error_concat(entries_issues(es), total_size_issues(total_size_of(es)));
    match prop {
        Some(c) => {
            lemma_has_error_concat(base, prop_issues(c));
        },
        None => {
            let all = base.push(missing_prop_issue());
            assert(all[all.len() - 1].severity == IssueSeverity::Error);
        },
    }
}

/// Bytes that are not an archive never make a valid report.
pub proof fn invalid_archive_is_invalid(e: Seq<char>)
    ensures
        has_error(invalid_archive_report(e).issues),
{
    assert(invalid_archive_report(e).issues[0].severity == IssueSeverity::Error);
}

/// The checks of a module ID in `module.prop` agree with [`validate_id`]:
/// a non-empty ID raises no ID issue exactly when `validate_id` accepts it.
pub proof fn prop_id_checks_agree_with_validate_id(p: Seq<(Seq<char>, Seq<char>)>, id: Seq<char>)
    requires
        prop_lookup(p, "id"@) == Some(id),
        id.len() > 0,
    ensures
        (id_issues(p).len() == 0) == (validate_id_spec(id) is Ok),
{
}

/// A required field is given with a non-empty value.
pub open spec fn field_given(p: Seq<(Seq<char>, Seq<char>)>, field: Seq<char>) -> bool {
    match prop_lookup(p, field) {
        Some(v) => v.len() > 0,
        None => false,
    }
}

/// A `module.prop` text that installation accepts: the four required
/// fields are given, the ID passes [`validate_id`] and `versionCode` is an
/// unsigned integer.
pub open spec fn acceptable_prop(c: Seq<char>) -> bool {
    let p = module_props(c);
    &&& field_given(p, "id"@)
    &&& field_given(p, "name"@)
    &&& field_given(p, "version"@)
    &&& field_given(p, "versionCode"@)
    &&& validate_id_spec(prop_lookup(p, "id"@)->0) is Ok
    &&& parse_u64_spec(prop_lookup(p, "versionCode"@)->0) is Some
}

/// An archive that installation accepts: no entry is unsafe, the total size
/// is within the limit, and it holds an acceptable `module.prop`.
pub open spec fn acceptable_archive(es: Seq<(Seq<char>, u64, Option<Seq<u8>>)>, prop: Option<Seq<char>>) -> bool {
    &&& forall|i: int| !#[trigger] unsafe_entry(es, i)
    &&& total_size_of(es) <= MAX_TOTAL_UNCOMPRESSED_SIZE
    &&& prop matches Some(c) && acceptable_prop(c)
}

proof fn lemma_has_error_concat(a: Seq<IssueView>, b: Seq<IssueView>)
    ensures
        has_error(a + b) == (has_error(a) || has_error(b)),
{
    let ab = a + b;
    if has_error(a) {
        let i = choose|i: int| 0 <= i < a.len() && (#[trigger] a[i]).severity == IssueSeverity::Error;
        assert(ab[i] == a[i]);
    }
    if has_error(b) {
        let i = choose|i: int| 0 <= i < b.len() && (#[trigger] b[i]).severity == IssueSeverity::Error;
        assert(ab[a.len() + i] == b[i]);
    }
    if has_error(ab) {
        let i = choose|i: int| 0 <= i < ab.len() && (#[trigger] ab[i]).severity == IssueSeverity::Error;
        if i < a.len() {
            assert(a[i] == ab[i]);
        } else {
            assert(b[i - a.len()] == ab[i]);
        }
    }
}

proof fn lemma_entries_error(es: Seq<(Seq<char>, u64, Option<Seq<u8>>)>)
    ensures
        has_error(entries_issues(es)) == exists|i: int| #[trigger] unsafe_entry(es, i),
    decreases es.len(),
{
    if es.len() > 0 {
        let p = es.drop_last();
        let last = es.last();
        lemma_entries_error(p);
        lemma_has_error_concat(entries_issues(p), entry_issues(last.0, last.1, last.2));
        lemma_entry_error(last.0, last.1, last.2);
        if exists|i: int| #[trigger] unsafe_entry(p, i) {
            let i = choose|i: int| #[trigger] unsafe_entry(p, i);
            assert(p[i] == es[i]);
            assert(unsafe_entry(es, i));
        }
        if exists|i: int| #[trigger] unsafe_entry(es, i) {
            let i = choose|i: int| #[trigger] unsafe_entry(es, i);
            if i < es.len() - 1 {
                assert(p[i] == es[i]);
                assert(unsafe_entry(p, i));
            }
        }
        if entry_unsafe(last.0, last.1, last.2) {
            assert(unsafe_entry(es, es.len() - 1));
        }
    }
}

proof fn lemma_length_issues_no_error(p: Seq<(Seq<char>, Seq<char>)>, field: Seq<char>, max_len: nat)
    ensures
        !has_error(length_issues(p, field, max_len)),
{
}

proof fn lemma_prop_error(c: Seq<char>)
    ensures
        has_error(prop_issues(c)) == !acceptable_prop(c),
{
    let p = module_props(c);
    let r1 = required_field_issues(p, "id"@);
    let r2 = required_field_issues(p, "name"@);
    let r3 = required_field_issues(p, "version"@);
    let r4 = required_field_issues(p, "versionCode"@);
    let l1 = length_issues(p, "name"@, MAX_MODULE_NAME_LEN as nat);
    let l2 = length_issues(p, "version"@, MAX_MODULE_VERSION_LEN as nat);
    let l3 = length_issues(p, "description"@, MAX_MODULE_DESCRIPTION_LEN as nat);
    let l4 = length_issues(p, "author"@, MAX_MODULE_AUTHOR_LEN as nat);
    lemma_has_error_concat(r1, r2);
    lemma_has_error_concat(r1 + r2, r3);
    lemma_has_error_concat(r1 + r2 + r3, r4);
    lemma_has_error_concat(l1, l2);
    lemma_has_error_concat(l1 + l2, l3);
    lemma_has_error_concat(l1 + l2 + l3, l4);
    lemma_length_issues_no_error(p, "name"@, MAX_MODULE_NAME_LEN as nat);
    lemma_length_issues_no_error(p, "version"@, MAX_MODULE_VERSION_LEN as nat);
    lemma_length_issues_no_error(p, "description"@, MAX_MODULE_DESCRIPTION_LEN as nat);
    lemma_length_issues_no_error(p, "author"@, MAX_MODULE_AUTHOR_LEN as nat);
    let req = all_required_field_issues(p);
    let idi = id_issues(p);
    let vci = version_code_issues(p);
    let len = all_length_issues(p);
    lemma_has_error_concat(req, idi);
    lemma_has_error_concat(req + idi, vci);
    lemma_has_error_concat(req + idi + vci, len);
    assert(has_error(r1) == !field_given(p, "id"@)) by {
        if !field_given(p, "id"@) {
            assert(r1[0].severity == IssueSeverity::Error);
        }
    }
    assert(has_error(r2) == !field_given(p, "name"@)) by {
        if !field_given(p, "name"@) {
            assert(r2[0].severity == IssueSeverity::Error);
        }
    }
    assert(has_error(r3) == !field_given(p, "version"@)) by {
        if !field_given(p, "version"@) {
            assert(r3[0].severity == IssueSeverity::Error);
        }
    }
    assert(has_error(r4) == !field_given(p, "versionCode"@)) by {
        if !field_given(p, "versionCode"@) {
            assert(r4[0].severity == IssueSeverity::Error);
        }
    }
    if let Some(id) = prop_lookup(p, "id"@) {
        assert(has_error(idi) == (byte_len(id) > MAX_MODULE_ID_LEN || !matches_id_pattern(id))) by {
            if byte_len(id) > MAX_MODULE_ID_LEN || !matches_id_pattern(id) {
                assert(idi[0].severity == IssueSeverity::Error);
            }
        }
        if id.len() > 0 {
            assert(has_error(idi) == !(validate_id_spec(id) is Ok));
        }
    } else {
        assert(!has_error(idi));
    }
    if let Some(vc) = prop_lookup(p, "versionCode"@) {
        assert(has_error(vci) == (parse_u64_spec(vc) is None)) by {
            if parse_u64_spec(vc) is None {
                assert(vci[0].severity == IssueSeverity::Error);
            }
        }
    } else {
        assert(!has_error(vci));
    }
}

/// A report is valid exactly when the archive is acceptable: every entry
/// stays inside the module directory and within the single-file limit, no
/// symbolic link leads out of the module directory, the total size is within its limit, and `module.prop` is present with its
/// four required fields given, a valid ID and a numeric `versionCode`.
/// Over-long descriptive fields only warn.
pub proof fn valid_report_iff_acceptable(es: Seq<(Seq<char>, u64, Option<Seq<u8>>)>, prop: Option<Seq<char>>)
    ensures
        !has_error(assess_spec(es, prop).issues) == acceptable_archive(es, prop),
{
    let total = total_size_of(es);
    let ei = entries_issues(es);
    let ti = total_size_issues(total);
    lemma_entries_error(es);
    lemma_has_error_concat(ei, ti);
    assert(has_error(ti) == (total > MAX_TOTAL_UNCOMPRESSED_SIZE)) by {
        if total > MAX_TOTAL_UNCOMPRESSED_SIZE {
            assert(ti[0].severity == IssueSeverity::Error);
        }
    }
    match prop {
        Some(c) => {
            lemma_has_error_concat(ei + ti, prop_issues(c));
            lemma_prop_error(c);
        },
        None => {
            let all = (ei + ti).push(missing_prop_issue());
            assert(all[all.len() - 1].severity == IssueSeverity::Error);
        },
    }
}

/// `module.prop` is recognised wherever it stands in the archive: when an
/// entry at any position of the listing is called `module.prop`, its text is
/// read and validated; when no entry is, none is read (and the report says
/// that it is missing).
pub proof fn module_prop_found_at_any_position(
    data: Seq<u8>,
    ls: Seq<(Seq<char>, u64, bool)>,
    k: int,
)
    ensures
        0 <= k < ls.len() && ls[k].0 == "module.prop"@ ==> prop_text(data, ls) == Some(
            zip_entry_text(data, "module.prop"@)->Ok_0,
        ),
        (forall|j: int| 0 <= j < ls.len() ==> (#[trigger] ls[j]).0 != "module.prop"@) ==> prop_text(
            data,
            ls,
        ) is None,
        forall|es: Seq<(Seq<char>, u64, Option<Seq<u8>>)>| {
            let issues = #[trigger] assess_spec(es, None).issues;
            issues.len() > 0 && issues.last().check == "module_prop_missing"@
                && issues.last().severity == IssueSeverity::Error
        },
{
    if 0 <= k < ls.len() && ls[k].0 == "module.prop"@ {
        assert(has_module_prop(ls));
    }
}

/// An entry name is flagged as a path traversal exactly when it holds `..`
/// followed by `/` or `\` at some position, or starts with `/` or `\`. So a
/// relative name without such a `..`, such as a directory entry ending in
/// `/`, is never flagged.
pub proof fn path_traversal_by_characters(s: Seq<char>)
    ensures
        is_path_traversal(s) == ((exists|i: int|
            0 <= i && i + 2 < s.len() && #[trigger] s[i] == '.' && s[i + 1] == '.' && (s[i + 2]
                == '/' || s[i + 2] == '\\')) || (s.len() > 0 && (s[0] == '/' || s[0] == '\\'))),
{
    if exists|i: int| dot_dot_separator_at(s, i) {
        let i = choose|i: int| dot_dot_separator_at(s, i);
        assert(s[i] == '.');
    }
    if exists|i: int|
        0 <= i && i + 2 < s.len() && #[trigger] s[i] == '.' && s[i + 1] == '.' && (s[i + 2] == '/'
            || s[i + 2] == '\\') {
        let i = choose|i: int|
            0 <= i && i + 2 < s.len() && #[trigger] s[i] == '.' && s[i + 1] == '.' && (s[i + 2]
                == '/' || s[i + 2] == '\\');
        assert(dot_dot_separator_at(s, i));
    }
}

/// A character allowed after the first one of a module ID, by its ranges.
pub open spec fn id_char_in_ranges(c: char) -> bool {
    ||| ('a' <= c && c <= 'z')
    ||| ('A' <= c && c <= 'Z')
    ||| ('0' <= c && c <= '9')
    ||| c == '.'
    ||| c == '_'
    ||| c == '-'
}

/// [`validate_id`] accepts every ID of 2 to 64 characters that starts with
/// an ASCII letter, lower or upper case, and goes on with ASCII letters,
/// digits, `.`, `_` or `-`; such an ID in `module.prop` raises no ID issue.
/// Conversely an accepted ID has at least 2 characters, starts with an ASCII
/// letter and goes on with those characters only.
pub proof fn validate_id_accepts_by_ranges(id: Seq<char>, p: Seq<(Seq<char>, Seq<char>)>)
    ensures
        ({
            &&& 2 <= id.len() <= 64
            &&& (('a' <= id[0] && id[0] <= 'z') || ('A' <= id[0] && id[0] <= 'Z'))
            &&& forall|i: int| 1 <= i < id.len() ==> id_char_in_ranges(#[trigger] id[i])
        }) ==> validate_id_spec(id) is Ok && (prop_lookup(p, "id"@) == Some(id) ==> id_issues(
            p,
        ).len() == 0),
        validate_id_spec(id) is Ok ==> {
            &&& 2 <= id.len()
            &&& (('a' <= id[0] && id[0] <= 'z') || ('A' <= id[0] && id[0] <= 'Z'))
            &&& forall|i: int| 1 <= i < id.len() ==> id_char_in_ranges(#[trigger] id[i])
        },
{
    if 2 <= id.len() <= 64 && (('a' <= id[0] && id[0] <= 'z') || ('A' <= id[0] && id[0] <= 'Z'))
        && forall|i: int| 1 <= i < id.len() ==> id_char_in_ranges(#[trigger] id[i]) {
        assert forall|i: int| 1 <= i < id.len() implies is_id_tail_char(#[trigger] id[i]) by {
            assert(id_char_in_ranges(id[i]));
        }
        assert(vstd::utf8::is_ascii_chars(id)) by {
            assert forall|i: int| 0 <= i < id.len() implies '\0' <= #[trigger] id[i] <= '\u{7f}' by {
                if i > 0 {
                    assert(id_char_in_ranges(id[i]));
                }
            }
        }
        vstd::utf8::is_ascii_chars_encode_utf8(id);
        assert(matches_id_pattern(id));
    }
    if validate_id_spec(id) is Ok {
        assert forall|i: int| 1 <= i < id.len() implies id_char_in_ranges(#[trigger] id[i]) by {
            assert(is_id_tail_char(id[i]));
        }
    }
}

proof fn lemma_prop_lookup_last(p: Seq<(Seq<char>, Seq<char>)>, key: Seq<char>)
    ensures
        (forall|k: int| 0 <= k < p.len() ==> (#[trigger] p[k]).0 != key) ==> prop_lookup(p, key)
            is None,
        forall|k: int|
            0 <= k < p.len() && (#[trigger] p[k]).0 == key && (forall|j: int|
                k < j < p.len() ==> p[j].0 != key) ==> prop_lookup(p, key) == Some(p[k].1),
    decreases p.len(),
{
    if p.len() > 0 {
        let q = p.drop_last();
        lemma_prop_lookup_last(q, key);
        if forall|k: int| 0 <= k < p.len() ==> (#[trigger] p[k]).0 != key {
            assert(p[p.len() - 1].0 != key);
            assert forall|k: int| 0 <= k < q.len() implies (#[trigger] q[k]).0 != key by {
                assert(q[k] == p[k]);
            }
        }
        assert forall|k: int|
            0 <= k < p.len() && (#[trigger] p[k]).0 == key && (forall|j: int|
                k < j < p.len() ==> p[j].0 != key) implies prop_lookup(p, key) == Some(p[k].1) by {
            if k < p.len() - 1 {
                assert(p[p.len() - 1].0 != key);
                assert(q[k] == p[k]);
                assert forall|j: int| k < j < q.len() implies q[j].0 != key by {
                    assert(q[j] == p[j]);
                }
            }
        }
    }
}

/// The module ID that a report records is the value of the last `id` key of
/// `module.prop`, whatever that value is (valid or not), and none when the
/// text has no `id` key; [`validate_module_prop`] records the same value.
pub proof fn report_records_last_id(es: Seq<(Seq<char>, u64, Option<Seq<u8>>)>, c: Seq<char>)
    ensures
        ({
            let p = module_props(c);
            &&& (forall|k: int| 0 <= k < p.len() ==> (#[trigger] p[k]).0 != "id"@) ==> {
                &&& assess_spec(es, Some(c)).module_id is None
                &&& prop_lookup(p, "id"@) is None
            }
            &&& forall|k: int|
                0 <= k < p.len() && (#[trigger] p[k]).0 == "id"@ && (forall|j: int|
                    k < j < p.len() ==> p[j].0 != "id"@) ==> {
                    &&& assess_spec(es, Some(c)).module_id == Some(p[k].1)
                    &&& prop_lookup(p, "id"@) == Some(p[k].1)
                }
        }),
{
    lemma_prop_lookup_last(module_props(c), "id"@);
}

} // verus!
