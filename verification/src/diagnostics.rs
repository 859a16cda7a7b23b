//! Self-diagnostic checks for the KernelSU/ApexSU system.
//!
//! Turns what was observed of the system (kernel module version, state of
//! the working directories, allowlist file) into a structured report, and
//! renders the report as text.

use vstd::prelude::*;

use crate::text::{decimal, push_decimal};

verus! {

/// Working directory of the userspace daemon.
pub const WORKING_DIR: &'static str = "/data/adb/ksu/";

/// Directory of the daemon's helper binaries.
pub const BINARY_DIR: &'static str = "/data/adb/ksu/bin/";

/// Location of the userspace daemon binary.
pub const DAEMON_PATH: &'static str = "/data/adb/ksud";

/// Directory of installed modules.
pub const MODULE_DIR: &'static str = "/data/adb/modules/";

/// Directory of modules staged for the next boot.
pub const MODULE_UPDATE_DIR: &'static str = "/data/adb/modules_update/";

/// Location of the allowlist file.
pub const ALLOWLIST_PATH: &'static str = "/data/adb/ksu/.allowlist";

/// Status of a single diagnostic check.
#[derive(Debug, Clone, Copy, PartialEq, Eq, Structural)]
pub enum CheckStatus {
    /// Check passed successfully.
    Pass,
    /// Check found a non-critical issue.
    Warn,
    /// Check found a critical problem.
    Fail,
}

/// The text of a status.
pub open spec fn status_text(s: CheckStatus) -> Seq<char> {
    match s {
        CheckStatus::Pass => "PASS"@,
        CheckStatus::Warn => "WARN"@,
        CheckStatus::Fail => "FAIL"@,
    }
}

impl CheckStatus {
    /// The status as displayed: `PASS`, `WARN` or `FAIL`.
    pub fn to_string(&self) -> (r: String)
        ensures
            r@ == status_text(*self),
    {
        match self {
            CheckStatus::Pass => String::from_str("PASS"),
            CheckStatus::Warn => String::from_str("WARN"),
            CheckStatus::Fail => String::from_str("FAIL"),
        }
    }
}

/// A single diagnostic check result.
#[derive(Debug, Clone)]
pub struct DiagnosticCheck {
    /// Name of the check.
    pub name: String,
    /// Result status.
    pub status: CheckStatus,
    /// Human-readable description of the result.
    pub message: String,
    /// Suggested action if status is Warn or Fail.
    pub suggestion: Option<String>,
}

/// The abstract content of a [`DiagnosticCheck`].
#[verifier::ext_equal]
pub ghost struct CheckView {
    pub name: Seq<char>,
    pub status: CheckStatus,
    pub message: Seq<char>,
    pub suggestion: Option<Seq<char>>,
}

impl View for DiagnosticCheck {
    type V = CheckView;

    open spec fn view(&self) -> CheckView {
        CheckView {
            name: self.name@,
            status: self.status,
            message: self.message@,
            suggestion: match self.suggestion {
                Some(s) => Some(s@),
                None => None,
            },
        }
    }
}

/// Builds an abstract check.
pub open spec fn check_view(
    name: Seq<char>,
    status: CheckStatus,
    message: Seq<char>,
    suggestion: Option<Seq<char>>,
) -> CheckView {
    CheckView { name, status, message, suggestion }
}

/// The abstract content of a list of checks.
pub open spec fn checks_view(v: Seq<DiagnosticCheck>) -> Seq<CheckView> {
    v.map_values(|c: DiagnosticCheck| c@)
}

/// Complete diagnostic report.
#[derive(Debug)]
pub struct DiagnosticReport {
    /// All check results.
    pub checks: Vec<DiagnosticCheck>,
}

/// Number of checks with the given status.
pub open spec fn count_status(cs: Seq<CheckView>, s: CheckStatus) -> nat
    decreases cs.len(),
{
    if cs.len() == 0 {
        0
    } else {
        count_status(cs.drop_last(), s) + if cs.last().status == s {
            1nat
        } else {
            0nat
        }
    }
}

/// Some check failed.
pub open spec fn has_failure(cs: Seq<CheckView>) -> bool {
    exists|i: int| 0 <= i < cs.len() && (#[trigger] cs[i]).status == CheckStatus::Fail
}

/// The text lines for one check.
pub open spec fn check_text(c: CheckView) -> Seq<char> {
    "["@ + status_text(c.status) + "] "@ + c.name + ": "@ + c.message + "\n"@ + match c.suggestion {
        Some(s) => "     \u{2192} "@ + s + "\n"@,
        None => Seq::empty(),
    }
}

/// The text lines for a list of checks, in order.
pub open spec fn checks_text(cs: Seq<CheckView>) -> Seq<char>
    decreases cs.len(),
{
    if cs.len() == 0 {
        Seq::empty()
    } else {
        checks_text(cs.drop_last()) + check_text(cs.last())
    }
}

/// The whole report as text: a heading, one entry per check, a summary.
pub open spec fn report_text(cs: Seq<CheckView>) -> Seq<char> {
    "=== ApexSU Diagnostic Report ===\n\n"@ + checks_text(cs) + "\nSummary: "@ + decimal(
        count_status(cs, CheckStatus::Pass),
    ) + " passed, "@ + decimal(count_status(cs, CheckStatus::Warn)) + " warnings, "@ + decimal(
        count_status(cs, CheckStatus::Fail),
    ) + " failures\n"@
}

proof fn lemma_count_sum(cs: Seq<CheckView>)
    ensures
        count_status(cs, CheckStatus::Pass) + count_status(cs, CheckStatus::Warn) + count_status(
            cs,
            CheckStatus::Fail,
        ) == cs.len(),
    decreases cs.len(),
{
    if cs.len() > 0 {
        lemma_count_sum(cs.drop_last());
    }
}

proof fn lemma_fail_count_zero(cs: Seq<CheckView>)
    ensures
        (count_status(cs, CheckStatus::Fail) == 0) == !has_failure(cs),
    decreases cs.len(),
{
    if cs.len() > 0 {
        let p = cs.drop_last();
        lemma_fail_count_zero(p);
        if has_failure(p) {
            let i = choose|i: int| 0 <= i < p.len() && (#[trigger] p[i]).status == CheckStatus::Fail;
            assert(cs[i] == p[i]);
        }
        if has_failure(cs) && cs.last().status != CheckStatus::Fail {
            let i = choose|i: int| 0 <= i < cs.len() && (#[trigger] cs[i]).status == CheckStatus::Fail;
            assert(p[i] == cs[i]);
        }
        if cs.last().status == CheckStatus::Fail {
            assert(cs[cs.len() - 1].status == CheckStatus::Fail);
        }
    }
}

impl DiagnosticReport {
    /// Returns true if all checks passed (no Fail results).
    pub fn is_healthy(&self) -> (r: bool)
        ensures
            r == !has_failure(checks_view(self.checks@)),
    {
        let ghost cs = checks_view(self.checks@);
        let mut i: usize = 0;
        while i < self.checks.len()
            invariant
                i <= self.checks@.len(),
                cs == checks_view(self.checks@),
                forall|j: int| 0 <= j < i ==> (#[trigger] cs[j]).status != CheckStatus::Fail,
            decreases self.checks@.len() - i,
        {
            if self.checks[i].status == CheckStatus::Fail {
                assert(cs[i as int].status == CheckStatus::Fail);
                return false;
            }
            i = i + 1;
        }
        true
    }

    /// Count of checks by status: `(pass, warn, fail)`.
    pub fn summary(&self) -> (r: (usize, usize, usize))
        ensures
            r.0 == count_status(checks_view(self.checks@), CheckStatus::Pass),
            r.1 == count_status(checks_view(self.checks@), CheckStatus::Warn),
            r.2 == count_status(checks_view(self.checks@), CheckStatus::Fail),
    {
        let ghost cs = checks_view(self.checks@);
        let mut pass: usize = 0;
        let mut warn: usize = 0;
        let mut fail: usize = 0;
        let mut i: usize = 0;
        proof {
            assert(cs.take(0) =~= Seq::<CheckView>::empty());
        }
        while i < self.checks.len()
            invariant
                i <= self.checks@.len(),
                cs == checks_view(self.checks@),
                pass == count_status(cs.take(i as int), CheckStatus::Pass),
                warn == count_status(cs.take(i as int), CheckStatus::Warn),
                fail == count_status(cs.take(i as int), CheckStatus::Fail),
            decreases self.checks@.len() - i,
        {
            let ghost part = cs.take(i + 1);
            assert(part.drop_last() =~= cs.take(i as int));
            assert(part.last() == self.checks@[i as int]@);
            proof {
                lemma_count_sum(cs.take(i as int));
            }
            match self.checks[i].status {
                CheckStatus::Pass => {
                    pass = pass + 1;
                },
                CheckStatus::Warn => {
                    warn = warn + 1;
                },
                CheckStatus::Fail => {
                    fail = fail + 1;
                },
            }
            i = i + 1;
        }
        assert(cs.take(i as int) =~= cs);
        (pass, warn, fail)
    }

    /// Format as human-readable text.
    pub fn to_text(&self) -> (r: String)
        ensures
            r@ == report_text(checks_view(self.checks@)),
    {
        let ghost cs = checks_view(self.checks@);
        let mut out = String::from_str("=== ApexSU Diagnostic Report ===\n\n");
        let ghost head = out@;
        let mut i: usize = 0;
        proof {
            assert(cs.take(0) =~= Seq::<CheckView>::empty());
            assert(out@ =~= head + checks_text(cs.take(0)));
        }
        while i < self.checks.len()
            invariant
                i <= self.checks@.len(),
                cs == checks_view(self.checks@),
                head == "=== ApexSU Diagnostic Report ===\n\n"@,
                out@ == head + checks_text(cs.take(i as int)),
            decreases self.checks@.len() - i,
        {
            let ghost part = cs.take(i + 1);
            assert(part.drop_last() =~= cs.take(i as int));
            assert(part.last() == self.checks@[i as int]@);
            let ghost before = out@;
            let check = &self.checks[i];
            out.append("[");
            let st = check.status.to_string();
            out.append(st.as_str());
            out.append("] ");
            out.append(check.name.as_str());
            out.append(": ");
            out.append(check.message.as_str());
            out.append("\n");
            match &check.suggestion {
                Some(s) => {
                    out.append("     \u{2192} ");
                    out.append(s.as_str());
                    out.append("\n");
                },
                None => {},
            }
            assert(out@ =~= before + check_text(check@));
            i = i + 1;
        }
        assert(cs.take(i as int) =~= cs);
        let (pass, warn, fail) = self.summary();
        out.append("\nSummary: ");
        push_decimal(&mut out, pass as u64);
        out.append(" passed, ");
        push_decimal(&mut out, warn as u64);
        out.append(" warnings, ");
        push_decimal(&mut out, fail as u64);
        out.append(" failures\n");
        assert(out@ =~= report_text(cs));
        out
    }
}

/// A report is healthy exactly when its summary counts no failure, and the
/// three counts of the summary add up to the number of checks.
pub proof fn summary_agrees_with_health(cs: Seq<CheckView>)
    ensures
        (count_status(cs, CheckStatus::Fail) == 0) == !has_failure(cs),
        count_status(cs, CheckStatus::Pass) + count_status(cs, CheckStatus::Warn) + count_status(
            cs,
            CheckStatus::Fail,
        ) == cs.len(),
{
    lemma_fail_count_zero(cs);
    lemma_count_sum(cs);
}

proof fn lemma_count_remove(cs: Seq<CheckView>, j: int, s: CheckStatus)
    requires
        0 <= j < cs.len(),
    ensures
        count_status(cs, s) == count_status(cs.remove(j), s) + if cs[j].status == s {
            1nat
        } else {
            0nat
        },
    decreases cs.len(),
{
    if j < cs.len() - 1 {
        let p = cs.drop_last();
        lemma_count_remove(p, j, s);
        assert(cs.remove(j).drop_last() =~= p.remove(j));
        assert(cs.remove(j).last() == cs.last());
        assert(p[j] == cs[j]);
    } else {
        assert(cs.remove(j) =~= cs.drop_last());
    }
}

/// The counts of a summary do not depend on the order of the checks: two
/// lists holding the same checks, each as often, count alike.
pub proof fn summary_ignores_order(cs: Seq<CheckView>, ds: Seq<CheckView>, s: CheckStatus)
    requires
        cs.to_multiset() == ds.to_multiset(),
    ensures
        count_status(cs, s) == count_status(ds, s),
    decreases cs.len(),
{
    broadcast use vstd::seq_lib::to_multiset_build, vstd::seq_lib::to_multiset_remove,
        vstd::seq_lib::to_multiset_contains, vstd::seq_lib::to_multiset_len;
    broadcast use vstd::multiset::group_multiset_axioms;

    if cs.len() == 0 {
        assert(ds.to_multiset().len() == 0);
        assert(ds.len() == 0);
    } else {
        let x = cs.last();
        let p = cs.drop_last();
        assert(p.push(x) =~= cs);
        assert(cs.to_multiset() == p.to_multiset().insert(x));
        assert(ds.to_multiset().count(x) > 0);
        assert(ds.contains(x));
        let j = choose|j: int| 0 <= j < ds.len() && ds[j] == x;
        assert(ds.remove(j).to_multiset() == ds.to_multiset().remove(x));
        assert(p.to_multiset() =~= cs.to_multiset().remove(x));
        summary_ignores_order(p, ds.remove(j), s);
        lemma_count_remove(ds, j, s);
    }
}

/// `piece` occurs in `text` at position `o`.
pub open spec fn occurs_at(text: Seq<char>, piece: Seq<char>, o: int) -> bool {
    0 <= o && o + piece.len() <= text.len() && text.subrange(o, o + piece.len()) == piece
}

proof fn lemma_checks_text_concat(a: Seq<CheckView>, b: Seq<CheckView>)
    ensures
        checks_text(a + b) == checks_text(a) + checks_text(b),
    decreases b.len(),
{
    if b.len() == 0 {
        assert(a + b =~= a);
        assert(checks_text(b) =~= Seq::<char>::empty());
        assert(checks_text(a) + checks_text(b) =~= checks_text(a));
    } else {
        lemma_checks_text_concat(a, b.drop_last());
        assert((a + b).drop_last() =~= a + b.drop_last());
        assert((a + b).last() == b.last());
        assert(checks_text(a + b) =~= checks_text(a) + checks_text(b));
    }
}

proof fn lemma_check_position(cs: Seq<CheckView>, i: int) -> (o: int)
    requires
        0 <= i < cs.len(),
    ensures
        occurs_at(report_text(cs), check_text(cs[i]), o),
{
    let c = cs[i];
    let head = cs.take(i);
    let tail = cs.skip(i + 1);
    assert(cs =~= head + seq![c] + tail);
    lemma_checks_text_concat(head + seq![c], tail);
    lemma_checks_text_concat(head, seq![c]);
    assert(seq![c].drop_last() =~= Seq::<CheckView>::empty());
    assert(seq![c].last() == c);
    assert(checks_text(Seq::<CheckView>::empty()) =~= Seq::<char>::empty());
    assert(checks_text(seq![c]) =~= checks_text(seq![c].drop_last()) + check_text(c));
    let h = "=== ApexSU Diagnostic Report ===\n\n"@;
    let x = check_text(c);
    let t = report_text(cs);
    let summary = "\nSummary: "@ + decimal(count_status(cs, CheckStatus::Pass)) + " passed, "@
        + decimal(count_status(cs, CheckStatus::Warn)) + " warnings, "@ + decimal(
        count_status(cs, CheckStatus::Fail),
    ) + " failures\n"@;
    assert(t =~= h + checks_text(head) + x + checks_text(tail) + summary);
    let o: int = (h.len() + checks_text(head).len()) as int;
    assert(t.subrange(o, o + x.len()) =~= x);
    o
}

proof fn lemma_occurs_prefix(t: Seq<char>, a: Seq<char>, b: Seq<char>, o: int)
    requires
        occurs_at(t, a + b, o),
    ensures
        occurs_at(t, a, o),
{
    assert(t.subrange(o, o + a.len()) =~= (a + b).subrange(0, a.len() as int));
    assert((a + b).subrange(0, a.len() as int) =~= a);
}

proof fn lemma_check_text_shape(c: CheckView)
    ensures
        ({
            let rest = c.name + ": "@ + c.message + "\n"@;
            let arrow = match c.suggestion {
                Some(s) => "     \u{2192} "@ + s + "\n"@,
                None => Seq::empty(),
            };
            &&& c.status == CheckStatus::Pass ==> check_text(c) == "[PASS] "@ + rest + arrow
            &&& c.status == CheckStatus::Warn ==> check_text(c) == "[WARN] "@ + rest + arrow
            &&& c.status == CheckStatus::Fail ==> check_text(c) == "[FAIL] "@ + rest + arrow
        }),
{
    reveal_strlit("[");
    reveal_strlit("] ");
    reveal_strlit("PASS");
    reveal_strlit("[PASS] ");
    reveal_strlit("WARN");
    reveal_strlit("[WARN] ");
    reveal_strlit("FAIL");
    reveal_strlit("[FAIL] ");
    let rest = c.name + ": "@ + c.message + "\n"@;
    let arrow = match c.suggestion {
        Some(s) => "     \u{2192} "@ + s + "\n"@,
        None => Seq::empty(),
    };
    assert(check_text(c) =~= "["@ + status_text(c.status) + "] "@ + rest + arrow);
    assert("["@ + "PASS"@ + "] "@ =~= "[PASS] "@);
    assert("["@ + "WARN"@ + "] "@ =~= "[WARN] "@);
    assert("["@ + "FAIL"@ + "] "@ =~= "[FAIL] "@);
    assert(c.status == CheckStatus::Pass ==> check_text(c) =~= "[PASS] "@ + rest + arrow);
    assert(c.status == CheckStatus::Warn ==> check_text(c) =~= "[WARN] "@ + rest + arrow);
    assert(c.status == CheckStatus::Fail ==> check_text(c) =~= "[FAIL] "@ + rest + arrow);
}

/// Every check of a report appears in its text as the line `[STATUS] name:
/// message`, and a check that carries a suggestion `s`, whatever its status,
/// has the line `     → s` right after its own line.
pub proof fn report_text_shows_every_check(cs: Seq<CheckView>, i: int)
    requires
        0 <= i < cs.len(),
    ensures
        ({
            let c = cs[i];
            let rest = c.name + ": "@ + c.message + "\n"@;
            &&& c.status == CheckStatus::Pass ==> exists|o: int|
                occurs_at(report_text(cs), "[PASS] "@ + rest, o)
            &&& c.status == CheckStatus::Warn ==> exists|o: int|
                occurs_at(report_text(cs), "[WARN] "@ + rest, o)
            &&& c.status == CheckStatus::Fail ==> exists|o: int|
                occurs_at(report_text(cs), "[FAIL] "@ + rest, o)
            &&& c.suggestion matches Some(s) ==> {
                let arrow = "     \u{2192} "@ + s + "\n"@;
                &&& c.status == CheckStatus::Pass ==> exists|o: int|
                    occurs_at(report_text(cs), "[PASS] "@ + rest + arrow, o)
                &&& c.status == CheckStatus::Warn ==> exists|o: int|
                    occurs_at(report_text(cs), "[WARN] "@ + rest + arrow, o)
                &&& c.status == CheckStatus::Fail ==> exists|o: int|
                    occurs_at(report_text(cs), "[FAIL] "@ + rest + arrow, o)
            }
        }),
{
    let c = cs[i];
    let t = report_text(cs);
    let o = lemma_check_position(cs, i);
    lemma_check_text_shape(c);
    let rest = c.name + ": "@ + c.message + "\n"@;
    let arrow = match c.suggestion {
        Some(s) => "     \u{2192} "@ + s + "\n"@,
        None => Seq::empty(),
    };
    let shown = match c.status {
        CheckStatus::Pass => "[PASS] "@,
        CheckStatus::Warn => "[WARN] "@,
        CheckStatus::Fail => "[FAIL] "@,
    };
    assert(check_text(c) == shown + rest + arrow);
    lemma_occurs_prefix(t, shown + rest, arrow, o);
    assert(occurs_at(t, shown + rest, o));
    assert(occurs_at(t, shown + rest + arrow, o));
}

// ---------------------------------------------------------------------------
// Individual checks
// ---------------------------------------------------------------------------

/// What was observed at a path that should be a directory.
#[derive(Debug, Clone, Copy, PartialEq, Eq, Structural)]
pub enum PathState {
    /// Nothing exists at the path.
    Missing,
    /// A directory exists at the path.
    Directory,
    /// Something other than a directory exists at the path.
    NotDirectory,
}

/// What was observed of the allowlist file.
#[derive(Debug, Clone)]
pub enum AllowlistState {
    /// The file does not exist.
    Missing,
    /// The file exists and has this many bytes.
    Present(u64),
    /// The file exists but its metadata could not be read; holds the error
    /// text.
    Unreadable(String),
}

/// The abstract content of an [`AllowlistState`].
pub ghost enum AllowlistView {
    Missing,
    Present(u64),
    Unreadable(Seq<char>),
}

impl View for AllowlistState {
    type V = AllowlistView;

    open spec fn view(&self) -> AllowlistView {
        match self {
            AllowlistState::Missing => AllowlistView::Missing,
            AllowlistState::Present(n) => AllowlistView::Present(*n),
            AllowlistState::Unreadable(e) => AllowlistView::Unreadable(e@),
        }
    }
}

/// What was observed of the daemon binary.
#[derive(Debug, Clone, Copy, PartialEq, Eq, Structural)]
pub enum BinaryState {
    /// Nothing exists at the path.
    Missing,
    /// Something other than a regular file exists at the path.
    NotFile,
    /// A regular file that the process may not execute.
    NotExecutable,
    /// A regular file that the process may execute.
    Executable,
}

/// Everything the diagnostics observe of the system.
#[derive(Debug, Clone)]
pub struct SystemProbe {
    /// Version the kernel module reports (0 when it does not answer).
    pub kernel_version: i32,
    /// State of [`WORKING_DIR`].
    pub working_dir: PathState,
    /// Whether the process may write to [`WORKING_DIR`].
    pub working_dir_writable: bool,
    /// State of [`BINARY_DIR`].
    pub binary_dir: PathState,
    /// State of [`DAEMON_PATH`].
    pub ksud_binary: BinaryState,
    /// State of [`MODULE_DIR`].
    pub module_dir: PathState,
    /// State of [`ALLOWLIST_PATH`].
    pub allowlist: AllowlistState,
    /// State of [`MODULE_UPDATE_DIR`].
    pub module_update_dir: PathState,
}

/// The result of the kernel module check for a reported version.
pub open spec fn kernel_module_spec(version: i32) -> CheckView {
    if version > 0 {
        check_view(
            "kernel_module"@,
            CheckStatus::Pass,
            "Kernel module responding, version: "@ + decimal(version as nat),
            None,
        )
    } else {
        check_view(
            "kernel_module"@,
            CheckStatus::Fail,
            "Kernel module not responding (version 0)"@,
            Some("Verify KernelSU kernel module is loaded"@),
        )
    }
}

/// Check if the kernel module is loaded and responding.
pub fn check_kernel_module(version: i32) -> (r: DiagnosticCheck)
    ensures
        r@ == kernel_module_spec(version),
{
    if version > 0 {
        let mut message = String::from_str("Kernel module responding, version: ");
        push_decimal(&mut message, version as u64);
        DiagnosticCheck {
            name: String::from_str("kernel_module"),
            status: CheckStatus::Pass,
            message,
            suggestion: None,
        }
    } else {
        DiagnosticCheck {
            name: String::from_str("kernel_module"),
            status: CheckStatus::Fail,
            message: String::from_str("Kernel module not responding (version 0)"),
            suggestion: Some(String::from_str("Verify KernelSU kernel module is loaded")),
        }
    }
}

/// The result of a directory check.
pub open spec fn directory_spec(name: Seq<char>, dir_path: Seq<char>, state: PathState) -> CheckView {
    match state {
        PathState::Directory => check_view(
            name,
            CheckStatus::Pass,
            "Directory exists: "@ + dir_path,
            None,
        ),
        PathState::NotDirectory => check_view(
            name,
            CheckStatus::Fail,
            dir_path + " exists but is not a directory"@,
            Some("Remove the file and recreate as directory"@),
        ),
        PathState::Missing => check_view(
            name,
            CheckStatus::Fail,
            "Directory missing: "@ + dir_path,
            Some("Create directory: mkdir -p "@ + dir_path),
        ),
    }
}

/// Helper: check that a directory path exists and is a directory.
pub fn check_directory_exists(name: &str, dir_path: &str, state: PathState) -> (r: DiagnosticCheck)
    ensures
        r@ == directory_spec(name@, dir_path@, state),
{
    match state {
        PathState::Directory => {
            let mut message = String::from_str("Directory exists: ");
            message.append(dir_path);
            DiagnosticCheck {
                name: String::from_str(name),
                status: CheckStatus::Pass,
                message,
                suggestion: None,
            }
        },
        PathState::NotDirectory => {
            let mut message = String::from_str(dir_path);
            message.append(" exists but is not a directory");
            DiagnosticCheck {
                name: String::from_str(name),
                status: CheckStatus::Fail,
                message,
                suggestion: Some(String::from_str("Remove the file and recreate as directory")),
            }
        },
        PathState::Missing => {
            let mut message = String::from_str("Directory missing: ");
            message.append(dir_path);
            let mut suggestion = String::from_str("Create directory: mkdir -p ");
            suggestion.append(dir_path);
            DiagnosticCheck {
                name: String::from_str(name),
                status: CheckStatus::Fail,
                message,
                suggestion: Some(suggestion),
            }
        },
    }
}

/// The result of the working directory check: it must be a directory that
/// the process may write to.
pub open spec fn working_dir_spec(state: PathState, writable: bool) -> CheckView {
    if state == PathState::Directory && !writable {
        check_view(
            "working_dir"@,
            CheckStatus::Fail,
            "Directory not writable: "@ + WORKING_DIR@,
            Some("Fix permissions so that ksud can write to "@ + WORKING_DIR@),
        )
    } else {
        directory_spec("working_dir"@, WORKING_DIR@, state)
    }
}

/// Check that the working directory exists and is writable.
pub fn check_working_dir(state: PathState, writable: bool) -> (r: DiagnosticCheck)
    ensures
        r@ == working_dir_spec(state, writable),
{
    if state == PathState::Directory && !writable {
        let mut message = String::from_str("Directory not writable: ");
        message.append(WORKING_DIR);
        let mut suggestion = String::from_str("Fix permissions so that ksud can write to ");
        suggestion.append(WORKING_DIR);
        DiagnosticCheck {
            name: String::from_str("working_dir"),
            status: CheckStatus::Fail,
            message,
            suggestion: Some(suggestion),
        }
    } else {
        check_directory_exists("working_dir", WORKING_DIR, state)
    }
}

/// Check that the binary directory exists.
pub fn check_binary_dir(state: PathState) -> (r: DiagnosticCheck)
    ensures
        r@ == directory_spec("binary_dir"@, BINARY_DIR@, state),
{
    check_directory_exists("binary_dir", BINARY_DIR, state)
}

/// The result of the daemon binary check: it must be an executable regular
/// file.
pub open spec fn ksud_binary_spec(state: BinaryState) -> CheckView {
    match state {
        BinaryState::Executable => check_view(
            "ksud_binary"@,
            CheckStatus::Pass,
            "ksud binary found: "@ + DAEMON_PATH@,
            None,
        ),
        BinaryState::NotExecutable => check_view(
            "ksud_binary"@,
            CheckStatus::Fail,
            "ksud binary is not executable: "@ + DAEMON_PATH@,
            Some("Restore its permissions: chmod 0755 "@ + DAEMON_PATH@),
        ),
        BinaryState::NotFile => check_view(
            "ksud_binary"@,
            CheckStatus::Fail,
            DAEMON_PATH@ + " exists but is not a regular file"@,
            Some("Reinstall ksud from the manager"@),
        ),
        BinaryState::Missing => check_view(
            "ksud_binary"@,
            CheckStatus::Fail,
            "ksud binary missing: "@ + DAEMON_PATH@,
            Some("Reinstall ksud from the manager"@),
        ),
    }
}

/// Check the location and permissions of the daemon binary.
pub fn check_ksud_binary(state: BinaryState) -> (r: DiagnosticCheck)
    ensures
        r@ == ksud_binary_spec(state),
{
    match state {
        BinaryState::Executable => {
            let mut message = String::from_str("ksud binary found: ");
            message.append(DAEMON_PATH);
            DiagnosticCheck {
                name: String::from_str("ksud_binary"),
                status: CheckStatus::Pass,
                message,
                suggestion: None,
            }
        },
        BinaryState::NotExecutable => {
            let mut message = String::from_str("ksud binary is not executable: ");
            message.append(DAEMON_PATH);
            let mut suggestion = String::from_str("Restore its permissions: chmod 0755 ");
            suggestion.append(DAEMON_PATH);
            DiagnosticCheck {
                name: String::from_str("ksud_binary"),
                status: CheckStatus::Fail,
                message,
                suggestion: Some(suggestion),
            }
        },
        BinaryState::NotFile => {
            let mut message = String::from_str(DAEMON_PATH);
            message.append(" exists but is not a regular file");
            DiagnosticCheck {
                name: String::from_str("ksud_binary"),
                status: CheckStatus::Fail,
                message,
                suggestion: Some(String::from_str("Reinstall ksud from the manager")),
            }
        },
        BinaryState::Missing => {
            let mut message = String::from_str("ksud binary missing: ");
            message.append(DAEMON_PATH);
            DiagnosticCheck {
                name: String::from_str("ksud_binary"),
                status: CheckStatus::Fail,
                message,
                suggestion: Some(String::from_str("Reinstall ksud from the manager")),
            }
        },
    }
}

/// Check that the modules directory exists.
pub fn check_module_dir(state: PathState) -> (r: DiagnosticCheck)
    ensures
        r@ == directory_spec("module_dir"@, MODULE_DIR@, state),
{
    check_directory_exists("module_dir", MODULE_DIR, state)
}

/// The result of the module update directory check; a missing directory is
/// normal before the first module install.
pub open spec fn module_update_dir_spec(state: PathState) -> CheckView {
    match state {
        PathState::Directory => check_view(
            "module_update_dir"@,
            CheckStatus::Pass,
            "Module update directory exists: "@ + MODULE_UPDATE_DIR@,
            None,
        ),
        PathState::NotDirectory => check_view(
            "module_update_dir"@,
            CheckStatus::Fail,
            MODULE_UPDATE_DIR@ + " exists but is not a directory"@,
            Some("Remove the file and recreate as directory"@),
        ),
        PathState::Missing => check_view(
            "module_update_dir"@,
            CheckStatus::Pass,
            "Module update directory not yet created (normal before first install)"@,
            None,
        ),
    }
}

/// Check that the module update directory exists.
pub fn check_module_update_dir(state: PathState) -> (r: DiagnosticCheck)
    ensures
        r@ == module_update_dir_spec(state),
{
    match state {
        PathState::Directory => {
            let mut message = String::from_str("Module update directory exists: ");
            message.append(MODULE_UPDATE_DIR);
            DiagnosticCheck {
                name: String::from_str("module_update_dir"),
                status: CheckStatus::Pass,
                message,
                suggestion: None,
            }
        },
        PathState::NotDirectory => {
            let mut message = String::from_str(MODULE_UPDATE_DIR);
            message.append(" exists but is not a directory");
            DiagnosticCheck {
                name: String::from_str("module_update_dir"),
                status: CheckStatus::Fail,
                message,
                suggestion: Some(String::from_str("Remove the file and recreate as directory")),
            }
        },
        PathState::Missing => DiagnosticCheck {
            name: String::from_str("module_update_dir"),
            status: CheckStatus::Pass,
            message: String::from_str(
                "Module update directory not yet created (normal before first install)",
            ),
            suggestion: None,
        },
    }
}

/// The result of the allowlist check.
pub open spec fn allowlist_spec(state: AllowlistView) -> CheckView {
    match state {
        AllowlistView::Missing => check_view(
            "allowlist"@,
            CheckStatus::Warn,
            "Allowlist file not found"@,
            Some("Allowlist is created on first use; this may be normal on fresh install"@),
        ),
        AllowlistView::Present(len) => if len < 8 {
            check_view(
                "allowlist"@,
                CheckStatus::Warn,
                "Allowlist file is very small ("@ + decimal(len as nat) + " bytes)"@,
                Some("File may be corrupted; it should contain at least magic + version"@),
            )
        } else {
            check_view(
                "allowlist"@,
                CheckStatus::Pass,
                "Allowlist file exists ("@ + decimal(len as nat) + " bytes)"@,
                None,
            )
        },
        AllowlistView::Unreadable(e) => check_view(
            "allowlist"@,
            CheckStatus::Fail,
            "Cannot read allowlist metadata: "@ + e,
            Some("Check file permissions on .allowlist"@),
        ),
    }
}

/// Check the allowlist file for basic integrity.
pub fn check_allowlist(state: &AllowlistState) -> (r: DiagnosticCheck)
    ensures
        r@ == allowlist_spec(state@),
{
    match state {
        AllowlistState::Missing => DiagnosticCheck {
            name: String::from_str("allowlist"),
            status: CheckStatus::Warn,
            message: String::from_str("Allowlist file not found"),
            suggestion: Some(
                String::from_str(
                    "Allowlist is created on first use; this may be normal on fresh install",
                ),
            ),
        },
        AllowlistState::Present(len) => {
            if *len < 8 {
                let mut message = String::from_str("Allowlist file is very small (");
                push_decimal(&mut message, *len);
                message.append(" bytes)");
                DiagnosticCheck {
                    name: String::from_str("allowlist"),
                    status: CheckStatus::Warn,
                    message,
                    suggestion: Some(
                        String::from_str(
                            "File may be corrupted; it should contain at least magic + version",
                        ),
                    ),
                }
            } else {
                let mut message = String::from_str("Allowlist file exists (");
                push_decimal(&mut message, *len);
                message.append(" bytes)");
                DiagnosticCheck {
                    name: String::from_str("allowlist"),
                    status: CheckStatus::Pass,
                    message,
                    suggestion: None,
                }
            }
        },
        AllowlistState::Unreadable(e) => {
            let mut message = String::from_str("Cannot read allowlist metadata: ");
            message.append(e.as_str());
            DiagnosticCheck {
                name: String::from_str("allowlist"),
                status: CheckStatus::Fail,
                message,
                suggestion: Some(String::from_str("Check file permissions on .allowlist")),
            }
        },
    }
}

/// The checks of a full diagnostic run, in the order they are reported.
pub open spec fn diagnostics_spec(probe: SystemProbe) -> Seq<CheckView> {
    seq![
        kernel_module_spec(probe.kernel_version),
        working_dir_spec(probe.working_dir, probe.working_dir_writable),
        directory_spec("binary_dir"@, BINARY_DIR@, probe.binary_dir),
        ksud_binary_spec(probe.ksud_binary),
        directory_spec("module_dir"@, MODULE_DIR@, probe.module_dir),
        allowlist_spec(probe.allowlist@),
        module_update_dir_spec(probe.module_update_dir),
    ]
}

/// Run all diagnostic checks on what was observed and return a report.
///
/// Checks performed:
/// - Kernel module responsiveness
/// - Working directory structure and writability
/// - Binary directory, and the ksud binary's location and permissions
/// - Module directory structure
/// - Allowlist file integrity
/// - Module update directory
pub fn run_diagnostics(probe: &SystemProbe) -> (r: DiagnosticReport)
    ensures
        checks_view(r.checks@) == diagnostics_spec(*probe),
{
    let mut checks: Vec<DiagnosticCheck> = Vec::new();
    checks.push(check_kernel_module(probe.kernel_version));
    checks.push(check_working_dir(probe.working_dir, probe.working_dir_writable));
    checks.push(check_binary_dir(probe.binary_dir));
    checks.push(check_ksud_binary(probe.ksud_binary));
    checks.push(check_module_dir(probe.module_dir));
    checks.push(check_allowlist(&probe.allowlist));
    checks.push(check_module_update_dir(probe.module_update_dir));
    assert(checks_view(checks@) =~= diagnostics_spec(*probe));
    DiagnosticReport { checks }
}

/// Every check of a diagnostic run carries a suggestion exactly when it
/// did not pass, and a run is healthy exactly when the kernel module answers
/// with a positive version, the working, binary and module directories are
/// directories, the working directory is writable, the ksud binary is an
/// executable file, the allowlist metadata can be read and nothing that is
/// not a directory sits at the module update path. A missing allowlist or a
/// small one only warns; a missing module update directory is normal.
pub proof fn diagnostics_run_laws(probe: SystemProbe)
    ensures
        forall|i: int|
            0 <= i < diagnostics_spec(probe).len() ==> ((#[trigger] diagnostics_spec(probe)[i]).suggestion
                is Some) == (diagnostics_spec(probe)[i].status != CheckStatus::Pass),
        !has_failure(diagnostics_spec(probe)) == {
            &&& probe.kernel_version > 0
            &&& probe.working_dir == PathState::Directory
            &&& probe.working_dir_writable
            &&& probe.binary_dir == PathState::Directory
            &&& probe.ksud_binary == BinaryState::Executable
            &&& probe.module_dir == PathState::Directory
            &&& !(probe.allowlist@ is Unreadable)
            &&& probe.module_update_dir != PathState::NotDirectory
        },
{
    let cs = diagnostics_spec(probe);
    if probe.kernel_version <= 0 {
        assert(cs[0].status == CheckStatus::Fail);
    }
    if probe.working_dir != PathState::Directory || !probe.working_dir_writable {
        assert(cs[1].status == CheckStatus::Fail);
    }
    if probe.binary_dir != PathState::Directory {
        assert(cs[2].status == CheckStatus::Fail);
    }
    if probe.ksud_binary != BinaryState::Executable {
        assert(cs[3].status == CheckStatus::Fail);
    }
    if probe.module_dir != PathState::Directory {
        assert(cs[4].status == CheckStatus::Fail);
    }
    if probe.allowlist@ is Unreadable {
        assert(cs[5].status == CheckStatus::Fail);
    }
    if probe.module_update_dir == PathState::NotDirectory {
        assert(cs[6].status == CheckStatus::Fail);
    }
}

} // verus!
