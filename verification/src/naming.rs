use vstd::prelude::*;

use crate::text::str_eq;
use crate::text::{
    is_digit, is_digit_char, lemma_rfind_at, rfind_char, spec_rfind, substring_copy,
};

verus! {

/// The three allowed kinds of test definition.
#[derive(Clone, Copy, PartialEq, Eq, Structural, Debug)]
pub enum TestType {
    Smoke,
    Regression,
    Functional,
}

pub open spec fn spec_type_name(t: TestType) -> Seq<char> {
    match t {
        TestType::Smoke => "smoke"@,
        TestType::Regression => "regression"@,
        TestType::Functional => "functional"@,
    }
}

/// Validation of the test-type argument: exactly the three allowed spellings.
pub open spec fn spec_type_of_name(n: Seq<char>) -> Option<TestType> {
    if n == spec_type_name(TestType::Smoke) {
        Some(TestType::Smoke)
    } else if n == spec_type_name(TestType::Regression) {
        Some(TestType::Regression)
    } else if n == spec_type_name(TestType::Functional) {
        Some(TestType::Functional)
    } else {
        None
    }
}

impl TestType {
    pub fn name(&self) -> (r: String)
        ensures
            r@ == spec_type_name(*self),
    {
        match self {
            TestType::Smoke => String::from_str("smoke"),
            TestType::Regression => String::from_str("regression"),
            TestType::Functional => String::from_str("functional"),
        }
    }

    /// Parses the test-type argument; anything but the three allowed
    /// spellings is invalid and aborts the create workflow.
    pub fn from_name(n: &str) -> (r: Option<TestType>)
        ensures
            r == spec_type_of_name(n@),
    {
        if str_eq(n, "smoke") {
            Some(TestType::Smoke)
        } else if str_eq(n, "regression") {
            Some(TestType::Regression)
        } else if str_eq(n, "functional") {
            Some(TestType::Functional)
        } else {
            None
        }
    }
}

/// The base name of a definition: the test type alone, or the test type and
/// the user-supplied name joined by a hyphen. A definition's name carries no
/// timestamp: definitions are named identities, not snapshots.
pub open spec fn spec_base_name(t: TestType, name: Seq<char>) -> Seq<char> {
    if name.len() == 0 {
        spec_type_name(t)
    } else {
        spec_type_name(t) + seq!['-'] + name
    }
}

pub fn base_name(t: TestType, name: &str) -> (r: String)
    ensures
        r@ == spec_base_name(t, name@),
{
    if name.unicode_len() == 0 {
        t.name()
    } else {
        let mut out = t.name();
        out.append("-");
        out.append(name);
        proof {
            reveal_strlit("-");
            assert(out@ =~= spec_base_name(t, name@));
        }
        out
    }
}

/// Where a definition lives: its CSV file under the `definitions` namespace.
pub open spec fn spec_definition_csv_path(base: Seq<char>) -> Seq<char> {
    "definitions/"@ + base + ".csv"@
}

pub fn definition_csv_path(base: &str) -> (r: String)
    ensures
        r@ == spec_definition_csv_path(base@),
{
    let mut out = String::from_str("definitions/");
    out.append(base);
    out.append(".csv");
    proof {
        assert(out@ =~= spec_definition_csv_path(base@));
    }
    out
}

/// The last path component: everything after the last `/`.
pub open spec fn spec_last_component(p: Seq<char>) -> Seq<char> {
    p.subrange(spec_rfind(p, '/') + 1, p.len() as int)
}

/// The file stem of a name: the part before the last `.`, except that a name
/// whose only `.` leads it (a hidden file) or that has none keeps itself.
pub open spec fn spec_file_stem(name: Seq<char>) -> Seq<char> {
    if spec_rfind(name, '.') <= 0 {
        name
    } else {
        name.take(spec_rfind(name, '.'))
    }
}

/// The stem of a whole path: last component, extension stripped.
pub open spec fn spec_path_stem(p: Seq<char>) -> Seq<char> {
    spec_file_stem(spec_last_component(p))
}

/// Extracts the stem of a path.
pub fn path_stem(p: &str) -> (r: String)
    ensures
        r@ == spec_path_stem(p@),
{
    let n = p.unicode_len();
    proof {
        crate::text::lemma_rfind_bounds(p@, '/');
    }
    let start: usize = match rfind_char(p, '/') {
        Some(j) => j + 1,
        None => 0,
    };
    let component = substring_copy(p, start, n);
    let clen = component.unicode_len();
    let cut: usize = match rfind_char(component.as_str(), '.') {
        Some(j) => {
            if j == 0 {
                clen
            } else {
                j
            }
        },
        None => clen,
    };
    proof {
        crate::text::lemma_rfind_bounds(component@, '.');
        assert(component@.take(component@.len() as int) =~= component@);
    }
    let stem = substring_copy(component.as_str(), 0, cut);
    proof {
        assert(stem@ =~= spec_path_stem(p@));
    }
    stem
}

/// The shape of a run timestamp, `YYYYMMDD_HHMMSS`: fifteen characters, an
/// underscore after the date, digits everywhere else.
pub open spec fn spec_run_stamp_shape(t: Seq<char>) -> bool {
    t.len() == 15 && t[8] == '_' && (forall|i: int|
        0 <= i < 15 && i != 8 ==> is_digit_char(#[trigger] t[i]))
}

/// Does the text have the run-timestamp shape?
pub fn is_run_stamp(t: &str) -> (r: bool)
    ensures
        r == spec_run_stamp_shape(t@),
{
    let n = t.unicode_len();
    if n != 15 {
        return false;
    }
    if t.get_char(8) != '_' {
        return false;
    }
    let mut i: usize = 0;
    while i < 15
        invariant
            i <= 15,
            t@.len() == 15,
            forall|j: int| 0 <= j < i && j != 8 ==> is_digit_char(#[trigger] t@[j]),
        decreases 15 - i,
    {
        if i != 8 && !is_digit(t.get_char(i)) {
            return false;
        }
        i += 1;
    }
    true
}

/// A re-executed execution keeps its definition's identity: a trailing
/// `-<timestamp>` segment, if present, is dropped before a fresh timestamp is
/// appended, so timestamps never accumulate. A tail without the timestamp
/// shape is part of the name and stays.
pub open spec fn spec_strip_run_suffix(stem: Seq<char>) -> Seq<char> {
    let j = spec_rfind(stem, '-');
    if j >= 0 && spec_run_stamp_shape(stem.subrange(j + 1, stem.len() as int)) {
        stem.take(j)
    } else {
        stem
    }
}

pub fn strip_run_suffix(stem: &str) -> (r: String)
    ensures
        r@ == spec_strip_run_suffix(stem@),
{
    proof {
        crate::text::lemma_rfind_bounds(stem@, '-');
    }
    let n = stem.unicode_len();
    match rfind_char(stem, '-') {
        Some(j) => {
            let tail = substring_copy(stem, j + 1, n);
            if is_run_stamp(tail.as_str()) {
                substring_copy(stem, 0, j)
            } else {
                let r = stem.to_owned();
                proof {
                    assert(r@ =~= spec_strip_run_suffix(stem@));
                }
                r
            }
        },
        None => {
            let r = stem.to_owned();
            proof {
                assert(r@ =~= spec_strip_run_suffix(stem@));
            }
            r
        },
    }
}

/// The name of one execution snapshot: the base name and the timestamp
/// joined by a hyphen.
pub open spec fn spec_execution_name(base: Seq<char>, stamp: Seq<char>) -> Seq<char> {
    base + seq!['-'] + stamp
}

pub fn execution_name(base: &str, stamp: &str) -> (r: String)
    ensures
        r@ == spec_execution_name(base@, stamp@),
{
    let mut out = base.to_owned();
    out.append("-");
    out.append(stamp);
    proof {
        reveal_strlit("-");
        assert(out@ =~= spec_execution_name(base@, stamp@));
    }
    out
}

/// Where an execution snapshot lives: its CSV and Markdown pair under the
/// `executions` namespace.
pub open spec fn spec_execution_csv_path(name: Seq<char>) -> Seq<char> {
    "executions/"@ + name + ".csv"@
}

pub open spec fn spec_execution_md_path(name: Seq<char>) -> Seq<char> {
    "executions/"@ + name + ".md"@
}

pub fn execution_paths(name: &str) -> (r: (String, String))
    ensures
        r.0@ == spec_execution_csv_path(name@),
        r.1@ == spec_execution_md_path(name@),
{
    let mut csv_path = String::from_str("executions/");
    csv_path.append(name);
    csv_path.append(".csv");
    let mut md_path = String::from_str("executions/");
    md_path.append(name);
    md_path.append(".md");
    proof {
        assert(csv_path@ =~= spec_execution_csv_path(name@));
        assert(md_path@ =~= spec_execution_md_path(name@));
    }
    (csv_path, md_path)
}

/// The Markdown report paired with a CSV file: same directory, same stem,
/// the `.md` extension.
pub open spec fn spec_paired_md_path(p: Seq<char>) -> Seq<char> {
    p.subrange(0, spec_rfind(p, '/') + 1) + spec_path_stem(p) + ".md"@
}

/// Where the Markdown report paired with the file at `p` lives.
pub fn paired_md_path(p: &str) -> (r: String)
    ensures
        r@ == spec_paired_md_path(p@),
{
    let n = p.unicode_len();
    proof {
        crate::text::lemma_rfind_bounds(p@, '/');
    }
    let start: usize = match rfind_char(p, '/') {
        Some(j) => j + 1,
        None => 0,
    };
    let mut out = substring_copy(p, 0, start);
    let stem = path_stem(p);
    out.append(stem.as_str());
    out.append(".md");
    proof {
        assert(out@ =~= spec_paired_md_path(p@));
    }
    out
}

/// Is the path a definition, judged by its namespace prefix?
pub open spec fn spec_is_definition_path(p: Seq<char>) -> bool {
    p.len() >= 12 && p.subrange(0, 12) == "definitions/"@
}

pub fn is_definition_path(p: &str) -> (r: bool)
    ensures
        r == spec_is_definition_path(p@),
{
    let n = p.unicode_len();
    if n < 12 {
        return false;
    }
    let prefix = p.substring_char(0, 12);
    str_eq(prefix, "definitions/")
}

/// A timestamp-shaped text holds digits and one underscore alone, so none of
/// the characters the naming scheme splits on can occur in it.
pub proof fn lemma_run_stamp_chars(t: Seq<char>)
    requires
        spec_run_stamp_shape(t),
    ensures
        forall|i: int| 0 <= i < t.len() ==> #[trigger] t[i] != '-',
        forall|i: int| 0 <= i < t.len() ==> #[trigger] t[i] != '/',
        forall|i: int| 0 <= i < t.len() ==> #[trigger] t[i] != '.',
{
    assert forall|i: int| 0 <= i < t.len() implies #[trigger] t[i] != '-' && t[i] != '/' && t[i]
        != '.' by {
        if i != 8 {
            assert(is_digit_char(t[i]));
        }
    }
}

/// Stripping the run suffix of an execution name restores the base it was
/// made from, whenever the appended timestamp has the run-timestamp shape —
/// as the clock's timestamps always do. Re-execution therefore never
/// accumulates timestamps.
pub proof fn lemma_strip_restores_base(base: Seq<char>, stamp: Seq<char>)
    requires
        spec_run_stamp_shape(stamp),
    ensures
        spec_strip_run_suffix(spec_execution_name(base, stamp)) == base,
{
    let name = spec_execution_name(base, stamp);
    lemma_run_stamp_chars(stamp);
    lemma_rfind_at(name, '-', base.len() as int);
    assert(name.subrange(base.len() as int + 1, name.len() as int) =~= stamp);
    assert(name.take(base.len() as int) =~= base);
}

/// Two executions taken at distinct timestamps never share a name, so a
/// fresh run never reuses or overwrites an earlier run's files.
pub proof fn lemma_execution_names_distinct(base: Seq<char>, s1: Seq<char>, s2: Seq<char>)
    requires
        s1 != s2,
    ensures
        spec_execution_name(base, s1) != spec_execution_name(base, s2),
{
    let n1 = spec_execution_name(base, s1);
    let n2 = spec_execution_name(base, s2);
    if n1 == n2 {
        assert(n1.len() == n2.len());
        assert(s1.len() == s2.len());
        assert forall|i: int| 0 <= i < s1.len() implies s1[i] == s2[i] by {
            assert(n1[base.len() + 1 + i] == s1[i]);
            assert(n2[base.len() + 1 + i] == s2[i]);
        }
        assert(s1 =~= s2);
    }
}

/// Distinct execution names give distinct CSV paths and distinct Markdown
/// paths: each run writes its own pair of files.
pub proof fn lemma_execution_paths_distinct(n1: Seq<char>, n2: Seq<char>)
    requires
        n1 != n2,
    ensures
        spec_execution_csv_path(n1) != spec_execution_csv_path(n2),
        spec_execution_md_path(n1) != spec_execution_md_path(n2),
{
    reveal_strlit("executions/");
    reveal_strlit(".csv");
    reveal_strlit(".md");
    let p1 = spec_execution_csv_path(n1);
    let p2 = spec_execution_csv_path(n2);
    if p1 == p2 {
        assert(p1.len() == p2.len());
        assert(n1.len() == n2.len());
        assert forall|i: int| 0 <= i < n1.len() implies n1[i] == n2[i] by {
            assert(p1[11 + i] == n1[i]);
            assert(p2[11 + i] == n2[i]);
        }
        assert(n1 =~= n2);
    }
    let q1 = spec_execution_md_path(n1);
    let q2 = spec_execution_md_path(n2);
    if q1 == q2 {
        assert(q1.len() == q2.len());
        assert(n1.len() == n2.len());
        assert forall|i: int| 0 <= i < n1.len() implies n1[i] == n2[i] by {
            assert(q1[11 + i] == n1[i]);
            assert(q2[11 + i] == n2[i]);
        }
        assert(n1 =~= n2);
    }
}

} // verus!
