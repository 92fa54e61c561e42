//! What the test-report writer decides about a diagnostic: whether it is
//! reported, and under which test case name.

use vstd::prelude::*;
use vstd::string::{StrSliceExecFns, StringExecFns};

verus! {

/// A diagnostic that is tagged verbose is reported only in a verbose run;
/// every other diagnostic is always reported.
pub fn is_reported(tagged_verbose: bool, verbose_run: bool) -> (b: bool)
    ensures
        b == (tagged_verbose ==> verbose_run),
{
    if tagged_verbose {
        verbose_run
    } else {
        true
    }
}

/// `text` with every `/` turned into `.`.
pub open spec fn dotted(text: Seq<char>) -> Seq<char> {
    text.map_values(
        |c: char|
            if c == '/' {
                '.'
            } else {
                c
            },
    )
}

/// The category's name, or nothing where there is no category.
pub open spec fn category_text(category: Option<&str>) -> Seq<char> {
    match category {
        Some(name) => name@,
        None => Seq::empty(),
    }
}

/// The name of the test case that stands for a diagnostic of `category`:
/// the package prefix, then the category with its path separators as dots.
pub fn case_name(category: Option<&str>) -> (name: String)
    ensures
        name@ == "org.pglsp."@ + dotted(category_text(category)),
{
    let mut name = String::from_str("org.pglsp.");
    let text = match category {
        Some(text) => text,
        None => {
            assert(dotted(category_text(category)) =~= Seq::empty());
            assert(name@ + Seq::<char>::empty() =~= name@);
            return name;
        },
    };
    proof {
        reveal_strlit(".");
        assert("."@.len() == 1);
    }
    let n = text.unicode_len();
    let mut start: usize = 0;
    let mut i: usize = 0;
    while i < n
        invariant
            n == text@.len(),
            start <= i <= n,
            "."@ == seq!['.'],
            name@ == "org.pglsp."@ + dotted(text@.take(start as int)),
            forall|k: int| start <= k < i ==> text@[k] != '/',
        decreases n - i,
    {
        if text.get_char(i) == '/' {
            name.append(text.substring_char(start, i));
            name.append(".");
            proof {
                assert(dotted(text@.take(i + 1)) =~= dotted(text@.take(start as int))
                    + text@.subrange(start as int, i as int) + seq!['.']);
            }
            start = i + 1;
        }
        i += 1;
    }
    name.append(text.substring_char(start, n));
    proof {
        assert(dotted(text@) =~= dotted(text@.take(start as int)) + text@.subrange(
            start as int,
            n as int,
        ));
    }
    name
}

/// Where a diagnostic points to: a line and a column, both counted from 0,
/// and the file, if the text came from one.
#[derive(Debug, PartialEq, Eq)]
pub struct Location {
    pub row: usize,
    pub column: usize,
    pub file: Option<String>,
}

/// A diagnostic, as far as the report cares.
#[derive(Debug, PartialEq, Eq)]
pub struct Diagnostic {
    pub message: String,
    /// The diagnostic is tagged verbose.
    pub verbose: bool,
    pub category: Option<String>,
    pub location: Option<Location>,
}

/// One failed test case of the report, and the test suite it belongs to.
#[derive(Debug, PartialEq, Eq)]
pub struct Case {
    /// The suite's name: the path of the file.
    pub suite: String,
    pub name: String,
    pub message: String,
    pub description: String,
    /// The line, counted from 1.
    pub line: String,
    /// The column, counted from 1.
    pub column: String,
}

/// A test case as a mathematical value.
pub struct CaseView {
    pub suite: Seq<char>,
    pub name: Seq<char>,
    pub message: Seq<char>,
    pub description: Seq<char>,
    pub line: Seq<char>,
    pub column: Seq<char>,
}

impl View for Case {
    type V = CaseView;

    open spec fn view(&self) -> CaseView {
        CaseView {
            suite: self.suite@,
            name: self.name@,
            message: self.message@,
            description: self.description@,
            line: self.line@,
            column: self.column@,
        }
    }
}

/// The cases as mathematical values.
pub open spec fn case_views(cases: Seq<Case>) -> Seq<CaseView> {
    cases.map_values(|case: Case| case@)
}

/// The decimal digit for a number below ten.
pub open spec fn digit(d: nat) -> char {
    if d == 0 {
        '0'
    } else if d == 1 {
        '1'
    } else if d == 2 {
        '2'
    } else if d == 3 {
        '3'
    } else if d == 4 {
        '4'
    } else if d == 5 {
        '5'
    } else if d == 6 {
        '6'
    } else if d == 7 {
        '7'
    } else if d == 8 {
        '8'
    } else {
        '9'
    }
}

/// The decimal numeral of `n`, without leading zeros.
pub open spec fn numeral(n: nat) -> Seq<char>
    decreases n,
{
    if n < 10 {
        seq![digit(n)]
    } else {
        numeral(n / 10).push(digit(n % 10))
    }
}

/// The category of a diagnostic as an optional text.
pub open spec fn category_of(d: Diagnostic) -> Seq<char> {
    match d.category {
        Some(name) => name@,
        None => Seq::empty(),
    }
}

/// The description of a test case: where the diagnostic points to, counted
/// from 0, and what it says.
pub open spec fn description_of(row: nat, column: nat, message: Seq<char>) -> Seq<char> {
    "line "@ + numeral(row) + ", col "@ + numeral(column) + ", "@ + message
}

/// The test case that a diagnostic becomes. A diagnostic that is held back,
/// that points nowhere, or that points into no file becomes none.
pub open spec fn case_of(verbose_run: bool) -> spec_fn(Diagnostic) -> Option<CaseView> {
    |d: Diagnostic|
        if d.verbose && !verbose_run {
            None
        } else {
            match d.location {
                Some(Location { row, column, file: Some(path) }) => Some(
                    CaseView {
                        suite: path@,
                        name: "org.pglsp."@ + dotted(category_of(d)),
                        message: d.message@,
                        description: description_of(row as nat, column as nat, d.message@),
                        line: numeral(row as nat + 1),
                        column: numeral(column as nat + 1),
                    },
                ),
                _ => None,
            }
        }
}

fn digit_str(d: u8) -> (s: &'static str)
    requires
        d < 10,
    ensures
        s@ == seq![digit(d as nat)],
{
    proof {
        reveal_strlit("0");
        reveal_strlit("1");
        reveal_strlit("2");
        reveal_strlit("3");
        reveal_strlit("4");
        reveal_strlit("5");
        reveal_strlit("6");
        reveal_strlit("7");
        reveal_strlit("8");
        reveal_strlit("9");
    }
    let s = match d {
        0 => "0",
        1 => "1",
        2 => "2",
        3 => "3",
        4 => "4",
        5 => "5",
        6 => "6",
        7 => "7",
        8 => "8",
        _ => "9",
    };
    assert(s@.len() == 1 && s@[0] == digit(d as nat));
    assert(s@ =~= seq![digit(d as nat)]);
    s
}

/// The decimal numeral of `n`.
pub fn decimal(n: u128) -> (s: String)
    ensures
        s@ == numeral(n as nat),
    decreases n,
{
    if n < 10 {
        String::from_str(digit_str(n as u8))
    } else {
        let mut s = decimal(n / 10);
        s.append(digit_str((n % 10) as u8));
        assert(s@ =~= numeral(n as nat));
        s
    }
}

/// The test cases of a report: one for each diagnostic that is reported
/// and points into a file, in the order of the diagnostics.
pub fn report_cases(diagnostics: &Vec<Diagnostic>, verbose_run: bool) -> (cases: Vec<Case>)
    ensures
        case_views(cases@) == diagnostics@.filter_map(case_of(verbose_run)),
{
    let mut cases: Vec<Case> = Vec::new();
    let mut i: usize = 0;
    assert(case_views(cases@) =~= diagnostics@.take(0).filter_map(case_of(verbose_run)));
    while i < diagnostics.len()
        invariant
            i <= diagnostics.len(),
            case_views(cases@) == diagnostics@.take(i as int).filter_map(case_of(verbose_run)),
        decreases diagnostics.len() - i,
    {
        let d = &diagnostics[i];
        let ghost before = case_views(cases@);
        proof {
            diagnostics@.lemma_filter_map_take_succ(case_of(verbose_run), i as int);
        }
        if is_reported(d.verbose, verbose_run) {
            if let Some(location) = &d.location {
                if let Some(path) = &location.file {
                    let category = match &d.category {
                        Some(name) => Some(name.as_str()),
                        None => None,
                    };
                    let mut description = String::from_str("line ");
                    description.append(decimal(location.row as u128).as_str());
                    description.append(", col ");
                    description.append(decimal(location.column as u128).as_str());
                    description.append(", ");
                    description.append(d.message.as_str());
                    let case = Case {
                        suite: path.clone(),
                        name: case_name(category),
                        message: d.message.clone(),
                        description,
                        line: decimal(location.row as u128 + 1),
                        column: decimal(location.column as u128 + 1),
                    };
                    assert(Some(case@) == case_of(verbose_run)(*d));
                    cases.push(case);
                    assert(case_views(cases@) =~= before.push(case@));
                }
            }
        }
        assert(case_of(verbose_run)(*d) is None ==> case_views(cases@) == before);
        assert(case_views(cases@) =~= diagnostics@.take(i + 1).filter_map(case_of(verbose_run)));
        i += 1;
    }
    assert(diagnostics@.take(diagnostics.len() as int) =~= diagnostics@);
    cases
}

} // verus!
