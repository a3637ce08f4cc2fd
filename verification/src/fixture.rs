//! The settings of a test program: how it is run, and what is expected of it.
//!
//! A program may have its settings written down beside it, line by line, in
//! sections. Where it has none, remarks in its source tell what is expected.

use crate::citations::{
    is_error_code, is_proposal_citation, is_requirement_citation, is_rule_citation,
};
use crate::resolve::is_text;
use crate::strings::{chars_of, find_from, is_at, split, string_of, trim_end, trim_start};
use vstd::prelude::*;
use vstd::string::*;

verus! {

/// How a program is run.
#[derive(Clone, Copy, Debug, PartialEq, Eq, Structural)]
pub enum RunnerKind {
    Parse,
    Typecheck,
    Evaluate,
    LoadProgram,
    LoadGraph,
    FullPipeline,
}

/// Which names a program has without importing them.
#[derive(Clone, Copy, Debug, PartialEq, Eq, Structural)]
pub enum CorePreludeMode {
    Empty,
    Default,
}

/// How a program is to end.
#[derive(Clone, Copy, Debug, PartialEq, Eq, Structural)]
pub enum ExpectStatus {
    Success,
    ParseError,
    TypecheckError,
    RuntimeError,
    LoadError,
}

/// What is expected of a program.
#[derive(Debug)]
pub struct Expectation {
    pub status: ExpectStatus,
    pub code: Option<String>,
    pub contains: Option<String>,
    pub line: Option<usize>,
    pub col: Option<usize>,
    /// Parts of the warnings that are expected, where the program is about
    /// warnings.
    pub warnings: Option<Vec<String>>,
}

/// What else is said of a program.
#[derive(Debug)]
pub struct FixtureOptions {
    pub move_check: bool,
    /// The sections of proposals that the program demonstrates.
    pub rfc: Vec<String>,
    /// The rules of the language that the program demonstrates.
    pub spec: Vec<String>,
    /// Why the program is not run, where it is not.
    pub skip: Option<String>,
    /// A label to show in place of the file's name.
    pub spec_title: Option<String>,
    /// The requirements on the design that the program verifies.
    pub arch_verifies: Vec<String>,
    /// The error codes that the program demonstrates.
    pub error: Vec<String>,
}

/// What is expected of the program that has been loaded.
#[derive(Debug)]
pub struct ProgramChecks {
    pub imports: Option<usize>,
    pub decls: Option<usize>,
}

/// What is expected of the modules that have been loaded.
#[derive(Debug)]
pub struct GraphChecks {
    pub module_count: Option<usize>,
    pub has_module_paths: Vec<Vec<String>>,
}

/// All settings of a program.
#[derive(Debug)]
pub struct FixtureConfig {
    pub runner: RunnerKind,
    pub prelude: CorePreludeMode,
    pub options: FixtureOptions,
    pub expect: Expectation,
    pub program: ProgramChecks,
    pub graph: GraphChecks,
}

/// The settings that are written down for one program.
#[derive(Debug)]
pub struct PartialConfig {
    pub runner: Option<RunnerKind>,
    pub prelude: Option<CorePreludeMode>,
    pub move_check: Option<bool>,
    pub rfc: Option<Vec<String>>,
    pub spec: Option<Vec<String>>,
    pub skip: Option<String>,
    pub spec_title: Option<String>,
    pub arch_verifies: Option<Vec<String>>,
    pub error: Option<Vec<String>>,
    pub status: Option<ExpectStatus>,
    pub code: Option<String>,
    pub contains: Option<String>,
    pub line: Option<usize>,
    pub col: Option<usize>,
    pub warnings: Option<Vec<String>>,
    pub program_imports: Option<usize>,
    pub program_decls: Option<usize>,
    pub graph_module_count: Option<usize>,
    pub graph_has_module_paths: Option<Vec<Vec<String>>>,
}

/// What settings say.
pub struct SettingsModel {
    pub runner: RunnerKind,
    pub prelude: CorePreludeMode,
    pub move_check: bool,
    pub rfc: Seq<Seq<char>>,
    pub spec: Seq<Seq<char>>,
    pub skip: Option<Seq<char>>,
    pub spec_title: Option<Seq<char>>,
    pub arch_verifies: Seq<Seq<char>>,
    pub error: Seq<Seq<char>>,
    pub status: ExpectStatus,
    pub code: Option<Seq<char>>,
    pub contains: Option<Seq<char>>,
    pub line: Option<usize>,
    pub col: Option<usize>,
    pub warnings: Option<Seq<Seq<char>>>,
    pub imports: Option<usize>,
    pub decls: Option<usize>,
    pub module_count: Option<usize>,
    pub has_module_paths: Seq<Seq<Seq<char>>>,
}

/// What the settings that are written down say.
pub struct PartialModel {
    pub runner: Option<RunnerKind>,
    pub prelude: Option<CorePreludeMode>,
    pub move_check: Option<bool>,
    pub rfc: Option<Seq<Seq<char>>>,
    pub spec: Option<Seq<Seq<char>>>,
    pub skip: Option<Seq<char>>,
    pub spec_title: Option<Seq<char>>,
    pub arch_verifies: Option<Seq<Seq<char>>>,
    pub error: Option<Seq<Seq<char>>>,
    pub status: Option<ExpectStatus>,
    pub code: Option<Seq<char>>,
    pub contains: Option<Seq<char>>,
    pub line: Option<usize>,
    pub col: Option<usize>,
    pub warnings: Option<Seq<Seq<char>>>,
    pub imports: Option<usize>,
    pub decls: Option<usize>,
    pub module_count: Option<usize>,
    pub has_module_paths: Option<Seq<Seq<Seq<char>>>>,
}

impl View for FixtureConfig {
    type V = SettingsModel;

    open spec fn view(&self) -> SettingsModel {
        SettingsModel {
            runner: self.runner,
            prelude: self.prelude,
            move_check: self.options.move_check,
            rfc: self.options.rfc.deep_view(),
            spec: self.options.spec.deep_view(),
            skip: self.options.skip.deep_view(),
            spec_title: self.options.spec_title.deep_view(),
            arch_verifies: self.options.arch_verifies.deep_view(),
            error: self.options.error.deep_view(),
            status: self.expect.status,
            code: self.expect.code.deep_view(),
            contains: self.expect.contains.deep_view(),
            line: self.expect.line,
            col: self.expect.col,
            warnings: self.expect.warnings.deep_view(),
            imports: self.program.imports,
            decls: self.program.decls,
            module_count: self.graph.module_count,
            has_module_paths: self.graph.has_module_paths.deep_view(),
        }
    }
}

impl View for PartialConfig {
    type V = PartialModel;

    open spec fn view(&self) -> PartialModel {
        PartialModel {
            runner: self.runner,
            prelude: self.prelude,
            move_check: self.move_check,
            rfc: self.rfc.deep_view(),
            spec: self.spec.deep_view(),
            skip: self.skip.deep_view(),
            spec_title: self.spec_title.deep_view(),
            arch_verifies: self.arch_verifies.deep_view(),
            error: self.error.deep_view(),
            status: self.status,
            code: self.code.deep_view(),
            contains: self.contains.deep_view(),
            line: self.line,
            col: self.col,
            warnings: self.warnings.deep_view(),
            imports: self.program_imports,
            decls: self.program_decls,
            module_count: self.graph_module_count,
            has_module_paths: self.graph_has_module_paths.deep_view(),
        }
    }
}

/// Nothing written down.
pub open spec fn no_settings() -> PartialModel {
    PartialModel {
        runner: None,
        prelude: None,
        move_check: None,
        rfc: None,
        spec: None,
        skip: None,
        spec_title: None,
        arch_verifies: None,
        error: None,
        status: None,
        code: None,
        contains: None,
        line: None,
        col: None,
        warnings: None,
        imports: None,
        decls: None,
        module_count: None,
        has_module_paths: None,
    }
}

impl Default for PartialConfig {
    fn default() -> (r: Self)
        ensures
            r@ == no_settings(),
    {
        PartialConfig {
            runner: None,
            prelude: None,
            move_check: None,
            rfc: None,
            spec: None,
            skip: None,
            spec_title: None,
            arch_verifies: None,
            error: None,
            status: None,
            code: None,
            contains: None,
            line: None,
            col: None,
            warnings: None,
            program_imports: None,
            program_decls: None,
            graph_module_count: None,
            graph_has_module_paths: None,
        }
    }
}

/// What is wrong with settings.
#[derive(Clone, Copy, Debug, PartialEq, Eq, Structural)]
pub enum Problem {
    UnknownSuite,
    UnknownSection,
    UnknownKey,
    UnknownWord,
    NoValue,
    NotANumber,
    NotAList,
    BadCitation,
}

/// A problem, and the text that has it.
#[derive(Debug)]
pub struct FixtureError {
    pub problem: Problem,
    pub text: String,
}

impl View for FixtureError {
    type V = (Problem, Seq<char>);

    open spec fn view(&self) -> (Problem, Seq<char>) {
        (self.problem, self.text@)
    }
}

/// A text without the white space around it.
pub open spec fn trimmed(s: Seq<char>) -> Seq<char> {
    crate::strings::trimmed_end(crate::strings::trimmed_start(s))
}

fn trim(s: &String) -> (r: String)
    ensures
        r@ == trimmed(s@),
{
    trim_end(&trim_start(s))
}

/// Whether a text stands between two characters.
pub open spec fn between(s: Seq<char>, first: char, last: char) -> bool {
    s.len() >= 2 && s[0] == first && s.last() == last
}

/// What stands between the first and the last character.
pub open spec fn inside(s: Seq<char>) -> Seq<char> {
    s.subrange(1, s.len() - 1)
}

fn inside_of(s: &String, first: char, last: char) -> (r: Option<String>)
    ensures
        match r {
            Some(t) => between(s@, first, last) && t@ == inside(s@),
            None => !between(s@, first, last),
        },
{
    let cs = chars_of(s.as_str());
    let n: usize = cs.len();
    if n >= 2 && cs[0] == first && cs[n - 1] == last {
        Some(string_of(&cs, 1, n - 1))
    } else {
        None
    }
}

/// What a value says: quotation marks around it are no part of it.
pub open spec fn scalar(raw: Seq<char>) -> Seq<char> {
    let t = trimmed(raw);
    if between(t, '"', '"') {
        inside(t)
    } else {
        t
    }
}

pub fn parse_scalar(raw: &String) -> (r: String)
    ensures
        r@ == scalar(raw@),
{
    let t = trim(raw);
    match inside_of(&t, '"', '"') {
        Some(s) => s,
        None => t,
    }
}

/// What the items of a list say.
pub open spec fn scalars(items: Seq<Seq<char>>) -> Seq<Seq<char>> {
    Seq::new(items.len(), |i: int| scalar(items[i]))
}

/// The items of a list, which stands in square brackets.
pub open spec fn listed(value: Seq<char>) -> Result<Seq<Seq<char>>, (Problem, Seq<char>)> {
    let t = trimmed(value);
    if !between(t, '[', ']') {
        Err((Problem::NotAList, t))
    } else if trimmed(inside(t)).len() == 0 {
        Ok(Seq::empty())
    } else {
        Ok(scalars(crate::strings::split_from(inside(t), ","@, 0)))
    }
}

pub fn parse_list(raw: &String) -> (r: Result<Vec<String>, FixtureError>)
    ensures
        match r {
            Ok(items) => listed(raw@) == Ok::<Seq<Seq<char>>, (Problem, Seq<char>)>(
                items.deep_view(),
            ),
            Err(e) => listed(raw@) == Err::<Seq<Seq<char>>, (Problem, Seq<char>)>(e@),
        },
{
    let t = trim(raw);
    let inner = match inside_of(&t, '[', ']') {
        Some(inner) => inner,
        None => {
            return Err(FixtureError { problem: Problem::NotAList, text: t });
        },
    };
    let mut out: Vec<String> = Vec::new();
    if trim(&inner).as_str().unicode_len() == 0 {
        assert(out.deep_view() =~= Seq::<Seq<char>>::empty());
        return Ok(out);
    }
    let parts = split(&inner, &",".to_owned());
    let ghost all = parts.deep_view();
    let mut i: usize = 0;
    while i < parts.len()
        invariant
            i <= parts.len(),
            all == parts.deep_view(),
            out.deep_view() == scalars(all).take(i as int),
        decreases parts.len() - i,
    {
        let ghost before = out.deep_view();
        assert(before.len() == out@.len());
        assert(all[i as int] == parts@[i as int]@);
        let item = parse_scalar(&parts[i]);
        out.push(item);
        proof {
            assert(out.deep_view() =~= before.push(item@));
            assert(scalars(all).take(i + 1) =~= scalars(all).take(i as int).push(item@));
        }
        i += 1;
    }
    assert(scalars(all).take(all.len() as int) =~= scalars(all));
    Ok(out)
}

/// The way to run a program that a word names.
pub open spec fn runner_named(value: Seq<char>) -> Option<RunnerKind> {
    if value == "parse"@ {
        Some(RunnerKind::Parse)
    } else if value == "typecheck"@ {
        Some(RunnerKind::Typecheck)
    } else if value == "evaluate"@ {
        Some(RunnerKind::Evaluate)
    } else if value == "load_program"@ {
        Some(RunnerKind::LoadProgram)
    } else if value == "load_graph"@ {
        Some(RunnerKind::LoadGraph)
    } else if value == "full_pipeline"@ {
        Some(RunnerKind::FullPipeline)
    } else {
        None
    }
}

pub fn parse_runner(value: &String) -> (r: Result<RunnerKind, FixtureError>)
    ensures
        match r {
            Ok(x) => runner_named(value@) == Some(x),
            Err(e) => runner_named(value@) is None && e@ == (Problem::UnknownWord, value@),
        },
{
    if is_text(value, "parse") {
        Ok(RunnerKind::Parse)
    } else if is_text(value, "typecheck") {
        Ok(RunnerKind::Typecheck)
    } else if is_text(value, "evaluate") {
        Ok(RunnerKind::Evaluate)
    } else if is_text(value, "load_program") {
        Ok(RunnerKind::LoadProgram)
    } else if is_text(value, "load_graph") {
        Ok(RunnerKind::LoadGraph)
    } else if is_text(value, "full_pipeline") {
        Ok(RunnerKind::FullPipeline)
    } else {
        Err(FixtureError { problem: Problem::UnknownWord, text: value.clone() })
    }
}

/// The names that a word says a program has.
pub open spec fn prelude_named(value: Seq<char>) -> Option<CorePreludeMode> {
    if value == "empty"@ {
        Some(CorePreludeMode::Empty)
    } else if value == "default"@ {
        Some(CorePreludeMode::Default)
    } else {
        None
    }
}

pub fn parse_prelude(value: &String) -> (r: Result<CorePreludeMode, FixtureError>)
    ensures
        match r {
            Ok(x) => prelude_named(value@) == Some(x),
            Err(e) => prelude_named(value@) is None && e@ == (Problem::UnknownWord, value@),
        },
{
    if is_text(value, "empty") {
        Ok(CorePreludeMode::Empty)
    } else if is_text(value, "default") {
        Ok(CorePreludeMode::Default)
    } else {
        Err(FixtureError { problem: Problem::UnknownWord, text: value.clone() })
    }
}

/// The end that a word names.
pub open spec fn status_named(value: Seq<char>) -> Option<ExpectStatus> {
    if value == "success"@ {
        Some(ExpectStatus::Success)
    } else if value == "parse_error"@ {
        Some(ExpectStatus::ParseError)
    } else if value == "typecheck_error"@ {
        Some(ExpectStatus::TypecheckError)
    } else if value == "runtime_error"@ {
        Some(ExpectStatus::RuntimeError)
    } else if value == "load_error"@ {
        Some(ExpectStatus::LoadError)
    } else {
        None
    }
}

pub fn parse_status(value: &String) -> (r: Result<ExpectStatus, FixtureError>)
    ensures
        match r {
            Ok(x) => status_named(value@) == Some(x),
            Err(e) => status_named(value@) is None && e@ == (Problem::UnknownWord, value@),
        },
{
    if is_text(value, "success") {
        Ok(ExpectStatus::Success)
    } else if is_text(value, "parse_error") {
        Ok(ExpectStatus::ParseError)
    } else if is_text(value, "typecheck_error") {
        Ok(ExpectStatus::TypecheckError)
    } else if is_text(value, "runtime_error") {
        Ok(ExpectStatus::RuntimeError)
    } else if is_text(value, "load_error") {
        Ok(ExpectStatus::LoadError)
    } else {
        Err(FixtureError { problem: Problem::UnknownWord, text: value.clone() })
    }
}

/// The truth value that a word names.
pub open spec fn bool_named(value: Seq<char>) -> Option<bool> {
    if value == "true"@ {
        Some(true)
    } else if value == "false"@ {
        Some(false)
    } else {
        None
    }
}

pub fn parse_bool(value: &String) -> (r: Result<bool, FixtureError>)
    ensures
        match r {
            Ok(x) => bool_named(value@) == Some(x),
            Err(e) => bool_named(value@) is None && e@ == (Problem::UnknownWord, value@),
        },
{
    if is_text(value, "true") {
        Ok(true)
    } else if is_text(value, "false") {
        Ok(false)
    } else {
        Err(FixtureError { problem: Problem::UnknownWord, text: value.clone() })
    }
}

/// The number that the digits between two positions write.
pub open spec fn digits_value(s: Seq<char>, from: int, to: int) -> int
    decreases to - from,
{
    if from >= to {
        0
    } else {
        10 * digits_value(s, from, to - 1) + (s[to - 1] as int - '0' as int)
    }
}

/// The number that a text writes: digits, at least one, and a plus sign before them
/// or not. A number that is too large is none.
pub open spec fn number(s: Seq<char>) -> Option<usize> {
    let from = if s.len() > 0 && s[0] == '+' {
        1int
    } else {
        0int
    };
    let n = digits_value(s, from, s.len() as int);
    if s.len() > from && crate::citations::digits_from(s, from) == s.len() - from && n
        <= usize::MAX {
        Some(n as usize)
    } else {
        None
    }
}

proof fn lemma_digits(s: Seq<char>, from: int, i: int)
    requires
        0 <= from <= i < s.len(),
    ensures
        crate::citations::digits_from(s, from) == s.len() - from ==> crate::citations::digit(s[i]),
        crate::citations::digits_from(s, from) <= s.len() - from,
    decreases i - from,
{
    lemma_digit_count(s, from);
    if from < i {
        lemma_digits(s, from + 1, i);
    }
}

proof fn lemma_digit_count(s: Seq<char>, from: int)
    requires
        0 <= from <= s.len(),
    ensures
        crate::citations::digits_from(s, from) <= s.len() - from,
    decreases s.len() - from,
{
    if from < s.len() {
        lemma_digit_count(s, from + 1);
    }
}

proof fn lemma_all_digits(s: Seq<char>, from: int)
    requires
        0 <= from <= s.len(),
        forall|i: int| from <= i < s.len() ==> crate::citations::digit(#[trigger] s[i]),
    ensures
        crate::citations::digits_from(s, from) == s.len() - from,
    decreases s.len() - from,
{
    if from < s.len() {
        lemma_all_digits(s, from + 1);
    }
}

/// More digits make no smaller number.
proof fn lemma_value_grows(s: Seq<char>, from: int, i: int, to: int)
    requires
        0 <= from <= i <= to <= s.len(),
        forall|k: int| from <= k < to ==> crate::citations::digit(#[trigger] s[k]),
    ensures
        digits_value(s, from, i) <= digits_value(s, from, to),
        0 <= digits_value(s, from, i),
    decreases to - from,
{
    if i < to {
        lemma_value_grows(s, from, i, to - 1);
        assert(crate::citations::digit(s[to - 1]));
    } else if from < to {
        lemma_value_grows(s, from, to - 1, to - 1);
        assert(crate::citations::digit(s[to - 1]));
    }
}

pub fn parse_number(value: &String) -> (r: Result<usize, FixtureError>)
    ensures
        match r {
            Ok(n) => number(value@) == Some(n),
            Err(e) => number(value@) is None && e@ == (Problem::NotANumber, value@),
        },
{
    let cs = chars_of(value.as_str());
    let end: usize = cs.len();
    let from: usize = if end > 0 && cs[0] == '+' {
        1
    } else {
        0
    };
    let mut i: usize = from;
    let mut n: usize = 0;
    let mut good = end > from;
    while i < end && good
        invariant
            from <= i <= end || from > end,
            end == cs.len(),
            cs@ == value@,
            from == (if end > 0 && value@[0] == '+' {
                1int
            } else {
                0int
            }),
            good ==> from < end && n == digits_value(value@, from as int, i as int) && forall|
                k: int,
            |
                from <= k < i ==> crate::citations::digit(#[trigger] value@[k]),
            !good ==> number(value@) is None,
        decreases end - i + (if good {
            1int
        } else {
            0int
        }),
    {
        let c = cs[i];
        let ghost v = value@;
        proof {
            lemma_digits(v, from as int, i as int);
        }
        if !('0' <= c && c <= '9') {
            good = false;
        } else {
            let d: usize = (c as u32 - '0' as u32) as usize;
            let more = match n.checked_mul(10) {
                Some(m) => m.checked_add(d),
                None => None,
            };
            proof {
                assert(digits_value(v, from as int, i + 1) == 10 * digits_value(
                    v,
                    from as int,
                    i as int,
                ) + d);
                if crate::citations::digits_from(v, from as int) == end - from {
                    assert forall|k: int| from <= k < end implies crate::citations::digit(
                        #[trigger] v[k],
                    ) by {
                        lemma_digits(v, from as int, k);
                    }
                    lemma_value_grows(v, from as int, i + 1, end as int);
                }
            }
            match more {
                Some(m) => {
                    n = m;
                    i += 1;
                },
                None => {
                    good = false;
                },
            }
        }
    }
    if good {
        proof {
            lemma_all_digits(value@, from as int);
        }
        Ok(n)
    } else {
        Err(FixtureError { problem: Problem::NotANumber, text: value.clone() })
    }
}

/// A kind of citation.
#[derive(Clone, Copy, Debug, PartialEq, Eq, Structural)]
pub enum Citation {
    Proposal,
    Rule,
    Requirement,
    ErrorCode,
}

/// Whether a citation is written as its kind is.
pub open spec fn well_cited(kind: Citation, s: Seq<char>) -> bool {
    match kind {
        Citation::Proposal => crate::citations::proposal_citation(s),
        Citation::Rule => crate::citations::rule_citation(s),
        Citation::Requirement => crate::citations::requirement_citation(s),
        Citation::ErrorCode => crate::citations::error_code(s),
    }
}

/// The position of the first citation, from `i` on, that is not well written, or
/// the length.
pub open spec fn bad_citation(kind: Citation, items: Seq<Seq<char>>, i: int) -> int
    decreases items.len() - i,
{
    if i < 0 || i >= items.len() || !well_cited(kind, items[i]) {
        i
    } else {
        bad_citation(kind, items, i + 1)
    }
}

/// A list of citations, all of them well written.
pub open spec fn cited(kind: Citation, value: Seq<char>) -> Result<
    Seq<Seq<char>>,
    (Problem, Seq<char>),
> {
    match listed(value) {
        Err(e) => Err(e),
        Ok(items) => {
            let i = bad_citation(kind, items, 0);
            if i < items.len() {
                Err((Problem::BadCitation, items[i]))
            } else {
                Ok(items)
            }
        },
    }
}

pub fn parse_citations(kind: Citation, value: &String) -> (r: Result<Vec<String>, FixtureError>)
    ensures
        match r {
            Ok(items) => cited(kind, value@) == Ok::<Seq<Seq<char>>, (Problem, Seq<char>)>(
                items.deep_view(),
            ),
            Err(e) => cited(kind, value@) == Err::<Seq<Seq<char>>, (Problem, Seq<char>)>(e@),
        },
{
    let items = parse_list(value)?;
    let ghost all = items.deep_view();
    let mut i: usize = 0;
    while i < items.len()
        invariant
            i <= items.len(),
            all == items.deep_view(),
            listed(value@) == Ok::<Seq<Seq<char>>, (Problem, Seq<char>)>(all),
            bad_citation(kind, all, 0) == bad_citation(kind, all, i as int),
        decreases items.len() - i,
    {
        assert(all[i as int] == items@[i as int]@);
        let good = match kind {
            Citation::Proposal => is_proposal_citation(&items[i]),
            Citation::Rule => is_rule_citation(&items[i]),
            Citation::Requirement => is_requirement_citation(&items[i]),
            Citation::ErrorCode => is_error_code(&items[i]),
        };
        if !good {
            let text = items[i].clone();
            return Err(FixtureError { problem: Problem::BadCitation, text });
        }
        i += 1;
    }
    Ok(items)
}

/// How a word is taken: it is set, or it is unknown.
pub open spec fn word_set<T>(
    word: Option<T>,
    value: Seq<char>,
    set: spec_fn(T) -> PartialModel,
) -> Result<PartialModel, (Problem, Seq<char>)> {
    match word {
        Some(x) => Ok(set(x)),
        None => Err((Problem::UnknownWord, value)),
    }
}

/// How a number is taken.
pub open spec fn number_set(
    value: Seq<char>,
    set: spec_fn(usize) -> PartialModel,
) -> Result<PartialModel, (Problem, Seq<char>)> {
    match number(value) {
        Some(n) => Ok(set(n)),
        None => Err((Problem::NotANumber, value)),
    }
}

/// How a list is taken.
pub open spec fn list_set(
    list: Result<Seq<Seq<char>>, (Problem, Seq<char>)>,
    set: spec_fn(Seq<Seq<char>>) -> PartialModel,
) -> Result<PartialModel, (Problem, Seq<char>)> {
    match list {
        Ok(items) => Ok(set(items)),
        Err(e) => Err(e),
    }
}

/// The paths that a list of names, with colons between their parts, writes.
pub open spec fn paths(items: Seq<Seq<char>>) -> Seq<Seq<Seq<char>>> {
    Seq::new(items.len(), |i: int| crate::strings::split_from(items[i], "::"@, 0))
}

fn paths_of(items: &Vec<String>) -> (r: Vec<Vec<String>>)
    ensures
        r.deep_view() == paths(items.deep_view()),
{
    let ghost all = items.deep_view();
    let mut out: Vec<Vec<String>> = Vec::new();
    let mut i: usize = 0;
    assert(out.deep_view() =~= paths(all).take(0));
    while i < items.len()
        invariant
            i <= items.len(),
            all == items.deep_view(),
            out.deep_view() == paths(all).take(i as int),
        decreases items.len() - i,
    {
        let ghost before = out.deep_view();
        assert(before.len() == out@.len());
        assert(all[i as int] == items@[i as int]@);
        let path = split(&items[i], &"::".to_owned());
        out.push(path);
        proof {
            assert(out.deep_view() =~= before.push(path.deep_view()));
            assert(paths(all).take(i + 1) =~= paths(all).take(i as int).push(path.deep_view()));
        }
        i += 1;
    }
    assert(paths(all).take(all.len() as int) =~= paths(all));
    out
}

/// A label: nothing but white space is none.
pub open spec fn title(value: Seq<char>) -> Option<Seq<char>> {
    let t = trimmed(value);
    if t.len() == 0 {
        None
    } else {
        Some(t)
    }
}

fn title_of(value: &String) -> (r: Option<String>)
    ensures
        r.deep_view() == title(value@),
{
    let t = trim(value);
    if t.as_str().unicode_len() == 0 {
        None
    } else {
        Some(t)
    }
}

/// Whether settings have been taken as they are meant to.
pub open spec fn is_setting(
    r: Result<PartialConfig, FixtureError>,
    want: Result<PartialModel, (Problem, Seq<char>)>,
) -> bool {
    match (r, want) {
        (Ok(p), Ok(m)) => p@ == m,
        (Err(e), Err(f)) => e@ == f,
        _ => false,
    }
}

/// The settings outside the sections, after one more.
pub open spec fn top_setting(p: PartialModel, key: Seq<char>, value: Seq<char>) -> Result<
    PartialModel,
    (Problem, Seq<char>),
> {
    if key == "runner"@ {
        word_set(
            runner_named(value),
            value,
            |x: RunnerKind| PartialModel { runner: Some(x), ..p },
        )
    } else if key == "prelude"@ {
        word_set(
            prelude_named(value),
            value,
            |x: CorePreludeMode| PartialModel { prelude: Some(x), ..p },
        )
    } else {
        Err((Problem::UnknownKey, key))
    }
}

fn set_top(p: PartialConfig, key: &String, value: String) -> (r: Result<
    PartialConfig,
    FixtureError,
>)
    ensures
        is_setting(r, top_setting(p@, key@, value@)),
{
    if is_text(key, "runner") {
        Ok(PartialConfig { runner: Some(parse_runner(&value)?), ..p })
    } else if is_text(key, "prelude") {
        Ok(PartialConfig { prelude: Some(parse_prelude(&value)?), ..p })
    } else {
        Err(FixtureError { problem: Problem::UnknownKey, text: key.clone() })
    }
}

/// The settings of the section `options`, after one more.
pub open spec fn option_setting(p: PartialModel, key: Seq<char>, value: Seq<char>) -> Result<
    PartialModel,
    (Problem, Seq<char>),
> {
    if key == "move_check"@ {
        word_set(
            bool_named(value),
            value,
            |x: bool| PartialModel { move_check: Some(x), ..p },
        )
    } else if key == "rfc"@ {
        list_set(
            cited(Citation::Proposal, value),
            |x: Seq<Seq<char>>| PartialModel { rfc: Some(x), ..p },
        )
    } else if key == "spec"@ {
        list_set(
            cited(Citation::Rule, value),
            |x: Seq<Seq<char>>| PartialModel { spec: Some(x), ..p },
        )
    } else if key == "skip"@ {
        Ok(PartialModel { skip: Some(value), ..p })
    } else if key == "spec_title"@ {
        Ok(PartialModel { spec_title: title(value), ..p })
    } else if key == "error"@ {
        list_set(
            cited(Citation::ErrorCode, value),
            |x: Seq<Seq<char>>| PartialModel { error: Some(x), ..p },
        )
    } else if key == "arch_verifies"@ {
        list_set(
            cited(Citation::Requirement, value),
            |x: Seq<Seq<char>>| PartialModel { arch_verifies: Some(x), ..p },
        )
    } else {
        Err((Problem::UnknownKey, key))
    }
}

fn set_option(p: PartialConfig, key: &String, value: String) -> (r: Result<
    PartialConfig,
    FixtureError,
>)
    ensures
        is_setting(r, option_setting(p@, key@, value@)),
{
    if is_text(key, "move_check") {
        Ok(PartialConfig { move_check: Some(parse_bool(&value)?), ..p })
    } else if is_text(key, "rfc") {
        Ok(PartialConfig { rfc: Some(parse_citations(Citation::Proposal, &value)?), ..p })
    } else if is_text(key, "spec") {
        Ok(PartialConfig { spec: Some(parse_citations(Citation::Rule, &value)?), ..p })
    } else if is_text(key, "skip") {
        Ok(PartialConfig { skip: Some(value), ..p })
    } else if is_text(key, "spec_title") {
        Ok(PartialConfig { spec_title: title_of(&value), ..p })
    } else if is_text(key, "error") {
        Ok(PartialConfig { error: Some(parse_citations(Citation::ErrorCode, &value)?), ..p })
    } else if is_text(key, "arch_verifies") {
        Ok(PartialConfig {
            arch_verifies: Some(parse_citations(Citation::Requirement, &value)?),
            ..p
        })
    } else {
        Err(FixtureError { problem: Problem::UnknownKey, text: key.clone() })
    }
}

/// The settings of the section `expect`, after one more.
pub open spec fn expect_setting(p: PartialModel, key: Seq<char>, value: Seq<char>) -> Result<
    PartialModel,
    (Problem, Seq<char>),
> {
    if key == "status"@ {
        word_set(
            status_named(value),
            value,
            |x: ExpectStatus| PartialModel { status: Some(x), ..p },
        )
    } else if key == "code"@ {
        Ok(PartialModel { code: Some(value), ..p })
    } else if key == "contains"@ {
        Ok(PartialModel { contains: Some(value), ..p })
    } else if key == "line"@ {
        number_set(value, |n: usize| PartialModel { line: Some(n), ..p })
    } else if key == "col"@ {
        number_set(value, |n: usize| PartialModel { col: Some(n), ..p })
    } else if key == "warnings"@ {
        list_set(
            listed(value),
            |x: Seq<Seq<char>>| PartialModel { warnings: Some(x), ..p },
        )
    } else {
        Err((Problem::UnknownKey, key))
    }
}

fn set_expect(p: PartialConfig, key: &String, value: String) -> (r: Result<
    PartialConfig,
    FixtureError,
>)
    ensures
        is_setting(r, expect_setting(p@, key@, value@)),
{
    if is_text(key, "status") {
        Ok(PartialConfig { status: Some(parse_status(&value)?), ..p })
    } else if is_text(key, "code") {
        Ok(PartialConfig { code: Some(value), ..p })
    } else if is_text(key, "contains") {
        Ok(PartialConfig { contains: Some(value), ..p })
    } else if is_text(key, "line") {
        Ok(PartialConfig { line: Some(parse_number(&value)?), ..p })
    } else if is_text(key, "col") {
        Ok(PartialConfig { col: Some(parse_number(&value)?), ..p })
    } else if is_text(key, "warnings") {
        Ok(PartialConfig { warnings: Some(parse_list(&value)?), ..p })
    } else {
        Err(FixtureError { problem: Problem::UnknownKey, text: key.clone() })
    }
}

/// The settings of the section `program`, after one more.
pub open spec fn program_setting(p: PartialModel, key: Seq<char>, value: Seq<char>) -> Result<
    PartialModel,
    (Problem, Seq<char>),
> {
    if key == "imports"@ {
        number_set(value, |n: usize| PartialModel { imports: Some(n), ..p })
    } else if key == "decls"@ {
        number_set(value, |n: usize| PartialModel { decls: Some(n), ..p })
    } else {
        Err((Problem::UnknownKey, key))
    }
}

fn set_program(p: PartialConfig, key: &String, value: String) -> (r: Result<
    PartialConfig,
    FixtureError,
>)
    ensures
        is_setting(r, program_setting(p@, key@, value@)),
{
    if is_text(key, "imports") {
        Ok(PartialConfig { program_imports: Some(parse_number(&value)?), ..p })
    } else if is_text(key, "decls") {
        Ok(PartialConfig { program_decls: Some(parse_number(&value)?), ..p })
    } else {
        Err(FixtureError { problem: Problem::UnknownKey, text: key.clone() })
    }
}

/// The settings of the section `graph`, after one more.
pub open spec fn graph_setting(p: PartialModel, key: Seq<char>, value: Seq<char>) -> Result<
    PartialModel,
    (Problem, Seq<char>),
> {
    if key == "module_count"@ {
        number_set(value, |n: usize| PartialModel { module_count: Some(n), ..p })
    } else if key == "has_module_paths"@ {
        list_set(
            listed(value),
            |x: Seq<Seq<char>>| PartialModel { has_module_paths: Some(paths(x)), ..p },
        )
    } else {
        Err((Problem::UnknownKey, key))
    }
}

fn set_graph(p: PartialConfig, key: &String, value: String) -> (r: Result<
    PartialConfig,
    FixtureError,
>)
    ensures
        is_setting(r, graph_setting(p@, key@, value@)),
{
    if is_text(key, "module_count") {
        Ok(PartialConfig { graph_module_count: Some(parse_number(&value)?), ..p })
    } else if is_text(key, "has_module_paths") {
        Ok(PartialConfig { graph_has_module_paths: Some(paths_of(&parse_list(&value)?)), ..p })
    } else {
        Err(FixtureError { problem: Problem::UnknownKey, text: key.clone() })
    }
}

/// The settings after one more.
pub open spec fn setting(
    p: PartialModel,
    section: Seq<char>,
    key: Seq<char>,
    value: Seq<char>,
) -> Result<PartialModel, (Problem, Seq<char>)> {
    if section == ""@ {
        top_setting(p, key, value)
    } else if section == "options"@ {
        option_setting(p, key, value)
    } else if section == "expect"@ {
        expect_setting(p, key, value)
    } else if section == "program"@ {
        program_setting(p, key, value)
    } else if section == "graph"@ {
        graph_setting(p, key, value)
    } else {
        Err((Problem::UnknownSection, section))
    }
}

fn set(p: PartialConfig, section: &String, key: &String, value: String) -> (r: Result<
    PartialConfig,
    FixtureError,
>)
    ensures
        is_setting(r, setting(p@, section@, key@, value@)),
{
    if is_text(section, "") {
        set_top(p, key, value)
    } else if is_text(section, "options") {
        set_option(p, key, value)
    } else if is_text(section, "expect") {
        set_expect(p, key, value)
    } else if is_text(section, "program") {
        set_program(p, key, value)
    } else if is_text(section, "graph") {
        set_graph(p, key, value)
    } else {
        Err(FixtureError { problem: Problem::UnknownSection, text: section.clone() })
    }
}

/// Whether a line says nothing.
pub open spec fn says_nothing(line: Seq<char>) -> bool {
    line.len() == 0 || line[0] == '#'
}

/// The settings that the lines from `i` on write, in a section and after others.
pub open spec fn settings_from(
    lines: Seq<Seq<char>>,
    i: int,
    section: Seq<char>,
    p: PartialModel,
) -> Result<PartialModel, (Problem, Seq<char>)>
    decreases lines.len() - i,
{
    if i < 0 || i >= lines.len() {
        Ok(p)
    } else {
        let line = trimmed(lines[i]);
        let at = crate::strings::first_at(line, "="@, 0);
        if says_nothing(line) {
            settings_from(lines, i + 1, section, p)
        } else if between(line, '[', ']') {
            settings_from(lines, i + 1, trimmed(inside(line)), p)
        } else if at < 0 {
            Err((Problem::NoValue, line))
        } else {
            match setting(p, section, trimmed(line.take(at)), scalar(line.skip(at + 1))) {
                Ok(q) => settings_from(lines, i + 1, section, q),
                Err(e) => Err(e),
            }
        }
    }
}

/// The settings that a text writes.
pub open spec fn written_settings(text: Seq<char>) -> Result<
    PartialModel,
    (Problem, Seq<char>),
> {
    settings_from(crate::strings::split_from(text, "\n"@, 0), 0, ""@, no_settings())
}

/// A key and its value.
fn key_and_value(line: &String) -> (r: Option<(String, String)>)
    ensures
        ({
            let at = crate::strings::first_at(line@, "="@, 0);
            match r {
                Some((k, v)) => at >= 0 && k@ == trimmed(line@.take(at)) && v@ == scalar(
                    line@.skip(at + 1),
                ),
                None => at < 0,
            }
        }),
{
    proof {
        reveal_strlit("=");
    }
    let cs = chars_of(line.as_str());
    let end: usize = cs.len();
    match find_from(&cs, &chars_of("="), 0) {
        Some(at) => {
            assert(crate::strings::stands_at(cs@, "="@, at as int));
            assert("="@.len() == 1);
            let key = string_of(&cs, 0, at);
            let value = string_of(&cs, at + 1, end);
            proof {
                assert(key@ =~= line@.take(at as int));
                assert(value@ =~= line@.skip(at + 1));
            }
            Some((trim(&key), parse_scalar(&value)))
        },
        None => None,
    }
}

fn is_silent(line: &String) -> (b: bool)
    ensures
        b == says_nothing(line@),
{
    line.as_str().unicode_len() == 0 || line.as_str().get_char(0) == '#'
}

/// Reads the settings that a text writes.
pub fn parse_sidecar(text: &str) -> (r: Result<PartialConfig, FixtureError>)
    ensures
        is_setting(r, written_settings(text@)),
{
    let lines = split(&text.to_owned(), &"\n".to_owned());
    let ghost all = lines.deep_view();
    let mut section = String::new();
    proof {
        reveal_strlit("");
        assert(section@ =~= ""@);
    }
    let mut partial = PartialConfig::default();
    let mut i: usize = 0;
    while i < lines.len()
        invariant
            i <= lines.len(),
            all == lines.deep_view(),
            written_settings(text@) == settings_from(all, i as int, section@, partial@),
        decreases lines.len() - i,
    {
        assert(all[i as int] == lines@[i as int]@);
        let line = trim(&lines[i]);
        if is_silent(&line) {
            i += 1;
            continue;
        }
        if let Some(name) = inside_of(&line, '[', ']') {
            section = trim(&name);
            i += 1;
            continue;
        }
        match key_and_value(&line) {
            Some((key, value)) => match set(partial, &section, &key, value) {
                Ok(next) => {
                    partial = next;
                },
                Err(e) => {
                    return Err(e);
                },
            },
            None => {
                return Err(FixtureError { problem: Problem::NoValue, text: line });
            },
        }
        i += 1;
    }
    Ok(partial)
}

/// What a remark in a line says, between its marker and the bracket that ends it.
pub open spec fn remark(line: Seq<char>, marker: Seq<char>) -> Option<Seq<char>> {
    let at = crate::strings::first_at(line, marker, 0);
    let end = crate::strings::first_at(line, "]"@, at + marker.len());
    if at < 0 || end < 0 {
        None
    } else {
        Some(line.subrange(at + marker.len(), end))
    }
}

pub fn extract_annotation(line: &String, marker: &str) -> (r: Option<String>)
    ensures
        r.deep_view() == remark(line@, marker@),
{
    let cs = chars_of(line.as_str());
    let ms = chars_of(marker);
    match find_from(&cs, &ms, 0) {
        Some(at) => {
            assert(crate::strings::stands_at(cs@, ms@, at as int));
            let count: usize = cs.len();
            let from: usize = at + ms.len();
            match find_from(&cs, &chars_of("]"), from) {
                Some(end) => {
                    assert(crate::strings::stands_at(cs@, "]"@, end as int));
                    Some(string_of(&cs, from, end))
                },
                None => None,
            }
        },
        None => None,
    }
}

/// What the first remark on a type error, from line `i` on, expects.
pub open spec fn type_remark_from(lines: Seq<Seq<char>>, i: int) -> PartialModel
    decreases lines.len() - i,
{
    if i < 0 || i >= lines.len() {
        no_settings()
    } else {
        match remark(lines[i], "// ERROR["@) {
            Some(code) => PartialModel {
                status: Some(ExpectStatus::TypecheckError),
                code: Some(code),
                line: Some((i + 1) as usize),
                ..no_settings()
            },
            None => type_remark_from(lines, i + 1),
        }
    }
}

fn find_type_remark(lines: &Vec<String>) -> (r: PartialConfig)
    ensures
        r@ == type_remark_from(lines.deep_view(), 0),
{
    let ghost all = lines.deep_view();
    let mut i: usize = 0;
    while i < lines.len()
        invariant
            i <= lines.len(),
            all == lines.deep_view(),
            type_remark_from(all, 0) == type_remark_from(all, i as int),
        decreases lines.len() - i,
    {
        assert(all[i as int] == lines@[i as int]@);
        if let Some(code) = extract_annotation(&lines[i], "// ERROR[") {
            return PartialConfig {
                status: Some(ExpectStatus::TypecheckError),
                code: Some(code),
                line: Some(i + 1),
                ..PartialConfig::default()
            };
        }
        i += 1;
    }
    PartialConfig::default()
}

/// An end that is expected, and what its message is to say.
pub open spec fn ends_with_message(status: ExpectStatus, message: Seq<char>) -> PartialModel {
    PartialModel { status: Some(status), contains: Some(message), ..no_settings() }
}

fn end_with_message(status: ExpectStatus, message: String) -> (r: PartialConfig)
    ensures
        r@ == ends_with_message(status, message@),
{
    PartialConfig { status: Some(status), contains: Some(message), ..PartialConfig::default() }
}

/// What the first remark on an error of any kind, from line `i` on, expects.
pub open spec fn error_remark_from(lines: Seq<Seq<char>>, i: int) -> PartialModel
    decreases lines.len() - i,
{
    if i < 0 || i >= lines.len() {
        no_settings()
    } else {
        let line = lines[i];
        match (
            remark(line, "// PARSE_ERROR["@),
            remark(line, "// TYPECHECK_ERROR["@),
            remark(line, "// RUNTIME_ERROR["@),
        ) {
            (Some(m), _, _) => ends_with_message(ExpectStatus::ParseError, m),
            (_, Some(m), _) => ends_with_message(ExpectStatus::TypecheckError, m),
            (_, _, Some(m)) => ends_with_message(ExpectStatus::RuntimeError, m),
            _ => error_remark_from(lines, i + 1),
        }
    }
}

fn find_error_remark(lines: &Vec<String>) -> (r: PartialConfig)
    ensures
        r@ == error_remark_from(lines.deep_view(), 0),
{
    let ghost all = lines.deep_view();
    let mut i: usize = 0;
    while i < lines.len()
        invariant
            i <= lines.len(),
            all == lines.deep_view(),
            error_remark_from(all, 0) == error_remark_from(all, i as int),
        decreases lines.len() - i,
    {
        assert(all[i as int] == lines@[i as int]@);
        let line = &lines[i];
        if let Some(m) = extract_annotation(line, "// PARSE_ERROR[") {
            return end_with_message(ExpectStatus::ParseError, m);
        }
        if let Some(m) = extract_annotation(line, "// TYPECHECK_ERROR[") {
            return end_with_message(ExpectStatus::TypecheckError, m);
        }
        if let Some(m) = extract_annotation(line, "// RUNTIME_ERROR[") {
            return end_with_message(ExpectStatus::RuntimeError, m);
        }
        i += 1;
    }
    PartialConfig::default()
}

/// What a program without written settings is expected to do: its name tells it of
/// one that is only parsed, and remarks in its source of others.
pub open spec fn remarked_settings(
    suite: Seq<char>,
    stem: Seq<char>,
    source: Option<Seq<char>>,
) -> PartialModel {
    if suite == "parsing"@ {
        if crate::strings::stands_at(stem, "neg_"@, 0) {
            PartialModel { status: Some(ExpectStatus::ParseError), ..no_settings() }
        } else {
            no_settings()
        }
    } else {
        match source {
            None => no_settings(),
            Some(text) => {
                let lines = crate::strings::split_from(text, "\n"@, 0);
                if suite == "typechecking"@ {
                    type_remark_from(lines, 0)
                } else if suite == "evaluator"@ {
                    error_remark_from(lines, 0)
                } else {
                    no_settings()
                }
            },
        }
    }
}

pub fn parse_legacy_expectation(suite: &str, stem: &str, source: Option<&str>) -> (r: PartialConfig)
    ensures
        r@ == remarked_settings(
            suite@,
            stem@,
            match source {
                Some(text) => Some(text@),
                None => None,
            },
        ),
{
    let suite = suite.to_owned();
    if is_text(&suite, "parsing") {
        return if is_at(&chars_of(stem), &chars_of("neg_"), 0) {
            PartialConfig { status: Some(ExpectStatus::ParseError), ..PartialConfig::default() }
        } else {
            PartialConfig::default()
        };
    }
    let text = match source {
        Some(text) => text,
        None => {
            return PartialConfig::default();
        },
    };
    let lines = split(&text.to_owned(), &"\n".to_owned());
    if is_text(&suite, "typechecking") {
        find_type_remark(&lines)
    } else if is_text(&suite, "evaluator") {
        find_error_remark(&lines)
    } else {
        PartialConfig::default()
    }
}

/// How the programs of a suite are run.
pub open spec fn suite_run(suite: Seq<char>) -> Option<(RunnerKind, CorePreludeMode)> {
    if suite == "parsing"@ {
        Some((RunnerKind::Parse, CorePreludeMode::Empty))
    } else if suite == "typechecking"@ {
        Some((RunnerKind::Typecheck, CorePreludeMode::Default))
    } else if suite == "evaluator"@ {
        Some((RunnerKind::Evaluate, CorePreludeMode::Default))
    } else if suite == "module_loading"@ || suite == "module_semantics"@ {
        Some((RunnerKind::FullPipeline, CorePreludeMode::Empty))
    } else {
        None
    }
}

/// The settings of a program of which nothing is said: it is to succeed.
pub open spec fn plain_settings(run: (RunnerKind, CorePreludeMode)) -> SettingsModel {
    SettingsModel {
        runner: run.0,
        prelude: run.1,
        move_check: false,
        rfc: Seq::empty(),
        spec: Seq::empty(),
        skip: None,
        spec_title: None,
        arch_verifies: Seq::empty(),
        error: Seq::empty(),
        status: ExpectStatus::Success,
        code: None,
        contains: None,
        line: None,
        col: None,
        warnings: None,
        imports: None,
        decls: None,
        module_count: None,
        has_module_paths: Seq::empty(),
    }
}

impl Expectation {
    /// A program that is to succeed.
    pub fn success() -> (r: Self)
        ensures
            r.status == ExpectStatus::Success,
            r.code is None && r.contains is None && r.line is None && r.col is None
                && r.warnings is None,
    {
        Expectation {
            status: ExpectStatus::Success,
            code: None,
            contains: None,
            line: None,
            col: None,
            warnings: None,
        }
    }
}

/// The settings of a suite.
pub fn suite_defaults(suite: &str) -> (r: Result<FixtureConfig, FixtureError>)
    ensures
        match r {
            Ok(c) => suite_run(suite@) is Some && c@ == plain_settings(suite_run(suite@)->Some_0),
            Err(e) => suite_run(suite@) is None && e@ == (Problem::UnknownSuite, suite@),
        },
{
    let name = suite.to_owned();
    let (runner, prelude) = if is_text(&name, "parsing") {
        (RunnerKind::Parse, CorePreludeMode::Empty)
    } else if is_text(&name, "typechecking") {
        (RunnerKind::Typecheck, CorePreludeMode::Default)
    } else if is_text(&name, "evaluator") {
        (RunnerKind::Evaluate, CorePreludeMode::Default)
    } else if is_text(&name, "module_loading") || is_text(&name, "module_semantics") {
        (RunnerKind::FullPipeline, CorePreludeMode::Empty)
    } else {
        return Err(FixtureError { problem: Problem::UnknownSuite, text: name });
    };
    let config = FixtureConfig {
        runner,
        prelude,
        options: FixtureOptions {
            move_check: false,
            rfc: Vec::new(),
            spec: Vec::new(),
            skip: None,
            spec_title: None,
            arch_verifies: Vec::new(),
            error: Vec::new(),
        },
        expect: Expectation::success(),
        program: ProgramChecks { imports: None, decls: None },
        graph: GraphChecks { module_count: None, has_module_paths: Vec::new() },
    };
    proof {
        let none = Seq::<Seq<char>>::empty();
        assert(config@.rfc =~= none && config@.spec =~= none && config@.arch_verifies =~= none
            && config@.error =~= none);
        assert(config@.has_module_paths =~= Seq::<Seq<Seq<char>>>::empty());
    }
    Ok(config)
}

/// What is set, or what holds without a setting.
pub open spec fn or_else<T>(set: Option<T>, otherwise: T) -> T {
    match set {
        Some(x) => x,
        None => otherwise,
    }
}

/// What is set, or what holds without a setting, which may be nothing.
pub open spec fn or_also<T>(set: Option<T>, otherwise: Option<T>) -> Option<T> {
    match set {
        Some(x) => Some(x),
        None => otherwise,
    }
}

/// Settings on top of others.
pub open spec fn settings_over(d: SettingsModel, p: PartialModel) -> SettingsModel {
    SettingsModel {
        runner: or_else(p.runner, d.runner),
        prelude: or_else(p.prelude, d.prelude),
        move_check: or_else(p.move_check, d.move_check),
        rfc: or_else(p.rfc, d.rfc),
        spec: or_else(p.spec, d.spec),
        skip: or_also(p.skip, d.skip),
        spec_title: or_also(p.spec_title, d.spec_title),
        arch_verifies: or_else(p.arch_verifies, d.arch_verifies),
        error: or_else(p.error, d.error),
        status: or_else(p.status, d.status),
        code: or_also(p.code, d.code),
        contains: or_also(p.contains, d.contains),
        line: or_also(p.line, d.line),
        col: or_also(p.col, d.col),
        warnings: or_also(p.warnings, d.warnings),
        imports: or_also(p.imports, d.imports),
        decls: or_also(p.decls, d.decls),
        module_count: or_also(p.module_count, d.module_count),
        has_module_paths: or_else(p.has_module_paths, d.has_module_paths),
    }
}

fn set_or<T: DeepView>(set: Option<T>, otherwise: T) -> (r: T)
    ensures
        r.deep_view() == or_else(set.deep_view(), otherwise.deep_view()),
        r == or_else(set, otherwise),
{
    match set {
        Some(x) => x,
        None => otherwise,
    }
}

fn set_also<T: DeepView>(set: Option<T>, otherwise: Option<T>) -> (r: Option<T>)
    ensures
        r.deep_view() == or_also(set.deep_view(), otherwise.deep_view()),
        r == or_also(set, otherwise),
{
    match set {
        Some(x) => Some(x),
        None => otherwise,
    }
}

/// Puts the settings of a program on top of those of its suite.
pub fn merge_config(defaults: FixtureConfig, partial: PartialConfig) -> (r: FixtureConfig)
    ensures
        r@ == settings_over(defaults@, partial@),
{
    FixtureConfig {
        runner: match partial.runner {
            Some(x) => x,
            None => defaults.runner,
        },
        prelude: match partial.prelude {
            Some(x) => x,
            None => defaults.prelude,
        },
        options: FixtureOptions {
            move_check: set_or(partial.move_check, defaults.options.move_check),
            rfc: set_or(partial.rfc, defaults.options.rfc),
            spec: set_or(partial.spec, defaults.options.spec),
            skip: set_also(partial.skip, defaults.options.skip),
            spec_title: set_also(partial.spec_title, defaults.options.spec_title),
            arch_verifies: set_or(partial.arch_verifies, defaults.options.arch_verifies),
            error: set_or(partial.error, defaults.options.error),
        },
        expect: Expectation {
            status: match partial.status {
                Some(x) => x,
                None => defaults.expect.status,
            },
            code: set_also(partial.code, defaults.expect.code),
            contains: set_also(partial.contains, defaults.expect.contains),
            line: set_also(partial.line, defaults.expect.line),
            col: set_also(partial.col, defaults.expect.col),
            warnings: set_also(partial.warnings, defaults.expect.warnings),
        },
        program: ProgramChecks {
            imports: set_also(partial.program_imports, defaults.program.imports),
            decls: set_also(partial.program_decls, defaults.program.decls),
        },
        graph: GraphChecks {
            module_count: set_also(partial.graph_module_count, defaults.graph.module_count),
            has_module_paths: set_or(
                partial.graph_has_module_paths,
                defaults.graph.has_module_paths,
            ),
        },
    }
}

/// All settings of a program: those that are written down for it, or else what its
/// name and its source tell, on top of those of its suite.
pub open spec fn all_settings(
    suite: Seq<char>,
    sidecar: Option<Seq<char>>,
    stem: Seq<char>,
    source: Option<Seq<char>>,
) -> Result<SettingsModel, (Problem, Seq<char>)> {
    match suite_run(suite) {
        None => Err((Problem::UnknownSuite, suite)),
        Some(run) => match sidecar {
            Some(text) => match written_settings(text) {
                Ok(p) => Ok(settings_over(plain_settings(run), p)),
                Err(e) => Err(e),
            },
            None => Ok(
                settings_over(plain_settings(run), remarked_settings(suite, stem, source)),
            ),
        },
    }
}

/// The settings of a program, from what is written down for it, the stem of its
/// file's name, and its source.
pub fn resolve_fixture_config(
    suite: &str,
    sidecar: Option<&str>,
    stem: &str,
    source: Option<&str>,
) -> (r: Result<FixtureConfig, FixtureError>)
    ensures
        ({
            let written = match sidecar {
                Some(text) => Some(text@),
                None => None,
            };
            let text = match source {
                Some(text) => Some(text@),
                None => None,
            };
            match (r, all_settings(suite@, written, stem@, text)) {
                (Ok(c), Ok(m)) => c@ == m,
                (Err(e), Err(f)) => e@ == f,
                _ => false,
            }
        }),
{
    let defaults = match suite_defaults(suite) {
        Ok(defaults) => defaults,
        Err(e) => {
            return Err(e);
        },
    };
    let partial = match sidecar {
        Some(text) => match parse_sidecar(text) {
            Ok(partial) => partial,
            Err(e) => {
                return Err(e);
            },
        },
        None => parse_legacy_expectation(suite, stem, source),
    };
    Ok(merge_config(defaults, partial))
}

} // verus!
