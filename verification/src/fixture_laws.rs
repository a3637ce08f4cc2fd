//! What the settings of a test program mean.

use crate::fixture::{
    CorePreludeMode,
    ExpectStatus,
    PartialModel,
    Problem,
    RunnerKind,
    SettingsModel,
};
use vstd::prelude::*;
use vstd::string::*;

verus! {

/// Whether a text begins and ends with something that is no white space.
pub open spec fn tight(s: Seq<char>) -> bool {
    s.len() > 0 && !crate::text_laws::blank(s[0]) && !crate::text_laws::blank(s.last())
}

proof fn lemma_white(c: char)
    ensures
        crate::strings::white(c) == crate::text_laws::blank(c),
{
}

proof fn lemma_trimmed_start(l: Seq<char>, s: Seq<char>)
    requires
        crate::text_laws::all_blank(l),
        s.len() > 0,
        !crate::text_laws::blank(s[0]),
    ensures
        crate::strings::trimmed_start(l + s) == s,
    decreases l.len(),
{
    let whole = l + s;
    if l.len() > 0 {
        lemma_white(l[0]);
        assert(whole[0] == l[0]);
        assert(whole.skip(1) =~= l.skip(1) + s);
        assert forall|i: int| 0 <= i < l.skip(1).len() implies crate::text_laws::blank(
            #[trigger] l.skip(1)[i],
        ) by {
            assert(l.skip(1)[i] == l[i + 1]);
        }
        lemma_trimmed_start(l.skip(1), s);
    } else {
        lemma_white(s[0]);
        assert(whole =~= s);
    }
}

proof fn lemma_trimmed_end(s: Seq<char>, r: Seq<char>)
    requires
        crate::text_laws::all_blank(r),
        s.len() > 0,
        !crate::text_laws::blank(s.last()),
    ensures
        crate::strings::trimmed_end(s + r) == s,
    decreases r.len(),
{
    let whole = s + r;
    if r.len() > 0 {
        lemma_white(r.last());
        assert(whole.last() == r.last());
        assert(whole.drop_last() =~= s + r.drop_last());
        assert forall|i: int| 0 <= i < r.drop_last().len() implies crate::text_laws::blank(
            #[trigger] r.drop_last()[i],
        ) by {
            assert(r.drop_last()[i] == r[i]);
        }
        lemma_trimmed_end(s, r.drop_last());
    } else {
        lemma_white(s.last());
        assert(whole =~= s);
    }
}

proof fn lemma_trimmed(l: Seq<char>, s: Seq<char>, r: Seq<char>)
    requires
        crate::text_laws::all_blank(l),
        crate::text_laws::all_blank(r),
        tight(s),
    ensures
        crate::fixture::trimmed(l + s + r) == s,
{
    assert(l + s + r =~= l + (s + r));
    assert((s + r)[0] == s[0]);
    lemma_trimmed_start(l, s + r);
    lemma_trimmed_end(s, r);
}

/// White space around a value is no part of it, and quotation marks around it are neither; what
/// stands between them is, white space and all.
pub proof fn values_are_what_is_written(l: Seq<char>, s: Seq<char>, r: Seq<char>)
    requires
        crate::text_laws::all_blank(l),
        crate::text_laws::all_blank(r),
    ensures
        crate::fixture::scalar(l + (seq!['"'] + s + seq!['"']) + r) == s,
        tight(s) && !(s.len() > 1 && s[0] == '"' && s.last() == '"') ==> crate::fixture::scalar(
            l + s + r,
        ) == s,
{
    let q = seq!['"'] + s + seq!['"'];
    assert(q[0] == '"' && q.last() == '"');
    lemma_trimmed(l, q, r);
    assert(q.subrange(1, q.len() - 1) =~= s);
    if tight(s) {
        lemma_trimmed(l, s, r);
    }
}

/// Each way to run a program, and each end of one, has one word, and no other word means it.
pub proof fn words_name_one_thing(w: Seq<char>)
    ensures
        ({
            let r = crate::fixture::runner_named(w);
            &&& r == Some(RunnerKind::Parse) <==> w == "parse"@
            &&& r == Some(RunnerKind::Typecheck) <==> w == "typecheck"@
            &&& r == Some(RunnerKind::Evaluate) <==> w == "evaluate"@
            &&& r == Some(RunnerKind::LoadProgram) <==> w == "load_program"@
            &&& r == Some(RunnerKind::LoadGraph) <==> w == "load_graph"@
            &&& r == Some(RunnerKind::FullPipeline) <==> w == "full_pipeline"@
        }),
        ({
            let s = crate::fixture::status_named(w);
            &&& s == Some(ExpectStatus::Success) <==> w == "success"@
            &&& s == Some(ExpectStatus::ParseError) <==> w == "parse_error"@
            &&& s == Some(ExpectStatus::TypecheckError) <==> w == "typecheck_error"@
            &&& s == Some(ExpectStatus::RuntimeError) <==> w == "runtime_error"@
            &&& s == Some(ExpectStatus::LoadError) <==> w == "load_error"@
        }),
        crate::fixture::bool_named(w) == Some(true) <==> w == "true"@,
        crate::fixture::bool_named(w) == Some(false) <==> w == "false"@,
        crate::fixture::prelude_named(w) == Some(CorePreludeMode::Empty) <==> w == "empty"@,
        crate::fixture::prelude_named(w) == Some(CorePreludeMode::Default) <==> w == "default"@,
{
    reveal_strlit("parse");
    reveal_strlit("typecheck");
    reveal_strlit("evaluate");
    reveal_strlit("load_program");
    reveal_strlit("load_graph");
    reveal_strlit("full_pipeline");
    reveal_strlit("success");
    reveal_strlit("parse_error");
    reveal_strlit("typecheck_error");
    reveal_strlit("runtime_error");
    reveal_strlit("load_error");
    reveal_strlit("true");
    reveal_strlit("false");
    reveal_strlit("empty");
    reveal_strlit("default");
    assert("parse"@.len() == 5 && "typecheck"@.len() == 9 && "evaluate"@.len() == 8);
    assert("load_program"@.len() == 12 && "load_graph"@.len() == 10 && "full_pipeline"@.len()
        == 13);
    assert("success"@.len() == 7 && "parse_error"@.len() == 11 && "typecheck_error"@.len() == 15);
    assert("runtime_error"@.len() == 13 && "load_error"@.len() == 10);
    assert("true"@.len() == 4 && "false"@.len() == 5);
    assert("empty"@.len() == 5 && "default"@.len() == 7);
}

/// The suites run their programs each in its own way, and there are no other suites.
pub proof fn suites_run_in_their_own_way(suite: Seq<char>)
    ensures
        ({
            let run = crate::fixture::suite_run(suite);
            &&& suite == "parsing"@ ==> run == Some((RunnerKind::Parse, CorePreludeMode::Empty))
            &&& suite == "typechecking"@ ==> run == Some(
                (RunnerKind::Typecheck, CorePreludeMode::Default),
            )
            &&& suite == "evaluator"@ ==> run == Some(
                (RunnerKind::Evaluate, CorePreludeMode::Default),
            )
            &&& suite == "module_loading"@ || suite == "module_semantics"@ ==> run == Some(
                (RunnerKind::FullPipeline, CorePreludeMode::Empty),
            )
            &&& run is Some ==> suite == "parsing"@ || suite == "typechecking"@ || suite
                == "evaluator"@ || suite == "module_loading"@ || suite == "module_semantics"@
        }),
{
    reveal_strlit("parsing");
    reveal_strlit("typechecking");
    reveal_strlit("evaluator");
    reveal_strlit("module_loading");
    reveal_strlit("module_semantics");
    assert("parsing"@.len() == 7 && "typechecking"@.len() == 12 && "evaluator"@.len() == 9);
    assert("module_loading"@.len() == 14 && "module_semantics"@.len() == 16);
}

proof fn lemma_all_digits(s: Seq<char>, i: int)
    requires
        0 <= i <= s.len(),
        forall|k: int| i <= k < s.len() ==> '0' <= #[trigger] s[k] <= '9',
    ensures
        crate::citations::digits_from(s, i) == s.len() - i,
    decreases s.len() - i,
{
    if i < s.len() {
        lemma_all_digits(s, i + 1);
    }
}

proof fn lemma_digits(s: Seq<char>, i: int)
    requires
        0 <= i <= s.len(),
    ensures
        ({
            let n = crate::citations::digits_from(s, i);
            &&& i + n <= s.len()
            &&& forall|k: int| i <= k < i + n ==> '0' <= #[trigger] s[k] <= '9'
            &&& i + n < s.len() ==> !('0' <= s[i + n] <= '9')
        }),
    decreases s.len() - i,
{
    if i < s.len() && crate::citations::digit(s[i]) {
        lemma_digits(s, i + 1);
    }
}

proof fn lemma_digits_value(s: Seq<char>, from: int, to: int)
    requires
        0 <= from <= to <= s.len(),
    ensures
        crate::fixture::digits_value(s, from, to) == crate::text_laws::numeral_value(
            s.subrange(from, to),
        ),
    decreases to - from,
{
    if from < to {
        lemma_digits_value(s, from, to - 1);
        let t = s.subrange(from, to);
        assert(t.drop_last() =~= s.subrange(from, to - 1));
        assert(t.last() == s[to - 1]);
    }
}

/// A number is written with digits and nothing else, but for a plus sign before them: the numeral
/// of a number means the number, and a text with anything else in it means none.
pub proof fn numbers_are_written_with_digits(n: usize, s: Seq<char>, i: int)
    ensures
        crate::fixture::number(crate::text::decimal(n as nat)) == Some(n),
        crate::fixture::number(seq!['+'] + crate::text::decimal(n as nat)) == Some(n),
        crate::fixture::number(Seq::empty()) is None,
        0 <= i < s.len() && !('0' <= s[i] <= '9') && !(i == 0 && s[0] == '+')
            ==> crate::fixture::number(s) is None,
{
    let t = crate::text::decimal(n as nat);
    crate::text_laws::decimals_have_their_value(n as nat);
    lemma_all_digits(t, 0);
    lemma_digits_value(t, 0, t.len() as int);
    assert(t.subrange(0, t.len() as int) =~= t);
    assert('0' <= t[0] <= '9');
    let u = seq!['+'] + t;
    assert(u[0] == '+');
    assert forall|k: int| 1 <= k < u.len() implies '0' <= #[trigger] u[k] <= '9' by {
        assert(u[k] == t[k - 1]);
    }
    lemma_all_digits(u, 1);
    lemma_digits_value(u, 1, u.len() as int);
    assert(u.subrange(1, u.len() as int) =~= t);
    if s.len() > 0 {
        lemma_digits(s, 0);
        lemma_digits(s, 1);
    }
}

/// The code of an error is a capital letter and four digits, and nothing else is one.
pub proof fn error_codes_have_a_letter_and_four_digits(s: Seq<char>)
    ensures
        crate::citations::error_code(s) <==> {
            &&& s.len() == 5
            &&& 'A' <= s[0] <= 'Z'
            &&& '0' <= s[1] <= '9'
            &&& '0' <= s[2] <= '9'
            &&& '0' <= s[3] <= '9'
            &&& '0' <= s[4] <= '9'
        },
{
    if s.len() == 5 {
        lemma_digits(s, 1);
        if '0' <= s[1] <= '9' && '0' <= s[2] <= '9' && '0' <= s[3] <= '9' && '0' <= s[4] <= '9' {
            lemma_all_digits(s, 1);
        }
    }
}

/// A proposal is cited as `rfc-`, in small or capital letters, four digits, and a letter or none.
pub proof fn proposals_have_four_digits(s: Seq<char>)
    ensures
        crate::citations::proposal(s) <==> {
            &&& s.len() == 8 || s.len() == 9
            &&& s[0] == 'r' || s[0] == 'R'
            &&& s[1] == 'f' || s[1] == 'F'
            &&& s[2] == 'c' || s[2] == 'C'
            &&& s[3] == '-'
            &&& '0' <= s[4] <= '9'
            &&& '0' <= s[5] <= '9'
            &&& '0' <= s[6] <= '9'
            &&& '0' <= s[7] <= '9'
            &&& s.len() == 9 ==> 'a' <= s[8] <= 'z' || 'A' <= s[8] <= 'Z'
        },
{
    if s.len() >= 8 {
        lemma_digits(s, 4);
        let n = crate::citations::digits_from(s, 4);
        if '0' <= s[4] <= '9' && '0' <= s[5] <= '9' && '0' <= s[6] <= '9' && '0' <= s[7] <= '9' {
            reveal_with_fuel(crate::citations::digits_from, 6);
        }
    } else if s.len() >= 4 {
        lemma_digits(s, 4);
    }
}

/// Whether a line says nothing: white space, or a remark.
pub open spec fn idle(line: Seq<char>) -> bool {
    exists|l: Seq<char>, r: Seq<char>|
        crate::text_laws::all_blank(l) && #[trigger] (l + r) == line && (r.len() == 0 || (r[0] == '#'
            && !crate::text_laws::blank(r.last())))
}

proof fn lemma_all_blank(l: Seq<char>)
    requires
        crate::text_laws::all_blank(l),
    ensures
        crate::strings::trimmed_start(l) == Seq::<char>::empty(),
    decreases l.len(),
{
    if l.len() > 0 {
        lemma_white(l[0]);
        assert forall|i: int| 0 <= i < l.skip(1).len() implies crate::text_laws::blank(
            #[trigger] l.skip(1)[i],
        ) by {
            assert(l.skip(1)[i] == l[i + 1]);
        }
        lemma_all_blank(l.skip(1));
    } else {
        assert(l =~= Seq::<char>::empty());
    }
}

/// Blank lines and remarks make no difference, and a line in square brackets begins a section.
pub proof fn lines_set_what_they_say(
    lines: Seq<Seq<char>>,
    i: int,
    section: Seq<char>,
    p: PartialModel,
    name: Seq<char>,
)
    requires
        0 <= i < lines.len(),
    ensures
        idle(lines[i]) ==> crate::fixture::settings_from(lines, i, section, p)
            == crate::fixture::settings_from(lines, i + 1, section, p),
        tight(name) && lines[i] == seq!['['] + name + seq![']'] ==> crate::fixture::settings_from(
            lines,
            i,
            section,
            p,
        ) == crate::fixture::settings_from(lines, i + 1, name, p),
        crate::fixture::settings_from(lines, lines.len() as int, section, p) == Ok::<
            PartialModel,
            (Problem, Seq<char>),
        >(p),
{
    let none = Seq::<char>::empty();
    if idle(lines[i]) {
        let (l, r) = choose|l: Seq<char>, r: Seq<char>|
            crate::text_laws::all_blank(l) && #[trigger] (l + r) == lines[i] && (r.len() == 0 || (
            r[0] == '#' && !crate::text_laws::blank(r.last())));
        if r.len() == 0 {
            assert(l + r =~= l);
            lemma_all_blank(l);
            assert(crate::fixture::trimmed(lines[i]).len() == 0);
        } else {
            assert(l + r + none =~= l + r);
            lemma_trimmed(l, r, none);
        }
    }
    if tight(name) && lines[i] == seq!['['] + name + seq![']'] {
        let line = lines[i];
        assert(line[0] == '[' && line.last() == ']');
        assert(none + line + none =~= line);
        lemma_trimmed(none, line, none);
        assert(line.subrange(1, line.len() - 1) =~= name);
        assert(none + name + none =~= name);
        lemma_trimmed(none, name, none);
    }
}

/// What is set for a program counts, and what is not is as for every program: it is to succeed,
/// nothing more is asked of it, and moves are not checked.
pub proof fn settings_count_before_the_usual(p: PartialModel, run: (RunnerKind, CorePreludeMode))
    ensures
        ({
            let s = crate::fixture::settings_over(crate::fixture::plain_settings(run), p);
            &&& s.runner == if p.runner is Some {
                p.runner->Some_0
            } else {
                run.0
            }
            &&& s.prelude == if p.prelude is Some {
                p.prelude->Some_0
            } else {
                run.1
            }
            &&& s.move_check == (p.move_check == Some(true))
            &&& s.status == if p.status is Some {
                p.status->Some_0
            } else {
                ExpectStatus::Success
            }
            &&& s.code == p.code && s.contains == p.contains && s.line == p.line && s.col == p.col
            &&& s.skip == p.skip && s.spec_title == p.spec_title && s.warnings == p.warnings
            &&& s.imports == p.imports && s.decls == p.decls && s.module_count == p.module_count
            &&& p.rfc matches Some(x) ==> s.rfc == x
            &&& p.spec matches Some(x) ==> s.spec == x
            &&& p.error matches Some(x) ==> s.error == x
            &&& p.arch_verifies matches Some(x) ==> s.arch_verifies == x
            &&& p.has_module_paths matches Some(x) ==> s.has_module_paths == x
            &&& p.rfc is None ==> s.rfc.len() == 0
            &&& p.spec is None ==> s.spec.len() == 0
            &&& p.error is None ==> s.error.len() == 0
            &&& p.arch_verifies is None ==> s.arch_verifies.len() == 0
            &&& p.has_module_paths is None ==> s.has_module_paths.len() == 0
        }),
{
}

proof fn lemma_found(s: Seq<char>, part: Seq<char>, at: int, i: int)
    requires
        0 <= i <= at,
        crate::strings::stands_at(s, part, at),
        forall|k: int| 0 <= k < at ==> !#[trigger] crate::strings::stands_at(s, part, k),
    ensures
        crate::strings::first_at(s, part, i) == at,
    decreases at - i,
{
    if i < at {
        assert(!crate::strings::stands_at(s, part, i));
        lemma_found(s, part, at, i + 1);
    }
}

proof fn lemma_bracket(s: Seq<char>, at: int, i: int)
    requires
        0 <= i <= at < s.len(),
        s[at] == ']',
        forall|k: int| i <= k < at ==> #[trigger] s[k] != ']',
    ensures
        crate::strings::first_at(s, "]"@, i) == at,
    decreases at - i,
{
    reveal_strlit("]");
    if i < at {
        if crate::strings::stands_at(s, "]"@, i) {
            assert(s.subrange(i, i + 1)[0] == s[i]);
        }
        lemma_bracket(s, at, i + 1);
    } else {
        assert(s.subrange(i, i + 1) =~= "]"@);
    }
}

/// A remark in a line says what stands between its marker and the next closing bracket.
pub proof fn remarks_say_what_is_in_their_brackets(
    marker: Seq<char>,
    code: Seq<char>,
    rest: Seq<char>,
)
    requires
        marker.len() > 0,
        !code.contains(']'),
    ensures
        crate::fixture::remark(marker + code + seq![']'] + rest, marker) == Some(code),
{
    let line = marker + code + seq![']'] + rest;
    let m = marker.len() as int;
    let end = m + code.len();
    assert(line.subrange(0, m) =~= marker);
    lemma_found(line, marker, 0, 0);
    assert(line[end] == ']');
    assert forall|k: int| m <= k < end implies #[trigger] line[k] != ']' by {
        assert(line[k] == code[k - m]);
        assert(code.contains(code[k - m]));
    }
    lemma_bracket(line, end, m);
    assert(line.subrange(m, end) =~= code);
}

/// A list stands in square brackets; one with nothing in it is empty, and one of one item has
/// that item. Anything else is no list.
pub proof fn lists_stand_in_brackets(item: Seq<char>, other: Seq<char>)
    requires
        tight(item),
        !item.contains(','),
        item[0] != '"',
        tight(other),
        other[0] != '[' || other.last() != ']',
    ensures
        crate::fixture::listed(seq!['[', ']']) == Ok::<Seq<Seq<char>>, (Problem, Seq<char>)>(
            Seq::empty(),
        ),
        crate::fixture::listed(seq!['['] + item + seq![']']) == Ok::<
            Seq<Seq<char>>,
            (Problem, Seq<char>),
        >(seq![item]),
        crate::fixture::listed(other) == Err::<Seq<Seq<char>>, (Problem, Seq<char>)>(
            (Problem::NotAList, other),
        ),
{
    reveal_strlit(",");
    let none = Seq::<char>::empty();
    let empty = seq!['[', ']'];
    assert(none + empty + none =~= empty);
    lemma_trimmed(none, empty, none);
    assert(crate::fixture::inside(empty) =~= none);
    assert(crate::fixture::trimmed(none).len() == 0);
    let whole = seq!['['] + item + seq![']'];
    assert(whole[0] == '[' && whole.last() == ']');
    assert(none + whole + none =~= whole);
    lemma_trimmed(none, whole, none);
    assert(crate::fixture::inside(whole) =~= item);
    assert(none + item + none =~= item);
    lemma_trimmed(none, item, none);
    assert(","@[0] == ',');
    lemma_no_comma(item, 0);
    assert(item.skip(0) =~= item);
    assert(crate::strings::split_from(item, ","@, 0) == seq![item]);
    assert(seq![item][0] == item);
    assert(crate::fixture::scalars(seq![item]) =~= seq![item]);
    assert(none + other + none =~= other);
    lemma_trimmed(none, other, none);
}

proof fn lemma_no_comma(s: Seq<char>, i: int)
    requires
        0 <= i,
        !s.contains(','),
    ensures
        crate::strings::first_at(s, ","@, i) < 0,
    decreases s.len() - i + 1,
{
    reveal_strlit(",");
    if i <= s.len() {
        if crate::strings::stands_at(s, ","@, i) {
            assert(s.subrange(i, i + 1)[0] == s[i]);
            assert(s.contains(s[i]));
        }
        lemma_no_comma(s, i + 1);
    }
}

/// What is written down for a program counts, and only where nothing is, its name and its source
/// are asked: a program that is only parsed fails where its name says so, and a remark in a
/// source names the error that is expected, and its line.
pub proof fn remarks_count_where_nothing_is_written(
    stem: Seq<char>,
    source: Seq<char>,
    lines: Seq<Seq<char>>,
    i: int,
    code: Seq<char>,
)
    requires
        lines == crate::strings::split_from(source, "\n"@, 0),
        0 <= i < lines.len(),
        i < usize::MAX,
        crate::fixture::remark(lines[i], "// ERROR["@) == Some(code),
        forall|k: int|
            0 <= k < i ==> crate::fixture::remark(#[trigger] lines[k], "// ERROR["@) is None,
    ensures
        ({
            let parse = |name: Seq<char>|
                crate::fixture::remarked_settings("parsing"@, name, Some(source)).status;
            let check = crate::fixture::remarked_settings("typechecking"@, stem, Some(source));
            &&& parse("neg_"@ + stem) == Some(ExpectStatus::ParseError)
            &&& check.status == Some(ExpectStatus::TypecheckError)
            &&& check.code == Some(code)
            &&& check.line == Some((i + 1) as usize)
        }),
{
    reveal_strlit("parsing");
    reveal_strlit("typechecking");
    assert("parsing"@.len() != "typechecking"@.len());
    reveal_strlit("neg_");
    let name = "neg_"@ + stem;
    assert(name.subrange(0, 4) =~= "neg_"@);
    lemma_type_remark(lines, i, 0);
}

proof fn lemma_type_remark(lines: Seq<Seq<char>>, at: int, i: int)
    requires
        0 <= i <= at < lines.len(),
        crate::fixture::remark(lines[at], "// ERROR["@) is Some,
        forall|k: int|
            0 <= k < at ==> crate::fixture::remark(#[trigger] lines[k], "// ERROR["@) is None,
    ensures
        crate::fixture::type_remark_from(lines, i) == crate::fixture::type_remark_from(lines, at),
    decreases at - i,
{
    if i < at {
        assert(crate::fixture::remark(lines[i], "// ERROR["@) is None);
        lemma_type_remark(lines, at, i + 1);
    }
}

/// A setting changes what its key names in its section, and nothing else; a key or a word that is
/// not known is refused.
pub proof fn settings_change_what_their_key_names(p: PartialModel, value: Seq<char>, other: Seq<char>)
    ensures
        ({
            let top = |key: Seq<char>| crate::fixture::setting(p, ""@, key, value);
            let refused = |problem: Problem|
                Err::<PartialModel, (Problem, Seq<char>)>((problem, value));
            &&& match crate::fixture::runner_named(value) {
                Some(x) => top("runner"@) == Ok::<PartialModel, (Problem, Seq<char>)>(
                    PartialModel { runner: Some(x), ..p },
                ),
                None => top("runner"@) == refused(Problem::UnknownWord),
            }
            &&& match crate::fixture::prelude_named(value) {
                Some(x) => top("prelude"@) == Ok::<PartialModel, (Problem, Seq<char>)>(
                    PartialModel { prelude: Some(x), ..p },
                ),
                None => top("prelude"@) == refused(Problem::UnknownWord),
            }
            &&& other != "runner"@ && other != "prelude"@ ==> crate::fixture::setting(
                p,
                ""@,
                other,
                value,
            ) == Err::<PartialModel, (Problem, Seq<char>)>((Problem::UnknownKey, other))
        }),
        other != ""@ && other != "options"@ && other != "expect"@ && other != "program"@ && other
            != "graph"@ ==> crate::fixture::setting(p, other, value, value) == Err::<
            PartialModel,
            (Problem, Seq<char>),
        >((Problem::UnknownSection, other)),
{
    reveal_strlit("runner");
    reveal_strlit("prelude");
    assert("runner"@.len() != "prelude"@.len());
}

/// In the section `expect` the end that is expected is set, with its code, its message, its place
/// and its warnings.
pub proof fn expectations_are_set(p: PartialModel, value: Seq<char>)
    ensures
        ({
            let set = |key: Seq<char>| crate::fixture::expect_setting(p, key, value);
            let ok = |q: PartialModel| Ok::<PartialModel, (Problem, Seq<char>)>(q);
            &&& crate::fixture::status_named(value) matches Some(x) ==> set("status"@) == ok(
                PartialModel { status: Some(x), ..p },
            )
            &&& set("code"@) == ok(PartialModel { code: Some(value), ..p })
            &&& set("contains"@) == ok(PartialModel { contains: Some(value), ..p })
            &&& match crate::fixture::number(value) {
                Some(n) => set("line"@) == ok(PartialModel { line: Some(n), ..p }) && set("col"@)
                    == ok(PartialModel { col: Some(n), ..p }),
                None => set("line"@) is Err && set("col"@) is Err,
            }
            &&& crate::fixture::listed(value) matches Ok(x) ==> set("warnings"@) == ok(
                PartialModel { warnings: Some(x), ..p },
            )
        }),
{
    reveal_strlit("status");
    reveal_strlit("code");
    reveal_strlit("contains");
    reveal_strlit("line");
    reveal_strlit("col");
    reveal_strlit("warnings");
    assert("status"@.len() == 6 && "code"@.len() == 4 && "contains"@.len() == 8);
    assert("line"@.len() == 4 && "col"@.len() == 3 && "warnings"@.len() == 8);
    assert("code"@[0] != "line"@[0]);
    assert("contains"@[0] != "warnings"@[0]);
}

/// In the section `options` the ways of checking are set, and what a program cites: each kind of
/// citation must be written in its own way.
pub proof fn citations_are_checked(p: PartialModel, value: Seq<char>, item: Seq<char>)
    requires
        crate::fixture::listed(value) == Ok::<Seq<Seq<char>>, (Problem, Seq<char>)>(seq![item]),
    ensures
        ({
            let set = |key: Seq<char>| crate::fixture::option_setting(p, key, value);
            let ok = |q: PartialModel| Ok::<PartialModel, (Problem, Seq<char>)>(q);
            let bad = Err::<PartialModel, (Problem, Seq<char>)>((Problem::BadCitation, item));
            &&& set("rfc"@) == if crate::citations::proposal_citation(item) {
                ok(PartialModel { rfc: Some(seq![item]), ..p })
            } else {
                bad
            }
            &&& set("spec"@) == if crate::citations::rule_citation(item) {
                ok(PartialModel { spec: Some(seq![item]), ..p })
            } else {
                bad
            }
            &&& set("error"@) == if crate::citations::error_code(item) {
                ok(PartialModel { error: Some(seq![item]), ..p })
            } else {
                bad
            }
            &&& set("arch_verifies"@) == if crate::citations::requirement_citation(item) {
                ok(PartialModel { arch_verifies: Some(seq![item]), ..p })
            } else {
                bad
            }
            &&& set("skip"@) == ok(PartialModel { skip: Some(value), ..p })
        }),
{
    reveal_strlit("move_check");
    reveal_strlit("rfc");
    reveal_strlit("spec");
    reveal_strlit("skip");
    reveal_strlit("spec_title");
    reveal_strlit("error");
    reveal_strlit("arch_verifies");
    assert("move_check"@.len() == 10 && "rfc"@.len() == 3 && "spec"@.len() == 4);
    assert("skip"@.len() == 4 && "spec_title"@.len() == 10 && "error"@.len() == 5);
    assert("arch_verifies"@.len() == 13);
    assert("spec"@[1] != "skip"@[1]);
    let items = seq![item];
    assert(items[0] == item);
    lemma_one_citation(crate::fixture::Citation::Proposal, item);
    lemma_one_citation(crate::fixture::Citation::Rule, item);
    lemma_one_citation(crate::fixture::Citation::ErrorCode, item);
    lemma_one_citation(crate::fixture::Citation::Requirement, item);
}

proof fn lemma_one_citation(kind: crate::fixture::Citation, item: Seq<char>)
    ensures
        crate::fixture::bad_citation(kind, seq![item], 0) == if crate::fixture::well_cited(
            kind,
            item,
        ) {
            1int
        } else {
            0int
        },
{
    let items = seq![item];
    assert(items[0] == item);
    assert(crate::fixture::bad_citation(kind, items, 1) == 1);
}

/// In the other sections numbers of imports, declarations and modules are set.
pub proof fn counts_are_set(p: PartialModel, value: Seq<char>, n: usize)
    requires
        crate::fixture::number(value) == Some(n),
    ensures
        crate::fixture::program_setting(p, "imports"@, value) == Ok::<
            PartialModel,
            (Problem, Seq<char>),
        >(PartialModel { imports: Some(n), ..p }),
        crate::fixture::program_setting(p, "decls"@, value) == Ok::<
            PartialModel,
            (Problem, Seq<char>),
        >(PartialModel { decls: Some(n), ..p }),
        crate::fixture::graph_setting(p, "module_count"@, value) == Ok::<
            PartialModel,
            (Problem, Seq<char>),
        >(PartialModel { module_count: Some(n), ..p }),
{
    reveal_strlit("imports");
    reveal_strlit("decls");
    assert("imports"@.len() != "decls"@.len());
}

/// A name in lower case has small letters, digits and hyphens, and something of them.
pub proof fn small_names_have_no_capitals(s: Seq<char>, i: int)
    ensures
        crate::citations::kebab(s) && 0 <= i < s.len() ==> 'a' <= s[i] <= 'z' || '0' <= s[i] <= '9'
            || s[i] == '-',
        !crate::citations::kebab(Seq::empty()),
        s.len() > 0 && (forall|k: int| 0 <= k < s.len() ==> 'a' <= #[trigger] s[k] <= 'z')
            ==> crate::citations::kebab(s),
{
}

/// What is written down for a program decides; an unknown suite is refused.
pub proof fn written_settings_decide(
    suite: Seq<char>,
    text: Seq<char>,
    stem: Seq<char>,
    source: Option<Seq<char>>,
)
    ensures
        ({
            let all = crate::fixture::all_settings(suite, Some(text), stem, source);
            let without = crate::fixture::all_settings(suite, None, stem, source);
            let run = crate::fixture::suite_run(suite);
            &&& run is None ==> all == Err::<SettingsModel, (Problem, Seq<char>)>(
                (Problem::UnknownSuite, suite),
            )
            &&& run is Some ==> match crate::fixture::written_settings(text) {
                Ok(p) => all == Ok::<SettingsModel, (Problem, Seq<char>)>(
                    crate::fixture::settings_over(
                        crate::fixture::plain_settings(run->Some_0),
                        p,
                    ),
                ),
                Err(e) => all == Err::<SettingsModel, (Problem, Seq<char>)>(e),
            }
            &&& run is Some && source is None && suite != "parsing"@ ==> without == Ok::<
                SettingsModel,
                (Problem, Seq<char>),
            >(
                crate::fixture::settings_over(
                    crate::fixture::plain_settings(run->Some_0),
                    crate::fixture::no_settings(),
                ),
            )
        }),
{
}

/// The number of a section has digits, at least one, and behind them a letter or none.
pub proof fn section_numbers_have_digits(s: Seq<char>)
    ensures
        crate::citations::numbered(s) <==> {
            &&& s.len() > 0
            &&& '0' <= s[0] <= '9'
            &&& forall|k: int| 0 <= k < s.len() - 1 ==> '0' <= #[trigger] s[k] <= '9'
            &&& '0' <= s.last() <= '9' || 'a' <= s.last() <= 'z' || 'A' <= s.last() <= 'Z'
        },
{
    if s.len() > 0 {
        lemma_digits(s, 0);
        let n = crate::citations::digits_from(s, 0);
        if forall|k: int| 0 <= k < s.len() - 1 ==> '0' <= #[trigger] s[k] <= '9' {
            assert(n >= s.len() - 1) by {
                if n < s.len() - 1 {
                    assert('0' <= s[n as int] <= '9');
                }
            }
        }
        if n == s.len() {
            assert('0' <= s[s.len() - 1] <= '9');
        }
        if n > 0 {
            assert('0' <= s[0] <= '9');
        }
    }
}

/// A rule is named by its kind, which is one of two, a hyphen and a number; small letters may follow.
pub proof fn rules_are_named_by_kind_and_number(
    kind: Seq<char>,
    d: Seq<char>,
    l: Seq<char>,
    s: Seq<char>,
)
    requires
        kind == "legality"@ || kind == "dynamics"@,
        d.len() > 0,
        forall|k: int| 0 <= k < d.len() ==> '0' <= #[trigger] d[k] <= '9',
        forall|k: int| 0 <= k < l.len() ==> 'a' <= #[trigger] l[k] <= 'z',
    ensures
        crate::citations::rule_name(kind + "-"@ + d + l),
        crate::citations::rule_name(s) ==> s.len() > 9 && (s.take(9) == "legality"@ + "-"@ || s.take(
            9,
        ) == "dynamics"@ + "-"@) && '0' <= s[9] <= '9' && ('a' <= s.last() <= 'z' || '0' <= s.last()
            <= '9'),
{
    reveal_strlit("-");
    reveal_strlit("legality");
    reveal_strlit("dynamics");
    let t = kind + "-"@ + d + l;
    let at = kind.len() as int;
    assert(t.subrange(at, at + 1) =~= "-"@);
    assert forall|k: int| 0 <= k < at implies !#[trigger] crate::strings::stands_at(t, "-"@, k) by {
        if crate::strings::stands_at(t, "-"@, k) {
            assert(t.subrange(k, k + 1)[0] == t[k]);
            assert(t[k] == kind[k]);
        }
    }
    lemma_found(t, "-"@, at, 0);
    assert(t.take(at) =~= kind);
    lemma_digits(t, at + 1);
    let n = crate::citations::digits_from(t, at + 1);
    assert forall|k: int| at + 1 <= k < at + 1 + d.len() implies '0' <= #[trigger] t[k] <= '9' by {
        assert(t[k] == d[k - at - 1]);
    }
    assert forall|k: int| at + 1 + d.len() <= k < t.len() implies 'a' <= #[trigger] t[k] <= 'z' by {
        assert(t[k] == l[k - at - 1 - d.len()]);
    }
    if n < d.len() {
        assert('0' <= t[at + 1 + n] <= '9');
    }
    if n > d.len() {
        assert('a' <= t[at + 1 + d.len()] <= 'z');
        assert('0' <= t[at + 1 + d.len()] <= '9');
    }
    assert(n == d.len());
    if crate::citations::rule_name(s) {
        let i = crate::strings::first_at(s, "-"@, 0);
        lemma_place(s, "-"@, 0);
        assert(crate::strings::stands_at(s, "-"@, i));
        assert("legality"@.len() == 8 && "dynamics"@.len() == 8);
        assert(s.take(i).len() == i);
        assert(i == 8);
        assert(s.take(9) =~= s.take(8) + s.subrange(8, 9));
        lemma_digits(s, 9);
        let m = crate::citations::digits_from(s, 9);
        assert('0' <= s[9] <= '9');
        if 9 + m < s.len() {
            assert(crate::citations::lower(s[s.len() - 1]));
        } else {
            assert('0' <= s[s.len() - 1] <= '9');
        }
    }
}

proof fn lemma_place(s: Seq<char>, part: Seq<char>, i: int)
    requires
        0 <= i,
    ensures
        crate::strings::first_at(s, part, i) >= 0 ==> crate::strings::stands_at(
            s,
            part,
            crate::strings::first_at(s, part, i),
        ),
    decreases s.len() - i + 1,
{
    if i <= s.len() && !crate::strings::stands_at(s, part, i) {
        lemma_place(s, part, i + 1);
    }
}

/// A rule is cited by the places that lead to it and its name, with dots between them.
pub proof fn rules_are_cited_by_their_place(a: Seq<char>, b: Seq<char>, rule: Seq<char>)
    requires
        crate::citations::kebab(a),
        crate::citations::kebab(b),
        crate::citations::rule_name(rule),
        !rule.contains('.'),
    ensures
        crate::citations::rule_citation("spec."@ + crate::text::joined(seq![a, b, rule], seq!['.'])),
{
    reveal_strlit("spec.");
    reveal_strlit(".");
    let parts = seq![a, b, rule];
    let rest = crate::text::joined(parts, seq!['.']);
    let s = "spec."@ + rest;
    assert("."@ =~= seq!['.']);
    assert(s.skip(5) =~= rest);
    assert(s.subrange(0, 5) =~= "spec."@);
    assert(!a.contains('.')) by {
        if a.contains('.') {
            let i = choose|i: int| 0 <= i < a.len() && a[i] == '.';
            assert(crate::citations::lower(a[i]) || crate::citations::digit(a[i]) || a[i] == '-');
        }
    }
    assert(!b.contains('.')) by {
        if b.contains('.') {
            let i = choose|i: int| 0 <= i < b.len() && b[i] == '.';
            assert(crate::citations::lower(b[i]) || crate::citations::digit(b[i]) || b[i] == '-');
        }
    }
    assert(parts[0] == a && parts[1] == b && parts[2] == rule);
    crate::text_laws::splitting_undoes_joining(parts, '.');
}

/// A requirement is cited behind `arch.`, and its citation ends in its number.
pub proof fn requirements_are_cited_by_number(s: Seq<char>)
    requires
        crate::citations::requirement_citation(s),
    ensures
        s.len() > 5,
        s.take(5) == "arch."@,
        '0' <= s.last() <= '9',
{
    reveal_strlit("arch.");
    assert(s.subrange(0, 5) =~= s.take(5));
    let rest = s.skip(5);
    let at = crate::citations::last_at(rest, ".requirement-"@, rest.len() as int);
    let n = crate::citations::digits_from(rest, at + 13);
    lemma_digits(rest, at + 13);
    assert('0' <= rest[rest.len() - 1] <= '9');
    assert(s.last() == rest.last());
}

} // verus!
