//! The canonical text of a dependency, and the proof that parsing it gives
//! the dependency back.
//!
//! The canonical text is the name, the extras in brackets with commas
//! between them, the specification behind one space (`@ url`, or the version
//! clauses with commas between them), and the marker behind ` ; `. In a
//! marker every operand that is itself joined by `and` or `or` stands in
//! parentheses where the grammar does not take it bare.

use vstd::prelude::*;
use vstd::string::StringExecFns;

use crate::pep_508::{
    clauses_view, dependency_at, extras_at, extras_tail, marker_clause_at, parsed, spec_at, url_at,
    Comparator, Dependency, DependencyView, Failure, Marker, MarkerView, Operator, Spec, SpecView,
    Variable, VariableView, VersionSpec, VersionSpecView,
};
use crate::pep_508::alone::{lemma_uri_bounds, lemma_uri_cut};
use crate::pep_508::lexer::{
    comparator_at, has, ident_end, ident_tail_end, is_alnum, is_alpha, is_ident_sep, is_ws,
    lemma_ident_tail_bounds, lemma_ws_end_bounds, lit, ws_end,
};
use crate::pep_508::marker::{
    attribute_at, comparison_at, is_quoted_char, joined_at, marker_and_at, marker_char,
    marker_expr_at, marker_or_at, operator_at, quoted_body_end, variable_at,
};
use crate::pep_508::url::{is_uri_char, uri_at, uri_chars_end, uri_end};
use crate::pep_508::version::{
    is_version_char, version_chars_end, version_clause_at, version_list_at, version_list_in_parens,
    version_list_tail, version_spec_at,
};
use crate::text::{names_view, to_chars};

verus! {

/// Every character of `w` is in the class `class`.
pub open spec fn all_chars(w: Seq<char>, class: spec_fn(char) -> bool) -> bool {
    forall|k: int| 0 <= k < w.len() ==> class(#[trigger] w[k])
}

/// `w` is an identifier from its first character to its last.
pub open spec fn is_name(w: Seq<char>) -> bool {
    ident_end(w, 0) == Some(w.len() as int)
}

/// `w` is a version: at least one character, all of them version characters.
pub open spec fn is_version(w: Seq<char>) -> bool {
    w.len() > 0 && all_chars(w, |c: char| is_version_char(c))
}

/// `w` is a URI from its first character to its last.
pub open spec fn is_url(w: Seq<char>) -> bool {
    w.len() > 0 && all_chars(w, |c: char| is_uri_char(c)) && uri_at(w, 0) == Some(
        w.len() as int,
    )
}

/// The quote in which `w` is written: a single quote where that is
/// possible, a double quote otherwise.
pub open spec fn quote_for(w: Seq<char>) -> char {
    if all_chars(w, |c: char| is_quoted_char(c, '\'')) {
        '\''
    } else {
        '"'
    }
}

/// `w` can stand between quotes: it holds only characters that may stand
/// in a quoted string, and not both kinds of quote.
pub open spec fn is_quotable(w: Seq<char>) -> bool {
    all_chars(w, |c: char| is_quoted_char(c, quote_for(w)))
}

/// An operand is well formed where it is no string, or a string that can
/// stand between quotes.
pub open spec fn variable_well_formed(v: VariableView) -> bool {
    match v {
        VariableView::String(w) => is_quotable(w),
        _ => true,
    }
}

/// A marker is well formed where all its operands are.
pub open spec fn marker_well_formed(m: MarkerView) -> bool
    decreases m,
{
    match m {
        MarkerView::And(lhs, rhs) => marker_well_formed(*lhs) && marker_well_formed(*rhs),
        MarkerView::Or(lhs, rhs) => marker_well_formed(*lhs) && marker_well_formed(*rhs),
        MarkerView::Operator(lhs, _, rhs) => variable_well_formed(lhs) && variable_well_formed(
            rhs,
        ),
    }
}

/// Every name of the list is an identifier.
pub open spec fn all_names(names: Seq<Seq<char>>) -> bool {
    forall|k: int| 0 <= k < names.len() ==> is_name(#[trigger] names[k])
}

/// Every clause of the list holds a version.
pub open spec fn all_versions(clauses: Seq<VersionSpecView>) -> bool {
    forall|k: int| 0 <= k < clauses.len() ==> is_version(#[trigger] clauses[k].version)
}

/// A specification is well formed where its URL is a URI, or where it has
/// at least one clause and each clause holds a version.
pub open spec fn spec_well_formed(spec: SpecView) -> bool {
    match spec {
        SpecView::Url(url) => is_url(url),
        SpecView::Version(clauses) => clauses.len() > 0 && all_versions(clauses),
    }
}

/// What holds of every dependency that the grammar yields: the name and
/// the extras are identifiers, a URL is a URI, there is at least one version
/// clause where there are any, each version is made of version characters,
/// and each string of the marker can stand between quotes.
pub open spec fn well_formed(d: DependencyView) -> bool {
    &&& is_name(d.name)
    &&& all_names(d.extras)
    &&& d.spec matches Some(spec) ==> spec_well_formed(spec)
    &&& d.marker matches Some(marker) ==> marker_well_formed(marker)
}

/// The token of a comparator.
pub open spec fn comparator_text(comparator: Comparator) -> Seq<char> {
    match comparator {
        Comparator::Lt => "<"@,
        Comparator::Le => "<="@,
        Comparator::Ne => "!="@,
        Comparator::Eq => "=="@,
        Comparator::Ge => ">="@,
        Comparator::Gt => ">"@,
        Comparator::Cp => "~="@,
        Comparator::Ae => "==="@,
    }
}

/// The words of a relation.
pub open spec fn operator_text(op: Operator) -> Seq<char> {
    match op {
        Operator::Comparator(comparator) => comparator_text(comparator),
        Operator::In => "in"@,
        Operator::NotIn => "not in"@,
    }
}

/// The text of an operand: the name of the attribute, or the string between
/// the quotes of [`quote_for`].
pub open spec fn variable_text(v: VariableView) -> Seq<char> {
    match v {
        VariableView::PythonVersion => "python_version"@,
        VariableView::PythonFullVersion => "python_full_version"@,
        VariableView::OsName => "os_name"@,
        VariableView::SysPlatform => "sys_platform"@,
        VariableView::PlatformRelease => "platform_release"@,
        VariableView::PlatformSystem => "platform_system"@,
        VariableView::PlatformVersion => "platform_version"@,
        VariableView::PlatformMachine => "platform_machine"@,
        VariableView::PlatformPythonImplementation => "platform_python_implementation"@,
        VariableView::ImplementationName => "implementation_name"@,
        VariableView::ImplementationVersion => "implementation_version"@,
        VariableView::Extra => "extra"@,
        VariableView::String(w) => seq![quote_for(w)] + w + seq![quote_for(w)],
    }
}

/// The text of a marker at a level of the grammar: 2 where a marker joined
/// by `or` may stand bare, 1 where one joined by `and` may, 0 where neither
/// may. What may not stand bare stands in parentheses.
pub open spec fn marker_text(m: MarkerView, level: nat) -> Seq<char>
    decreases m, 2 - level,
{
    match m {
        MarkerView::Operator(lhs, op, rhs) => variable_text(lhs) + seq![' '] + operator_text(op)
            + seq![' '] + variable_text(rhs),
        MarkerView::And(lhs, rhs) => {
            if level >= 1 {
                marker_text(*lhs, 0) + " and "@ + marker_text(*rhs, 0)
            } else {
                seq!['('] + marker_text(m, 2) + seq![')']
            }
        },
        MarkerView::Or(lhs, rhs) => {
            if level >= 2 {
                marker_text(*lhs, 1) + " or "@ + marker_text(*rhs, 1)
            } else {
                seq!['('] + marker_text(m, 2) + seq![')']
            }
        },
    }
}

/// The names from the `from`th on, a comma before each.
pub open spec fn names_text(names: Seq<Seq<char>>, from: int) -> Seq<char>
    decreases names.len() - from,
{
    if 0 <= from < names.len() {
        seq![','] + names[from] + names_text(names, from + 1)
    } else {
        Seq::empty()
    }
}

/// The text of the extras: nothing where there are none, else the names
/// between brackets with commas between them.
pub open spec fn extras_text(extras: Seq<Seq<char>>) -> Seq<char> {
    if extras.len() == 0 {
        Seq::empty()
    } else {
        seq!['['] + extras[0] + names_text(extras, 1) + seq![']']
    }
}

/// The text of a clause: the comparator and the version behind it.
pub open spec fn clause_text(clause: VersionSpecView) -> Seq<char> {
    comparator_text(clause.comparator) + clause.version
}

/// The clauses from the `from`th on, a comma before each.
pub open spec fn clauses_text(clauses: Seq<VersionSpecView>, from: int) -> Seq<char>
    decreases clauses.len() - from,
{
    if 0 <= from < clauses.len() {
        seq![','] + clause_text(clauses[from]) + clauses_text(clauses, from + 1)
    } else {
        Seq::empty()
    }
}

/// The text of the specification behind the space that sets it off: ` @ `
/// and the URL, or the clauses with commas between them.
pub open spec fn spec_text(spec: Option<SpecView>) -> Seq<char> {
    match spec {
        Some(SpecView::Url(url)) => " @ "@ + url,
        Some(SpecView::Version(clauses)) => {
            if clauses.len() == 0 {
                Seq::empty()
            } else {
                seq![' '] + clause_text(clauses[0]) + clauses_text(clauses, 1)
            }
        },
        None => Seq::empty(),
    }
}

/// The text of the marker behind ` ; `, or nothing where there is none.
pub open spec fn marker_clause_text(marker: Option<MarkerView>) -> Seq<char> {
    match marker {
        Some(m) => " ; "@ + marker_text(m, 2),
        None => Seq::empty(),
    }
}

/// The canonical text of a dependency.
pub open spec fn canonical_text(d: DependencyView) -> Seq<char> {
    d.name + extras_text(d.extras) + spec_text(d.spec) + marker_clause_text(d.marker)
}

/// No token goes on at `i`: the input ends there, or a space, a comma or a
/// closing bracket stands there.
pub open spec fn token_ends(s: Seq<char>, i: int) -> bool {
    i == s.len() || has(s, i, ' ') || has(s, i, ',') || has(s, i, ']') || has(s, i, '[')
}

/// A word that stands at `i` is there character by character.
pub proof fn lemma_lit_chars(s: Seq<char>, i: int, w: Seq<char>)
    requires
        lit(s, i, w),
    ensures
        forall|k: int| 0 <= k < w.len() ==> #[trigger] s[i + k] == w[k],
{
    assert forall|k: int| 0 <= k < w.len() implies #[trigger] s[i + k] == w[k] by {
        assert(s.subrange(i, i + w.len())[k] == s[i + k]);
    }
}

/// Two words stand one behind the other where their concatenation stands.
pub proof fn lemma_lit_split(s: Seq<char>, i: int, a: Seq<char>, b: Seq<char>)
    requires
        lit(s, i, a + b),
    ensures
        lit(s, i, a),
        lit(s, i + a.len(), b),
{
    lemma_lit_chars(s, i, a + b);
    assert(s.subrange(i, i + a.len()) =~= a) by {
        assert forall|k: int| 0 <= k < a.len() implies s.subrange(i, i + a.len())[k] == a[k] by {
            assert(s[i + k] == (a + b)[k]);
        }
    }
    assert(s.subrange(i + a.len(), i + a.len() + b.len()) =~= b) by {
        assert forall|k: int| 0 <= k < b.len() implies s.subrange(
            i + a.len(),
            i + a.len() + b.len(),
        )[k] == b[k] by {
            assert(s[i + (a.len() + k)] == (a + b)[a.len() + k]);
        }
    }
}

/// No whitespace is skipped where none stands.
pub proof fn lemma_ws_none(s: Seq<char>, i: int)
    requires
        !(0 <= i < s.len() && is_ws(s[i])),
    ensures
        ws_end(s, i) == i,
{
}

/// One space is skipped where one stands before something else.
pub proof fn lemma_ws_one(s: Seq<char>, i: int)
    requires
        has(s, i, ' '),
        !(i + 1 < s.len() && is_ws(s[i + 1])),
    ensures
        ws_end(s, i) == i + 1,
{
    lemma_ws_none(s, i + 1);
}

/// The tail of an identifier that stands at `i` is read to its end, where
/// no identifier goes on behind it.
proof fn lemma_ident_tail_stands(s: Seq<char>, i: int, name: Seq<char>, k: int)
    requires
        lit(s, i, name),
        0 <= k <= name.len(),
        ident_tail_end(name, k) == name.len(),
        token_ends(s, i + name.len()),
    ensures
        ident_tail_end(s, i + k) == i + name.len(),
    decreases name.len() - k,
{
    lemma_lit_chars(s, i, name);
    if k < name.len() && is_alnum(name[k]) {
        lemma_ident_tail_stands(s, i, name, k + 1);
    } else if k + 1 < name.len() && is_ident_sep(name[k]) && is_alnum(name[k + 1]) {
        assert(s[i + (k + 1)] == name[k + 1]);
        lemma_ident_tail_stands(s, i, name, k + 2);
    } else {
        assert(k == name.len());
    }
}

/// An identifier that stands at `i` is read to its end, where no
/// identifier goes on behind it.
pub proof fn lemma_ident_stands(s: Seq<char>, i: int, name: Seq<char>)
    requires
        lit(s, i, name),
        is_name(name),
        token_ends(s, i + name.len()),
    ensures
        ident_end(s, i) == Some(i + name.len()),
{
    lemma_lit_chars(s, i, name);
    assert(s[i + 0] == name[0]);
    lemma_ident_tail_stands(s, i, name, 1);
}

/// The run of version characters at `i` ends behind a version that stands
/// there, where no version character follows it.
pub proof fn lemma_version_stands(s: Seq<char>, i: int, w: Seq<char>, k: int)
    requires
        lit(s, i, w),
        all_chars(w, |c: char| is_version_char(c)),
        0 <= k <= w.len(),
        !(i + w.len() < s.len() && is_version_char(s[i + w.len()])),
    ensures
        version_chars_end(s, i + k) == i + w.len(),
    decreases w.len() - k,
{
    lemma_lit_chars(s, i, w);
    if k < w.len() {
        assert(s[i + k] == w[k]);
        lemma_version_stands(s, i, w, k + 1);
    }
}

/// The run of quoted characters at `i` ends behind a string that stands
/// there, where the quote follows it.
pub proof fn lemma_quoted_body_stands(s: Seq<char>, i: int, w: Seq<char>, quote: char, k: int)
    requires
        lit(s, i, w),
        all_chars(w, |c: char| is_quoted_char(c, quote)),
        0 <= k <= w.len(),
        quote == '\'' || quote == '"',
        has(s, i + w.len(), quote),
    ensures
        quoted_body_end(s, i + k, quote) == i + w.len(),
    decreases w.len() - k,
{
    lemma_lit_chars(s, i, w);
    if k < w.len() {
        assert(s[i + k] == w[k]);
        lemma_quoted_body_stands(s, i, w, quote, k + 1);
    }
}

/// The run of URI characters at `i` ends behind a word of URI characters
/// that stands there, where no URI character follows it.
pub proof fn lemma_uri_chars_stand(s: Seq<char>, i: int, w: Seq<char>, k: int)
    requires
        lit(s, i, w),
        all_chars(w, |c: char| is_uri_char(c)),
        0 <= k <= w.len(),
        !(i + w.len() < s.len() && is_uri_char(s[i + w.len()])),
    ensures
        uri_chars_end(s, i + k) == i + w.len(),
    decreases w.len() - k,
{
    lemma_lit_chars(s, i, w);
    if k < w.len() {
        assert(s[i + k] == w[k]);
        lemma_uri_chars_stand(s, i, w, k + 1);
    }
}

/// A URI that stands at `i` is read to its end, where no URI character
/// follows it.
pub proof fn lemma_url_stands(s: Seq<char>, i: int, url: Seq<char>)
    requires
        lit(s, i, url),
        is_url(url),
        !(i + url.len() < s.len() && is_uri_char(s[i + url.len()])),
    ensures
        uri_end(s, i) == Some(i + url.len()),
{
    lemma_uri_chars_stand(s, i, url, 0);
}

/// A word does not stand where another one stands that differs from it in
/// the character `j`.
pub proof fn lemma_not_lit(s: Seq<char>, i: int, a: Seq<char>, b: Seq<char>, j: int)
    requires
        lit(s, i, a),
        0 <= j < a.len(),
        0 <= j < b.len(),
        a[j] != b[j],
    ensures
        !lit(s, i, b),
{
    if lit(s, i, b) {
        lemma_lit_chars(s, i, a);
        lemma_lit_chars(s, i, b);
        assert(s[i + j] == a[j]);
        assert(s[i + j] == b[j]);
    }
}

/// A comparator that stands at `i` is read, where no `=` follows it.
pub proof fn lemma_comparator_stands(s: Seq<char>, i: int, comparator: Comparator)
    requires
        lit(s, i, comparator_text(comparator)),
        !(has(s, i + comparator_text(comparator).len(), '=')),
    ensures
        comparator_at(s, i) == Some((comparator, i + comparator_text(comparator).len())),
{
    reveal_strlit("<");
    reveal_strlit("<=");
    reveal_strlit("!=");
    reveal_strlit("==");
    reveal_strlit(">=");
    reveal_strlit(">");
    reveal_strlit("~=");
    reveal_strlit("===");
    lemma_lit_chars(s, i, comparator_text(comparator));
    assert(s[i + 0] == comparator_text(comparator)[0]);
    if comparator_text(comparator).len() > 1 {
        assert(s[i + 1] == comparator_text(comparator)[1]);
    }
    if comparator_text(comparator).len() > 2 {
        assert(s[i + 2] == comparator_text(comparator)[2]);
    }
}

/// A word does not stand where its first character does not stand.
proof fn lemma_not_first(s: Seq<char>, i: int, word: Seq<char>)
    requires
        word.len() > 0,
        !(has(s, i, word[0])),
    ensures
        !lit(s, i, word),
{
    if lit(s, i, word) {
        lemma_lit_chars(s, i, word);
        assert(s[i + 0] == word[0]);
    }
}

/// No environment attribute is named where no letter stands.
pub proof fn lemma_no_attribute(s: Seq<char>, i: int)
    requires
        !(0 <= i < s.len() && is_alpha(s[i])),
    ensures
        attribute_at(s, i) is None,
{
    reveal_strlit("python_version");
    reveal_strlit("python_full_version");
    reveal_strlit("os_name");
    reveal_strlit("sys_platform");
    reveal_strlit("platform_release");
    reveal_strlit("platform_system");
    reveal_strlit("platform_version");
    reveal_strlit("platform_machine");
    reveal_strlit("platform_python_implementation");
    reveal_strlit("implementation_name");
    reveal_strlit("implementation_version");
    reveal_strlit("extra");
    lemma_not_first(s, i, "python_version"@);
    lemma_not_first(s, i, "python_full_version"@);
    lemma_not_first(s, i, "os_name"@);
    lemma_not_first(s, i, "sys_platform"@);
    lemma_not_first(s, i, "platform_release"@);
    lemma_not_first(s, i, "platform_system"@);
    lemma_not_first(s, i, "platform_version"@);
    lemma_not_first(s, i, "platform_machine"@);
    lemma_not_first(s, i, "platform_python_implementation"@);
    lemma_not_first(s, i, "implementation_name"@);
    lemma_not_first(s, i, "implementation_version"@);
    lemma_not_first(s, i, "extra"@);
}

/// An operand that stands at `i` is read.
pub proof fn lemma_variable_stands(s: Seq<char>, i: int, v: VariableView)
    requires
        variable_well_formed(v),
        lit(s, i, variable_text(v)),
    ensures
        variable_at(s, i) == Some((v, i + variable_text(v).len())),
{
    reveal_strlit("python_version");
    reveal_strlit("python_full_version");
    reveal_strlit("os_name");
    reveal_strlit("sys_platform");
    reveal_strlit("platform_release");
    reveal_strlit("platform_system");
    reveal_strlit("platform_version");
    reveal_strlit("platform_machine");
    reveal_strlit("platform_python_implementation");
    reveal_strlit("implementation_name");
    reveal_strlit("implementation_version");
    reveal_strlit("extra");
    lemma_lit_chars(s, i, variable_text(v));
    assert(s[i + 0] == variable_text(v)[0]);
    match v {
        VariableView::String(w) => {
            let quote = quote_for(w);
            lemma_lit_split(s, i, seq![quote] + w, seq![quote]);
            lemma_lit_split(s, i, seq![quote], w);
            lemma_lit_chars(s, i + 1 + w.len(), seq![quote]);
            assert(s[i + 1 + w.len() + 0] == seq![quote][0]);
            lemma_quoted_body_stands(s, i + 1, w, quote, 0);
            assert(s.subrange(i + 1, i + 1 + w.len()) == w);
        },
        VariableView::PythonVersion => {

        },
        VariableView::PythonFullVersion => {
            lemma_not_lit(s, i, "python_full_version"@, "python_version"@, 7);
        },
        VariableView::OsName => {
            lemma_not_lit(s, i, "os_name"@, "python_version"@, 0);
            lemma_not_lit(s, i, "os_name"@, "python_full_version"@, 0);
        },
        VariableView::SysPlatform => {
            lemma_not_lit(s, i, "sys_platform"@, "python_version"@, 0);
            lemma_not_lit(s, i, "sys_platform"@, "python_full_version"@, 0);
            lemma_not_lit(s, i, "sys_platform"@, "os_name"@, 0);
        },
        VariableView::PlatformRelease => {
            lemma_not_lit(s, i, "platform_release"@, "python_version"@, 1);
            lemma_not_lit(s, i, "platform_release"@, "python_full_version"@, 1);
            lemma_not_lit(s, i, "platform_release"@, "os_name"@, 0);
            lemma_not_lit(s, i, "platform_release"@, "sys_platform"@, 0);
        },
        VariableView::PlatformSystem => {
            lemma_not_lit(s, i, "platform_system"@, "python_version"@, 1);
            lemma_not_lit(s, i, "platform_system"@, "python_full_version"@, 1);
            lemma_not_lit(s, i, "platform_system"@, "os_name"@, 0);
            lemma_not_lit(s, i, "platform_system"@, "sys_platform"@, 0);
            lemma_not_lit(s, i, "platform_system"@, "platform_release"@, 9);
        },
        VariableView::PlatformVersion => {
            lemma_not_lit(s, i, "platform_version"@, "python_version"@, 1);
            lemma_not_lit(s, i, "platform_version"@, "python_full_version"@, 1);
            lemma_not_lit(s, i, "platform_version"@, "os_name"@, 0);
            lemma_not_lit(s, i, "platform_version"@, "sys_platform"@, 0);
            lemma_not_lit(s, i, "platform_version"@, "platform_release"@, 9);
            lemma_not_lit(s, i, "platform_version"@, "platform_system"@, 9);
        },
        VariableView::PlatformMachine => {
            lemma_not_lit(s, i, "platform_machine"@, "python_version"@, 1);
            lemma_not_lit(s, i, "platform_machine"@, "python_full_version"@, 1);
            lemma_not_lit(s, i, "platform_machine"@, "os_name"@, 0);
            lemma_not_lit(s, i, "platform_machine"@, "sys_platform"@, 0);
            lemma_not_lit(s, i, "platform_machine"@, "platform_release"@, 9);
            lemma_not_lit(s, i, "platform_machine"@, "platform_system"@, 9);
            lemma_not_lit(s, i, "platform_machine"@, "platform_version"@, 9);
        },
        VariableView::PlatformPythonImplementation => {
            lemma_not_lit(s, i, "platform_python_implementation"@, "python_version"@, 1);
            lemma_not_lit(s, i, "platform_python_implementation"@, "python_full_version"@, 1);
            lemma_not_lit(s, i, "platform_python_implementation"@, "os_name"@, 0);
            lemma_not_lit(s, i, "platform_python_implementation"@, "sys_platform"@, 0);
            lemma_not_lit(s, i, "platform_python_implementation"@, "platform_release"@, 9);
            lemma_not_lit(s, i, "platform_python_implementation"@, "platform_system"@, 9);
            lemma_not_lit(s, i, "platform_python_implementation"@, "platform_version"@, 9);
            lemma_not_lit(s, i, "platform_python_implementation"@, "platform_machine"@, 9);
        },
        VariableView::ImplementationName => {
            lemma_not_lit(s, i, "implementation_name"@, "python_version"@, 0);
            lemma_not_lit(s, i, "implementation_name"@, "python_full_version"@, 0);
            lemma_not_lit(s, i, "implementation_name"@, "os_name"@, 0);
            lemma_not_lit(s, i, "implementation_name"@, "sys_platform"@, 0);
            lemma_not_lit(s, i, "implementation_name"@, "platform_release"@, 0);
            lemma_not_lit(s, i, "implementation_name"@, "platform_system"@, 0);
            lemma_not_lit(s, i, "implementation_name"@, "platform_version"@, 0);
            lemma_not_lit(s, i, "implementation_name"@, "platform_machine"@, 0);
            lemma_not_lit(s, i, "implementation_name"@, "platform_python_implementation"@, 0);
        },
        VariableView::ImplementationVersion => {
            lemma_not_lit(s, i, "implementation_version"@, "python_version"@, 0);
            lemma_not_lit(s, i, "implementation_version"@, "python_full_version"@, 0);
            lemma_not_lit(s, i, "implementation_version"@, "os_name"@, 0);
            lemma_not_lit(s, i, "implementation_version"@, "sys_platform"@, 0);
            lemma_not_lit(s, i, "implementation_version"@, "platform_release"@, 0);
            lemma_not_lit(s, i, "implementation_version"@, "platform_system"@, 0);
            lemma_not_lit(s, i, "implementation_version"@, "platform_version"@, 0);
            lemma_not_lit(s, i, "implementation_version"@, "platform_machine"@, 0);
            lemma_not_lit(s, i, "implementation_version"@, "platform_python_implementation"@, 0);
            lemma_not_lit(s, i, "implementation_version"@, "implementation_name"@, 15);
        },
        VariableView::Extra => {
            lemma_not_lit(s, i, "extra"@, "python_version"@, 0);
            lemma_not_lit(s, i, "extra"@, "python_full_version"@, 0);
            lemma_not_lit(s, i, "extra"@, "os_name"@, 0);
            lemma_not_lit(s, i, "extra"@, "sys_platform"@, 0);
            lemma_not_lit(s, i, "extra"@, "platform_release"@, 0);
            lemma_not_lit(s, i, "extra"@, "platform_system"@, 0);
            lemma_not_lit(s, i, "extra"@, "platform_version"@, 0);
            lemma_not_lit(s, i, "extra"@, "platform_machine"@, 0);
            lemma_not_lit(s, i, "extra"@, "platform_python_implementation"@, 0);
            lemma_not_lit(s, i, "extra"@, "implementation_name"@, 0);
            lemma_not_lit(s, i, "extra"@, "implementation_version"@, 0);
        },
    }
}

/// A relation that stands at `i` before a space is read.
pub proof fn lemma_operator_stands(s: Seq<char>, i: int, op: Operator)
    requires
        lit(s, i, operator_text(op)),
        has(s, i + operator_text(op).len(), ' '),
    ensures
        operator_at(s, i) == Some((op, i + operator_text(op).len())),
{
    reveal_strlit("in");
    reveal_strlit("not");
    reveal_strlit("not in");
    lemma_lit_chars(s, i, operator_text(op));
    match op {
        Operator::Comparator(comparator) => {
            lemma_comparator_stands(s, i, comparator);
        },
        Operator::In => {
            assert(s[i + 0] == 'i');
        },
        Operator::NotIn => {
            assert(s[i + 0] == 'n');
            assert(s[i + 1] == 'o');
            assert(s[i + 2] == 't');
            assert(s[i + 3] == ' ');
            assert(s[i + 4] == 'i');
            assert(s[i + 5] == 'n');
            assert(lit(s, i, "in"@) ==> s.subrange(i, i + 2)[0] == s[i]);
            assert(s.subrange(i, i + 3) =~= "not"@);
            lemma_ws_one(s, i + 3);
            assert(s.subrange(i + 4, i + 6) =~= "in"@);
        },
    }
}

/// The text of a relation starts with a character that is no whitespace.
pub proof fn lemma_operator_first_char(op: Operator)
    ensures
        operator_text(op).len() > 0,
        !is_ws(operator_text(op)[0]),
{
    reveal_strlit("<");
    reveal_strlit("<=");
    reveal_strlit("!=");
    reveal_strlit("==");
    reveal_strlit(">=");
    reveal_strlit(">");
    reveal_strlit("~=");
    reveal_strlit("===");
    reveal_strlit("in");
    reveal_strlit("not in");
}

/// The text of an operand starts with a quote or a letter.
pub proof fn lemma_variable_first_char(v: VariableView)
    ensures
        variable_text(v).len() > 0,
        is_alpha(variable_text(v)[0]) || variable_text(v)[0] == '\'' || variable_text(v)[0]
            == '"',
{
    reveal_strlit("python_version");
    reveal_strlit("python_full_version");
    reveal_strlit("os_name");
    reveal_strlit("sys_platform");
    reveal_strlit("platform_release");
    reveal_strlit("platform_system");
    reveal_strlit("platform_version");
    reveal_strlit("platform_machine");
    reveal_strlit("platform_python_implementation");
    reveal_strlit("implementation_name");
    reveal_strlit("implementation_version");
    reveal_strlit("extra");
}

/// A comparison that stands at `i` is read.
pub proof fn lemma_comparison_stands(
    s: Seq<char>,
    i: int,
    lhs: VariableView,
    op: Operator,
    rhs: VariableView,
)
    requires
        variable_well_formed(lhs),
        variable_well_formed(rhs),
        lit(s, i, marker_text(MarkerView::Operator(lhs, op, rhs), 0)),
    ensures
        comparison_at(s, i) == Some(
            (
                MarkerView::Operator(lhs, op, rhs),
                i + marker_text(MarkerView::Operator(lhs, op, rhs), 0).len(),
            ),
        ),
{
    let a = variable_text(lhs);
    let b = operator_text(op);
    let c = variable_text(rhs);
    let space = seq![' '];
    assert(marker_text(MarkerView::Operator(lhs, op, rhs), 0) == a + space + b + space + c);
    lemma_lit_split(s, i, a + space + b + space, c);
    lemma_lit_split(s, i, a + space + b, space);
    lemma_lit_split(s, i, a + space, b);
    lemma_lit_split(s, i, a, space);
    let j = i + a.len();
    let k = j + 1 + b.len();
    lemma_lit_chars(s, j, space);
    assert(s[j + 0] == ' ');
    lemma_lit_chars(s, k, space);
    assert(s[k + 0] == ' ');
    lemma_variable_stands(s, i, lhs);
    lemma_operator_first_char(op);
    lemma_lit_chars(s, j + 1, b);
    assert(s[j + 1 + 0] == b[0]);
    lemma_ws_one(s, j);
    lemma_operator_stands(s, j + 1, op);
    lemma_variable_first_char(rhs);
    lemma_lit_chars(s, k + 1, c);
    assert(s[k + 1 + 0] == c[0]);
    lemma_ws_one(s, k);
    lemma_variable_stands(s, k + 1, rhs);
}

/// Skipping whitespace twice is skipping it once.
pub proof fn lemma_ws_twice(s: Seq<char>, i: int)
    ensures
        ws_end(s, ws_end(s, i)) == ws_end(s, i),
    decreases s.len() - i,
{
    if 0 <= i < s.len() && is_ws(s[i]) {
        lemma_ws_twice(s, i + 1);
    }
}

/// The names of a list behind its first one, as they stand at `i` before
/// the closing bracket, are read.
proof fn lemma_names_stand(s: Seq<char>, i: int, names: Seq<Seq<char>>, from: int)
    requires
        0 <= from <= names.len(),
        all_names(names),
        lit(s, i, names_text(names, from)),
        has(s, i + names_text(names, from).len(), ']'),
    ensures
        extras_tail(s, i) == (
            names.subrange(from, names.len() as int),
            i + names_text(names, from).len(),
        ),
    decreases names.len() - from,
{
    if from < names.len() {
        let name = names[from];
        let rest = names_text(names, from + 1);
        assert(names_text(names, from) =~= seq![','] + (name + rest));
        lemma_lit_split(s, i, seq![','], name + rest);
        lemma_lit_split(s, i + 1, name, rest);
        lemma_lit_chars(s, i, seq![',']);
        assert(s[i + 0] == ',');
        lemma_lit_chars(s, i + 1, name);
        assert(s[i + 1 + 0] == name[0]);
        lemma_ws_none(s, i + 1);
        let to = i + 1 + name.len();
        if from + 1 < names.len() {
            assert(rest =~= seq![','] + (names[from + 1] + names_text(names, from + 2)));
            lemma_lit_chars(s, to, rest);
            assert(s[to + 0] == rest[0]);
        }
        lemma_ident_stands(s, i + 1, name);
        lemma_ws_none(s, to);
        lemma_names_stand(s, to, names, from + 1);
        assert(s.subrange(i + 1, to) == name);
        assert(names.subrange(from, names.len() as int) =~= seq![name] + names.subrange(
            from + 1,
            names.len() as int,
        ));
    } else {
        assert(names.subrange(from, names.len() as int) =~= Seq::<Seq<char>>::empty());
    }
}

/// The extras whose text stands at `i` are read.
pub proof fn lemma_extras_stand(s: Seq<char>, i: int, extras: Seq<Seq<char>>)
    requires
        extras.len() > 0,
        all_names(extras),
        lit(s, i, extras_text(extras)),
    ensures
        extras_at(s, i) == (extras, ws_end(s, i + extras_text(extras).len())),
{
    let first = extras[0];
    let rest = names_text(extras, 1);
    assert(extras_text(extras) =~= seq!['['] + (first + (rest + seq![']'])));
    lemma_lit_split(s, i, seq!['['], first + (rest + seq![']']));
    lemma_lit_split(s, i + 1, first, rest + seq![']']);
    let to = i + 1 + first.len();
    lemma_lit_split(s, to, rest, seq![']']);
    lemma_lit_chars(s, i, seq!['[']);
    assert(s[i + 0] == '[');
    lemma_lit_chars(s, to + rest.len(), seq![']']);
    assert(s[to + rest.len() + 0] == ']');
    lemma_lit_chars(s, i + 1, first);
    assert(s[i + 1 + 0] == first[0]);
    lemma_ws_none(s, i + 1);
    if extras.len() > 1 {
        assert(rest =~= seq![','] + (extras[1] + names_text(extras, 2)));
        lemma_lit_chars(s, to, rest);
        assert(s[to + 0] == rest[0]);
    } else {
        assert(rest =~= Seq::<char>::empty());
    }
    lemma_ident_stands(s, i + 1, first);
    lemma_ws_none(s, to);
    lemma_names_stand(s, to, extras, 1);
    assert(s.subrange(i + 1, to) == first);
    assert(extras =~= seq![first] + extras.subrange(1, extras.len() as int));
}

/// The text of a comparator is not empty and starts with none of the
/// characters that mean something else where a specification may start.
pub proof fn lemma_comparator_first_char(comparator: Comparator)
    ensures
        0 < comparator_text(comparator).len() <= 3,
        !is_ws(comparator_text(comparator)[0]),
        comparator_text(comparator)[0] != '[',
        comparator_text(comparator)[0] != '(',
        comparator_text(comparator)[0] != '@',
        comparator_text(comparator)[0] != ',',
        comparator_text(comparator)[0] != ';',
{
    reveal_strlit("<");
    reveal_strlit("<=");
    reveal_strlit("!=");
    reveal_strlit("==");
    reveal_strlit(">=");
    reveal_strlit(">");
    reveal_strlit("~=");
    reveal_strlit("===");
}

/// Nothing but the marker follows at `j`: the input ends there, or a
/// space and a semicolon stand there.
pub open spec fn clauses_end(s: Seq<char>, j: int) -> bool {
    j == s.len() || (has(s, j, ' ') && has(s, j + 1, ';'))
}

/// A clause that stands at `i` is read, where a comma follows it or
/// nothing but the marker.
proof fn lemma_clause_stands(s: Seq<char>, i: int, clause: VersionSpecView)
    requires
        is_version(clause.version),
        lit(s, i, clause_text(clause)),
        has(s, i + clause_text(clause).len(), ',') || clauses_end(
            s,
            i + clause_text(clause).len(),
        ),
    ensures
        version_clause_at(s, i) == Some((clause, ws_end(s, i + clause_text(clause).len()))),
{
    let token = comparator_text(clause.comparator);
    let version = clause.version;
    lemma_comparator_first_char(clause.comparator);
    lemma_lit_split(s, i, token, version);
    let from = i + token.len();
    lemma_lit_chars(s, from, version);
    assert(s[from + 0] == version[0]);
    lemma_comparator_stands(s, i, clause.comparator);
    lemma_ws_none(s, from);
    lemma_version_stands(s, from, version, 0);
    assert(s.subrange(from, from + version.len()) == version);
}

/// The clauses of a list behind its first one, as they stand at `i`, are
/// read, where nothing but the marker follows them.
proof fn lemma_clauses_stand(s: Seq<char>, i: int, clauses: Seq<VersionSpecView>, from: int)
    requires
        0 <= from <= clauses.len(),
        all_versions(clauses),
        lit(s, i, clauses_text(clauses, from)),
        clauses_end(s, i + clauses_text(clauses, from).len()),
    ensures
        version_list_tail(s, ws_end(s, i)) == (
            clauses.subrange(from, clauses.len() as int),
            ws_end(s, i + clauses_text(clauses, from).len()),
        ),
    decreases clauses.len() - from,
{
    if from < clauses.len() {
        let clause = clauses[from];
        let rest = clauses_text(clauses, from + 1);
        assert(is_version(clauses[from].version));
        assert(clauses_text(clauses, from) =~= seq![','] + (clause_text(clause) + rest));
        lemma_lit_split(s, i, seq![','], clause_text(clause) + rest);
        lemma_lit_split(s, i + 1, clause_text(clause), rest);
        lemma_lit_chars(s, i, seq![',']);
        assert(s[i + 0] == ',');
        lemma_ws_none(s, i);
        lemma_comparator_first_char(clause.comparator);
        lemma_lit_chars(s, i + 1, clause_text(clause));
        assert(s[i + 1 + 0] == clause_text(clause)[0]);
        lemma_ws_none(s, i + 1);
        let to = i + 1 + clause_text(clause).len();
        if from + 1 < clauses.len() {
            assert(rest =~= seq![','] + (clause_text(clauses[from + 1]) + clauses_text(
                clauses,
                from + 2,
            )));
            lemma_lit_chars(s, to, rest);
            assert(s[to + 0] == rest[0]);
        } else {
            assert(rest =~= Seq::<char>::empty());
        }
        lemma_clause_stands(s, i + 1, clause);
        lemma_clauses_stand(s, to, clauses, from + 1);
        lemma_ws_end_bounds(s, to);
        assert(clauses.subrange(from, clauses.len() as int) =~= seq![clause]
            + clauses.subrange(from + 1, clauses.len() as int));
    } else {
        assert(clauses.subrange(from, clauses.len() as int) =~= Seq::<
            VersionSpecView,
        >::empty());
        if i < s.len() {
            lemma_ws_none(s, i + 1);
        } else {
            lemma_ws_none(s, i);
        }
    }
}

/// Version clauses whose text stands at `i` behind a space are read as the
/// specification, where nothing but the marker follows them.
proof fn lemma_versions_stand(s: Seq<char>, i: int, clauses: Seq<VersionSpecView>)
    requires
        spec_well_formed(SpecView::Version(clauses)),
        lit(s, i, spec_text(Some(SpecView::Version(clauses)))),
        clauses_end(s, i + spec_text(Some(SpecView::Version(clauses))).len()),
    ensures
        spec_at(s, ws_end(s, i)) == (
            Some(SpecView::Version(clauses)),
            ws_end(s, i + spec_text(Some(SpecView::Version(clauses))).len()),
        ),
{
    let first = clauses[0];
    let rest = clauses_text(clauses, 1);
    let text = spec_text(Some(SpecView::Version(clauses)));
    assert(is_version(clauses[0].version));
    assert(text =~= seq![' '] + (clause_text(first) + rest));
    lemma_lit_split(s, i, seq![' '], clause_text(first) + rest);
    lemma_lit_split(s, i + 1, clause_text(first), rest);
    lemma_lit_chars(s, i, seq![' ']);
    assert(s[i + 0] == ' ');
    lemma_comparator_first_char(first.comparator);
    lemma_lit_chars(s, i + 1, clause_text(first));
    assert(s[i + 1 + 0] == clause_text(first)[0]);
    lemma_ws_one(s, i);
    let to = i + 1 + clause_text(first).len();
    if clauses.len() > 1 {
        assert(rest =~= seq![','] + (clause_text(clauses[1]) + clauses_text(clauses, 2)));
        lemma_lit_chars(s, to, rest);
        assert(s[to + 0] == rest[0]);
    } else {
        assert(rest =~= Seq::<char>::empty());
    }
    lemma_clause_stands(s, i + 1, first);
    lemma_clauses_stand(s, to, clauses, 1);
    assert(clauses =~= seq![first] + clauses.subrange(1, clauses.len() as int));
    lemma_ws_twice(s, to + rest.len());
    assert(version_list_at(s, i + 1) == Some((clauses, ws_end(s, to + rest.len()))));
}

/// A direct reference whose text stands at `i` is read as the
/// specification, where the input ends behind it or a space follows.
proof fn lemma_reference_stands(s: Seq<char>, i: int, url: Seq<char>)
    requires
        is_url(url),
        lit(s, i, spec_text(Some(SpecView::Url(url)))),
        i + spec_text(Some(SpecView::Url(url))).len() == s.len() || has(
            s,
            i + spec_text(Some(SpecView::Url(url))).len(),
            ' ',
        ),
    ensures
        spec_at(s, ws_end(s, i)) == (
            Some(SpecView::Url(url)),
            ws_end(s, i + spec_text(Some(SpecView::Url(url))).len()),
        ),
{
    reveal_strlit(" @ ");
    lemma_lit_split(s, i, " @ "@, url);
    lemma_lit_chars(s, i, " @ "@);
    assert(s[i + 0] == ' ');
    assert(s[i + 1] == '@');
    assert(s[i + 2] == ' ');
    lemma_lit_chars(s, i + 3, url);
    assert(s[i + 3 + 0] == url[0]);
    assert(is_uri_char(url[0]));
    lemma_ws_one(s, i);
    lemma_ws_one(s, i + 2);
    lemma_url_stands(s, i + 3, url);
    assert(s.subrange(i + 3, i + 3 + url.len()) == url);
}

/// The rule of the marker grammar that belongs to a level: 0 for an
/// operand, 1 for operands joined by `and`, 2 for a whole marker.
pub open spec fn marker_at(s: Seq<char>, i: int, level: nat) -> Option<(MarkerView, int)> {
    if level == 0 {
        marker_expr_at(s, i)
    } else if level == 1 {
        marker_and_at(s, i)
    } else {
        marker_or_at(s, i)
    }
}

/// No joining word that the level looks for stands at `j`.
pub open spec fn no_join(s: Seq<char>, j: int, level: nat) -> bool {
    &&& level >= 1 ==> joined_at(s, j, "and"@) is None
    &&& level >= 2 ==> joined_at(s, j, "or"@) is None
}

/// The text of a marker starts with a quote, a letter or an opening
/// parenthesis.
pub proof fn lemma_marker_first_char(m: MarkerView, level: nat)
    requires
        level <= 2,
    ensures
        marker_text(m, level).len() > 0,
        is_alpha(marker_text(m, level)[0]) || marker_text(m, level)[0] == '\''
            || marker_text(m, level)[0] == '"' || marker_text(m, level)[0] == '(',
    decreases m, 2 - level,
{
    match m {
        MarkerView::Operator(lhs, op, rhs) => {
            lemma_variable_first_char(lhs);
        },
        MarkerView::And(lhs, rhs) => {
            if level >= 1 {
                lemma_marker_first_char(*lhs, 0);
            }
        },
        MarkerView::Or(lhs, rhs) => {
            if level >= 2 {
                lemma_marker_first_char(*lhs, 1);
            }
        },
    }
}

/// No joining word stands where the input ends or a closing parenthesis
/// stands.
pub proof fn lemma_no_join_at_end(s: Seq<char>, j: int, level: nat)
    requires
        j == s.len() || has(s, j, ')'),
    ensures
        no_join(s, j, level),
{
    reveal_strlit("and");
    reveal_strlit("or");
    lemma_ws_none(s, j);
    assert(lit(s, j, "and"@) ==> s.subrange(j, j + 3)[0] == s[j]);
    assert(lit(s, j, "or"@) ==> s.subrange(j, j + 2)[0] == s[j]);
}

/// A marker in parentheses that stands at `i` is read as an operand, where
/// the marker between the parentheses is read as a whole marker.
proof fn lemma_parenthesised_stands(s: Seq<char>, i: int, m: MarkerView)
    requires
        lit(s, i, seq!['('] + marker_text(m, 2) + seq![')']),
        marker_or_at(s, i + 1) == Some((m, i + 1 + marker_text(m, 2).len())),
    ensures
        marker_expr_at(s, i) == Some((m, i + marker_text(m, 2).len() + 2)),
{
    let inner = marker_text(m, 2);
    lemma_lit_split(s, i, seq!['('] + inner, seq![')']);
    lemma_lit_split(s, i, seq!['('], inner);
    lemma_lit_chars(s, i, seq!['(']);
    assert(s[i + 0] == '(');
    let close = i + 1 + inner.len();
    lemma_lit_chars(s, close, seq![')']);
    assert(s[close + 0] == ')');
    lemma_no_attribute(s, i);
    lemma_marker_first_char(m, 2);
    lemma_lit_chars(s, i + 1, inner);
    assert(s[i + 1 + 0] == inner[0]);
    lemma_ws_none(s, i + 1);
    lemma_ws_none(s, close);
}

/// What a joining word between two operands makes of the position behind
/// the left one.
proof fn lemma_joined_stands(s: Seq<char>, j: int, word: Seq<char>, next: Seq<char>)
    requires
        lit(s, j, seq![' '] + word + seq![' '] + next),
        word.len() > 0,
        !is_ws(word[0]),
        next.len() > 0,
        !is_ws(next[0]),
    ensures
        joined_at(s, j, word) == Some(j + word.len() + 2),
        lit(s, j + word.len() + 2, next),
        j + word.len() + 2 < s.len(),
{
    let space = seq![' '];
    lemma_lit_split(s, j, space + word + space, next);
    lemma_lit_split(s, j, space + word, space);
    lemma_lit_split(s, j, space, word);
    lemma_lit_chars(s, j, space);
    assert(s[j + 0] == ' ');
    lemma_lit_chars(s, j + 1, word);
    assert(s[j + 1 + 0] == word[0]);
    lemma_ws_one(s, j);
    let gap = j + 1 + word.len();
    lemma_lit_chars(s, gap, space);
    assert(s[gap + 0] == ' ');
    lemma_lit_chars(s, gap + 1, next);
    assert(s[gap + 1 + 0] == next[0]);
    lemma_ws_one(s, gap);
}

/// The joining word `other` does not stand where the word `word` stands
/// behind a space, if the two differ in their first character.
proof fn lemma_other_join(s: Seq<char>, j: int, word: Seq<char>, other: Seq<char>)
    requires
        lit(s, j, seq![' '] + word),
        word.len() > 0,
        other.len() > 0,
        !is_ws(word[0]),
        word[0] != other[0],
    ensures
        joined_at(s, j, other) is None,
{
    let space = seq![' '];
    lemma_lit_split(s, j, space, word);
    lemma_lit_chars(s, j, space);
    assert(s[j + 0] == ' ');
    lemma_lit_chars(s, j + 1, word);
    assert(s[j + 1 + 0] == word[0]);
    lemma_ws_one(s, j);
    lemma_not_lit(s, j + 1, word, other, 0);
}

/// The joining words between spaces, taken apart.
proof fn lemma_joining_words()
    ensures
        " and "@ == seq![' '] + "and"@ + seq![' '],
        " or "@ == seq![' '] + "or"@ + seq![' '],
        "and"@.len() == 3,
        "or"@.len() == 2,
        "and"@[0] == 'a',
        "or"@[0] == 'o',
{
    reveal_strlit(" and ");
    reveal_strlit(" or ");
    reveal_strlit("and");
    reveal_strlit("or");
    assert(" and "@ =~= seq![' '] + "and"@ + seq![' ']);
    assert(" or "@ =~= seq![' '] + "or"@ + seq![' ']);
}

/// Two operands that are read with `and` between them are read as one
/// marker by the rule for `and`.
proof fn lemma_and_read(
    s: Seq<char>,
    i: int,
    lhs: MarkerView,
    rhs: MarkerView,
    j: int,
    next: int,
    end: int,
)
    requires
        marker_expr_at(s, i) == Some((lhs, j)),
        joined_at(s, j, "and"@) == Some(next),
        i < next <= s.len(),
        marker_expr_at(s, next) == Some((rhs, end)),
    ensures
        marker_and_at(s, i) == Some((MarkerView::And(Box::new(lhs), Box::new(rhs)), end)),
{
}

/// Two operands that are read with `or` between them are read as one
/// marker.
proof fn lemma_or_read(
    s: Seq<char>,
    i: int,
    lhs: MarkerView,
    rhs: MarkerView,
    j: int,
    next: int,
    end: int,
)
    requires
        marker_and_at(s, i) == Some((lhs, j)),
        joined_at(s, j, "or"@) == Some(next),
        i < next <= s.len(),
        marker_and_at(s, next) == Some((rhs, end)),
    ensures
        marker_or_at(s, i) == Some((MarkerView::Or(Box::new(lhs), Box::new(rhs)), end)),
{
}

/// What the rule of a level reads is read by the rule of the next level
/// where no joining word of that level follows.
proof fn lemma_level_up(s: Seq<char>, i: int, m: MarkerView, end: int, level: nat)
    requires
        level <= 1,
        marker_at(s, i, level) == Some((m, end)),
        level == 0 ==> joined_at(s, end, "and"@) is None,
        level == 1 ==> joined_at(s, end, "or"@) is None,
    ensures
        marker_at(s, i, level + 1) == Some((m, end)),
{
}

/// A marker joined by `word` whose text stands at `i` has its left operand
/// there and its right operand behind the word.
proof fn lemma_joined_text(
    s: Seq<char>,
    i: int,
    left: Seq<char>,
    word: Seq<char>,
    right: Seq<char>,
)
    requires
        lit(s, i, left + (seq![' '] + word + seq![' ']) + right),
        word.len() > 0,
        !is_ws(word[0]),
        right.len() > 0,
        !is_ws(right[0]),
    ensures
        lit(s, i, left),
        lit(s, i + left.len(), seq![' '] + word),
        joined_at(s, i + left.len(), word) == Some(i + left.len() + word.len() + 2),
        lit(s, i + left.len() + word.len() + 2, right),
        i + left.len() + word.len() + 2 < s.len(),
{
    let space = seq![' '];
    assert(left + (space + word + space) + right =~= left + (space + word + space + right));
    lemma_lit_split(s, i, left, space + word + space + right);
    lemma_joined_stands(s, i + left.len(), word, right);
    assert(space + word + space + right =~= (space + word) + (space + right));
    lemma_lit_split(s, i + left.len(), space + word, space + right);
}

/// A marker in parentheses that stands at `i` has the marker behind the
/// opening parenthesis, and no joining word behind that.
proof fn lemma_parenthesised_text(s: Seq<char>, i: int, inner: Seq<char>)
    requires
        lit(s, i, seq!['('] + inner + seq![')']),
    ensures
        lit(s, i + 1, inner),
        no_join(s, i + 1 + inner.len(), 2),
{
    lemma_lit_split(s, i, seq!['('] + inner, seq![')']);
    lemma_lit_split(s, i, seq!['('], inner);
    lemma_lit_chars(s, i + 1 + inner.len(), seq![')']);
    assert(s[i + 1 + inner.len() + 0] == ')');
    lemma_no_join_at_end(s, i + 1 + inner.len(), 2);
}

/// Where the operands of a marker joined by `and` stand, where its text
/// for a level at which it stands bare stands at `i`.
proof fn lemma_and_parts(s: Seq<char>, i: int, lhs: MarkerView, rhs: MarkerView, level: nat)
    requires
        1 <= level <= 2,
        lit(s, i, marker_text(MarkerView::And(Box::new(lhs), Box::new(rhs)), level)),
    ensures
        lit(s, i, marker_text(lhs, 0)),
        lit(s, i + marker_text(lhs, 0).len() + 5, marker_text(rhs, 0)),
        joined_at(s, i + marker_text(lhs, 0).len(), "and"@) == Some(
            i + marker_text(lhs, 0).len() + 5,
        ),
        i + marker_text(lhs, 0).len() + 5 < s.len(),
        marker_text(MarkerView::And(Box::new(lhs), Box::new(rhs)), level).len() == marker_text(
            lhs,
            0,
        ).len() + 5 + marker_text(rhs, 0).len(),
{
    lemma_joining_words();
    lemma_marker_first_char(rhs, 0);
    lemma_joined_text(s, i, marker_text(lhs, 0), "and"@, marker_text(rhs, 0));
}

/// Where the operands of a marker joined by `or` stand, where its text for
/// the level at which it stands bare stands at `i`.
proof fn lemma_or_parts(s: Seq<char>, i: int, lhs: MarkerView, rhs: MarkerView)
    requires
        lit(s, i, marker_text(MarkerView::Or(Box::new(lhs), Box::new(rhs)), 2)),
    ensures
        lit(s, i, marker_text(lhs, 1)),
        lit(s, i + marker_text(lhs, 1).len() + 4, marker_text(rhs, 1)),
        joined_at(s, i + marker_text(lhs, 1).len(), "or"@) == Some(
            i + marker_text(lhs, 1).len() + 4,
        ),
        joined_at(s, i + marker_text(lhs, 1).len(), "and"@) is None,
        i + marker_text(lhs, 1).len() + 4 < s.len(),
        marker_text(MarkerView::Or(Box::new(lhs), Box::new(rhs)), 2).len() == marker_text(
            lhs,
            1,
        ).len() + 4 + marker_text(rhs, 1).len(),
{
    lemma_joining_words();
    lemma_marker_first_char(rhs, 1);
    lemma_joined_text(s, i, marker_text(lhs, 1), "or"@, marker_text(rhs, 1));
    lemma_other_join(s, i + marker_text(lhs, 1).len(), "or"@, "and"@);
}

/// Where the marker between the parentheses stands, where the text of a
/// joined marker for a level at which it stands in parentheses stands at
/// `i`.
proof fn lemma_inner_part(s: Seq<char>, i: int, m: MarkerView, level: nat)
    requires
        level <= 1,
        m is Or || (m is And && level == 0),
        lit(s, i, marker_text(m, level)),
    ensures
        lit(s, i + 1, marker_text(m, 2)),
        no_join(s, i + 1 + marker_text(m, 2).len(), 2),
        marker_text(m, level).len() == marker_text(m, 2).len() + 2,
        lit(s, i, seq!['('] + marker_text(m, 2) + seq![')']),
{
    lemma_parenthesised_text(s, i, marker_text(m, 2));
}

/// What is read as an operand is read by the rule of each level above,
/// where no joining word follows that the rule would take.
proof fn lemma_levels_up(s: Seq<char>, i: int, m: MarkerView, end: int, from: nat, level: nat)
    requires
        from <= level <= 2,
        marker_at(s, i, from) == Some((m, end)),
        no_join(s, end, level),
    ensures
        marker_at(s, i, level) == Some((m, end)),
{
    if from == 0 && level >= 1 {
        lemma_level_up(s, i, m, end, 0);
    }
    if from <= 1 && level >= 2 {
        lemma_level_up(s, i, m, end, 1);
    }
}

/// A marker whose text for a level stands at `i` is read by the rule of
/// that level, where no joining word follows that the rule would take.
pub proof fn lemma_marker_stands(s: Seq<char>, i: int, m: MarkerView, level: nat)
    requires
        marker_well_formed(m),
        level <= 2,
        lit(s, i, marker_text(m, level)),
        no_join(s, i + marker_text(m, level).len(), level),
    ensures
        marker_at(s, i, level) == Some((m, i + marker_text(m, level).len())),
    decreases m, 2 - level,
{
    let end = i + marker_text(m, level).len();
    match m {
        MarkerView::Operator(lhs, op, rhs) => {
            lemma_comparison_stands(s, i, lhs, op, rhs);
            assert(marker_text(m, 0) == marker_text(m, level));
            lemma_levels_up(s, i, m, end, 0, level);
        },
        MarkerView::And(lhs, rhs) => {
            if level >= 1 {
                let next = i + marker_text(*lhs, 0).len() + 5;
                lemma_and_parts(s, i, *lhs, *rhs, level);
                lemma_marker_stands(s, i, *lhs, 0);
                lemma_marker_stands(s, next, *rhs, 0);
                lemma_and_read(s, i, *lhs, *rhs, next - 5, next, end);
                lemma_levels_up(s, i, m, end, 1, level);
            } else {
                lemma_inner_part(s, i, m, level);
                lemma_marker_stands(s, i + 1, m, 2);
                lemma_parenthesised_stands(s, i, m);
            }
        },
        MarkerView::Or(lhs, rhs) => {
            if level >= 2 {
                let next = i + marker_text(*lhs, 1).len() + 4;
                lemma_or_parts(s, i, *lhs, *rhs);
                lemma_marker_stands(s, i, *lhs, 1);
                lemma_marker_stands(s, next, *rhs, 1);
                lemma_or_read(s, i, *lhs, *rhs, next - 4, next, end);
            } else {
                lemma_inner_part(s, i, m, level);
                lemma_marker_stands(s, i + 1, m, 2);
                lemma_parenthesised_stands(s, i, m);
                lemma_levels_up(s, i, m, end, 0, level);
            }
        },
    }
}

/// What the tail of an identifier reads in the input, it reads in the
/// identifier taken alone.
proof fn lemma_ident_tail_alone(s: Seq<char>, i: int, j: int, k: int)
    requires
        0 <= i < k <= s.len(),
        ident_tail_end(s, k) == j,
    ensures
        k <= j <= s.len(),
        ident_tail_end(s.subrange(i, j), k - i) == j - i,
    decreases s.len() - k,
{
    lemma_ident_tail_bounds(s, k);
    let w = s.subrange(i, j);
    if k < s.len() && is_alnum(s[k]) {
        lemma_ident_tail_bounds(s, k + 1);
        lemma_ident_tail_alone(s, i, j, k + 1);
        assert(w[k - i] == s[k]);
    } else if k + 1 < s.len() && is_ident_sep(s[k]) && is_alnum(s[k + 1]) {
        lemma_ident_tail_bounds(s, k + 2);
        lemma_ident_tail_alone(s, i, j, k + 2);
        assert(w[k - i] == s[k]);
        assert(w[k + 1 - i] == s[k + 1]);
    }
}

/// What is read as an identifier is an identifier.
pub proof fn lemma_ident_is_name(s: Seq<char>, i: int)
    requires
        ident_end(s, i) is Some,
    ensures
        i < ident_end(s, i)->0 <= s.len(),
        is_name(s.subrange(i, ident_end(s, i)->0)),
{
    let j = ident_end(s, i)->0;
    lemma_ident_tail_alone(s, i, j, i + 1);
    assert(s.subrange(i, j)[0] == s[i]);
}

/// A run of version characters holds version characters only.
pub proof fn lemma_version_chars_run(s: Seq<char>, i: int)
    requires
        0 <= i <= s.len(),
    ensures
        i <= version_chars_end(s, i) <= s.len(),
        all_chars(s.subrange(i, version_chars_end(s, i)), |c: char| is_version_char(c)),
    decreases s.len() - i,
{
    let end = version_chars_end(s, i);
    if i < s.len() && is_version_char(s[i]) {
        lemma_version_chars_run(s, i + 1);
        assert forall|k: int| 0 <= k < end - i implies is_version_char(
            #[trigger] s.subrange(i, end)[k],
        ) by {
            if k > 0 {
                assert(s.subrange(i, end)[k] == s.subrange(i + 1, end)[k - 1]);
            }
        }
    }
}

/// A run of quoted characters holds such characters only.
pub proof fn lemma_quoted_body_run(s: Seq<char>, i: int, quote: char)
    requires
        0 <= i <= s.len(),
    ensures
        i <= quoted_body_end(s, i, quote) <= s.len(),
        all_chars(
            s.subrange(i, quoted_body_end(s, i, quote)),
            |c: char| is_quoted_char(c, quote),
        ),
    decreases s.len() - i,
{
    let end = quoted_body_end(s, i, quote);
    if i < s.len() && is_quoted_char(s[i], quote) {
        lemma_quoted_body_run(s, i + 1, quote);
        assert forall|k: int| 0 <= k < end - i implies is_quoted_char(
            #[trigger] s.subrange(i, end)[k],
            quote,
        ) by {
            if k > 0 {
                assert(s.subrange(i, end)[k] == s.subrange(i + 1, end)[k - 1]);
            }
        }
    }
}

/// A run of URI characters holds URI characters only.
pub proof fn lemma_uri_chars_run(s: Seq<char>, i: int)
    requires
        0 <= i <= s.len(),
    ensures
        i <= uri_chars_end(s, i) <= s.len(),
        all_chars(s.subrange(i, uri_chars_end(s, i)), |c: char| is_uri_char(c)),
    decreases s.len() - i,
{
    let end = uri_chars_end(s, i);
    if i < s.len() && is_uri_char(s[i]) {
        lemma_uri_chars_run(s, i + 1);
        assert forall|k: int| 0 <= k < end - i implies is_uri_char(
            #[trigger] s.subrange(i, end)[k],
        ) by {
            if k > 0 {
                assert(s.subrange(i, end)[k] == s.subrange(i + 1, end)[k - 1]);
            }
        }
    }
}

/// An operand that was read is well formed.
pub proof fn lemma_variable_well_formed(s: Seq<char>, i: int)
    requires
        0 <= i <= s.len(),
        variable_at(s, i) is Some,
    ensures
        variable_at(s, i) matches Some((v, j)) && variable_well_formed(v) && i <= j <= s.len(),
{
    if has(s, i, '\'') {
        lemma_quoted_body_run(s, i + 1, '\'');
    }
    if has(s, i, '"') {
        lemma_quoted_body_run(s, i + 1, '"');
    }
}

/// A comparison that was read is well formed.
pub proof fn lemma_comparison_well_formed(s: Seq<char>, i: int)
    requires
        0 <= i <= s.len(),
        comparison_at(s, i) is Some,
    ensures
        comparison_at(s, i) matches Some((m, j)) && marker_well_formed(m) && i <= j <= s.len(),
{
    lemma_variable_well_formed(s, i);
    let (lhs, j) = variable_at(s, i)->0;
    lemma_ws_end_bounds(s, j);
    let (op, k) = operator_at(s, ws_end(s, j))->0;
    reveal_strlit("in");
    reveal_strlit("not");
    if ws_end(s, j) + 3 <= s.len() {
        lemma_ws_end_bounds(s, ws_end(s, j) + 3);
    }
    lemma_ws_end_bounds(s, k);
    lemma_variable_well_formed(s, ws_end(s, k));
}

/// A marker that was read by the rule of a level is well formed, and ends
/// inside the input.
pub proof fn lemma_marker_well_formed(s: Seq<char>, i: int, level: nat)
    requires
        0 <= i <= s.len(),
        level <= 2,
        marker_at(s, i, level) is Some,
    ensures
        marker_at(s, i, level) matches Some((m, j)) && marker_well_formed(m) && i <= j
            <= s.len(),
    decreases s.len() - i, level,
{
    if level == 0 {
        if comparison_at(s, i) is Some {
            lemma_comparison_well_formed(s, i);
        } else {
            lemma_ws_end_bounds(s, i + 1);
            lemma_marker_well_formed(s, ws_end(s, i + 1), 2);
            let (inner, close) = marker_or_at(s, ws_end(s, i + 1))->0;
            lemma_ws_end_bounds(s, close);
        }
    } else {
        lemma_marker_well_formed(s, i, (level - 1) as nat);
        let (lhs, j) = marker_at(s, i, (level - 1) as nat)->0;
        let word = if level == 1 {
            "and"@
        } else {
            "or"@
        };
        if let Some(next) = joined_at(s, j, word) {
            if i < next <= s.len() && marker_at(s, next, (level - 1) as nat) is Some {
                lemma_marker_well_formed(s, next, (level - 1) as nat);
            }
        }
    }
}

/// The names that were read behind the first one are identifiers.
proof fn lemma_extras_tail_names(s: Seq<char>, i: int)
    requires
        0 <= i <= s.len(),
    ensures
        all_names(extras_tail(s, i).0),
        i <= extras_tail(s, i).1 <= s.len(),
    decreases s.len() - i,
{
    if has(s, i, ',') {
        let from = ws_end(s, i + 1);
        lemma_ws_end_bounds(s, i + 1);
        if let Some(to) = ident_end(s, from) {
            lemma_ident_is_name(s, from);
            lemma_ws_end_bounds(s, to);
            lemma_extras_tail_names(s, ws_end(s, to));
            let rest = extras_tail(s, ws_end(s, to)).0;
            let all = seq![s.subrange(from, to)] + rest;
            assert forall|k: int| 0 <= k < all.len() implies is_name(#[trigger] all[k]) by {
                if k > 0 {
                    assert(all[k] == rest[k - 1]);
                }
            }
        }
    }
}

/// The extras that were read are identifiers.
pub proof fn lemma_extras_names(s: Seq<char>, i: int)
    requires
        0 <= i <= s.len(),
    ensures
        all_names(extras_at(s, i).0),
        i <= extras_at(s, i).1 <= s.len(),
{
    if has(s, i, '[') {
        let from = ws_end(s, i + 1);
        lemma_ws_end_bounds(s, i + 1);
        if let Some(to) = ident_end(s, from) {
            lemma_ident_is_name(s, from);
            lemma_ws_end_bounds(s, to);
            lemma_extras_tail_names(s, ws_end(s, to));
            let close = extras_tail(s, ws_end(s, to)).1;
            if close < s.len() {
                lemma_ws_end_bounds(s, close + 1);
            }
            let rest = extras_tail(s, ws_end(s, to)).0;
            let all = seq![s.subrange(from, to)] + rest;
            assert forall|k: int| 0 <= k < all.len() implies is_name(#[trigger] all[k]) by {
                if k > 0 {
                    assert(all[k] == rest[k - 1]);
                }
            }
        }
    }
}

/// The version of a clause that was read is a version.
proof fn lemma_clause_version(s: Seq<char>, i: int)
    requires
        0 <= i <= s.len(),
        version_clause_at(s, i) is Some,
    ensures
        version_clause_at(s, i) matches Some((clause, j)) && is_version(clause.version) && i < j
            <= s.len(),
{
    let (comparator, j) = comparator_at(s, i)->0;
    lemma_ws_end_bounds(s, j);
    lemma_version_chars_run(s, ws_end(s, j));
    lemma_ws_end_bounds(s, version_chars_end(s, ws_end(s, j)));
}

/// The versions of the clauses that were read behind the first one are
/// versions.
proof fn lemma_clauses_tail_versions(s: Seq<char>, i: int)
    requires
        0 <= i <= s.len(),
    ensures
        all_versions(version_list_tail(s, i).0),
        i <= version_list_tail(s, i).1 <= s.len(),
    decreases s.len() - i,
{
    if has(s, i, ',') {
        lemma_ws_end_bounds(s, i + 1);
        if let Some((clause, j)) = version_clause_at(s, ws_end(s, i + 1)) {
            lemma_clause_version(s, ws_end(s, i + 1));
            lemma_clauses_tail_versions(s, j);
            let rest = version_list_tail(s, j).0;
            let all = seq![clause] + rest;
            assert forall|k: int| 0 <= k < all.len() implies is_version(
                #[trigger] all[k].version,
            ) by {
                if k > 0 {
                    assert(all[k] == rest[k - 1]);
                }
            }
        }
    }
}

/// The clauses that were read are at least one, and their versions are
/// versions.
proof fn lemma_clauses_versions(s: Seq<char>, i: int)
    requires
        0 <= i <= s.len(),
        version_list_at(s, i) is Some,
    ensures
        version_list_at(s, i) matches Some((clauses, j)) && spec_well_formed(
            SpecView::Version(clauses),
        ) && i < j <= s.len(),
{
    let (clause, j) = version_clause_at(s, i)->0;
    lemma_clause_version(s, i);
    lemma_clauses_tail_versions(s, j);
    let rest = version_list_tail(s, j).0;
    let all = seq![clause] + rest;
    assert forall|k: int| 0 <= k < all.len() implies is_version(#[trigger] all[k].version) by {
        if k > 0 {
            assert(all[k] == rest[k - 1]);
        }
    }
}

/// A URL that was read is a URI on its own.
pub proof fn lemma_url_is_url(s: Seq<char>, i: int)
    requires
        0 <= i <= s.len(),
        uri_end(s, i) is Some,
    ensures
        i < uri_end(s, i)->0 <= s.len(),
        is_url(s.subrange(i, uri_end(s, i)->0)),
{
    lemma_uri_chars_run(s, i);
    let window = s.subrange(i, uri_chars_end(s, i));
    lemma_uri_bounds(window);
    let n = uri_at(window, 0)->0;
    let url = s.subrange(i, i + n);
    assert(url =~= window.take(n));
    lemma_uri_cut(url, window);
    assert forall|k: int| 0 <= k < url.len() implies is_uri_char(#[trigger] url[k]) by {
        assert(url[k] == window[k]);
    }
}

/// A specification that was read is well formed.
proof fn lemma_spec_well_formed(s: Seq<char>, i: int)
    requires
        0 <= i <= s.len(),
    ensures
        spec_at(s, i).0 matches Some(spec) ==> spec_well_formed(spec),
        i <= spec_at(s, i).1 <= s.len(),
{
    if url_at(s, i) is Some {
        lemma_ws_end_bounds(s, i + 1);
        lemma_url_is_url(s, ws_end(s, i + 1));
        lemma_ws_end_bounds(s, uri_end(s, ws_end(s, i + 1))->0);
    } else if version_spec_at(s, i) is Some {
        let (clauses, j) = version_spec_at(s, i)->0;
        if version_list_in_parens(s, i) is Some {
            lemma_ws_end_bounds(s, i + 1);
            lemma_clauses_versions(s, ws_end(s, i + 1));
        } else {
            lemma_clauses_versions(s, i);
        }
        lemma_ws_end_bounds(s, j);
    }
}

/// Every dependency that the grammar yields is well formed.
pub proof fn lemma_parsed_well_formed(s: Seq<char>)
    requires
        parsed(s) is Ok,
    ensures
        well_formed(parsed(s)->Ok_0),
{
    let start = ws_end(s, 0);
    lemma_ws_end_bounds(s, 0);
    lemma_ident_is_name(s, start);
    let name_end = ident_end(s, start)->0;
    lemma_ws_end_bounds(s, name_end);
    lemma_extras_names(s, ws_end(s, name_end));
    let (extras, i) = extras_at(s, ws_end(s, name_end));
    lemma_spec_well_formed(s, i);
    let (spec, j) = spec_at(s, i);
    if has(s, j, ';') {
        lemma_ws_end_bounds(s, j + 1);
        if marker_or_at(s, ws_end(s, j + 1)) is Some {
            lemma_marker_well_formed(s, ws_end(s, j + 1), 2);
        }
    }
}

/// Formatting a dependency that was parsed and parsing the text again
/// gives the same dependency.
pub proof fn lemma_reparse(s: Seq<char>)
    requires
        parsed(s) is Ok,
    ensures
        parsed(canonical_text(parsed(s)->Ok_0)) == parsed(s),
{
    lemma_parsed_well_formed(s);
    lemma_canonical_text_parses(parsed(s)->Ok_0);
}

/// What the text of a specification starts with, where it is not empty: a
/// space, and then `@` or a comparator.
proof fn lemma_spec_text_start(spec: Option<SpecView>)
    requires
        spec matches Some(found) ==> spec_well_formed(found),
    ensures
        spec is Some ==> spec_text(spec).len() >= 2 && spec_text(spec)[0] == ' ' && !is_ws(
            spec_text(spec)[1],
        ) && spec_text(spec)[1] != '[' && spec_text(spec)[1] != ';',
        spec is None ==> spec_text(spec).len() == 0,
{
    reveal_strlit(" @ ");
    match spec {
        Some(SpecView::Url(url)) => {},
        Some(SpecView::Version(clauses)) => {
            lemma_comparator_first_char(clauses[0].comparator);
            assert(spec_text(spec) =~= seq![' '] + (clause_text(clauses[0]) + clauses_text(
                clauses,
                1,
            )));
            assert(clause_text(clauses[0])[0] == comparator_text(clauses[0].comparator)[0]);
        },
        None => {},
    }
}

/// What the text of a marker clause starts with, where it is not empty.
proof fn lemma_marker_clause_text_start(marker: Option<MarkerView>)
    ensures
        marker matches Some(m) ==> marker_clause_text(marker).len() >= 4 && marker_clause_text(
            marker,
        )[0] == ' ' && marker_clause_text(marker)[1] == ';' && marker_clause_text(marker)[2]
            == ' ' && !is_ws(marker_clause_text(marker)[3]),
        marker is None ==> marker_clause_text(marker).len() == 0,
{
    reveal_strlit(" ; ");
    if let Some(m) = marker {
        lemma_marker_first_char(m, 2);
        assert(marker_clause_text(marker)[3] == marker_text(m, 2)[0]);
    }
}

/// The name that stands at the start of the input is read.
proof fn lemma_name_read(s: Seq<char>, name: Seq<char>)
    requires
        is_name(name),
        lit(s, 0, name),
        token_ends(s, name.len() as int),
    ensures
        ws_end(s, 0) == 0,
        ident_end(s, 0) == Some(name.len() as int),
{
    lemma_lit_chars(s, 0, name);
    assert(s[0int + 0] == name[0]);
    lemma_ws_none(s, 0);
    lemma_ident_stands(s, 0, name);
}

/// The extras that stand at `i` behind the name are read, where a space
/// and something that is no extras block follows them, or nothing.
proof fn lemma_extras_read(s: Seq<char>, i: int, extras: Seq<Seq<char>>)
    requires
        all_names(extras),
        lit(s, i, extras_text(extras)),
        extras.len() == 0 ==> i == s.len() || (has(s, i, ' ') && i + 1 < s.len() && !is_ws(
            s[i + 1],
        ) && s[i + 1] != '['),
    ensures
        extras_at(s, ws_end(s, i)) == (extras, ws_end(s, i + extras_text(extras).len())),
{
    if extras.len() == 0 {
        assert(extras =~= Seq::<Seq<char>>::empty());
        if i == s.len() {
            lemma_ws_none(s, i);
        } else {
            lemma_ws_one(s, i);
        }
    } else {
        assert(extras_text(extras) =~= seq!['['] + (extras[0] + names_text(extras, 1) + seq![
            ']',
        ]));
        lemma_lit_chars(s, i, extras_text(extras));
        assert(s[i + 0] == extras_text(extras)[0]);
        lemma_ws_none(s, i);
        lemma_extras_stand(s, i, extras);
    }
}

/// The specification that stands at `i` is read, where nothing but the
/// marker follows it.
proof fn lemma_spec_read(s: Seq<char>, i: int, spec: Option<SpecView>)
    requires
        spec matches Some(found) ==> spec_well_formed(found),
        lit(s, i, spec_text(spec)),
        clauses_end(s, i + spec_text(spec).len()),
    ensures
        spec_at(s, ws_end(s, i)) == (spec, ws_end(s, i + spec_text(spec).len())),
{
    match spec {
        Some(SpecView::Url(url)) => {
            lemma_reference_stands(s, i, url);
        },
        Some(SpecView::Version(clauses)) => {
            lemma_versions_stand(s, i, clauses);
        },
        None => {
            if i == s.len() {
                lemma_ws_none(s, i);
            } else {
                lemma_ws_one(s, i);
            }
        },
    }
}

/// The marker clause that stands at `i` and ends the input is read.
proof fn lemma_marker_clause_read(s: Seq<char>, i: int, marker: Option<MarkerView>)
    requires
        marker matches Some(m) ==> marker_well_formed(m),
        lit(s, i, marker_clause_text(marker)),
        i + marker_clause_text(marker).len() == s.len(),
    ensures
        marker_clause_at(s, ws_end(s, i)) == (marker, s.len() as int),
{
    reveal_strlit(" ; ");
    match marker {
        Some(m) => {
            lemma_marker_first_char(m, 2);
            let text = marker_text(m, 2);
            lemma_lit_split(s, i, " ; "@, text);
            lemma_lit_chars(s, i, " ; "@);
            assert(s[i + 0] == ' ');
            assert(s[i + 1] == ';');
            assert(s[i + 2] == ' ');
            lemma_lit_chars(s, i + 3, text);
            assert(s[i + 3 + 0] == text[0]);
            lemma_ws_one(s, i);
            lemma_ws_one(s, i + 2);
            lemma_no_join_at_end(s, s.len() as int, 2);
            lemma_marker_stands(s, i + 3, m, 2);
        },
        None => {
            lemma_ws_none(s, i);
        },
    }
}

/// Where the parts of a canonical text stand in it, and what stands behind
/// each of them.
proof fn lemma_layout(d: DependencyView)
    requires
        well_formed(d),
    ensures
        ({
            let s = canonical_text(d);
            let after_name = d.name.len() as int;
            let after_extras = after_name + extras_text(d.extras).len();
            let after_spec = after_extras + spec_text(d.spec).len();
            &&& lit(s, 0, d.name)
            &&& lit(s, after_name, extras_text(d.extras))
            &&& lit(s, after_extras, spec_text(d.spec))
            &&& lit(s, after_spec, marker_clause_text(d.marker))
            &&& after_spec + marker_clause_text(d.marker).len() == s.len()
            &&& token_ends(s, after_name)
            &&& d.extras.len() == 0 ==> after_name == s.len() || (has(s, after_name, ' ')
                && after_name + 1 < s.len() && !is_ws(s[after_name + 1]) && s[after_name + 1]
                != '[')
            &&& clauses_end(s, after_spec)
        }),
{
    let s = canonical_text(d);
    let extras = extras_text(d.extras);
    let spec = spec_text(d.spec);
    let marker = marker_clause_text(d.marker);
    let after_name = d.name.len() as int;
    let after_extras = after_name + extras.len();
    let after_spec = after_extras + spec.len();
    assert(s.subrange(0, s.len() as int) =~= s);
    lemma_lit_split(s, 0, d.name + extras + spec, marker);
    lemma_lit_split(s, 0, d.name + extras, spec);
    lemma_lit_split(s, 0, d.name, extras);
    lemma_spec_text_start(d.spec);
    lemma_marker_clause_text_start(d.marker);
    lemma_lit_chars(s, after_name, extras);
    lemma_lit_chars(s, after_extras, spec);
    lemma_lit_chars(s, after_spec, marker);
    if spec.len() > 0 {
        assert(s[after_extras + 0] == spec[0]);
        assert(s[after_extras + 1] == spec[1]);
    }
    if marker.len() > 0 {
        assert(s[after_spec + 0] == marker[0]);
        assert(s[after_spec + 1] == marker[1]);
    }
    if d.extras.len() > 0 {
        assert(extras =~= seq!['['] + (d.extras[0] + names_text(d.extras, 1) + seq![']']));
        assert(s[after_name + 0] == extras[0]);
    } else {
        assert(extras =~= Seq::<char>::empty());
    }
}

/// Parsing the canonical text of a well-formed dependency gives the
/// dependency back.
pub proof fn lemma_canonical_text_parses(d: DependencyView)
    requires
        well_formed(d),
    ensures
        parsed(canonical_text(d)) == Ok::<DependencyView, Failure>(d),
{
    let s = canonical_text(d);
    let after_name = d.name.len() as int;
    let after_extras = after_name + extras_text(d.extras).len();
    let after_spec = after_extras + spec_text(d.spec).len();
    lemma_layout(d);
    lemma_name_read(s, d.name);
    lemma_extras_read(s, after_name, d.extras);
    lemma_spec_read(s, after_extras, d.spec);
    lemma_marker_clause_read(s, after_spec, d.marker);
    lemma_ws_none(s, s.len() as int);
    assert(s.subrange(0, after_name) == d.name);
    let found = DependencyView {
        name: s.subrange(0, after_name),
        extras: d.extras,
        spec: d.spec,
        marker: d.marker,
    };
    assert(dependency_at(s) == Some((found, s.len() as int)));
}

/// The token of a comparator.
pub fn comparator_token(comparator: Comparator) -> (token: &'static str)
    ensures
        token@ == comparator_text(comparator),
{
    match comparator {
        Comparator::Lt => "<",
        Comparator::Le => "<=",
        Comparator::Ne => "!=",
        Comparator::Eq => "==",
        Comparator::Ge => ">=",
        Comparator::Gt => ">",
        Comparator::Cp => "~=",
        Comparator::Ae => "===",
    }
}

/// The words of a relation.
pub fn operator_token(op: Operator) -> (token: &'static str)
    ensures
        token@ == operator_text(op),
{
    match op {
        Operator::Comparator(comparator) => comparator_token(comparator),
        Operator::In => "in",
        Operator::NotIn => "not in",
    }
}

/// Tells whether `text` can stand between single quotes.
fn fits_single_quotes(text: &str) -> (fits: bool)
    ensures
        fits == all_chars(text@, |c: char| is_quoted_char(c, '\'')),
{
    let chars = to_chars(text);
    let mut k: usize = 0;
    while k < chars.len()
        invariant
            k <= chars@.len(),
            chars@ == text@,
            forall|j: int| 0 <= j < k ==> is_quoted_char(#[trigger] chars@[j], '\''),
        decreases chars@.len() - k,
    {
        let c: char = chars[k];
        if !(marker_char(c) || c == '"') {
            return false;
        }
        k = k + 1;
    }
    true
}

/// Writes an operand behind `out`.
fn write_variable(v: &Variable, out: &mut String)
    ensures
        final(out)@ == old(out)@ + variable_text(v@),
{
    match v {
        Variable::PythonVersion => out.append("python_version"),
        Variable::PythonFullVersion => out.append("python_full_version"),
        Variable::OsName => out.append("os_name"),
        Variable::SysPlatform => out.append("sys_platform"),
        Variable::PlatformRelease => out.append("platform_release"),
        Variable::PlatformSystem => out.append("platform_system"),
        Variable::PlatformVersion => out.append("platform_version"),
        Variable::PlatformMachine => out.append("platform_machine"),
        Variable::PlatformPythonImplementation => out.append("platform_python_implementation"),
        Variable::ImplementationName => out.append("implementation_name"),
        Variable::ImplementationVersion => out.append("implementation_version"),
        Variable::Extra => out.append("extra"),
        Variable::String(text) => {
            let quote: &str = if fits_single_quotes(text) {
                "'"
            } else {
                "\""
            };
            proof {
                reveal_strlit("'");
                reveal_strlit("\"");
                assert(quote@ =~= seq![quote_for(text@)]);
            }
            let ghost before = out@;
            out.append(quote);
            out.append(text);
            out.append(quote);
            assert(out@ =~= before + (seq![quote_for(text@)] + text@ + seq![quote_for(text@)]));
        },
    }
}

/// Writes the text of a marker at a level behind `out`.
fn write_marker(m: &Marker, level: u8, out: &mut String)
    requires
        level <= 2,
    ensures
        final(out)@ == old(out)@ + marker_text(m@, level as nat),
    decreases m, 2 - level,
{
    let ghost before = out@;
    proof {
        reveal_strlit(" ");
        reveal_strlit("(");
        reveal_strlit(")");
        assert(" "@ =~= seq![' ']);
        assert("("@ =~= seq!['(']);
        assert(")"@ =~= seq![')']);
    }
    match m {
        Marker::Operator(lhs, op, rhs) => {
            write_variable(lhs, out);
            out.append(" ");
            out.append(operator_token(*op));
            out.append(" ");
            write_variable(rhs, out);
            assert(out@ =~= before + (variable_text(lhs@) + seq![' '] + operator_text(*op)
                + seq![' '] + variable_text(rhs@)));
        },
        Marker::And(lhs, rhs) => {
            if level >= 1 {
                write_marker(lhs, 0, out);
                out.append(" and ");
                write_marker(rhs, 0, out);
                assert(out@ =~= before + (marker_text((**lhs)@, 0) + " and "@ + marker_text(
                    (**rhs)@,
                    0,
                )));
            } else {
                out.append("(");
                write_marker(m, 2, out);
                out.append(")");
                assert(out@ =~= before + (seq!['('] + marker_text(m@, 2) + seq![')']));
            }
        },
        Marker::Or(lhs, rhs) => {
            if level >= 2 {
                write_marker(lhs, 1, out);
                out.append(" or ");
                write_marker(rhs, 1, out);
                assert(out@ =~= before + (marker_text((**lhs)@, 1) + " or "@ + marker_text(
                    (**rhs)@,
                    1,
                )));
            } else {
                out.append("(");
                write_marker(m, 2, out);
                out.append(")");
                assert(out@ =~= before + (seq!['('] + marker_text(m@, 2) + seq![')']));
            }
        },
    }
}

/// Writes the extras behind `out`.
fn write_extras(extras: &Vec<&str>, out: &mut String)
    ensures
        final(out)@ == old(out)@ + extras_text(names_view(extras@)),
{
    let ghost before = out@;
    let ghost names = names_view(extras@);
    if extras.len() == 0 {
        assert(out@ =~= before + extras_text(names));
        return ;
    }
    proof {
        reveal_strlit("[");
        reveal_strlit("]");
        reveal_strlit(",");
        assert("["@ =~= seq!['[']);
        assert("]"@ =~= seq![']']);
        assert(","@ =~= seq![',']);
    }
    out.append("[");
    out.append(extras[0]);
    let ghost head = out@;
    let mut k: usize = 1;
    while k < extras.len()
        invariant
            1 <= k <= extras@.len(),
            names == names_view(extras@),
            ","@ == seq![','],
            out@ + names_text(names, k as int) == head + names_text(names, 1),
        decreases extras@.len() - k,
    {
        let ghost written = out@;
        out.append(",");
        out.append(extras[k]);
        assert(written + names_text(names, k as int) =~= out@ + names_text(names, k + 1));
        k = k + 1;
    }
    assert(out@ + names_text(names, k as int) =~= out@);
    out.append("]");
    assert(out@ =~= before + (seq!['['] + names[0] + names_text(names, 1) + seq![']']));
}

/// Writes the version clauses behind `out`.
fn write_clauses(clauses: &Vec<VersionSpec>, out: &mut String)
    ensures
        final(out)@ == old(out)@ + spec_text(Some(SpecView::Version(clauses_view(clauses@)))),
{
    let ghost before = out@;
    let ghost views = clauses_view(clauses@);
    if clauses.len() == 0 {
        assert(out@ =~= before + spec_text(Some(SpecView::Version(views))));
        return ;
    }
    proof {
        reveal_strlit(" ");
        reveal_strlit(",");
        assert(" "@ =~= seq![' ']);
        assert(","@ =~= seq![',']);
    }
    out.append(" ");
    out.append(comparator_token(clauses[0].comparator));
    out.append(clauses[0].version);
    let ghost head = out@;
    assert(head =~= before + (seq![' '] + clause_text(views[0])));
    let mut k: usize = 1;
    while k < clauses.len()
        invariant
            1 <= k <= clauses@.len(),
            views == clauses_view(clauses@),
            ","@ == seq![','],
            out@ + clauses_text(views, k as int) == head + clauses_text(views, 1),
        decreases clauses@.len() - k,
    {
        let ghost written = out@;
        out.append(",");
        out.append(comparator_token(clauses[k].comparator));
        out.append(clauses[k].version);
        assert(out@ =~= written + (seq![','] + clause_text(views[k as int])));
        assert(written + clauses_text(views, k as int) =~= out@ + clauses_text(views, k + 1));
        k = k + 1;
    }
    assert(out@ + clauses_text(views, k as int) =~= out@);
    assert(out@ =~= before + (seq![' '] + clause_text(views[0]) + clauses_text(views, 1)));
}

impl<'a> Dependency<'a> {
    /// The canonical text of the dependency. Parsing it gives the
    /// dependency back where the dependency came from the parser, or is
    /// well formed as what comes from the parser is.
    pub fn canonical(&self) -> (text: String)
        ensures
            text@ == canonical_text(self@),
            well_formed(self@) ==> parsed(text@) == Ok::<DependencyView, Failure>(self@),
    {
        let mut out = String::new();
        out.append(self.name);
        write_extras(&self.extras, &mut out);
        let ghost front = out@;
        match &self.spec {
            Some(Spec::Url(url)) => {
                out.append(" @ ");
                out.append(url);
                assert(out@ =~= front + (" @ "@ + url@));
            },
            Some(Spec::Version(clauses)) => {
                write_clauses(clauses, &mut out);
            },
            None => {
                assert(out@ =~= front + Seq::<char>::empty());
            },
        }
        let ghost middle = out@;
        match &self.marker {
            Some(marker) => {
                out.append(" ; ");
                write_marker(marker, 2, &mut out);
                assert(out@ =~= middle + (" ; "@ + marker_text(marker@, 2)));
            },
            None => {
                assert(out@ =~= middle + Seq::<char>::empty());
            },
        }
        assert(out@ =~= canonical_text(self@));
        proof {
            if well_formed(self@) {
                lemma_canonical_text_parses(self@);
            }
        }
        out
    }
}

/// Behind an operand that was read, a joining word and the white space
/// around it end behind the start of the operand and inside the input: the
/// bounds that the rules for `and` and `or` ask of the position of their
/// right operand always hold.
pub proof fn lemma_join_advances(s: Seq<char>, i: int, level: nat, word: Seq<char>)
    requires
        0 <= i <= s.len(),
        level <= 1,
        word.len() > 0,
        marker_at(s, i, level) is Some,
    ensures
        marker_at(s, i, level) matches Some((_, j)) && (joined_at(s, j, word) matches Some(next)
            ==> i < next <= s.len()),
{
    lemma_marker_well_formed(s, i, level);
    let (lhs, j) = marker_at(s, i, level)->0;
    lemma_ws_end_bounds(s, j);
    if lit(s, ws_end(s, j), word) {
        lemma_ws_end_bounds(s, ws_end(s, j) + word.len());
    }
}

} // verus!
