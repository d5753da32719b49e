//! Parser for Python dependency specifiers as laid down in
//! [PEP 508](https://peps.python.org/pep-0508).
//!
//! A specifier has the form `name[extras] (version-spec | @ url) ; marker`.
//! The grammar is an ordered-choice grammar: alternatives are tried in the
//! order given, repetitions take as much as they can, and nothing is undone
//! once an alternative has matched. Each rule is a spec function from the
//! input and a position to what the rule yields and where it stops; the
//! executable parser is proved to compute exactly that.
//!
//! - [`lexer`]: whitespace, identifiers, comparators;
//! - [`version`]: version clauses;
//! - [`marker`]: environment markers;
//! - [`url`]: the URI grammar of direct references;
//! - this module: extras, the dependency as a whole, and [`parse`];
//! - [`canonical`]: the canonical text of a dependency, and the proof that
//!   parsing it gives the dependency back;
//! - [`alone`]: the proof that a URI read out of an input is a URI on its
//!   own.
//!
//! Versions, URLs and the strings of markers are kept as written; nothing
//! here compares versions or evaluates markers.

pub mod alone;
pub mod canonical;
pub mod lexer;
pub mod marker;
pub mod url;
pub mod version;

use vstd::prelude::*;
use vstd::string::StrSliceExecFns;
use vstd::utf8::encode_utf8;

use crate::pep_508::canonical::{lemma_parsed_well_formed, well_formed};
use crate::pep_508::lexer::{
    at, has, ident, ident_end, lemma_ident_tail_bounds, lemma_ws_end_bounds, skip_ws, ws_end,
};
use crate::pep_508::marker::{marker_or, marker_or_at};
use crate::pep_508::url::{uri, uri_end};
use crate::pep_508::version::{version_spec, version_spec_at};
use crate::text::{names_view, to_chars};

verus! {

/// One of the eight relational operators of a version clause.
#[derive(Clone, Copy, Debug, PartialEq, Eq)]
pub enum Comparator {
    /// `<`
    Lt,
    /// `<=`
    Le,
    /// `!=`
    Ne,
    /// `==`
    Eq,
    /// `>=`
    Ge,
    /// `>`
    Gt,
    /// `~=`, compatible release
    Cp,
    /// `===`, arbitrary equality
    Ae,
}

/// The relation of a marker comparison.
#[derive(Clone, Copy, Debug, PartialEq, Eq)]
pub enum Operator {
    Comparator(Comparator),
    /// `in`
    In,
    /// `not in`
    NotIn,
}

/// An operand of a marker comparison: an environment attribute or a quoted
/// string.
#[derive(Debug, PartialEq, Eq)]
pub enum Variable<'a> {
    PythonVersion,
    PythonFullVersion,
    OsName,
    SysPlatform,
    PlatformRelease,
    PlatformSystem,
    PlatformVersion,
    PlatformMachine,
    PlatformPythonImplementation,
    ImplementationName,
    ImplementationVersion,
    Extra,
    String(&'a str),
}

/// An environment marker: the condition that follows `;`.
#[derive(Debug, PartialEq, Eq)]
pub enum Marker<'a> {
    And(Box<Marker<'a>>, Box<Marker<'a>>),
    Or(Box<Marker<'a>>, Box<Marker<'a>>),
    Operator(Variable<'a>, Operator, Variable<'a>),
}

/// One `comparator version` clause. The version is kept as written.
#[derive(Clone, Debug, PartialEq, Eq)]
pub struct VersionSpec<'a> {
    pub comparator: Comparator,
    pub version: &'a str,
}

/// What a dependency is pinned to: a direct reference or version clauses.
#[derive(Clone, Debug, PartialEq, Eq)]
pub enum Spec<'a> {
    /// `foo @ https://example.com`
    Url(&'a str),
    /// `foo >= 0.1.0, < 0.2.0`
    Version(Vec<VersionSpec<'a>>),
}

/// A parsed dependency specifier.
#[derive(Clone, Debug, PartialEq, Eq)]
pub struct Dependency<'a> {
    /// Name of the package.
    pub name: &'a str,
    /// The names inside `[]`, in the order written.
    pub extras: Vec<&'a str>,
    /// Version clauses or URL.
    pub spec: Option<Spec<'a>>,
    /// The condition after `;`.
    pub marker: Option<Marker<'a>>,
}

/// What the parser missed at the place where it gave up.
#[derive(Clone, Copy, Debug, PartialEq, Eq)]
pub enum Expected {
    /// The name of a package.
    Identifier,
    /// A URI.
    Url,
    /// Nothing more: what stands here fits no part of the grammar that may
    /// come at this place.
    EndOfInput,
}

impl Expected {
    /// What was missed, in words.
    pub fn description(self) -> (words: &'static str)
        ensures
            words@ == (match self {
                Expected::Identifier => "an identifier"@,
                Expected::Url => "a URL"@,
                Expected::EndOfInput => "the end of the input"@,
            }),
    {
        match self {
            Expected::Identifier => "an identifier",
            Expected::Url => "a URL",
            Expected::EndOfInput => "the end of the input",
        }
    }
}

/// Why an input is no dependency specifier.
#[derive(Clone, Copy, Debug, PartialEq, Eq)]
pub struct ParseError {
    /// The offset in bytes of the first character that the grammar has no
    /// place for, or the length of the input where it ends too early.
    pub position: usize,
    pub expected: Expected,
}

/// Where the grammar gives up on an input, counted in characters, and what
/// it misses there.
pub struct Failure {
    pub position: int,
    pub expected: Expected,
}

/// The value of a [`Variable`].
pub enum VariableView {
    PythonVersion,
    PythonFullVersion,
    OsName,
    SysPlatform,
    PlatformRelease,
    PlatformSystem,
    PlatformVersion,
    PlatformMachine,
    PlatformPythonImplementation,
    ImplementationName,
    ImplementationVersion,
    Extra,
    String(Seq<char>),
}

/// The value of a [`Marker`].
pub enum MarkerView {
    And(Box<MarkerView>, Box<MarkerView>),
    Or(Box<MarkerView>, Box<MarkerView>),
    Operator(VariableView, Operator, VariableView),
}

/// The value of a [`VersionSpec`].
pub struct VersionSpecView {
    pub comparator: Comparator,
    pub version: Seq<char>,
}

/// The value of a [`Spec`].
pub enum SpecView {
    Url(Seq<char>),
    Version(Seq<VersionSpecView>),
}

/// The value of a [`Dependency`].
pub struct DependencyView {
    pub name: Seq<char>,
    pub extras: Seq<Seq<char>>,
    pub spec: Option<SpecView>,
    pub marker: Option<MarkerView>,
}

impl<'a> View for Variable<'a> {
    type V = VariableView;

    open spec fn view(&self) -> VariableView {
        match self {
            Variable::PythonVersion => VariableView::PythonVersion,
            Variable::PythonFullVersion => VariableView::PythonFullVersion,
            Variable::OsName => VariableView::OsName,
            Variable::SysPlatform => VariableView::SysPlatform,
            Variable::PlatformRelease => VariableView::PlatformRelease,
            Variable::PlatformSystem => VariableView::PlatformSystem,
            Variable::PlatformVersion => VariableView::PlatformVersion,
            Variable::PlatformMachine => VariableView::PlatformMachine,
            Variable::PlatformPythonImplementation => VariableView::PlatformPythonImplementation,
            Variable::ImplementationName => VariableView::ImplementationName,
            Variable::ImplementationVersion => VariableView::ImplementationVersion,
            Variable::Extra => VariableView::Extra,
            Variable::String(text) => VariableView::String(text@),
        }
    }
}

impl<'a> View for Marker<'a> {
    type V = MarkerView;

    open spec fn view(&self) -> MarkerView
        decreases self,
    {
        match self {
            Marker::And(lhs, rhs) => MarkerView::And(Box::new((**lhs)@), Box::new((**rhs)@)),
            Marker::Or(lhs, rhs) => MarkerView::Or(Box::new((**lhs)@), Box::new((**rhs)@)),
            Marker::Operator(lhs, op, rhs) => MarkerView::Operator(lhs@, *op, rhs@),
        }
    }
}

impl<'a> Clone for Variable<'a> {
    fn clone(&self) -> (copy: Self)
        ensures
            copy@ == self@,
    {
        match self {
            Variable::PythonVersion => Variable::PythonVersion,
            Variable::PythonFullVersion => Variable::PythonFullVersion,
            Variable::OsName => Variable::OsName,
            Variable::SysPlatform => Variable::SysPlatform,
            Variable::PlatformRelease => Variable::PlatformRelease,
            Variable::PlatformSystem => Variable::PlatformSystem,
            Variable::PlatformVersion => Variable::PlatformVersion,
            Variable::PlatformMachine => Variable::PlatformMachine,
            Variable::PlatformPythonImplementation => Variable::PlatformPythonImplementation,
            Variable::ImplementationName => Variable::ImplementationName,
            Variable::ImplementationVersion => Variable::ImplementationVersion,
            Variable::Extra => Variable::Extra,
            Variable::String(text) => Variable::String(*text),
        }
    }
}

impl<'a> Clone for Marker<'a> {
    fn clone(&self) -> (copy: Self)
        ensures
            copy@ == self@,
        decreases self,
    {
        match self {
            Marker::And(lhs, rhs) => Marker::And(
                Box::new((**lhs).clone()),
                Box::new((**rhs).clone()),
            ),
            Marker::Or(lhs, rhs) => Marker::Or(
                Box::new((**lhs).clone()),
                Box::new((**rhs).clone()),
            ),
            Marker::Operator(lhs, op, rhs) => Marker::Operator(lhs.clone(), *op, rhs.clone()),
        }
    }
}

impl<'a> View for VersionSpec<'a> {
    type V = VersionSpecView;

    open spec fn view(&self) -> VersionSpecView {
        VersionSpecView { comparator: self.comparator, version: self.version@ }
    }
}

impl<'a> View for Spec<'a> {
    type V = SpecView;

    open spec fn view(&self) -> SpecView {
        match self {
            Spec::Url(url) => SpecView::Url(url@),
            Spec::Version(clauses) => SpecView::Version(clauses_view(clauses@)),
        }
    }
}

impl<'a> View for Dependency<'a> {
    type V = DependencyView;

    open spec fn view(&self) -> DependencyView {
        DependencyView {
            name: self.name@,
            extras: names_view(self.extras@),
            spec: match self.spec {
                Some(spec) => Some(spec@),
                None => None,
            },
            marker: match self.marker {
                Some(marker) => Some(marker@),
                None => None,
            },
        }
    }
}

/// The clauses of a vector, each by its value.
pub open spec fn clauses_view<'a>(clauses: Seq<VersionSpec<'a>>) -> Seq<VersionSpecView> {
    Seq::new(clauses.len(), |k: int| clauses[k]@)
}

/// The number of bytes that the first `i` characters of `s` take in UTF-8.
pub open spec fn byte_offset(s: Seq<char>, i: int) -> nat {
    encode_utf8(s.take(i)).len()
}

/// The names that follow the first one between the brackets, each behind a
/// comma and whitespace, and where they end. A comma that no name follows
/// is not taken.
pub open spec fn extras_tail(s: Seq<char>, i: int) -> (Seq<Seq<char>>, int)
    decreases s.len() - i,
{
    if has(s, i, ',') {
        let from = ws_end(s, i + 1);
        match ident_end(s, from) {
            Some(to) => {
                proof {
                    lemma_ws_end_bounds(s, i + 1);
                    lemma_ident_tail_bounds(s, from + 1);
                    lemma_ws_end_bounds(s, to);
                }
                let (rest, end) = extras_tail(s, ws_end(s, to));
                (seq![s.subrange(from, to)] + rest, end)
            },
            None => (Seq::empty(), i),
        }
    } else {
        (Seq::empty(), i)
    }
}

/// `[`, one or more names with commas between them, `]` and the whitespace
/// behind it.
pub open spec fn extras_in_brackets(s: Seq<char>, i: int) -> Option<(Seq<Seq<char>>, int)> {
    if has(s, i, '[') {
        let from = ws_end(s, i + 1);
        match ident_end(s, from) {
            Some(to) => {
                let (rest, close) = extras_tail(s, ws_end(s, to));
                if has(s, close, ']') {
                    Some((seq![s.subrange(from, to)] + rest, ws_end(s, close + 1)))
                } else {
                    None
                }
            },
            None => None,
        }
    } else {
        None
    }
}

/// The extras at `i`. Where no well-formed block stands there, there are no
/// extras and nothing is taken.
pub open spec fn extras_at(s: Seq<char>, i: int) -> (Seq<Seq<char>>, int) {
    match extras_in_brackets(s, i) {
        Some(found) => found,
        None => (Seq::empty(), i),
    }
}

/// A direct reference at `i`: `@`, whitespace and a URI.
pub open spec fn url_at(s: Seq<char>, i: int) -> Option<(Seq<char>, int)> {
    if has(s, i, '@') {
        let from = ws_end(s, i + 1);
        match uri_end(s, from) {
            Some(to) => Some((s.subrange(from, to), to)),
            None => None,
        }
    } else {
        None
    }
}

/// What the dependency is pinned to at `i`: a direct reference, or else
/// version clauses, each with the whitespace behind it, or else nothing.
pub open spec fn spec_at(s: Seq<char>, i: int) -> (Option<SpecView>, int) {
    match url_at(s, i) {
        Some((url, j)) => (Some(SpecView::Url(url)), ws_end(s, j)),
        None => match version_spec_at(s, i) {
            Some((clauses, j)) => (Some(SpecView::Version(clauses)), ws_end(s, j)),
            None => (None, i),
        },
    }
}

/// The marker at `i`: `;`, whitespace and a marker, or else nothing.
pub open spec fn marker_clause_at(s: Seq<char>, i: int) -> (Option<MarkerView>, int) {
    if has(s, i, ';') {
        match marker_or_at(s, ws_end(s, i + 1)) {
            Some((marker, j)) => (Some(marker), j),
            None => (None, i),
        }
    } else {
        (None, i)
    }
}

/// The dependency at the start of `s` and the position where it ends:
/// whitespace, a name, and then extras, a specification and a marker as far
/// as they stand there, with whitespace skipped between and behind them.
/// Only the name can be missing; each of the others is left out where what
/// stands at its place does not match it.
pub open spec fn dependency_at(s: Seq<char>) -> Option<(DependencyView, int)> {
    let start = ws_end(s, 0);
    match ident_end(s, start) {
        Some(name_end) => {
            let (extras, i) = extras_at(s, ws_end(s, name_end));
            let (spec, j) = spec_at(s, i);
            let (marker, k) = marker_clause_at(s, j);
            Some(
                (
                    DependencyView { name: s.subrange(start, name_end), extras, spec, marker },
                    ws_end(s, k),
                ),
            )
        },
        None => None,
    }
}

/// What a whole input is: the dependency at its start where that ends at
/// the end of the input, and a failure at the first character that is left
/// over otherwise.
pub open spec fn parsed(s: Seq<char>) -> Result<DependencyView, Failure> {
    match dependency_at(s) {
        Some((dependency, end)) => {
            if end == s.len() {
                Ok(dependency)
            } else {
                Err(Failure { position: end, expected: Expected::EndOfInput })
            }
        },
        None => Err(Failure { position: ws_end(s, 0), expected: Expected::Identifier }),
    }
}

/// What a whole input is as a URI: nothing to say where the URI at its
/// start ends at the end of the input, and a failure otherwise.
pub open spec fn parsed_url(s: Seq<char>) -> Result<(), Failure> {
    match uri_end(s, 0) {
        Some(end) => {
            if end == s.len() {
                Ok(())
            } else {
                Err(Failure { position: end, expected: Expected::EndOfInput })
            }
        },
        None => Err(Failure { position: 0, expected: Expected::Url }),
    }
}

/// The failure that a list of errors reports: the list holds one error,
/// with the position counted in bytes.
pub open spec fn reports(errors: Seq<ParseError>, s: Seq<char>, failure: Failure) -> bool {
    &&& errors.len() == 1
    &&& 0 <= failure.position <= s.len()
    &&& errors[0].position == byte_offset(s, failure.position)
    &&& errors[0].expected == failure.expected
}

/// Makes the one error that reports a failure at the character `position`.
fn failure(text: &str, position: usize, expected: Expected) -> (errors: Vec<ParseError>)
    requires
        position <= text@.len(),
    ensures
        reports(errors@, text@, Failure { position: position as int, expected }),
{
    let before = text.substring_char(0, position);
    assert(before@ =~= text@.take(position as int));
    let mut errors: Vec<ParseError> = Vec::new();
    errors.push(ParseError { position: before.as_bytes().len(), expected });
    errors
}

/// Reads the extras at `i`.
fn extras<'a>(text: &'a str, s: &[char], i: usize) -> (r: (Vec<&'a str>, usize))
    requires
        text@ == s@,
        i <= s@.len(),
    ensures
        extras_at(s@, i as int) == (names_view(r.0@), r.1 as int),
        i <= r.1 <= s@.len(),
{
    if !at(s, i, '[') {
        return (Vec::new(), i);
    }
    let from: usize = skip_ws(s, i + 1);
    let to: usize = match ident(s, from) {
        Some(to) => to,
        None => {
            return (Vec::new(), i);
        },
    };
    let first: &'a str = text.substring_char(from, to);
    let mut names: Vec<&'a str> = Vec::new();
    names.push(first);
    let after: usize = skip_ws(s, to);
    let mut j: usize = after;
    assert(names_view(names@) =~= seq![first@]);
    loop
        invariant
            text@ == s@,
            i < after <= j <= s@.len(),
            seq![first@] + extras_tail(s@, after as int).0 == names_view(names@) + extras_tail(
                s@,
                j as int,
            ).0,
            extras_tail(s@, after as int).1 == extras_tail(s@, j as int).1,
        ensures
            i < j <= s@.len(),
            seq![first@] + extras_tail(s@, after as int).0 == names_view(names@),
            extras_tail(s@, after as int).1 == j,
        decreases s@.len() - j,
    {
        if !at(s, j, ',') {
            assert(names_view(names@) + Seq::<Seq<char>>::empty() =~= names_view(names@));
            break;
        }
        let from: usize = skip_ws(s, j + 1);
        match ident(s, from) {
            Some(to) => {
                let ghost before = names_view(names@);
                let ghost rest = extras_tail(s@, ws_end(s@, to as int)).0;
                let name: &'a str = text.substring_char(from, to);
                names.push(name);
                assert(names_view(names@) =~= before + seq![name@]);
                assert(before + (seq![name@] + rest) =~= (before + seq![name@]) + rest);
                j = skip_ws(s, to);
            },
            None => {
                assert(names_view(names@) + Seq::<Seq<char>>::empty() =~= names_view(names@));
                break;
            },
        }
    }
    if at(s, j, ']') {
        (names, skip_ws(s, j + 1))
    } else {
        (Vec::new(), i)
    }
}

/// Reads what the dependency is pinned to at `i`.
fn specification<'a>(text: &'a str, s: &[char], i: usize) -> (r: (Option<Spec<'a>>, usize))
    requires
        text@ == s@,
        i <= s@.len(),
    ensures
        spec_at(s@, i as int) == (
            match r.0 {
                Some(spec) => Some(spec@),
                None => None,
            },
            r.1 as int,
        ),
        i <= r.1 <= s@.len(),
{
    if at(s, i, '@') {
        let from: usize = skip_ws(s, i + 1);
        if let Some(to) = uri(s, from) {
            return (Some(Spec::Url(text.substring_char(from, to))), skip_ws(s, to));
        }
    }
    match version_spec(text, s, i) {
        Some((clauses, j)) => (Some(Spec::Version(clauses)), skip_ws(s, j)),
        None => (None, i),
    }
}

/// Reads the marker at `i`.
fn marker_clause<'a>(text: &'a str, s: &[char], i: usize) -> (r: (Option<Marker<'a>>, usize))
    requires
        text@ == s@,
        i <= s@.len(),
    ensures
        marker_clause_at(s@, i as int) == (
            match r.0 {
                Some(marker) => Some(marker@),
                None => None,
            },
            r.1 as int,
        ),
        i <= r.1 <= s@.len(),
{
    if at(s, i, ';') {
        if let Some((marker, j)) = marker_or(text, s, skip_ws(s, i + 1)) {
            return (Some(marker), j);
        }
    }
    (None, i)
}

/// Parses a dependency specifier.
///
/// The whole input has to be one specifier: whatever is left over behind it,
/// but for whitespace, makes the input fail. What is handed back is well
/// formed: among other things it has at least one version clause where it
/// has any.
pub fn parse<'a>(dependency: &'a str) -> (r: Result<Dependency<'a>, Vec<ParseError>>)
    ensures
        match r {
            Ok(found) => parsed(dependency@) == Ok::<DependencyView, Failure>(found@)
                && well_formed(found@),
            Err(errors) => parsed(dependency@) is Err && reports(
                errors@,
                dependency@,
                parsed(dependency@)->Err_0,
            ),
        },
{
    let chars = to_chars(dependency);
    let s = chars.as_slice();
    let start: usize = skip_ws(s, 0);
    let name_end: usize = match ident(s, start) {
        Some(end) => end,
        None => {
            return Err(failure(dependency, start, Expected::Identifier));
        },
    };
    let name: &'a str = dependency.substring_char(start, name_end);
    let (extras, i) = extras(dependency, s, skip_ws(s, name_end));
    let (spec, j) = specification(dependency, s, i);
    let (marker, k) = marker_clause(dependency, s, j);
    let end: usize = skip_ws(s, k);
    if end == s.len() {
        proof {
            lemma_parsed_well_formed(dependency@);
        }
        Ok(Dependency { name, extras, spec, marker })
    } else {
        Err(failure(dependency, end, Expected::EndOfInput))
    }
}

/// An input is a dependency only where the dependency at its start takes
/// all of it: whatever is left over behind it, a single character even,
/// makes the input fail, at the place of what is left over.
pub proof fn lemma_nothing_left_over(s: Seq<char>)
    ensures
        parsed(s) is Ok <==> (dependency_at(s) matches Some((_, end)) && end == s.len()),
        dependency_at(s) matches Some((_, end)) ==> end != s.len() ==> parsed(s) == Err::<
            DependencyView,
            Failure,
        >(Failure { position: end, expected: Expected::EndOfInput }),
{
}

/// A text is a URI only where the URI at its start takes all of it; the
/// URI that is read is then the text itself.
pub proof fn lemma_url_is_whole(s: Seq<char>)
    ensures
        parsed_url(s) is Ok <==> uri_end(s, 0) == Some(s.len() as int),
        parsed_url(s) is Ok ==> s.subrange(0, uri_end(s, 0)->0) == s,
{
    if parsed_url(s) is Ok {
        assert(s.subrange(0, s.len() as int) =~= s);
    }
}

} // verus!
