//! The `globset` crate, as this library uses it: compiling one pattern,
//! gathering compiled patterns into a set, and asking a set about a path.
//! Each item here is trusted: its contract is what the crate's source shows,
//! over names for what only the crate computes.

use vstd::prelude::*;

verus! {

#[verifier::external_type_specification]
#[verifier::external_body]
pub struct ExGlob(globset::Glob);

#[verifier::external_type_specification]
#[verifier::external_body]
pub struct ExGlobSet(globset::GlobSet);

#[verifier::external_type_specification]
#[verifier::external_body]
pub struct ExGlobSetBuilder(globset::GlobSetBuilder);

/// What is wrong with a pattern, or with a set of them, as `globset` says.
#[derive(Debug)]
pub enum GlobProblem {
    UnclosedClass,
    UnclosedAlternates,
    UnopenedAlternates,
    InvalidRange(char, char),
    DanglingEscape,
    /// Anything else, in the crate's own words.
    Other(String),
}

/// What is wrong, as plain values.
pub enum GlobProblemView {
    UnclosedClass,
    UnclosedAlternates,
    UnopenedAlternates,
    InvalidRange(char, char),
    DanglingEscape,
    Other(Seq<char>),
}

impl View for GlobProblem {
    type V = GlobProblemView;

    open spec fn view(&self) -> GlobProblemView {
        match self {
            GlobProblem::UnclosedClass => GlobProblemView::UnclosedClass,
            GlobProblem::UnclosedAlternates => GlobProblemView::UnclosedAlternates,
            GlobProblem::UnopenedAlternates => GlobProblemView::UnopenedAlternates,
            GlobProblem::InvalidRange(a, b) => GlobProblemView::InvalidRange(*a, *b),
            GlobProblem::DanglingEscape => GlobProblemView::DanglingEscape,
            GlobProblem::Other(s) => GlobProblemView::Other(s@),
        }
    }
}

/// A compiled pattern, as plain values: its text, whether it ignores case,
/// and whether `\` escapes the character after it.
pub type GlobSource = (Seq<char>, bool, bool);

/// Whether `globset` accepts `pattern` with these settings, `*` never
/// crossing a `/`.
pub uninterp spec fn glob_compiles(pattern: Seq<char>, ignore_case: bool, backslash_escape: bool) -> bool;

/// What `globset` finds wrong with `pattern` with these settings.
pub uninterp spec fn glob_problem(pattern: Seq<char>, ignore_case: bool, backslash_escape: bool) -> GlobProblemView;

/// Whether the pattern, compiled with these settings, matches `path`.
pub uninterp spec fn glob_matches(pattern: Seq<char>, ignore_case: bool, backslash_escape: bool, path: Seq<char>) -> bool;

/// The text and settings a compiled pattern was made from.
pub uninterp spec fn glob_source(glob: globset::Glob) -> GlobSource;

/// The compiled patterns added to a set builder, in order.
pub uninterp spec fn builder_globs(builder: globset::GlobSetBuilder) -> Seq<GlobSource>;

/// The compiled patterns a set was built from, in order.
pub uninterp spec fn set_globs(set: globset::GlobSet) -> Seq<GlobSource>;

/// Whether `globset` can build a set of these patterns.
pub uninterp spec fn set_builds(globs: Seq<GlobSource>) -> bool;

/// What `globset` finds wrong with building a set of these patterns.
pub uninterp spec fn set_problem(globs: Seq<GlobSource>) -> GlobProblemView;

/// True when some pattern of the set matches `path`.
pub open spec fn any_matches(globs: Seq<GlobSource>, path: Seq<char>) -> bool {
    exists|i: int| 0 <= i < globs.len() && glob_matches(globs[i].0, globs[i].1, globs[i].2, path)
}

/// `GlobBuilder::build`, with `*` never crossing a `/`
/// (`literal_separator`), case ignored or not (`case_insensitive`), and `\`
/// escaping or not (`backslash_escape`). Claimed: the glob is made when the
/// crate accepts the pattern, from that pattern and those settings, and what
/// is wrong otherwise is the crate's error kind, told apart variant by
/// variant.
#[verifier::external_body]
pub(crate) fn compile_glob(pattern: &str, ignore_case: bool, backslash_escape: bool) -> (r: Result<globset::Glob, GlobProblem>)
    ensures
        r is Ok <==> glob_compiles(pattern@, ignore_case, backslash_escape),
        r matches Ok(g) ==> glob_source(g) == (pattern@, ignore_case, backslash_escape),
        r matches Err(e) ==> e@ == glob_problem(pattern@, ignore_case, backslash_escape),
{
    let built = globset::GlobBuilder::new(pattern).literal_separator(true)
        .case_insensitive(ignore_case).backslash_escape(backslash_escape).build();
    built.map_err(|error| match error.kind() {
        globset::ErrorKind::UnclosedClass => GlobProblem::UnclosedClass,
        globset::ErrorKind::UnclosedAlternates => GlobProblem::UnclosedAlternates,
        globset::ErrorKind::UnopenedAlternates => GlobProblem::UnopenedAlternates,
        globset::ErrorKind::InvalidRange(from, to) => GlobProblem::InvalidRange(*from, *to),
        globset::ErrorKind::DanglingEscape => GlobProblem::DanglingEscape,
        kind => GlobProblem::Other(kind.to_string()),
    })
}

/// `GlobSetBuilder::new`: a builder with no patterns in it.
#[verifier::external_body]
pub(crate) fn new_builder() -> (r: globset::GlobSetBuilder)
    ensures
        builder_globs(r) == Seq::<GlobSource>::empty(),
{
    globset::GlobSetBuilder::new()
}

/// `GlobSetBuilder::add`: the pattern goes after those already added.
#[verifier::external_body]
pub(crate) fn add_glob(builder: &mut globset::GlobSetBuilder, glob: globset::Glob)
    ensures
        builder_globs(*final(builder)) == builder_globs(*old(builder)).push(glob_source(glob)),
{
    builder.add(glob);
}

/// `GlobSetBuilder::build`: a set of the patterns added, in order, where
/// the crate can build one, and what is wrong otherwise. With no patterns
/// added it builds the empty set at once (`GlobSet::new`).
#[verifier::external_body]
pub(crate) fn build_set(builder: &globset::GlobSetBuilder) -> (r: Result<globset::GlobSet, GlobProblem>)
    ensures
        r is Ok <==> set_builds(builder_globs(*builder)),
        builder_globs(*builder).len() == 0 ==> r is Ok,
        r matches Ok(set) ==> set_globs(set) == builder_globs(*builder),
        r matches Err(e) ==> e@ == set_problem(builder_globs(*builder)),
{
    builder.build().map_err(|error| match error.kind() {
        globset::ErrorKind::UnclosedClass => GlobProblem::UnclosedClass,
        globset::ErrorKind::UnclosedAlternates => GlobProblem::UnclosedAlternates,
        globset::ErrorKind::UnopenedAlternates => GlobProblem::UnopenedAlternates,
        globset::ErrorKind::InvalidRange(from, to) => GlobProblem::InvalidRange(*from, *to),
        globset::ErrorKind::DanglingEscape => GlobProblem::DanglingEscape,
        kind => GlobProblem::Other(kind.to_string()),
    })
}

/// `GlobSet::is_match`: true when any pattern in the set matches the path,
/// as its documentation says.
#[verifier::external_body]
pub(crate) fn set_is_match(set: &globset::GlobSet, path: &str) -> (r: bool)
    ensures
        r == (exists|i: int| 0 <= i < set_globs(*set).len() && glob_matches(set_globs(*set)[i].0, set_globs(*set)[i].1, set_globs(*set)[i].2, path@)),
{
    set.is_match(path)
}

} // verus!
