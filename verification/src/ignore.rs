//! Which changes are not worth a refresh: files the browser never sees, the
//! scratch files editors leave behind, and whatever `--ignore` names.

use crate::browser::{pieces, views};
use crate::globs::{
    GlobProblem, GlobProblemView, GlobSource, add_glob, any_matches, build_set, builder_globs,
    compile_glob, glob_compiles, glob_problem, new_builder, set_builds, set_globs, set_is_match,
    set_problem,
};
use crate::guard::{hidden, is_hidden_chars};
use crate::paths::{Part, PartView, leads_with, parts_view, strip_prefix};
use crate::patterns::{glob_texts, pattern_check};
use crate::platform::Platform;
use crate::text::{
    begins_with, chars_of, contains, decimal, decimal_chars, ends_with, finishes_with, holds,
    owned, push_all, push_str, same_chars, starts_with, string_of, trim, trimmed,
};
use vstd::prelude::*;

verus! {

/// A file in the served directory with one pattern on each line, for what
/// would otherwise be typed on every run.
pub const IGNORE_FILE: &'static str = ".servioignore";

/// One line of the ignore file worth reading: its number, for naming it when
/// it is wrong, and what it says.
#[derive(Debug)]
pub struct Line {
    pub number: usize,
    pub pattern: String,
}

/// One line of the ignore file, as plain values.
pub struct LineView {
    pub number: nat,
    pub pattern: Seq<char>,
}

impl View for Line {
    type V = LineView;

    open spec fn view(&self) -> LineView {
        LineView { number: self.number as nat, pattern: self.pattern@ }
    }
}

/// The lines of some ignore file, as plain values.
pub open spec fn lines_view(lines: Seq<Line>) -> Seq<LineView> {
    lines.map_values(|l: Line| l@)
}

/// The text of a file without the invisible mark some editors put at its
/// start.
pub open spec fn unmarked(contents: Seq<char>) -> Seq<char> {
    if contents.len() > 0 && contents[0] == '\u{feff}' { contents.drop_first() } else { contents }
}

/// The lines of `text` numbered from one, trimmed, with blank lines and
/// lines starting with `#` left out.
pub open spec fn worth_reading(lines: Seq<Seq<char>>) -> Seq<LineView>
    decreases lines.len(),
{
    if lines.len() == 0 {
        Seq::empty()
    } else {
        let kept = worth_reading(lines.drop_last());
        let pattern = trimmed(lines.last());
        if pattern.len() > 0 && pattern[0] != '#' {
            kept.push(LineView { number: lines.len(), pattern })
        } else {
            kept
        }
    }
}

/// The patterns of an ignore file holding `contents`.
pub open spec fn patterns_in(contents: Seq<char>) -> Seq<LineView> {
    worth_reading(pieces(unmarked(contents), '\n'))
}

/// The patterns in an ignore file. Blank lines and lines starting with `#`
/// say nothing.
pub fn lines_of(contents: &str) -> (r: Vec<Line>)
    requires
        contents@.len() < usize::MAX,
    ensures
        lines_view(r@) == patterns_in(contents@),
{
    let all = chars_of(contents);
    // Some editors on Windows put an invisible mark at the start of a file.
    let start: usize = if all.len() > 0 && all[0] == '\u{feff}' { 1 } else { 0 };
    let ghost text = unmarked(contents@);
    assert(text =~= all@.skip(start as int));
    let mut kept: Vec<Line> = Vec::new();
    let mut current: Vec<char> = Vec::new();
    let ghost mut finished: Seq<Seq<char>> = Seq::empty();
    let mut count: usize = 0;
    let mut i = start;
    assert(text.take(0) =~= Seq::<char>::empty());
    assert(lines_view(kept@) =~= Seq::<LineView>::empty());
    while i < all.len()
        invariant
            start <= i <= all.len(),
            all@.len() < usize::MAX,
            text == all@.skip(start as int),
            pieces(text.take(i - start), '\n') == finished.push(current@),
            lines_view(kept@) == worth_reading(finished),
            count == finished.len(),
            count <= i,
        decreases all.len() - i,
    {
        let c = all[i];
        let ghost done = text.take(i - start);
        assert(text.take(i + 1 - start).drop_last() =~= done);
        assert(text.take(i + 1 - start).last() == c);
        if c == '\n' {
            let pattern = trim(&current);
            let ghost before = kept@;
            let ghost line_number = (finished.len() + 1) as nat;
            if pattern.len() > 0 && pattern[0] != '#' {
                let p = string_of(&pattern);
                kept.push(Line { number: count + 1, pattern: p });
                assert(lines_view(kept@) =~= lines_view(before).push(LineView { number: line_number, pattern: pattern@ }));
            }
            let ghost old_finished = finished;
            proof {
                finished = finished.push(current@);
            }
            assert(finished.drop_last() =~= old_finished);
            assert(finished.last() == current@);
            assert(lines_view(kept@) == worth_reading(finished));
            count = count + 1;
            current = Vec::new();
            assert(pieces(text.take(i + 1 - start), '\n') =~= finished.push(current@));
        } else {
            current.push(c);
            assert(pieces(text.take(i + 1 - start), '\n') =~= finished.push(current@));
        }
        i = i + 1;
    }
    assert(text.take(all.len() - start) =~= text);
    let pattern = trim(&current);
    let ghost before = kept@;
    if pattern.len() > 0 && pattern[0] != '#' {
        let p = string_of(&pattern);
        kept.push(Line { number: count + 1, pattern: p });
        assert(lines_view(kept@) =~= lines_view(before).push(LineView { number: (finished.len() + 1) as nat, pattern: pattern@ }));
    }
    assert(finished.push(current@).drop_last() =~= finished);
    kept
}

/// What is wrong with a pattern, in plain words.
pub open spec fn wrong_words(problem: GlobProblemView) -> Seq<char> {
    match problem {
        GlobProblemView::UnclosedClass => "a [ has no ] to close it"@,
        GlobProblemView::UnclosedAlternates => "a { has no } to close it"@,
        GlobProblemView::UnopenedAlternates => "a } has no { to open it"@,
        GlobProblemView::InvalidRange(from, to) => "the range "@ + seq![from] + "-"@ + seq![to] + " runs backwards"@,
        GlobProblemView::DanglingEscape => "it ends with a \\ that escapes nothing"@,
        GlobProblemView::Other(words) => words,
    }
}

/// What is wrong with a pattern, in plain words.
pub fn wrong_with(problem: &GlobProblem) -> (r: String)
    ensures
        r@ == wrong_words(problem@),
{
    match problem {
        GlobProblem::UnclosedClass => owned("a [ has no ] to close it"),
        GlobProblem::UnclosedAlternates => owned("a { has no } to close it"),
        GlobProblem::UnopenedAlternates => owned("a } has no { to open it"),
        GlobProblem::InvalidRange(from, to) => {
            let mut v = chars_of("the range ");
            v.push(*from);
            push_str(&mut v, "-");
            v.push(*to);
            push_str(&mut v, " runs backwards");
            let ghost expected = "the range "@ + seq![*from] + "-"@ + seq![*to] + " runs backwards"@;
            assert(v@ =~= expected);
            string_of(&v)
        },
        GlobProblem::DanglingEscape => owned("it ends with a \\ that escapes nothing"),
        GlobProblem::Other(words) => words.clone(),
    }
}

/// The compiled patterns for these glob texts, in order, or what is wrong
/// with the first that `globset` refuses.
pub open spec fn compiled(texts: Seq<Seq<char>>, ignore_case: bool, escapes: bool) -> Result<Seq<GlobSource>, Seq<char>>
    decreases texts.len(),
{
    if texts.len() == 0 {
        Ok(Seq::empty())
    } else {
        match compiled(texts.drop_last(), ignore_case, escapes) {
            Err(wrong) => Err(wrong),
            Ok(globs) => if glob_compiles(texts.last(), ignore_case, escapes) {
                Ok(globs.push((texts.last(), ignore_case, escapes)))
            } else {
                Err(wrong_words(glob_problem(texts.last(), ignore_case, escapes)))
            },
        }
    }
}

/// One pattern as compiled globs, or what is wrong with it. `\` escapes the
/// character after it where it does not part directories.
pub open spec fn outcome_for(pattern: Seq<char>, platform: Platform, ignore_case: bool) -> Result<Seq<GlobSource>, Seq<char>> {
    match pattern_check(pattern, platform) {
        Err(wrong) => Err(wrong),
        Ok(texts) => compiled(texts, ignore_case, !platform.backslash_parts_paths),
    }
}

/// One pattern as compiled globs, or what is wrong with it. `dir/**`
/// becomes two: the directory and everything in it, so the directory itself
/// being made or removed is not a change either.
pub fn globs_for(pattern: &str, platform: &Platform, ignore_case: bool) -> (r: Result<Vec<globset::Glob>, String>)
    ensures
        match (r, outcome_for(pattern@, *platform, ignore_case)) {
            (Ok(globs), Ok(expected)) => globs@.map_values(|g: globset::Glob| crate::globs::glob_source(g)) == expected,
            (Err(wrong), Err(expected)) => wrong@ == expected,
            _ => false,
        },
{
    let texts = match glob_texts(pattern, platform) {
        Err(wrong) => return Err(wrong),
        Ok(texts) => texts,
    };
    let escapes = !platform.backslash_parts_paths;
    let ghost all = texts@.map_values(|t: String| t@);
    let mut globs: Vec<globset::Glob> = Vec::new();
    assert(all.take(0) =~= Seq::<Seq<char>>::empty());
    assert(globs@.map_values(|g: globset::Glob| crate::globs::glob_source(g)) =~= Seq::<GlobSource>::empty());
    for i in 0..texts.len()
        invariant
            all == texts@.map_values(|t: String| t@),
            pattern_check(pattern@, *platform) == Ok::<Seq<Seq<char>>, Seq<char>>(all),
            escapes == !platform.backslash_parts_paths,
            compiled(all.take(i as int), ignore_case, escapes)
                == Ok::<Seq<GlobSource>, Seq<char>>(globs@.map_values(|g: globset::Glob| crate::globs::glob_source(g))),
    {
        assert(all.take(i + 1).drop_last() =~= all.take(i as int));
        assert(all.take(i + 1).last() == texts@[i as int]@);
        match compile_glob(texts[i].as_str(), ignore_case, escapes) {
            Err(problem) => {
                let wrong = wrong_with(&problem);
                proof { lemma_compiled_fails_on(all, i as int, ignore_case, escapes); }
                return Err(wrong);
            },
            Ok(glob) => {
                let ghost before = globs@;
                globs.push(glob);
                assert(globs@.map_values(|g: globset::Glob| crate::globs::glob_source(g))
                    =~= before.map_values(|g: globset::Glob| crate::globs::glob_source(g)).push(crate::globs::glob_source(glob)));
            },
        }
    }
    assert(all.take(texts.len() as int) =~= all);
    Ok(globs)
}

/// A failure to compile stops the compiling of all the texts after it.
proof fn lemma_compiled_fails_on(texts: Seq<Seq<char>>, i: int, ignore_case: bool, escapes: bool)
    requires
        0 <= i < texts.len(),
        compiled(texts.take(i), ignore_case, escapes) is Ok,
        !glob_compiles(texts[i], ignore_case, escapes),
    ensures
        compiled(texts, ignore_case, escapes) == Err::<Seq<GlobSource>, Seq<char>>(
            wrong_words(glob_problem(texts[i], ignore_case, escapes)),
        ),
    decreases texts.len() - i,
{
    assert(texts.take(i + 1).drop_last() =~= texts.take(i));
    lemma_compiled_err_stays(texts, i + 1, ignore_case, escapes);
}

/// Once compiling the first texts failed, compiling more fails the same way.
proof fn lemma_compiled_err_stays(texts: Seq<Seq<char>>, k: int, ignore_case: bool, escapes: bool)
    requires
        0 <= k <= texts.len(),
        compiled(texts.take(k), ignore_case, escapes) is Err,
    ensures
        compiled(texts, ignore_case, escapes) == compiled(texts.take(k), ignore_case, escapes),
    decreases texts.len() - k,
{
    if k < texts.len() {
        assert(texts.take(k + 1).drop_last() =~= texts.take(k));
        lemma_compiled_err_stays(texts, k + 1, ignore_case, escapes);
    } else {
        assert(texts.take(k) =~= texts);
    }
}

/// What is said of a pattern given on the command line that is wrong.
pub open spec fn given_wrong(pattern: Seq<char>, wrong: Seq<char>) -> Seq<char> {
    "cannot ignore \""@ + pattern + "\": "@ + wrong
}

/// What is said of a line of the ignore file that is wrong.
pub open spec fn line_wrong(line: LineView, wrong: Seq<char>) -> Seq<char> {
    "cannot ignore \""@ + line.pattern + "\", line "@ + decimal(line.number) + " of .servioignore: "@ + wrong
}

/// The compiled globs of the patterns given, in order, or what is said of
/// the first one that is wrong.
pub open spec fn gather_given(given: Seq<Seq<char>>, platform: Platform, ignore_case: bool) -> Result<Seq<GlobSource>, Seq<char>>
    decreases given.len(),
{
    if given.len() == 0 {
        Ok(Seq::empty())
    } else {
        match gather_given(given.drop_last(), platform, ignore_case) {
            Err(said) => Err(said),
            Ok(globs) => match outcome_for(given.last(), platform, ignore_case) {
                Err(wrong) => Err(given_wrong(given.last(), wrong)),
                Ok(more) => Ok(globs + more),
            },
        }
    }
}

/// The compiled globs of the lines of the ignore file, in order, or what is
/// said of the first one that is wrong.
pub open spec fn gather_lines(lines: Seq<LineView>, platform: Platform, ignore_case: bool) -> Result<Seq<GlobSource>, Seq<char>>
    decreases lines.len(),
{
    if lines.len() == 0 {
        Ok(Seq::empty())
    } else {
        match gather_lines(lines.drop_last(), platform, ignore_case) {
            Err(said) => Err(said),
            Ok(globs) => match outcome_for(lines.last().pattern, platform, ignore_case) {
                Err(wrong) => Err(line_wrong(lines.last(), wrong)),
                Ok(more) => Ok(globs + more),
            },
        }
    }
}

/// The globs chosen by the patterns given and the ignore file's lines, in
/// that order, or what is said of the first pattern that is wrong, or of a
/// set `globset` cannot build. No globs at all always make a set.
pub open spec fn chosen_by(
    given: Seq<Seq<char>>,
    lines: Seq<LineView>,
    platform: Platform,
    ignore_case: bool,
) -> Result<Seq<GlobSource>, Seq<char>> {
    match gather_given(given, platform, ignore_case) {
        Err(said) => Err(said),
        Ok(first) => match gather_lines(lines, platform, ignore_case) {
            Err(said) => Err(said),
            Ok(second) => if (first + second).len() == 0 || set_builds(first + second) {
                Ok(first + second)
            } else {
                Err("cannot ignore what was asked: "@ + wrong_words(set_problem(first + second)))
            },
        },
    }
}

/// Directories whose contents should never refresh the browser. Hidden
/// ones, `.git` and `.svelte-kit` among them, are covered by [`hidden`].
pub open spec fn build_dir(name: Seq<char>) -> bool {
    name == "target"@ || name == "node_modules"@
}

/// True for a part of a path the browser never sees: a hidden name, or one
/// of the build directories.
pub open spec fn unservable(part: PartView) -> bool {
    match part {
        PartView::Name(n) => hidden(n) || build_dir(n),
        _ => false,
    }
}

/// Scratch files editors leave behind: vim swap files, backup copies, the
/// file vim writes to test whether a directory accepts writes, emacs
/// autosave copies, and the temporary copies JetBrains saves through.
pub open spec fn scratch(name: Seq<char>) -> bool {
    ||| finishes_with(name, "~"@)
    ||| finishes_with(name, ".tmp"@)
    ||| finishes_with(name, ".swp"@)
    ||| finishes_with(name, ".swx"@)
    ||| finishes_with(name, ".swo"@)
    ||| name == "4913"@
    ||| (begins_with(name, "#"@) && finishes_with(name, "#"@))
    ||| holds(name, "___jb_"@)
}

/// The text of one part of a path.
pub open spec fn part_text(part: PartView) -> Seq<char> {
    match part {
        PartView::Prefix(p) => p,
        PartView::Root => seq!['/'],
        PartView::Here => seq!['.'],
        PartView::Up => seq!['.', '.'],
        PartView::Name(n) => n,
    }
}

/// A path written out with `sep` between its parts.
pub open spec fn written_with(parts: Seq<PartView>, sep: char) -> Seq<char>
    decreases parts.len(),
{
    if parts.len() == 0 {
        Seq::empty()
    } else if parts.len() == 1 {
        part_text(parts[0])
    } else {
        let before = written_with(parts.drop_last(), sep);
        match parts[parts.len() - 2] {
            PartView::Prefix(_) => before + part_text(parts.last()),
            PartView::Root => before + part_text(parts.last()),
            _ => before + seq![sep] + part_text(parts.last()),
        }
    }
}

/// A path written out with `/` between its parts, as a glob reads it.
pub open spec fn path_text(parts: Seq<PartView>) -> Seq<char> {
    written_with(parts, '/')
}

/// A path written out with `sep` between its parts.
pub fn write_path(parts: &Vec<Part>, sep: char) -> (r: String)
    ensures
        r@ == written_with(parts_view(parts@), sep),
{
    let ghost all = parts_view(parts@);
    let mut text: Vec<char> = Vec::new();
    for k in 0..parts.len()
        invariant
            all == parts_view(parts@),
            text@ == written_with(all.take(k as int), sep),
    {
        assert(all.take(k + 1).drop_last() =~= all.take(k as int));
        assert(all.take(k + 1).last() == parts@[k as int]@);
        let piece = part_chars(&parts[k]);
        if k == 0 {
            text = piece;
        } else {
            assert(all.take(k + 1)[k - 1] == parts@[k - 1]@);
            match &parts[k - 1] {
                Part::Prefix(_) | Part::Root => {},
                _ => {
                    text.push(sep);
                },
            }
            push_all(&mut text, &piece);
        }
        assert(text@ =~= written_with(all.take(k + 1), sep));
    }
    assert(all.take(parts.len() as int) =~= all);
    string_of(&text)
}

/// True when a chosen glob matches the path or a directory above it, below
/// the served directory.
pub open spec fn chosen_above(globs: Seq<GlobSource>, relative: Seq<PartView>) -> bool {
    exists|k: int| 1 <= k <= relative.len() && #[trigger] any_matches(globs, path_text(relative.take(k)))
}

/// True for a change to `path` the browser should not be refreshed for,
/// judged on the part of it below `root`: nothing outside the served
/// directory, nothing that climbs with `..`; anything hidden or under a
/// build directory; anything a chosen glob matches, itself or a directory
/// above it; and the scratch files editors leave behind.
pub open spec fn ignored_by(globs: Seq<GlobSource>, root: Seq<PartView>, path: Seq<PartView>) -> bool {
    if !leads_with(path, root) {
        false
    } else {
        let relative = path.skip(root.len() as int);
        if relative.contains(PartView::Up) {
            false
        } else if exists|i: int| 0 <= i < relative.len() && unservable(#[trigger] relative[i]) {
            true
        } else if chosen_above(globs, relative) {
            true
        } else if relative.len() > 0 && relative.last() is Name {
            scratch(relative.last()->Name_0)
        } else {
            false
        }
    }
}

/// Whether a name is one of the build directories.
fn is_build_dir(name: &Vec<char>) -> (r: bool)
    ensures
        r == build_dir(name@),
{
    let target = chars_of("target");
    let modules = chars_of("node_modules");
    same_chars(name, &target) || same_chars(name, &modules)
}

/// Whether a name is a scratch file an editor left behind.
fn is_scratch(name: &Vec<char>) -> (r: bool)
    ensures
        r == scratch(name@),
{
    let tilde = chars_of("~");
    let tmp = chars_of(".tmp");
    let swp = chars_of(".swp");
    let swx = chars_of(".swx");
    let swo = chars_of(".swo");
    let vim_test = chars_of("4913");
    let hash = chars_of("#");
    let jetbrains = chars_of("___jb_");
    ends_with(name, &tilde) || ends_with(name, &tmp) || ends_with(name, &swp)
        || ends_with(name, &swx) || ends_with(name, &swo)
        || same_chars(name, &vim_test)
        || (starts_with(name, &hash) && ends_with(name, &hash)) // emacs autosave copy
        || contains(name, &jetbrains) // JetBrains, saving through a temporary copy
}

/// The text of one part.
fn part_chars(part: &Part) -> (r: Vec<char>)
    ensures
        r@ == part_text(part@),
{
    match part {
        Part::Prefix(p) => chars_of(p.as_str()),
        Part::Root => vec!['/'],
        Part::Here => vec!['.'],
        Part::Up => vec!['.', '.'],
        Part::Name(n) => chars_of(n.as_str()),
    }
}

/// The built-in rules, the patterns given with `--ignore`, and those read
/// from the ignore file.
pub struct Ignored {
    chosen: globset::GlobSet,
}

/// Once gathering the first of some patterns failed, gathering all of them
/// fails the same way.
proof fn lemma_given_err_stays(given: Seq<Seq<char>>, k: int, platform: Platform, ignore_case: bool)
    requires
        0 <= k <= given.len(),
        gather_given(given.take(k), platform, ignore_case) is Err,
    ensures
        gather_given(given, platform, ignore_case) == gather_given(given.take(k), platform, ignore_case),
    decreases given.len() - k,
{
    if k < given.len() {
        assert(given.take(k + 1).drop_last() =~= given.take(k));
        lemma_given_err_stays(given, k + 1, platform, ignore_case);
    } else {
        assert(given.take(k) =~= given);
    }
}

proof fn lemma_lines_err_stays(lines: Seq<LineView>, k: int, platform: Platform, ignore_case: bool)
    requires
        0 <= k <= lines.len(),
        gather_lines(lines.take(k), platform, ignore_case) is Err,
    ensures
        gather_lines(lines, platform, ignore_case) == gather_lines(lines.take(k), platform, ignore_case),
    decreases lines.len() - k,
{
    if k < lines.len() {
        assert(lines.take(k + 1).drop_last() =~= lines.take(k));
        lemma_lines_err_stays(lines, k + 1, platform, ignore_case);
    } else {
        assert(lines.take(k) =~= lines);
    }
}

/// Adds each glob to the builder, in order.
fn add_all(builder: &mut globset::GlobSetBuilder, globs: Vec<globset::Glob>)
    ensures
        builder_globs(*final(builder))
            == builder_globs(*old(builder)) + globs@.map_values(|g: globset::Glob| crate::globs::glob_source(g)),
{
    let ghost start = builder_globs(*builder);
    let ghost all = globs@;
    let ghost sources = globs@.map_values(|g: globset::Glob| crate::globs::glob_source(g));
    let mut rest = globs;
    let mut count: usize = 0;
    assert(sources.take(0) =~= Seq::<GlobSource>::empty());
    assert(all.skip(0) =~= all);
    let n = rest.len();
    assert(all.len() == n);
    while rest.len() > 0
        invariant
            count <= all.len(),
            all.len() <= usize::MAX,
            rest@ == all.skip(count as int),
            sources == all.map_values(|g: globset::Glob| crate::globs::glob_source(g)),
            builder_globs(*builder) == start + sources.take(count as int),
        decreases rest.len(),
    {
        let g = rest.remove(0);
        assert(g == all[count as int]);
        add_glob(builder, g);
        assert(sources.take(count + 1) =~= sources.take(count as int).push(sources[count as int]));
        assert(rest@ =~= all.skip(count + 1));
        count = count + 1;
    }
    assert(count == all.len());
    assert(sources.take(count as int) =~= sources);
}

impl Ignored {
    /// The compiled globs the patterns chose.
    pub closed spec fn globs(&self) -> Seq<GlobSource> {
        set_globs(self.chosen)
    }

    /// True for a change the browser should not be refreshed for.
    ///
    /// Only the part below `root` is judged, since the served directory may
    /// itself sit inside `target/` or `node_modules/`.
    pub fn contains(&self, root: &Vec<Part>, path: &Vec<Part>) -> (r: bool)
        ensures
            r == ignored_by(self.globs(), parts_view(root@), parts_view(path@)),
    {
        // A path from outside the served directory is not ours to judge, and
        // ignoring it would drop real changes.
        let relative = match strip_prefix(path, root) {
            None => return false,
            Some(rest) => rest,
        };
        let ghost rel = parts_view(relative@);
        assert(rel == parts_view(path@).skip(root@.len() as int));
        // Nor is one that climbs: `cache/../app.css` is app.css, and calling
        // it part of cache would drop a change.
        for i in 0..relative.len()
            invariant
                rel == parts_view(relative@),
                leads_with(parts_view(path@), parts_view(root@)),
                rel == parts_view(path@).skip(root@.len() as int),
                forall|j: int| 0 <= j < i ==> rel[j] != PartView::Up,
        {
            assert(rel[i as int] == relative@[i as int]@);
            match &relative[i] {
                Part::Up => {
                    assert(rel.contains(PartView::Up));
                    return false;
                },
                _ => {},
            }
        }
        assert(!rel.contains(PartView::Up));
        for i in 0..relative.len()
            invariant
                rel == parts_view(relative@),
                leads_with(parts_view(path@), parts_view(root@)),
                rel == parts_view(path@).skip(root@.len() as int),
                !rel.contains(PartView::Up),
                forall|j: int| 0 <= j < i ==> !unservable(#[trigger] rel[j]),
        {
            assert(rel[i as int] == relative@[i as int]@);
            match &relative[i] {
                Part::Name(n) => {
                    let name = chars_of(n.as_str());
                    if is_hidden_chars(&name) || is_build_dir(&name) {
                        assert(unservable(rel[i as int]));
                        return true;
                    }
                },
                _ => {},
            }
        }
        // The path and each directory above it: ignoring a directory ignores
        // everything in it.
        let mut text: Vec<char> = Vec::new();
        for k in 0..relative.len()
            invariant
                rel == parts_view(relative@),
                leads_with(parts_view(path@), parts_view(root@)),
                rel == parts_view(path@).skip(root@.len() as int),
                !rel.contains(PartView::Up),
                forall|j: int| 0 <= j < rel.len() ==> !unservable(#[trigger] rel[j]),
                k > 0 ==> text@ == path_text(rel.take(k as int)),
                forall|j: int| 1 <= j <= k ==> !#[trigger] any_matches(set_globs(self.chosen), path_text(rel.take(j))),
        {
            assert(rel.take(k + 1).drop_last() =~= rel.take(k as int));
            assert(rel.take(k + 1).last() == relative@[k as int]@);
            let piece = part_chars(&relative[k]);
            if k == 0 {
                text = piece;
                assert(path_text(rel.take(1)) == part_text(rel.take(1)[0]));
            } else {
                assert(rel.take(k + 1)[k - 1] == relative@[k - 1]@);
                match &relative[k - 1] {
                    Part::Prefix(_) | Part::Root => {},
                    _ => {
                        text.push('/');
                    },
                }
                push_all(&mut text, &piece);
            }
            assert(text@ =~= path_text(rel.take(k + 1)));
            let candidate = string_of(&text);
            if set_is_match(&self.chosen, candidate.as_str()) {
                assert(any_matches(set_globs(self.chosen), path_text(rel.take(k + 1))));
                return true;
            }
        }
        assert(!chosen_above(set_globs(self.chosen), rel));
        if relative.len() == 0 {
            return false;
        }
        let last = relative.len() - 1;
        assert(rel.last() == relative@[last as int]@);
        match &relative[last] {
            Part::Name(n) => {
                let name = chars_of(n.as_str());
                is_scratch(&name)
            },
            _ => false,
        }
    }

    /// Reads the patterns. A pattern is matched against the path below the
    /// served directory, written with `/`, and against every directory above
    /// that path, so `cache` covers all of `cache/`. One without a `/` in it
    /// matches a name at any depth, the way `.gitignore` reads it; a leading
    /// `/` pins it to the top. Names are compared without regard to case
    /// where `ignore_case`, as the disk compares them.
    pub fn from(given: &[String], file: &[Line], platform: &Platform, ignore_case: bool) -> (r: Result<Ignored, String>)
        ensures
            match (r, chosen_by(views(given@), lines_view(file@), *platform, ignore_case)) {
                (Ok(ignored), Ok(globs)) => ignored.globs() == globs,
                (Err(said), Err(expected)) => said@ == expected,
                _ => false,
            },
            given@.len() == 0 && file@.len() == 0 ==> r is Ok,
    {
        let ghost patterns = views(given@);
        let ghost lines = lines_view(file@);
        let mut chosen = new_builder();
        assert(patterns.take(0) =~= Seq::<Seq<char>>::empty());
        for i in 0..given.len()
            invariant
                patterns == views(given@),
                gather_given(patterns.take(i as int), *platform, ignore_case)
                    == Ok::<Seq<GlobSource>, Seq<char>>(builder_globs(chosen)),
        {
            assert(patterns.take(i + 1).drop_last() =~= patterns.take(i as int));
            assert(patterns.take(i + 1).last() == given@[i as int]@);
            match globs_for(given[i].as_str(), platform, ignore_case) {
                Err(wrong) => {
                    let mut v = chars_of("cannot ignore \"");
                    push_str(&mut v, given[i].as_str());
                    push_str(&mut v, "\": ");
                    push_str(&mut v, wrong.as_str());
                    assert(v@ =~= given_wrong(given@[i as int]@, wrong@));
                    proof { lemma_given_err_stays(patterns, i + 1, *platform, ignore_case); }
                    return Err(string_of(&v));
                },
                Ok(globs) => {
                    add_all(&mut chosen, globs);
                },
            }
        }
        assert(patterns.take(given.len() as int) =~= patterns);
        let ghost first = builder_globs(chosen);
        assert(lines.take(0) =~= Seq::<LineView>::empty());
        for i in 0..file.len()
            invariant
                lines == lines_view(file@),
                patterns == views(given@),
                gather_given(patterns, *platform, ignore_case) == Ok::<Seq<GlobSource>, Seq<char>>(first),
                gather_lines(lines.take(i as int), *platform, ignore_case) is Ok,
                builder_globs(chosen) == first + gather_lines(lines.take(i as int), *platform, ignore_case)->Ok_0,
        {
            assert(lines.take(i + 1).drop_last() =~= lines.take(i as int));
            assert(lines.take(i + 1).last() == file@[i as int]@);
            match globs_for(file[i].pattern.as_str(), platform, ignore_case) {
                Err(wrong) => {
                    let mut v = chars_of("cannot ignore \"");
                    push_str(&mut v, file[i].pattern.as_str());
                    push_str(&mut v, "\", line ");
                    let n = decimal_chars(file[i].number as u64);
                    push_all(&mut v, &n);
                    push_str(&mut v, " of .servioignore: ");
                    push_str(&mut v, wrong.as_str());
                    assert(n@ == decimal(file@[i as int]@.number));
                    assert(v@ =~= line_wrong(file@[i as int]@, wrong@));
                    assert(gather_lines(lines.take(i + 1), *platform, ignore_case) == Err::<Seq<GlobSource>, Seq<char>>(line_wrong(file@[i as int]@, wrong@)));
                    proof { lemma_lines_err_stays(lines, i + 1, *platform, ignore_case); }
                    assert(gather_lines(lines, *platform, ignore_case) is Err);
                    return Err(string_of(&v));
                },
                Ok(globs) => {
                    let ghost before = builder_globs(chosen);
                    add_all(&mut chosen, globs);
                    assert(builder_globs(chosen) =~= first + gather_lines(lines.take(i + 1), *platform, ignore_case)->Ok_0);
                },
            }
        }
        assert(lines.take(file.len() as int) =~= lines);
        match build_set(&chosen) {
            Ok(set) => Ok(Ignored { chosen: set }),
            Err(problem) => {
                let mut v = chars_of("cannot ignore what was asked: ");
                let words = wrong_with(&problem);
                push_str(&mut v, words.as_str());
                Err(string_of(&v))
            },
        }
    }
}

} // verus!
