//! Reading one `--ignore` pattern: what is wrong with it, or the globs it
//! stands for.

use crate::platform::Platform;
use crate::text::{chars_of, finishes_with, owned, same_chars, string_of, trim, trimmed};
use vstd::prelude::*;

verus! {

/// True for an ASCII letter.
pub open spec fn ascii_letter(c: char) -> bool {
    ('a' <= c && c <= 'z') || ('A' <= c && c <= 'Z')
}

/// The first name of `s`: everything before its first separator.
pub open spec fn first_name(s: Seq<char>, platform: Platform) -> Seq<char>
    decreases s.len(),
{
    if s.len() == 0 || platform.parts(s[0]) {
        Seq::empty()
    } else {
        seq![s[0]] + first_name(s.drop_first(), platform)
    }
}

/// What follows the first separator of `s`, or nothing when it has none.
pub open spec fn after_first_name(s: Seq<char>, platform: Platform) -> Seq<char>
    decreases s.len(),
{
    if s.len() == 0 {
        Seq::empty()
    } else if platform.parts(s[0]) {
        s.drop_first()
    } else {
        after_first_name(s.drop_first(), platform)
    }
}

/// True when Windows reads `t` as starting from a drive or another machine:
/// `C:`, `\\server\share`, `\\?\` or `\\.\`. No other system has such paths.
pub open spec fn from_a_drive(t: Seq<char>, platform: Platform) -> bool {
    platform.backslash_parts_paths && if t.len() >= 2 && platform.parts(t[0]) && platform.parts(t[1]) {
        let rest = t.skip(2);
        ||| (rest.len() >= 2 && rest[0] == '?' && rest[1] == '\\' && !t.take(
            if t.len() < 8 { t.len() as int } else { 8 },
        ).contains('/'))
        ||| (rest.len() >= 2 && rest[0] == '.' && platform.parts(rest[1]))
        ||| (first_name(rest, platform).len() > 0 && first_name(
            after_first_name(rest, platform),
            platform,
        ).len() > 0)
    } else {
        t.len() >= 2 && ascii_letter(t[0]) && t[1] == ':'
    }
}

/// The length of the first name of `s` from position `from`.
fn name_end(s: &Vec<char>, from: usize, platform: &Platform) -> (r: usize)
    requires
        from <= s.len(),
    ensures
        from <= r <= s.len(),
        s@.subrange(from as int, r as int) == first_name(s@.skip(from as int), *platform),
        r < s.len() ==> after_first_name(s@.skip(from as int), *platform) == s@.skip(r + 1),
        r == s.len() ==> after_first_name(s@.skip(from as int), *platform) == Seq::<char>::empty(),
    decreases s.len() - from,
{
    if from == s.len() {
        assert(s@.skip(from as int) =~= Seq::<char>::empty());
        return from;
    }
    if platform.is_separator(s[from]) {
        assert(s@.skip(from as int).drop_first() =~= s@.skip(from + 1));
        return from;
    }
    let r = name_end(s, from + 1, platform);
    assert(s@.skip(from as int).drop_first() =~= s@.skip(from + 1));
    assert(s@.subrange(from as int, r as int) =~= seq![s@[from as int]] + s@.subrange(from + 1, r as int));
    r
}

/// Whether Windows reads `t` as starting from a drive or another machine.
pub fn starts_from_a_drive(t: &Vec<char>, platform: &Platform) -> (r: bool)
    ensures
        r == from_a_drive(t@, *platform),
{
    if !platform.backslash_parts_paths {
        return false;
    }
    if t.len() >= 2 && platform.is_separator(t[0]) && platform.is_separator(t[1]) {
        let ghost rest = t@.skip(2);
        if t.len() >= 4 && t[2] == '?' && t[3] == '\\' {
            let limit = if t.len() < 8 { t.len() } else { 8 };
            let mut slash = false;
            let mut i: usize = 0;
            while i < limit
                invariant
                    limit <= t.len(),
                    i <= limit,
                    slash == t@.take(i as int).contains('/'),
                decreases limit - i,
            {
                assert(t@.take(i + 1) =~= t@.take(i as int).push(t@[i as int]));
                if t[i] == '/' {
                    assert(t@.take(i + 1)[i as int] == '/');
                    slash = true;
                }
                i = i + 1;
            }
            if !slash {
                return true;
            }
        }
        if t.len() >= 4 && t[2] == '.' && platform.is_separator(t[3]) {
            return true;
        }
        let server_end = name_end(t, 2, platform);
        assert(t@.skip(2) == rest);
        if server_end == 2 {
            assert(first_name(rest, *platform).len() == 0);
            return false;
        }
        if server_end == t.len() {
            assert(first_name(Seq::<char>::empty(), *platform) == Seq::<char>::empty());
            return false;
        }
        let share_end = name_end(t, server_end + 1, platform);
        share_end > server_end + 1
    } else {
        t.len() >= 2 && (('a' <= t[0] && t[0] <= 'z') || ('A' <= t[0] && t[0] <= 'Z')) && t[1] == ':'
    }
}

/// What follows a leading `/` or `./`, if there is one.
pub open spec fn after_leading_separator(given: Seq<char>, platform: Platform) -> Option<Seq<char>> {
    let s = if given.len() > 0 && given[0] == '.' { given.drop_first() } else { given };
    if s.len() > 0 && platform.parts(s[0]) {
        Some(s.drop_first())
    } else {
        None
    }
}

/// `s` without the separators it ends with.
pub open spec fn without_trailing_separators(s: Seq<char>, platform: Platform) -> Seq<char>
    decreases s.len(),
{
    if s.len() > 0 && platform.parts(s.last()) {
        without_trailing_separators(s.drop_last(), platform)
    } else {
        s
    }
}

/// The names of a path: the pieces between its separators, empty ones
/// included.
pub open spec fn names_of(s: Seq<char>, platform: Platform) -> Seq<Seq<char>>
    decreases s.len(),
{
    if s.len() == 0 {
        seq![Seq::<char>::empty()]
    } else {
        let before = names_of(s.drop_last(), platform);
        if platform.parts(s.last()) {
            before.push(Seq::<char>::empty())
        } else {
            before.update(before.len() - 1, before.last().push(s.last()))
        }
    }
}

/// True when a pattern starts from the home directory, the shell's way.
pub open spec fn from_home(bare: Seq<char>, platform: Platform) -> bool {
    bare == seq!['~'] || (bare.len() >= 2 && bare[0] == '~' && platform.parts(bare[1]))
}

/// What is wrong with a pattern, once trimmed and freed of a leading and
/// trailing separators, if anything.
pub open spec fn bare_problem(bare: Seq<char>, platform: Platform) -> Option<Seq<char>> {
    let parts = names_of(bare, platform);
    if bare.len() == 0 {
        Some("it names nothing"@)
    } else if parts.contains(seq!['.', '.']) {
        Some("a pattern stays inside the served directory"@)
    } else if bare == seq!['.'] {
        Some("a \".\" is the served directory, which is never ignored"@)
    } else if parts.contains(seq!['.']) {
        Some("a \".\" in the middle names nothing, so leave it out"@)
    } else if parts.contains(Seq::<char>::empty()) {
        Some("a \"//\" names nothing, so leave one of them out"@)
    } else if bare[0] == '!' {
        Some("a pattern cannot keep a file back, so a \"!\" starts nothing"@)
    } else if from_home(bare, platform) {
        Some("a pattern starts from the served directory, not from your home directory"@)
    } else {
        None
    }
}

/// The globs for a pattern with nothing wrong with it: pinned, or holding a
/// separator, it is matched from the served directory down; otherwise at
/// any depth. `dir/**` stands for the directory as well as all it holds.
pub open spec fn globs_from(bare: Seq<char>, pinned: bool, platform: Platform) -> Seq<Seq<char>> {
    let whole = if pinned || (exists|i: int| 0 <= i < bare.len() && platform.parts(#[trigger] bare[i])) {
        bare
    } else {
        seq!['*', '*', '/'] + bare
    };
    if finishes_with(whole, seq!['*', '*']) && whole.len() >= 3 && platform.parts(whole[whole.len() - 3]) {
        seq![whole, without_trailing_separators(whole.take(whole.len() - 2), platform)]
    } else {
        seq![whole]
    }
}

/// The pattern with its leading `/` or `./` and trailing separators gone.
pub open spec fn bare_of(given: Seq<char>, platform: Platform) -> Seq<char> {
    without_trailing_separators(
        match after_leading_separator(given, platform) {
            Some(r) => r,
            None => given,
        },
        platform,
    )
}

/// The globs a pattern stands for, or what is wrong with it. A leading `/`
/// or `./` pins the pattern to the served directory, as it does in
/// `.gitignore`; one with no separator in it matches a name at any depth.
pub open spec fn pattern_check(pattern: Seq<char>, platform: Platform) -> Result<Seq<Seq<char>>, Seq<char>> {
    let given = trimmed(pattern);
    if from_a_drive(given, platform) {
        Err("a pattern starts from the served directory, not from a drive or another machine"@)
    } else {
        let bare = bare_of(given, platform);
        match bare_problem(bare, platform) {
            Some(wrong) => Err(wrong),
            None => Ok(globs_from(bare, after_leading_separator(given, platform) is Some, platform)),
        }
    }
}

/// `s` from `from` on, without the separators it ends with.
fn trimmed_end(s: &Vec<char>, end: usize, platform: &Platform) -> (r: Vec<char>)
    requires
        end <= s.len(),
    ensures
        r@ == without_trailing_separators(s@.take(end as int), *platform),
{
    let mut e = end;
    assert(s@.take(end as int).take(e as int) =~= s@.take(end as int));
    while e > 0 && platform.is_separator(s[e - 1])
        invariant
            e <= end <= s.len(),
            without_trailing_separators(s@.take(e as int), *platform)
                == without_trailing_separators(s@.take(end as int), *platform),
        decreases e,
    {
        assert(s@.take(e as int).drop_last() =~= s@.take(e - 1));
        e = e - 1;
    }
    let mut r: Vec<char> = Vec::new();
    let mut i: usize = 0;
    while i < e
        invariant
            e <= s.len(),
            i <= e,
            r@ == s@.take(i as int),
        decreases e - i,
    {
        r.push(s[i]);
        assert(s@.take(i + 1) =~= s@.take(i as int).push(s@[i as int]));
        i = i + 1;
    }
    r
}

proof fn lemma_names_nonempty(s: Seq<char>, platform: Platform)
    ensures
        names_of(s, platform).len() > 0,
    decreases s.len(),
{
    if s.len() > 0 {
        lemma_names_nonempty(s.drop_last(), platform);
    }
}

/// The names of `s`.
fn split_names(s: &Vec<char>, platform: &Platform) -> (r: Vec<Vec<char>>)
    ensures
        r@.map_values(|w: Vec<char>| w@) == names_of(s@, *platform),
{
    let mut done: Vec<Vec<char>> = Vec::new();
    let mut current: Vec<char> = Vec::new();
    assert(s@.take(0) =~= Seq::<char>::empty());
    assert(done@.map_values(|w: Vec<char>| w@) =~= Seq::<Seq<char>>::empty());
    for i in 0..s.len()
        invariant
            names_of(s@.take(i as int), *platform) == done@.map_values(|w: Vec<char>| w@).push(current@),
    {
        let c = s[i];
        assert(s@.take(i + 1).drop_last() =~= s@.take(i as int));
        assert(s@.take(i + 1).last() == c);
        let ghost before = done@.map_values(|w: Vec<char>| w@);
        if platform.is_separator(c) {
            let mut finished: Vec<char> = Vec::new();
            std::mem::swap(&mut finished, &mut current);
            done.push(finished);
            assert(done@.map_values(|w: Vec<char>| w@) =~= before.push(finished@));
            assert(names_of(s@.take(i + 1), *platform) =~= done@.map_values(|w: Vec<char>| w@).push(current@));
        } else {
            current.push(c);
            assert(names_of(s@.take(i + 1), *platform) =~= done@.map_values(|w: Vec<char>| w@).push(current@));
        }
    }
    assert(s@.take(s.len() as int) =~= s@);
    let ghost before = done@.map_values(|w: Vec<char>| w@);
    done.push(current);
    assert(done@.map_values(|w: Vec<char>| w@) =~= before.push(current@));
    done
}

/// Whether any of the names is `w`.
fn any_name_is(names: &Vec<Vec<char>>, w: &Vec<char>) -> (r: bool)
    ensures
        r == names@.map_values(|n: Vec<char>| n@).contains(w@),
{
    let ghost all = names@.map_values(|n: Vec<char>| n@);
    for i in 0..names.len()
        invariant
            all == names@.map_values(|n: Vec<char>| n@),
            forall|j: int| 0 <= j < i ==> all[j] != w@,
    {
        if same_chars(&names[i], w) {
            assert(all[i as int] == w@);
            return true;
        }
    }
    false
}

/// The pattern with its leading `/` or `./` gone, and whether there was
/// one.
fn after_leading(given: &Vec<char>, platform: &Platform) -> (r: (bool, Vec<char>))
    ensures
        r.0 == after_leading_separator(given@, *platform) is Some,
        r.1@ == match after_leading_separator(given@, *platform) {
            Some(rest) => rest,
            None => given@,
        },
{
    let skip_dot: usize = if given.len() > 0 && given[0] == '.' { 1 } else { 0 };
    let pinned = given.len() > skip_dot && platform.is_separator(given[skip_dot]);
    let mut rest: Vec<char> = Vec::new();
    let start = if pinned { skip_dot + 1 } else { 0 };
    let mut i = start;
    while i < given.len()
        invariant
            start <= i <= given.len(),
            rest@ == given@.subrange(start as int, i as int),
        decreases given.len() - i,
    {
        rest.push(given[i]);
        i = i + 1;
    }
    proof {
        let g = given@;
        let s = if g.len() > 0 && g[0] == '.' { g.drop_first() } else { g };
        assert(s =~= g.skip(skip_dot as int));
        if pinned {
            assert(rest@ =~= s.drop_first());
        } else {
            assert(rest@ =~= g);
        }
    }
    (pinned, rest)
}

/// What is wrong with a bare pattern, in plain words, if anything.
fn problem_with(bare: &Vec<char>, platform: &Platform) -> (r: Option<String>)
    ensures
        match (r, bare_problem(bare@, *platform)) {
            (Some(wrong), Some(expected)) => wrong@ == expected,
            (None, None) => true,
            _ => false,
        },
{
    let parts = split_names(bare, platform);
    if bare.len() == 0 {
        return Some(owned("it names nothing"));
    }
    // `../build`: nothing above the served directory is watched, and
    // nothing there could refresh the browser.
    let up: Vec<char> = vec!['.', '.'];
    assert(up@ =~= seq!['.', '.']);
    if any_name_is(&parts, &up) {
        return Some(owned("a pattern stays inside the served directory"));
    }
    // `.` is the served directory, never ignored. `build/./x` would look
    // for a name `.` and match nothing.
    let here: Vec<char> = vec!['.'];
    assert(here@ =~= seq!['.']);
    if same_chars(bare, &here) {
        return Some(owned("a \".\" is the served directory, which is never ignored"));
    }
    if any_name_is(&parts, &here) {
        return Some(owned("a \".\" in the middle names nothing, so leave it out"));
    }
    // `//cache`, `build//x`: the empty name between two separators matches
    // nothing.
    let nothing: Vec<char> = Vec::new();
    assert(nothing@ =~= Seq::<char>::empty());
    if any_name_is(&parts, &nothing) {
        return Some(owned("a \"//\" names nothing, so leave one of them out"));
    }
    // `!keep.log` keeps a file back in a .gitignore. There is no such rule
    // here, so it would quietly look for a name starting with `!`.
    if bare[0] == '!' {
        return Some(owned("a pattern cannot keep a file back, so a \"!\" starts nothing"));
    }
    // `~/site/cache`: the same mistake, spelt the shell's way.
    if (bare.len() == 1 && bare[0] == '~') || (bare.len() >= 2 && bare[0] == '~' && platform.is_separator(bare[1])) {
        assert(bare.len() == 1 ==> bare@ =~= seq!['~']);
        return Some(owned("a pattern starts from the served directory, not from your home directory"));
    }
    assert(!from_home(bare@, *platform)) by {
        if bare@ == seq!['~'] {
            assert(bare.len() == 1 && bare@[0] == '~');
        }
    }
    None
}

/// The globs for a bare pattern with nothing wrong with it.
fn globs_of(bare: &Vec<char>, pinned: bool, platform: &Platform) -> (r: Vec<String>)
    ensures
        r@.map_values(|t: String| t@) == globs_from(bare@, pinned, *platform),
{
    let mut has_separator = false;
    let mut k: usize = 0;
    while k < bare.len()
        invariant
            k <= bare.len(),
            has_separator == exists|j: int| 0 <= j < k && platform.parts(#[trigger] bare@[j]),
        decreases bare.len() - k,
    {
        if platform.is_separator(bare[k]) {
            has_separator = true;
        }
        k = k + 1;
    }
    let mut whole: Vec<char> = Vec::new();
    if !(pinned || has_separator) {
        whole.push('*');
        whole.push('*');
        whole.push('/');
    }
    let ghost front = whole@;
    let mut j: usize = 0;
    while j < bare.len()
        invariant
            j <= bare.len(),
            whole@ == front + bare@.take(j as int),
        decreases bare.len() - j,
    {
        whole.push(bare[j]);
        assert(bare@.take(j + 1) =~= bare@.take(j as int).push(bare@[j as int]));
        j = j + 1;
    }
    assert(bare@.take(bare.len() as int) =~= bare@);
    proof {
        if !(pinned || has_separator) {
            assert(whole@ =~= seq!['*', '*', '/'] + bare@);
        } else {
            assert(whole@ =~= bare@);
        }
    }
    let n = whole.len();
    let mut texts: Vec<String> = Vec::new();
    let first = string_of(&whole);
    texts.push(first);
    if n >= 3 && whole[n - 1] == '*' && whole[n - 2] == '*' && platform.is_separator(whole[n - 3]) {
        assert(whole@.skip(n - 2) =~= seq!['*', '*']);
        let directory = trimmed_end(&whole, n - 2, platform);
        let second = string_of(&directory);
        texts.push(second);
        assert(texts@.map_values(|t: String| t@) =~= seq![whole@, directory@]);
    } else {
        assert(!finishes_with(whole@, seq!['*', '*']) || whole@.len() < 3 || !platform.parts(whole@[whole@.len() - 3])) by {
            if finishes_with(whole@, seq!['*', '*']) && n >= 3 {
                assert(whole@.skip(n - 2)[0] == whole@[n - 2]);
                assert(whole@.skip(n - 2)[1] == whole@[n - 1]);
            }
        }
        assert(texts@.map_values(|t: String| t@) =~= seq![whole@]);
    }
    texts
}

/// The globs a pattern stands for, or what is wrong with it, in plain
/// words.
pub fn glob_texts(pattern: &str, platform: &Platform) -> (r: Result<Vec<String>, String>)
    ensures
        match (r, pattern_check(pattern@, *platform)) {
            (Ok(texts), Ok(expected)) => texts@.map_values(|t: String| t@) == expected,
            (Err(wrong), Err(expected)) => wrong@ == expected,
            _ => false,
        },
{
    let raw = chars_of(pattern);
    let given = trim(&raw);
    // `C:\site\cache` or `\\server\share\cache` could never match, and
    // saying so beats silence.
    if starts_from_a_drive(&given, platform) {
        return Err(owned("a pattern starts from the served directory, not from a drive or another machine"));
    }
    // A leading `/` or `./` pins the pattern to the served directory, as it
    // does in `.gitignore`: `/cache` is the one at the top, `cache` any.
    let (pinned, rest) = after_leading(&given, platform);
    let bare = trimmed_end(&rest, rest.len(), platform);
    assert(rest@.take(rest.len() as int) =~= rest@);
    match problem_with(&bare, platform) {
        Some(wrong) => Err(wrong),
        None => Ok(globs_of(&bare, pinned, platform)),
    }
}

} // verus!
