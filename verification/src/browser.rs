//! Opening the served address in a browser: reading what `BROWSER` names,
//! and saying why none of it opened.

use crate::errors::{IoFailure, IoKind};
use crate::platform::Platform;
use crate::text::{
    chars_of, contains, decimal, decimal_chars, holds, is_space, is_whitespace, owned, push_all,
    push_str, replace, replaced, string_of, trim, trimmed,
};
use vstd::prelude::*;

verus! {

/// Where reading a command line has got to: the words finished so far, the
/// one being read, whether that one has begun (a pair of quotes begins an
/// empty word), and the quote it is inside, if any.
pub struct Reading {
    pub done: Seq<Seq<char>>,
    pub word: Seq<char>,
    pub started: bool,
    pub quote: Option<char>,
}

/// The words of `line` from position `i` on, having read the part before it
/// into `r`. Whitespace parts words; a quote, anywhere in a word, holds
/// everything up to its match together; outside quotes, where `escapes`,
/// `\` holds the character after it.
pub open spec fn read_words(line: Seq<char>, i: int, r: Reading, escapes: bool) -> Seq<Seq<char>>
    decreases line.len() - i,
{
    if i < 0 || i >= line.len() {
        if r.started { r.done.push(r.word) } else { r.done }
    } else {
        let c = line[i];
        match r.quote {
            Some(q) => if c == q {
                read_words(line, i + 1, Reading { quote: None, ..r }, escapes)
            } else {
                read_words(line, i + 1, Reading { word: r.word.push(c), ..r }, escapes)
            },
            None => if c == '\\' && escapes {
                if i + 1 < line.len() {
                    read_words(
                        line,
                        i + 2,
                        Reading { word: r.word.push(line[i + 1]), started: true, ..r },
                        escapes,
                    )
                } else {
                    read_words(line, i + 1, r, escapes)
                }
            } else if c == '"' || c == '\'' {
                read_words(line, i + 1, Reading { quote: Some(c), started: true, ..r }, escapes)
            } else if is_space(c) {
                if r.started {
                    read_words(
                        line,
                        i + 1,
                        Reading { done: r.done.push(r.word), word: Seq::empty(), started: false, ..r },
                        escapes,
                    )
                } else {
                    read_words(line, i + 1, r, escapes)
                }
            } else {
                read_words(line, i + 1, Reading { word: r.word.push(c), started: true, ..r }, escapes)
            },
        }
    }
}

/// The words of a whole command line.
pub open spec fn words_of(line: Seq<char>, escapes: bool) -> Seq<Seq<char>> {
    read_words(
        line,
        0,
        Reading { done: Seq::empty(), word: Seq::empty(), started: false, quote: None },
        escapes,
    )
}

/// The views of some strings.
pub open spec fn views(v: Seq<String>) -> Seq<Seq<char>> {
    v.map_values(|s: String| s@)
}

/// The strings holding these words.
fn strings_of(words: &Vec<Vec<char>>) -> (r: Vec<String>)
    ensures
        views(r@) == words@.map_values(|w: Vec<char>| w@),
{
    let mut r: Vec<String> = Vec::new();
    for i in 0..words.len()
        invariant
            views(r@) == words@.map_values(|w: Vec<char>| w@).take(i as int),
    {
        let ghost before = r@;
        let s = string_of(&words[i]);
        r.push(s);
        assert(r@ == before.push(s));
        assert(views(r@) =~= views(before).push(s@));
        assert(views(r@) =~= words@.map_values(|w: Vec<char>| w@).take(i + 1));
    }
    assert(words@.map_values(|w: Vec<char>| w@).take(words.len() as int) =~= words@.map_values(|w: Vec<char>| w@));
    r
}

/// The words of a command line, as characters.
fn word_chars(line: &Vec<char>, escapes: bool) -> (r: Vec<Vec<char>>)
    ensures
        r@.map_values(|w: Vec<char>| w@) == words_of(line@, escapes),
{
    let mut done: Vec<Vec<char>> = Vec::new();
    let mut word: Vec<char> = Vec::new();
    let mut started = false;
    let mut quote: Option<char> = None;
    let mut i: usize = 0;
    let n = line.len();
    assert(done@.map_values(|w: Vec<char>| w@) =~= Seq::<Seq<char>>::empty());
    assert(word@ =~= Seq::<char>::empty());
    while i < n
        invariant
            n == line@.len(),
            i <= n,
            read_words(
                line@,
                i as int,
                Reading { done: done@.map_values(|w: Vec<char>| w@), word: word@, started, quote },
                escapes,
            ) == words_of(line@, escapes),
        decreases n - i,
    {
        let c = line[i];
        match quote {
            Some(q) => {
                if c == q {
                    quote = None;
                } else {
                    word.push(c);
                }
                i = i + 1;
            },
            None => {
                if c == '\\' && escapes {
                    if i + 1 < n {
                        word.push(line[i + 1]);
                        started = true;
                        i = i + 2;
                    } else {
                        i = i + 1;
                    }
                } else if c == '"' || c == '\'' {
                    quote = Some(c);
                    started = true;
                    i = i + 1;
                } else if is_whitespace(c) {
                    if started {
                        let ghost before = done@.map_values(|w: Vec<char>| w@);
                        let mut finished: Vec<char> = Vec::new();
                        std::mem::swap(&mut finished, &mut word);
                        done.push(finished);
                        assert(done@.map_values(|w: Vec<char>| w@) =~= before.push(finished@));
                        started = false;
                    }
                    i = i + 1;
                } else {
                    word.push(c);
                    started = true;
                    i = i + 1;
                }
            },
        }
    }
    if started {
        let ghost before = done@.map_values(|w: Vec<char>| w@);
        let w = word.clone();
        done.push(w);
        assert(done@.map_values(|w: Vec<char>| w@) =~= before.push(word@));
    }
    done
}

/// The words of a command line. Whitespace parts them; a quote, anywhere in
/// a word, holds everything up to its match together; outside quotes `\`
/// holds the character after it. Two ways to write a space, in a name or in
/// `--profile-directory="Profile 1"`. As in a shell, a name with an
/// apostrophe in it has to be quoted whole or written with `\'`.
///
/// Where `\` parts directories, it stands for itself, and quotes are the one
/// way to hold a name together.
pub fn words(line: &str, platform: &Platform) -> (r: Vec<String>)
    ensures
        views(r@) == words_of(line@, !platform.backslash_parts_paths),
{
    let chars = chars_of(line);
    let ws = word_chars(&chars, !platform.backslash_parts_paths);
    strings_of(&ws)
}

/// Where an address goes in a command line.
pub open spec fn placeholder() -> Seq<char> {
    seq!['%', 's']
}

/// The program and its arguments for `browser`, with `%s` standing for the
/// address wherever it stands, and the address last where it stands nowhere.
pub open spec fn command_of(browser: Seq<char>, url: Seq<char>, escapes: bool) -> (Seq<char>, Seq<Seq<char>>) {
    let ws = words_of(browser, escapes).map_values(|w: Seq<char>| replaced(w, placeholder(), url));
    let program = if ws.len() > 0 { ws[0] } else { Seq::<char>::empty() };
    let rest = if ws.len() > 0 { ws.drop_first() } else { Seq::<Seq<char>>::empty() };
    (program, if holds(browser, placeholder()) { rest } else { rest.push(url) })
}

/// The program and its arguments, with `%s` standing for the address as it
/// does elsewhere. Without a `%s`, the address goes last.
pub fn command_line_on(browser: &str, url: &str, platform: &Platform) -> (r: (String, Vec<String>))
    ensures
        (r.0@, views(r.1@)) == command_of(browser@, url@, !platform.backslash_parts_paths),
{
    let escapes = !platform.backslash_parts_paths;
    let line = chars_of(browser);
    let address = chars_of(url);
    let mut mark: Vec<char> = Vec::new();
    mark.push('%');
    mark.push('s');
    assert(mark@ =~= placeholder());
    let ws = word_chars(&line, escapes);
    let ghost all = words_of(browser@, escapes).map_values(|w: Seq<char>| replaced(w, placeholder(), url@));
    let mut program = string_of(&Vec::new());
    let mut arguments: Vec<String> = Vec::new();
    for i in 0..ws.len()
        invariant
            ws@.map_values(|w: Vec<char>| w@) == words_of(browser@, escapes),
            all == words_of(browser@, escapes).map_values(|w: Seq<char>| replaced(w, placeholder(), url@)),
            address@ == url@,
            mark@ == placeholder(),
            i == 0 ==> program@ == Seq::<char>::empty(),
            i > 0 ==> program@ == all[0],
            i > 0 ==> views(arguments@) == all.subrange(1, i as int),
            i == 0 ==> arguments@.len() == 0,
    {
        assert(ws@.map_values(|w: Vec<char>| w@)[i as int] == ws@[i as int]@);
        let placed = replace(&ws[i], &mark, &address);
        let text = string_of(&placed);
        if i == 0 {
            program = text;
        } else {
            let ghost before = arguments@;
            arguments.push(text);
            assert(views(arguments@) =~= views(before).push(text@));
            assert(all.subrange(1, i + 1) =~= all.subrange(1, i as int).push(all[i as int]));
        }
    }
    if ws.len() > 0 {
        assert(all.drop_first() =~= all.subrange(1, ws.len() as int));
    } else {
        assert(views(arguments@) =~= Seq::<Seq<char>>::empty());
    }
    if !contains(&line, &mark) {
        let ghost before = arguments@;
        let last = owned(url);
        arguments.push(last);
        assert(views(arguments@) =~= views(before).push(url@));
    }
    (program, arguments)
}

/// The program and its arguments for `browser`, read by the rules of the
/// system this runs on: which of the two readings that is depends on whether
/// `\` parts directories here.
pub fn command_line(browser: &str, url: &str) -> (r: (String, Vec<String>))
    ensures
        (r.0@, views(r.1@)) == command_of(browser@, url@, true)
            || (r.0@, views(r.1@)) == command_of(browser@, url@, false),
{
    let platform = Platform::here();
    command_line_on(browser, url, &platform)
}

/// The pieces of `s` between the `sep` characters, empty ones included.
pub open spec fn pieces(s: Seq<char>, sep: char) -> Seq<Seq<char>>
    decreases s.len(),
{
    if s.len() == 0 {
        seq![Seq::<char>::empty()]
    } else {
        let before = pieces(s.drop_last(), sep);
        if s.last() == sep {
            before.push(Seq::<char>::empty())
        } else {
            before.update(before.len() - 1, before.last().push(s.last()))
        }
    }
}

/// The pieces trimmed, the empty ones left out.
pub open spec fn entries(pieces: Seq<Seq<char>>) -> Seq<Seq<char>>
    decreases pieces.len(),
{
    if pieces.len() == 0 {
        Seq::empty()
    } else {
        let kept = entries(pieces.drop_last());
        let last = trimmed(pieces.last());
        if last.len() > 0 { kept.push(last) } else { kept }
    }
}

/// The browsers `named` lists, in the order to try them: the entries between
/// the `sep` characters, trimmed, with empty ones left out.
pub open spec fn browser_list(named: Seq<char>, sep: char) -> Seq<Seq<char>> {
    entries(pieces(named, sep))
}

proof fn lemma_pieces_nonempty(s: Seq<char>, sep: char)
    ensures
        pieces(s, sep).len() > 0,
    decreases s.len(),
{
    if s.len() > 0 {
        lemma_pieces_nonempty(s.drop_last(), sep);
    }
}

/// The browsers listed in `named`, each entry a whole command line, kept
/// apart by `sep`.
pub fn browsers_between(named: &str, sep: char) -> (r: Vec<String>)
    ensures
        views(r@) == browser_list(named@, sep),
{
    let chars = chars_of(named);
    let mut kept: Vec<String> = Vec::new();
    let mut current: Vec<char> = Vec::new();
    let ghost mut finished: Seq<Seq<char>> = Seq::empty();
    assert(chars@.take(0) =~= Seq::<char>::empty());
    for i in 0..chars.len()
        invariant
            chars@ == named@,
            pieces(chars@.take(i as int), sep) == finished.push(current@),
            views(kept@) == entries(finished),
    {
        let c = chars[i];
        let ghost prefix = chars@.take(i as int);
        assert(chars@.take(i + 1).drop_last() =~= prefix);
        assert(chars@.take(i + 1).last() == c);
        if c == sep {
            let t = trim(&current);
            let ghost before = kept@;
            if t.len() > 0 {
                let entry = string_of(&t);
                kept.push(entry);
                assert(views(kept@) =~= views(before).push(t@));
            }
            assert(finished.push(current@).drop_last() =~= finished);
            proof { finished = finished.push(current@); }
            current = Vec::new();
            assert(pieces(chars@.take(i + 1), sep) =~= finished.push(current@));
        } else {
            current.push(c);
            assert(pieces(chars@.take(i + 1), sep) =~= finished.push(current@));
        }
    }
    assert(chars@.take(chars.len() as int) =~= chars@);
    let t = trim(&current);
    let ghost before = kept@;
    if t.len() > 0 {
        let entry = string_of(&t);
        kept.push(entry);
        assert(views(kept@) =~= views(before).push(t@));
    }
    assert(finished.push(current@).drop_last() =~= finished);
    kept
}

/// The character this system puts between the paths of a list.
pub open spec fn list_separator(platform: Platform) -> char {
    if platform.backslash_parts_paths { ';' } else { ':' }
}

/// The browsers `BROWSER` names, in the order to try them. It holds a list,
/// each entry a whole command line, kept apart by the character this system
/// puts between paths.
pub fn browsers_on(named: &str, platform: &Platform) -> (r: Vec<String>)
    ensures
        views(r@) == browser_list(named@, list_separator(*platform)),
{
    let between_paths = if platform.backslash_parts_paths { ';' } else { ':' };
    browsers_between(named, between_paths)
}

/// The browsers `named` lists, read by the rules of the system this runs on.
pub fn browsers(named: &str) -> (r: Vec<String>)
    ensures
        views(r@) == browser_list(named@, ':') || views(r@) == browser_list(named@, ';'),
{
    let platform = Platform::here();
    browsers_on(named, &platform)
}

/// Why no browser opened, in plain words, for the program that was run, or
/// for the usual browser when `program` is `None`.
pub open spec fn refusal(program: Option<Seq<char>>, error: IoFailure) -> Seq<char> {
    match (program, error.kind) {
        (Some(p), IoKind::NotFound) => "there is no program called "@ + p,
        (None, IoKind::NotFound) => "nothing on this machine opens web addresses"@,
        (_, IoKind::PermissionDenied) => "the system will not let this program run it"@,
        (_, IoKind::Other) => "the browser would not open it"@,
        _ => error.text@,
    }
}

/// Why no browser opened, in plain words.
pub fn why(program: Option<&str>, error: &IoFailure) -> (r: String)
    ensures
        r@ == refusal(
            match program {
                Some(p) => Some(p@),
                None => None,
            },
            *error,
        ),
{
    match (program, error.kind) {
        (Some(program), IoKind::NotFound) => {
            let mut v = chars_of("there is no program called ");
            push_str(&mut v, program);
            string_of(&v)
        },
        (None, IoKind::NotFound) => owned("nothing on this machine opens web addresses"),
        (_, IoKind::PermissionDenied) => owned("the system will not let this program run it"),
        // The launcher's account of a browser that refused is a line of
        // debugging output, no use to anyone reading a terminal.
        (_, IoKind::Other) => owned("the browser would not open it"),
        _ => error.text.clone(),
    }
}

/// Why none of the browsers named opened the address: the one reason, or how
/// many there were.
pub open spec fn none_of_them(refused: Seq<Seq<char>>) -> Seq<char> {
    if refused.len() == 1 {
        refused[0]
    } else {
        "none of the "@ + decimal(refused.len()) + " browsers BROWSER names would run"@
    }
}

/// Why none of the browsers named opened the address. One is explained;
/// several would be a paragraph, so they are counted.
pub fn why_none_of_them(refused: &Vec<String>) -> (r: String)
    ensures
        r@ == none_of_them(views(refused@)),
{
    if refused.len() == 1 {
        assert(views(refused@)[0] == refused@[0]@);
        refused[0].clone()
    } else {
        let mut v = chars_of("none of the ");
        let count = decimal_chars(refused.len() as u64);
        push_all(&mut v, &count);
        push_str(&mut v, " browsers BROWSER names would run");
        string_of(&v)
    }
}

/// What is said of a browser that fell over at once.
pub open spec fn stopped(program: Seq<char>) -> Seq<char> {
    program + " stopped with an error"@
}

/// What to say of a browser that stopped with an error as soon as it ran.
pub fn stopped_with_an_error(program: &str) -> (r: String)
    ensures
        r@ == stopped(program@),
{
    let mut v = chars_of(program);
    push_str(&mut v, " stopped with an error");
    string_of(&v)
}

/// What to do next while trying the browsers `BROWSER` names.
#[derive(Debug)]
pub enum Attempt {
    /// Run the browser at this place in the list. With `another` to try
    /// after it, wait a moment first: a browser that stops at once opened
    /// nothing, and the next one still can.
    Try { at: usize, another: bool },
    /// None of them opened the address, for this reason.
    NoneOpened(String),
}

/// Trying the browsers named, each in turn: how many there are, and why
/// each of those tried so far would not run. The first that opens the
/// address wins.
#[derive(Debug)]
pub struct Attempts {
    pub count: usize,
    pub refused: Vec<String>,
}

impl Attempts {
    /// Nothing tried yet, of `count` browsers.
    pub fn new(count: usize) -> (r: Attempts)
        ensures
            r.count == count,
            r.refused@.len() == 0,
    {
        Attempts { count, refused: Vec::new() }
    }

    /// What to do next: the next browser in the list, or, with all of them
    /// refused, why none opened.
    pub fn next(&self) -> (r: Attempt)
        ensures
            self.refused@.len() < self.count ==> (r matches Attempt::Try { at, another }
                && at == self.refused@.len() && another == (at + 1 < self.count)),
            self.refused@.len() >= self.count ==> (r matches Attempt::NoneOpened(why)
                && why@ == none_of_them(views(self.refused@))),
    {
        let at = self.refused.len();
        if at < self.count {
            Attempt::Try { at, another: at + 1 < self.count }
        } else {
            Attempt::NoneOpened(why_none_of_them(&self.refused))
        }
    }

    /// The browser last tried would not run, for this reason.
    pub fn refuse(&mut self, reason: String)
        ensures
            final(self).count == old(self).count,
            final(self).refused@ == old(self).refused@.push(reason),
    {
        self.refused.push(reason);
    }
}

} // verus!
