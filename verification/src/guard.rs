//! What the server refuses to hand out: anything outside the served
//! directory, and anything hidden.

use crate::paths::{Part, PartView, leads_with, parts_view, starts_with};
use crate::platform::Platform;
use crate::text::{chars_of, string_of};
use vstd::prelude::*;

verus! {

/// The value of a hexadecimal digit, in either case.
pub open spec fn hex_value(digit: u8) -> Option<u8> {
    if 48 <= digit <= 57 {
        Some((digit - 48) as u8)
    } else if 97 <= digit <= 102 {
        Some((digit - 87) as u8)
    } else if 65 <= digit <= 70 {
        Some((digit - 55) as u8)
    } else {
        None
    }
}

/// The value of a hexadecimal digit, or nothing for any other byte.
pub fn hex(digit: &u8) -> (r: Option<u8>)
    ensures
        r == hex_value(*digit),
{
    let d = *digit;
    if 48 <= d && d <= 57 {
        Some(d - 48)
    } else if 97 <= d && d <= 102 {
        Some(d - 87)
    } else if 65 <= d && d <= 70 {
        Some(d - 55)
    } else {
        None
    }
}

/// The bytes with each `%XX` turned into the byte it stands for, once.
/// A `%` without two hexadecimal digits after it stands for itself.
pub open spec fn unescaped(raw: Seq<u8>) -> Seq<u8>
    decreases raw.len(),
{
    if raw.len() == 0 {
        Seq::empty()
    } else if raw[0] == 37 && raw.len() >= 3 && hex_value(raw[1]) is Some && hex_value(raw[2]) is Some {
        seq![(hex_value(raw[1])->0 * 16 + hex_value(raw[2])->0) as u8] + unescaped(raw.skip(3))
    } else {
        seq![raw[0]] + unescaped(raw.drop_first())
    }
}

/// True when `raw` writes the bytes of `plain`, each either as itself or as
/// a `%XX` escape, in either case of hexadecimal digit.
pub open spec fn escaped_form(raw: Seq<u8>, plain: Seq<u8>) -> bool
    decreases plain.len(),
{
    if plain.len() == 0 {
        raw.len() == 0
    } else {
        ||| (raw.len() > 0 && raw[0] == plain[0] && escaped_form(raw.drop_first(), plain.drop_first()))
        ||| (raw.len() >= 3 && raw[0] == 37 && hex_value(raw[1]) is Some && hex_value(raw[2]) is Some
            && hex_value(raw[1])->0 * 16 + hex_value(raw[2])->0 == plain[0]
            && escaped_form(raw.skip(3), plain.drop_first()))
    }
}

/// Turns each `%XX` into the byte it stands for, once, as the file service
/// does.
pub fn unescape(raw: &[u8]) -> (r: Vec<u8>)
    ensures
        r@ == unescaped(raw@),
{
    let mut decoded: Vec<u8> = Vec::new();
    let mut at: usize = 0;
    assert(raw@.skip(0) =~= raw@);
    while at < raw.len()
        invariant
            at <= raw.len(),
            decoded@ + unescaped(raw@.skip(at as int)) == unescaped(raw@),
        decreases raw.len() - at,
    {
        let ghost rest = raw@.skip(at as int);
        let ghost before = decoded@;
        let high = if raw.len() - at > 1 { hex(&raw[at + 1]) } else { None };
        let low = if raw.len() - at > 2 { hex(&raw[at + 2]) } else { None };
        match (raw[at], high, low) {
            (37u8, Some(high), Some(low)) => {
                assert(rest.skip(3) =~= raw@.skip(at + 3));
                let byte = high * 16 + low;
                decoded.push(byte);
                assert(before + unescaped(rest) =~= decoded@ + unescaped(raw@.skip(at + 3)));
                at = at + 3;
            },
            _ => {
                assert(rest.drop_first() =~= raw@.skip(at + 1));
                decoded.push(raw[at]);
                assert(before + unescaped(rest) =~= decoded@ + unescaped(raw@.skip(at + 1)));
                at = at + 1;
            },
        }
    }
    assert(raw@.skip(raw.len() as int) =~= Seq::<u8>::empty());
    assert(decoded@ + Seq::<u8>::empty() =~= decoded@);
    decoded
}

/// The text `String::from_utf8_lossy` makes of these bytes.
pub uninterp spec fn lossy_text(bytes: Seq<u8>) -> Seq<char>;

/// `String::from_utf8_lossy`, from std: the bytes as text, each sequence
/// that is not UTF-8 replaced by U+FFFD. Stated: the result is named, and
/// where the bytes are valid UTF-8 it is their decoding, as the
/// documentation says.
#[verifier::external_body]
fn lossy(bytes: &Vec<u8>) -> (r: String)
    ensures
        r@ == lossy_text(bytes@),
        vstd::utf8::valid_utf8(bytes@) ==> r@ == vstd::utf8::decode_utf8(bytes@),
{
    String::from_utf8_lossy(bytes).into_owned()
}

/// The address decoded as the file service decodes it.
pub open spec fn decoded(path: Seq<char>) -> Seq<char> {
    lossy_text(unescaped(vstd::utf8::encode_utf8(path)))
}

/// Turns each `%XX` into the byte it stands for, once, as the file service
/// does, and reads the result as text.
pub fn decode(path: &str) -> (r: String)
    ensures
        r@ == decoded(path@),
{
    let raw = path.as_bytes();
    let bytes = unescape(raw);
    lossy(&bytes)
}

/// The one hidden directory the web uses.
pub open spec fn well_known() -> Seq<char> {
    seq!['.', 'w', 'e', 'l', 'l', '-', 'k', 'n', 'o', 'w', 'n']
}

/// True for a name the server will not serve: anything hidden, apart from
/// the one directory the web uses.
pub open spec fn hidden(name: Seq<char>) -> bool {
    name.len() > 0 && name[0] == '.' && name != well_known()
}

/// Whether the server will not serve a file or directory of this name.
pub fn is_hidden(name: &str) -> (r: bool)
    ensures
        r == hidden(name@),
{
    let chars = chars_of(name);
    is_hidden_chars(&chars)
}

/// Whether the server will not serve a name, given as characters.
pub fn is_hidden_chars(name: &Vec<char>) -> (r: bool)
    ensures
        r == hidden(name@),
{
    if name.len() == 0 || name[0] != '.' {
        return false;
    }
    let known: Vec<char> = vec!['.', 'w', 'e', 'l', 'l', '-', 'k', 'n', 'o', 'w', 'n'];
    assert(known@ =~= well_known());
    if name.len() != known.len() {
        return true;
    }
    let mut i: usize = 0;
    while i < known.len()
        invariant
            name.len() == known.len(),
            name@.len() > 0 && name@[0] == '.',
            known@ == well_known(),
            i <= known.len(),
            forall|j: int| 0 <= j < i ==> name@[j] == #[trigger] known@[j],
        decreases known.len() - i,
    {
        if name[i] != known[i] {
            assert(name@[i as int] != known@[i as int]);
            return true;
        }
        i = i + 1;
    }
    assert(name@ =~= well_known());
    false
}

/// The one hidden directory the web uses, as bytes.
pub open spec fn well_known_bytes() -> Seq<u8> {
    seq![46u8, 119u8, 101u8, 108u8, 108u8, 45u8, 107u8, 110u8, 111u8, 119u8, 110u8]
}

/// True for a byte that parts the directories of a path.
pub open spec fn separator_byte(platform: Platform, b: u8) -> bool {
    b == 47 || (platform.backslash_parts_paths && b == 92)
}

/// The names of an address, as bytes: the pieces between separators, the
/// empty ones included.
pub open spec fn byte_names(path: Seq<u8>, platform: Platform) -> Seq<Seq<u8>>
    decreases path.len(),
{
    if path.len() == 0 {
        seq![Seq::<u8>::empty()]
    } else {
        let before = byte_names(path.drop_last(), platform);
        if separator_byte(platform, path.last()) {
            before.push(Seq::<u8>::empty())
        } else {
            before.update(before.len() - 1, before.last().push(path.last()))
        }
    }
}

/// True for a name, as bytes, that is hidden and not `.well-known`.
pub open spec fn hidden_bytes(name: Seq<u8>) -> bool {
    name.len() > 0 && name[0] == 46 && name != well_known_bytes()
}

/// True for an address naming a hidden file, decoded first as the file
/// service decodes it. A name is hidden when its first byte is a dot, and
/// reading the bytes as text changes neither that nor `.well-known`: no byte
/// below 128 is ever part of a character written in more than one.
pub open spec fn hidden_address(path: Seq<char>, platform: Platform) -> bool {
    let names = byte_names(unescaped(vstd::utf8::encode_utf8(path)), platform);
    exists|i: int| 0 <= i < names.len() && hidden_bytes(#[trigger] names[i])
}

proof fn lemma_byte_names_nonempty(path: Seq<u8>, platform: Platform)
    ensures
        byte_names(path, platform).len() > 0,
    decreases path.len(),
{
    if path.len() > 0 {
        lemma_byte_names_nonempty(path.drop_last(), platform);
    }
}

/// Whether the bytes of a name are hidden.
fn is_hidden_bytes(name: &Vec<u8>) -> (r: bool)
    ensures
        r == hidden_bytes(name@),
{
    if name.len() == 0 || name[0] != 46 {
        return false;
    }
    let known: Vec<u8> = vec![46u8, 119u8, 101u8, 108u8, 108u8, 45u8, 107u8, 110u8, 111u8, 119u8, 110u8];
    assert(known@ =~= well_known_bytes());
    if name.len() != known.len() {
        return true;
    }
    let mut i: usize = 0;
    while i < known.len()
        invariant
            name.len() == known.len(),
            name@.len() > 0 && name@[0] == 46,
            known@ == well_known_bytes(),
            i <= known.len(),
            forall|j: int| 0 <= j < i ==> name@[j] == #[trigger] known@[j],
        decreases known.len() - i,
    {
        if name[i] != known[i] {
            assert(name@[i as int] != known@[i as int]);
            return true;
        }
        i = i + 1;
    }
    assert(name@ =~= well_known_bytes());
    false
}

/// Whether an address names a hidden file, by the rules of `platform`.
pub fn names_a_hidden_file_on(path: &str, platform: &Platform) -> (r: bool)
    ensures
        r == hidden_address(path@, *platform),
{
    let raw = path.as_bytes();
    let bytes = unescape(raw);
    let mut current: Vec<u8> = Vec::new();
    let ghost mut finished: Seq<Seq<u8>> = Seq::empty();
    let mut found = false;
    assert(bytes@.take(0) =~= Seq::<u8>::empty());
    for i in 0..bytes.len()
        invariant
            byte_names(bytes@.take(i as int), *platform) == finished.push(current@),
            found == exists|k: int| 0 <= k < finished.len() && hidden_bytes(#[trigger] finished[k]),
    {
        let b = bytes[i];
        assert(bytes@.take(i + 1).drop_last() =~= bytes@.take(i as int));
        assert(bytes@.take(i + 1).last() == b);
        if b == 47u8 || (platform.backslash_parts_paths && b == 92u8) {
            let h = is_hidden_bytes(&current);
            let ghost before = finished;
            proof {
                finished = finished.push(current@);
                assert(finished[before.len() as int] == current@);
                assert forall|k: int| 0 <= k < before.len() implies finished[k] == before[k] by {}
            }
            found = found || h;
            current = Vec::new();
            assert(byte_names(bytes@.take(i + 1), *platform) =~= finished.push(current@));
        } else {
            current.push(b);
            assert(byte_names(bytes@.take(i + 1), *platform) =~= finished.push(current@));
        }
    }
    assert(bytes@.take(bytes.len() as int) =~= bytes@);
    let last = is_hidden_bytes(&current);
    let names = Ghost(finished.push(current@));
    assert(names@[finished.len() as int] == current@);
    assert forall|k: int| 0 <= k < finished.len() implies names@[k] == finished[k] by {}
    found || last
}

/// Whether an address names a hidden file, by the rules of the system this
/// runs on: `\` parts names there or it does not.
pub fn names_a_hidden_file(path: &str) -> (r: bool)
    ensures
        r == hidden_address(path@, Platform { backslash_parts_paths: true })
            || r == hidden_address(path@, Platform { backslash_parts_paths: false }),
{
    let platform = Platform::here();
    names_a_hidden_file_on(path, &platform)
}

/// `s` without the separators it starts with.
pub open spec fn without_leading_separators(s: Seq<char>, platform: Platform) -> Seq<char>
    decreases s.len(),
{
    if s.len() > 0 && platform.parts(s[0]) {
        without_leading_separators(s.drop_first(), platform)
    } else {
        s
    }
}

/// The decoded address, relative to the served directory: what the file
/// service looks up below it.
pub fn relative_address(path: &str, platform: &Platform) -> (r: String)
    ensures
        r@ == without_leading_separators(decoded(path@), *platform),
{
    let text = decode(path);
    let chars = chars_of(text.as_str());
    let mut start: usize = 0;
    assert(chars@.skip(0) =~= chars@);
    while start < chars.len() && platform.is_separator(chars[start])
        invariant
            start <= chars.len(),
            without_leading_separators(chars@.skip(start as int), *platform)
                == without_leading_separators(chars@, *platform),
        decreases chars.len() - start,
    {
        assert(chars@.skip(start as int).drop_first() =~= chars@.skip(start + 1));
        start = start + 1;
    }
    let mut rest: Vec<char> = Vec::new();
    let mut i = start;
    while i < chars.len()
        invariant
            start <= i <= chars.len(),
            rest@ == chars@.subrange(start as int, i as int),
        decreases chars.len() - i,
    {
        rest.push(chars[i]);
        i = i + 1;
    }
    assert(rest@ =~= chars@.skip(start as int));
    string_of(&rest)
}

/// True when the address leads inside the served directory, or nowhere at
/// all: the file service answers for a missing file, and answering here
/// would only tell a stranger which names exist.
pub open spec fn inside(resolved: Option<Seq<PartView>>, root: Seq<PartView>) -> bool {
    match resolved {
        None => true,
        Some(r) => leads_with(r, root),
    }
}

/// Whether an address leads inside the served directory, given what the
/// system resolved it to (links followed), or `None` where it leads
/// nowhere.
pub fn leads_inside(resolved: Option<&Vec<Part>>, root: &Vec<Part>) -> (r: bool)
    ensures
        r == inside(
            match resolved {
                Some(p) => Some(parts_view(p@)),
                None => None,
            },
            parts_view(root@),
        ),
{
    match resolved {
        None => true,
        Some(p) => starts_with(p, root),
    }
}

} // verus!
