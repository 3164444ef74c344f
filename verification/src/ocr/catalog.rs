//! Finding a chapter in the catalogue: what a page address names, and
//! which of the catalogue's chapters it means.

use vstd::prelude::*;
use vstd::string::*;
use crate::ocr::fixed::UNIT;
use crate::ocr::text::push_char;

verus! {

/// Two chapter numbers closer than this, in millionths, are the same.
pub const CHAPTER_TOLERANCE: i64 = 1_000;

/// Why a page address names no chapter.
#[derive(Clone, Copy, Debug, PartialEq, Eq, Structural)]
pub enum CatalogError {
    /// No segment follows a segment `manga`.
    MissingMangaId,
    /// No segment follows a segment `chapter`.
    MissingChapterNumber,
    /// The segment after `manga` is no 32-bit integer.
    BadMangaId,
}

/// What a page address names: a manga by its id, and a chapter by the text
/// of its number.
#[derive(Debug)]
pub struct ChapterReference {
    pub manga_id: i32,
    pub chapter_number: String,
}

/// A chapter as the catalogue lists it, its number in millionths.
#[derive(Clone, Copy, Debug, PartialEq, Eq)]
pub struct ChapterNode {
    pub id: i32,
    pub chapter_number: i64,
}

/// The path of `url` where it parses as an absolute address.
pub uninterp spec fn parsed_path(url: Seq<char>) -> Option<Seq<char>>;

/// The address `url` with its scheme, host and port replaced, where it
/// parses as an absolute address.
pub uninterp spec fn redirected(url: Seq<char>, scheme: Seq<char>, host: Seq<char>, port: u16) -> Option<
    Seq<char>,
>;


/// `reqwest::Url::parse`, then `Url::path`: the path of an address that
/// parses, which is the named path.
#[verifier::external_body]
fn url_path(url: &str) -> (path: Option<String>)
    ensures
        path matches Some(p) ==> parsed_path(url@) == Some(p@),
        path is None ==> parsed_path(url@) is None,
{
    match reqwest::Url::parse(url) {
        Ok(parsed) => Some(parsed.path().to_string()),
        Err(_) => None,
    }
}

/// `reqwest::Url::parse`, then `set_scheme`, `set_host` and `set_port`,
/// each of which may leave the address as it is, then its text: the named
/// redirected address.
#[verifier::external_body]
fn redirect(url: &str, scheme: &str, host: &str, port: u16) -> (target: Option<String>)
    ensures
        target matches Some(t) ==> redirected(url@, scheme@, host@, port) == Some(t@),
        target is None ==> redirected(url@, scheme@, host@, port) is None,
{
    match reqwest::Url::parse(url) {
        Ok(mut parsed) => {
            let _ = parsed.set_scheme(scheme);
            let _ = parsed.set_host(Some(host));
            let _ = parsed.set_port(Some(port));
            Some(parsed.to_string())
        },
        Err(_) => None,
    }
}

/// Whether `c` is one of the digits `0` to `9`.
pub open spec fn is_digit(c: char) -> bool {
    '0' <= c <= '9'
}

/// Whether `text` holds digits only.
pub open spec fn all_digits(text: Seq<char>) -> bool {
    forall|i: int| 0 <= i < text.len() ==> is_digit(#[trigger] text[i])
}

/// The number that the digits write in decimal.
pub open spec fn decimal(digits: Seq<char>) -> int
    decreases digits.len(),
{
    if digits.len() == 0 {
        0
    } else {
        10 * decimal(digits.drop_last()) + (digits.last() as int - '0' as int)
    }
}

/// Whether `text` begins with a sign.
pub open spec fn has_sign(text: Seq<char>) -> bool {
    text.len() > 0 && (text[0] == '-' || text[0] == '+')
}

/// What follows the sign of `text`, if it has one.
pub open spec fn unsigned_part(text: Seq<char>) -> Seq<char> {
    if has_sign(text) {
        text.subrange(1, text.len() as int)
    } else {
        text
    }
}

/// The 32-bit integer that `text` writes in decimal: an optional sign, then
/// one digit or more, and nothing else. `None` for any other text, and for
/// a number that does not fit.
pub open spec fn decimal_i32(text: Seq<char>) -> Option<i32> {
    let digits = unsigned_part(text);
    let value = if text.len() > 0 && text[0] == '-' {
        -decimal(digits)
    } else {
        decimal(digits)
    };
    if digits.len() == 0 || !all_digits(digits) || value < i32::MIN || value > i32::MAX {
        None
    } else {
        Some(value as i32)
    }
}

proof fn lemma_decimal_grows(digits: Seq<char>, k: int)
    requires
        all_digits(digits),
        0 <= k <= digits.len(),
    ensures
        0 <= decimal(digits.take(k)) <= decimal(digits),
    decreases digits.len(),
{
    if k == digits.len() {
        assert(digits.take(k) == digits);
        if digits.len() > 0 {
            lemma_decimal_grows(digits.drop_last(), k - 1);
            assert(is_digit(digits.last()));
        }
    } else {
        assert(digits.drop_last().take(k) == digits.take(k));
        lemma_decimal_grows(digits.drop_last(), k);
        assert(is_digit(digits.last()));
    }
}

/// Reads a 32-bit integer written in decimal.
pub fn parse_i32(text: &str) -> (value: Option<i32>)
    ensures
        value == decimal_i32(text@),
{
    let mut first = true;
    let mut signed = false;
    let mut negative = false;
    let mut any_digit = false;
    let mut failed = false;
    let mut acc: i64 = 0;
    let ghost mut seen: Seq<char> = Seq::empty();
    proof {
        axiom_spec_iter(text);
        assert(seen.subrange(0, 0) == Seq::<char>::empty());
    }
    for c in it: text.chars()
        invariant
            it.seq() == text@,
            seen == it.history(),
            seen.len() == it.index(),
            seen.len() <= text@.len(),
            forall|i: int| 0 <= i < seen.len() ==> seen[i] == text@[i],
            first == (seen.len() == 0),
            !first ==> signed == has_sign(text@) && negative == (text@[0] == '-'),
            first ==> !signed && !negative && !any_digit && !failed && acc == 0,
            failed ==> decimal_i32(text@) is None,
            !failed ==> {
                let start = if signed { 1int } else { 0int };
                &&& start <= seen.len()
                &&& all_digits(seen.subrange(start, seen.len() as int))
                &&& acc == decimal(seen.subrange(start, seen.len() as int))
                &&& 0 <= acc <= 2147483648
                &&& any_digit == (seen.len() > start)
            },
    {
        let ghost i = seen.len() as int;
        let ghost start = if signed { 1int } else { 0int };
        proof {
            assert(text@[i] == c);
        }
        if first && (c == '+' || c == '-') {
            signed = true;
            negative = c == '-';
            proof {
                assert(seen.push(c).subrange(1, 1) == Seq::<char>::empty());
            }
        } else if failed {
        } else if c >= '0' && c <= '9' {
            let digit: i64 = (c as u32 - 48) as i64;
            let next: i64 = acc * 10 + digit;
            proof {
                let before = seen.subrange(start, i);
                let after = seen.push(c).subrange(start, i + 1);
                assert(after == before.push(c));
                assert(after.drop_last() == before);
                assert(next == decimal(after));
                assert forall|j: int| 0 <= j < after.len() implies is_digit(#[trigger] after[j]) by {
                    if j < before.len() {
                        assert(after[j] == before[j]);
                    }
                }
            }
            if next > 2147483648 {
                proof {
                    let digits = unsigned_part(text@);
                    let after = seen.push(c).subrange(start, i + 1);
                    if all_digits(digits) {
                        assert(digits.take(i + 1 - start) == after);
                        lemma_decimal_grows(digits, i + 1 - start);
                    }
                }
                failed = true;
            } else {
                acc = next;
                any_digit = true;
            }
        } else {
            proof {
                let digits = unsigned_part(text@);
                assert(digits[i - start] == c);
                assert(!is_digit(c));
            }
            failed = true;
        }
        first = false;
        proof {
            seen = seen.push(c);
        }
    }
    assert(seen == text@);
    if failed || !any_digit {
        return None;
    }
    proof {
        let start = if signed { 1int } else { 0int };
        assert(text@.subrange(start, text@.len() as int) == unsigned_part(text@));
    }
    let value: i64 = if negative { -acc } else { acc };
    if value > 2147483647 {
        None
    } else {
        Some(value as i32)
    }
}

/// The views of a sequence of strings.
pub open spec fn texts(strings: Seq<String>) -> Seq<Seq<char>> {
    strings.map_values(|s: String| s@)
}

/// The pieces of `text` between the occurrences of `sep`: one more than
/// there are occurrences.
pub open spec fn pieces(text: Seq<char>, sep: char) -> Seq<Seq<char>>
    decreases text.len(),
{
    if text.len() == 0 {
        seq![Seq::empty()]
    } else {
        let before = pieces(text.drop_last(), sep);
        if text.last() == sep {
            before.push(Seq::empty())
        } else {
            before.drop_last().push(before.last().push(text.last()))
        }
    }
}

/// Index of the first of `parts` from `from` on that equals `key`.
pub open spec fn first_match(parts: Seq<Seq<char>>, key: Seq<char>, from: int) -> Option<int>
    decreases parts.len() - from,
{
    if from < 0 || from >= parts.len() {
        None
    } else if parts[from] == key {
        Some(from)
    } else {
        first_match(parts, key, from + 1)
    }
}

/// The part that follows the first part equal to `key`.
pub open spec fn following(parts: Seq<Seq<char>>, key: Seq<char>) -> Option<Seq<char>> {
    match first_match(parts, key, 0) {
        Some(i) => if i + 1 < parts.len() {
            Some(parts[i + 1])
        } else {
            None
        },
        None => None,
    }
}

/// What identifies the page at `url` whatever its scheme, host or query:
/// its path where the address parses, else what stands before its first
/// question mark.
pub open spec fn cache_key(url: Seq<char>) -> Seq<char> {
    match parsed_path(url) {
        Some(path) => path,
        None => pieces(url, '?')[0],
    }
}

/// The address from which a page is fetched: `url` sent to the local
/// server, or `url` itself where it does not parse.
pub open spec fn local_target(url: Seq<char>) -> Seq<char> {
    match redirected(url, "http"@, "127.0.0.1"@, 4567) {
        Some(target) => target,
        None => url,
    }
}

/// What the address `url` names.
pub open spec fn reference_of(url: Seq<char>) -> Result<(i32, Seq<char>), CatalogError> {
    let parts = pieces(cache_key(url), '/');
    match following(parts, "manga"@) {
        None => Err(CatalogError::MissingMangaId),
        Some(id_text) => match following(parts, "chapter"@) {
            None => Err(CatalogError::MissingChapterNumber),
            Some(number_text) => match decimal_i32(id_text) {
                None => Err(CatalogError::BadMangaId),
                Some(id) => Ok((id, number_text)),
            },
        },
    }
}

/// Whether the catalogue counts its chapters from zero.
pub open spec fn zero_indexed(chapters: Seq<ChapterNode>) -> bool {
    exists|i: int| 0 <= i < chapters.len() && (#[trigger] chapters[i]).chapter_number == 0
}

/// The number under which the catalogue lists the requested chapter: one
/// less where it counts from zero.
pub open spec fn target_number(chapters: Seq<ChapterNode>, requested: i64) -> int {
    if zero_indexed(chapters) {
        requested - UNIT
    } else {
        requested as int
    }
}

/// Whether a chapter's number is the target, within the tolerance.
pub open spec fn is_target(chapter: ChapterNode, target: int) -> bool {
    -CHAPTER_TOLERANCE < chapter.chapter_number - target < CHAPTER_TOLERANCE
}

/// Splitting always yields a piece, be it an empty one.
pub proof fn lemma_pieces_nonempty(text: Seq<char>, sep: char)
    ensures
        pieces(text, sep).len() > 0,
    decreases text.len(),
{
    if text.len() > 0 {
        lemma_pieces_nonempty(text.drop_last(), sep);
    }
}

/// Splits `text` at every occurrence of `sep`.
pub fn split_on(text: &str, sep: char) -> (parts: Vec<String>)
    ensures
        texts(parts@) == pieces(text@, sep),
        parts@.len() > 0,
{
    let mut parts: Vec<String> = Vec::new();
    let mut current = String::new();
    let ghost mut seen: Seq<char> = Seq::empty();
    proof {
        axiom_spec_iter(text);
        assert(texts(parts@).push(current@) == pieces(seen, sep));
    }
    for c in it: text.chars()
        invariant
            it.seq() == text@,
            seen == it.history(),
            seen.len() == it.index(),
            forall|i: int| 0 <= i < seen.len() ==> seen[i] == text@[i],
            texts(parts@).push(current@) == pieces(seen, sep),
    {
        let ghost done = texts(parts@);
        let ghost open = current@;
        proof {
            assert(seen.push(c).drop_last() == seen);
            assert(done.push(open).drop_last() == done);
            assert(done.push(open).last() == open);
        }
        if c == sep {
            let ghost held = parts@;
            parts.push(current);
            current = String::new();
            proof {
                assert(texts(parts@) == texts(held).push(open));
            }
        } else {
            push_char(&mut current, c);
        }
        proof {
            seen = seen.push(c);
        }
    }
    assert(seen == text@);
    let ghost held = parts@;
    let ghost last = current@;
    parts.push(current);
    assert(texts(parts@) == texts(held).push(last));
    parts
}

fn copy_text(s: &String) -> (copy: String)
    ensures
        copy@ == s@,
{
    s.clone()
}

/// The part that follows the first part equal to `key`.
pub fn segment_after(parts: &Vec<String>, key: &str) -> (found: Option<String>)
    ensures
        found matches Some(s) ==> following(texts(parts@), key@) == Some(s@),
        found is None ==> following(texts(parts@), key@) is None,
{
    let wanted = String::from_str(key);
    let mut i: usize = 0;
    while i < parts.len()
        invariant
            i <= parts.len(),
            wanted@ == key@,
            first_match(texts(parts@), key@, 0) == first_match(texts(parts@), key@, i as int),
        decreases parts.len() - i,
    {
        assert(texts(parts@)[i as int] == parts@[i as int]@);
        if parts[i] == wanted {
            if i + 1 < parts.len() {
                assert(texts(parts@)[i + 1] == parts@[i + 1]@);
                return Some(copy_text(&parts[i + 1]));
            } else {
                return None;
            }
        }
        i += 1;
    }
    None
}

/// Strips scheme, host and query from an address, for use as a key.
pub fn get_cache_key(url: &str) -> (key: String)
    ensures
        key@ == cache_key(url@),
{
    match url_path(url) {
        Some(path) => path,
        None => {
            let mut parts = split_on(url, '?');
            proof {
                assert(texts(parts@)[0] == parts@[0]@);
            }
            parts.swap_remove(0)
        },
    }
}

/// The address on the local server from which the page at `url` is
/// fetched; `url` itself where it does not parse as an address.
pub fn local_url(url: &str) -> (target: String)
    ensures
        target@ == local_target(url@),
{
    match redirect(url, "http", "127.0.0.1", 4567) {
        Some(target) => target,
        None => String::from_str(url),
    }
}

/// Reads from a page address which manga and which chapter it names: the
/// segments of its path that follow `manga` and `chapter`.
pub fn chapter_reference(url: &str) -> (named: Result<ChapterReference, CatalogError>)
    ensures
        match reference_of(url@) {
            Ok((id, number)) => named matches Ok(r) && r.manga_id == id && r.chapter_number@
                == number,
            Err(e) => named matches Err(f) && f == e,
        },
{
    let path = get_cache_key(url);
    let parts = split_on(path.as_str(), '/');
    let id_text = match segment_after(&parts, "manga") {
        Some(s) => s,
        None => {
            return Err(CatalogError::MissingMangaId);
        },
    };
    let chapter_number = match segment_after(&parts, "chapter") {
        Some(s) => s,
        None => {
            return Err(CatalogError::MissingChapterNumber);
        },
    };
    match parse_i32(id_text.as_str()) {
        Some(manga_id) => Ok(ChapterReference { manga_id, chapter_number }),
        None => Err(CatalogError::BadMangaId),
    }
}

/// Picks from the catalogue's list the chapter that a page address means:
/// the first whose number is the requested one, or one less where the list
/// counts from zero, within the tolerance.
pub fn select_chapter(chapters: &Vec<ChapterNode>, requested: i64) -> (id: Option<i32>)
    ensures
        id matches Some(found) ==> exists|i: int|
            0 <= i < chapters@.len() && is_target(
                #[trigger] chapters@[i],
                target_number(chapters@, requested),
            ) && chapters@[i].id == found && forall|j: int|
                0 <= j < i ==> !is_target(
                    #[trigger] chapters@[j],
                    target_number(chapters@, requested),
                ),
        id is None ==> forall|i: int|
            0 <= i < chapters@.len() ==> !is_target(
                #[trigger] chapters@[i],
                target_number(chapters@, requested),
            ),
{
    let mut from_zero = false;
    let mut k: usize = 0;
    while k < chapters.len()
        invariant
            k <= chapters.len(),
            from_zero == (exists|i: int|
                0 <= i < k && (#[trigger] chapters@[i]).chapter_number == 0),
        decreases chapters.len() - k,
    {
        if chapters[k].chapter_number == 0 {
            from_zero = true;
        }
        k += 1;
    }
    assert(from_zero == zero_indexed(chapters@));
    let target: i128 = if from_zero {
        requested as i128 - UNIT as i128
    } else {
        requested as i128
    };
    let mut i: usize = 0;
    while i < chapters.len()
        invariant
            i <= chapters.len(),
            target == target_number(chapters@, requested),
            forall|j: int|
                0 <= j < i ==> !is_target(
                    #[trigger] chapters@[j],
                    target_number(chapters@, requested),
                ),
        decreases chapters.len() - i,
    {
        let off: i128 = chapters[i].chapter_number as i128 - target;
        if -(CHAPTER_TOLERANCE as i128) < off && off < CHAPTER_TOLERANCE as i128 {
            return Some(chapters[i].id);
        }
        i += 1;
    }
    None
}

} // verus!
