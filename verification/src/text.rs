//! Small verified operations on text.

use vstd::prelude::*;
use vstd::utf8::{decode_utf8, valid_utf8};

verus! {

/// The error of `core::str::from_utf8`.
#[verifier::external_type_specification]
#[verifier::external_body]
pub struct ExUtf8Error(core::str::Utf8Error);

/// `core::str::from_utf8` succeeds on the byte sequences that are valid UTF-8
/// and on no others, and the string it then returns holds the characters
/// that the bytes encode.
pub assume_specification[ core::str::from_utf8 ](bytes: &[u8]) -> (decoded: Result<
    &str,
    core::str::Utf8Error,
>)
    ensures
        decoded is Ok <==> valid_utf8(bytes@),
        decoded matches Ok(text) ==> text@ == decode_utf8(bytes@),
;

/// `String::push` appends the character to the end of the string.
pub assume_specification[ String::push ](s: &mut String, c: char)
    ensures
        final(s)@ == old(s)@.push(c),
;

/// The views of a sequence of strings.
pub open spec fn texts(strings: Seq<String>) -> Seq<Seq<char>> {
    strings.map_values(|s: String| s@)
}

/// How many elements of `s` stand before the first at which `stops` holds:
/// all of them where it holds at none.
pub open spec fn run_length<T>(s: Seq<T>, stops: spec_fn(T) -> bool) -> nat
    decreases s.len(),
{
    if s.len() == 0 || stops(s[0]) {
        0
    } else {
        1 + run_length(s.drop_first(), stops)
    }
}

/// `part` stands in `text` from position `at` on.
pub open spec fn occurs_at<T>(text: Seq<T>, part: Seq<T>, at: int) -> bool {
    0 <= at && at + part.len() <= text.len() && text.subrange(at, at + part.len()) == part
}

/// `part` stands somewhere in `text`.
pub open spec fn contains_text<T>(text: Seq<T>, part: Seq<T>) -> bool {
    exists|at: int| occurs_at(text, part, at)
}

/// The run lies within `s` and `stops` holds nowhere in it, and where the
/// run ends short of the end, `stops` holds of what follows.
pub proof fn lemma_run_length<T>(s: Seq<T>, stops: spec_fn(T) -> bool)
    ensures
        run_length(s, stops) <= s.len(),
        forall|k: int| 0 <= k < run_length(s, stops) ==> !stops(s[k]),
        run_length(s, stops) < s.len() ==> stops(s[run_length(s, stops) as int]),
    decreases s.len(),
{
    if s.len() != 0 && !stops(s[0]) {
        let rest = s.drop_first();
        lemma_run_length(rest, stops);
        assert forall|k: int| 0 <= k < run_length(s, stops) implies !stops(s[k]) by {
            if k > 0 {
                assert(s[k] == rest[k - 1]);
            }
        }
        if run_length(s, stops) < s.len() {
        }
    }
}

/// A prefix in which `stops` holds nowhere, and which reaches the end or an
/// element of which `stops` holds, is the run.
pub proof fn lemma_run_length_is<T>(s: Seq<T>, stops: spec_fn(T) -> bool, n: int)
    requires
        0 <= n <= s.len(),
        forall|k: int| 0 <= k < n ==> !stops(s[k]),
        n < s.len() ==> stops(s[n]),
    ensures
        run_length(s, stops) == n,
{
    lemma_run_length(s, stops);
    let found = run_length(s, stops) as int;
    if found < n {
    } else if n < found {
    }
}

/// Whether two byte slices hold the same bytes.
pub fn same_bytes(a: &[u8], b: &[u8]) -> (same: bool)
    ensures
        same == (a@ == b@),
{
    if a.len() != b.len() {
        return false;
    }
    let mut i: usize = 0;
    while i < a.len()
        invariant
            a.len() == b.len(),
            i <= a.len(),
            a@.take(i as int) == b@.take(i as int),
        decreases a.len() - i,
    {
        if a[i] != b[i] {
            return false;
        }
        i += 1;
    }
    assert(a@ =~= a@.take(a.len() as int));
    assert(b@ =~= b@.take(b.len() as int));
    true
}

/// Whether two strings hold the same characters.
pub fn same_text(a: &str, b: &str) -> (same: bool)
    ensures
        same == (a@ == b@),
{
    proof {
        // Encoding loses nothing, so equal encodings come from equal texts.
        vstd::utf8::encode_utf8_decode_utf8(a@);
        vstd::utf8::encode_utf8_decode_utf8(b@);
    }
    same_bytes(a.as_bytes(), b.as_bytes())
}

/// The characters of `text`, one by one.
pub fn characters(text: &str) -> (chars: Vec<char>)
    ensures
        chars@ == text@,
{
    broadcast use vstd::string::group_string_axioms;

    let mut chars: Vec<char> = Vec::new();
    for c in it: text.chars()
        invariant
            it.seq() == text@,
            chars@ == text@.take(it.index()),
    {
        chars.push(c);
    }
    chars
}

/// The string that holds `chars`.
pub fn string_of(chars: &[char]) -> (text: String)
    ensures
        text@ == chars@,
{
    let mut text = String::new();
    for i in 0..chars.len()
        invariant
            text@ == chars@.take(i as int),
    {
        text.push(chars[i]);
    }
    text
}

/// Whether `part` stands in `text` from position `at` on.
pub fn stands_at(text: &[char], part: &[char], at: usize) -> (stands: bool)
    ensures
        stands == occurs_at(text@, part@, at as int),
{
    if at > text.len() || part.len() > text.len() - at {
        return false;
    }
    let ghost window = text@.subrange(at as int, at + part.len());
    let mut i: usize = 0;
    while i < part.len()
        invariant
            at + part.len() <= text.len(),
            i <= part.len(),
            window == text@.subrange(at as int, at + part.len()),
            window.take(i as int) == part@.take(i as int),
        decreases part.len() - i,
    {
        if text[at + i] != part[i] {
            return false;
        }
        i += 1;
    }
    assert(window =~= window.take(part.len() as int));
    assert(part@ =~= part@.take(part.len() as int));
    true
}

/// Whether `part` stands somewhere in `text`.
pub fn contains(text: &[char], part: &[char]) -> (found: bool)
    ensures
        found == contains_text(text@, part@),
{
    if part.len() > text.len() {
        return false;
    }
    if part.len() == 0 {
        assert(occurs_at(text@, part@, 0)) by {
            assert(text@.subrange(0, 0) =~= part@);
        }
        return true;
    }
    let last = text.len() - part.len();
    let mut at: usize = 0;
    while at <= last
        invariant
            last < text.len(),
            last == text.len() - part.len(),
            at <= last + 1,
            forall|k: int| 0 <= k < at ==> !occurs_at(text@, part@, k),
        decreases last + 1 - at,
    {
        if stands_at(text, part, at) {
            return true;
        }
        at += 1;
    }
    false
}

/// Reads bytes as text, where they are valid UTF-8.
pub fn decode(bytes: &[u8]) -> (text: Option<&str>)
    ensures
        text is Some <==> valid_utf8(bytes@),
        text matches Some(read) ==> read@ == decode_utf8(bytes@),
{
    match core::str::from_utf8(bytes) {
        Ok(read) => Some(read),
        Err(_) => None,
    }
}

} // verus!
