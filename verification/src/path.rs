//! Turning free text into a string that is safe as a file name.

use vstd::prelude::*;

verus! {

/// The answer of `char::is_alphanumeric` for `c`: whether Unicode classes the
/// character as alphabetic or numeric.
pub uninterp spec fn is_alphanumeric(c: char) -> bool;

/// `char::is_alphanumeric` depends on the character alone; its answer is the
/// one that [`is_alphanumeric`] names.
pub assume_specification[ char::is_alphanumeric ](c: char) -> (b: bool)
    ensures
        b == is_alphanumeric(c),
;

/// A character survives sanitising when it is alphanumeric or a plain space.
pub open spec fn is_safe(c: char) -> bool {
    is_alphanumeric(c) || c == ' '
}

/// What is left of `text` once every unsafe character is dropped.
pub open spec fn safe_chars(text: Seq<char>) -> Seq<char> {
    text.filter(|c: char| is_safe(c))
}

/// Decides whether `c` is kept, given whether it is alphanumeric.
pub fn keeps(c: char, alphanumeric: bool) -> (kept: bool)
    ensures
        kept == (alphanumeric || c == ' '),
{
    alphanumeric || c == ' '
}

/// Reading one more character of `text` either appends it to the safe
/// characters read so far or leaves them as they are.
proof fn lemma_safe_chars_step(text: Seq<char>, i: int)
    requires
        0 <= i < text.len(),
    ensures
        safe_chars(text.take(i + 1)) == if is_safe(text[i]) {
            safe_chars(text.take(i)).push(text[i])
        } else {
            safe_chars(text.take(i))
        },
{
    reveal(Seq::filter);
    assert(text.take(i + 1).drop_last() =~= text.take(i));
}

/// Drops every character of `value` that is neither alphanumeric nor a space,
/// keeping the others in their order.
pub fn safe_path(value: &str) -> (path: String)
    ensures
        path@ == safe_chars(value@),
{
    broadcast use vstd::string::group_string_axioms;

    let mut path = String::new();
    for c in it: value.chars()
        invariant
            it.seq() == value@,
            path@ == safe_chars(value@.take(it.index())),
    {
        proof {
            lemma_safe_chars_step(value@, it.index());
        }
        if keeps(c, c.is_alphanumeric()) {
            path.push(c);
        }
    }
    assert(value@.take(value@.len() as int) =~= value@);
    path
}

} // verus!
