//! Character-level helpers on strings: searching for a marker, cutting a
//! suffix, and moving between `&str`, `Vec<char>` and `String`.

use vstd::prelude::*;

verus! {

/// `marker` stands in `text` at position `at`.
pub open spec fn occurs_at(text: Seq<char>, marker: Seq<char>, at: int) -> bool {
    &&& 0 <= at
    &&& at + marker.len() <= text.len()
    &&& text.subrange(at, at + marker.len()) == marker
}

/// `part` stands somewhere in `text`.
pub open spec fn occurs_in(text: Seq<char>, part: Seq<char>) -> bool {
    exists|at: int| occurs_at(text, part, at)
}

/// `marker` stands in `text` at `at` and nowhere further right.
pub open spec fn is_last_occurrence(text: Seq<char>, marker: Seq<char>, at: int) -> bool {
    &&& occurs_at(text, marker, at)
    &&& forall|later: int| at < later ==> !occurs_at(text, marker, later)
}

/// What follows the last occurrence of `marker` in `text`; all of `text`
/// where `marker` does not occur.
pub open spec fn after_last(text: Seq<char>, marker: Seq<char>) -> Seq<char> {
    if exists|at: int| occurs_at(text, marker, at) {
        let at = choose|at: int| is_last_occurrence(text, marker, at);
        text.skip(at + marker.len())
    } else {
        text
    }
}

/// `text` begins with `prefix`.
pub open spec fn has_prefix(text: Seq<char>, prefix: Seq<char>) -> bool {
    prefix.len() <= text.len() && text.take(prefix.len() as int) == prefix
}

/// `text` ends with `suffix`.
pub open spec fn has_suffix(text: Seq<char>, suffix: Seq<char>) -> bool {
    suffix.len() <= text.len() && text.skip(text.len() - suffix.len()) == suffix
}

/// Two last occurrences of one marker are the same position.
pub proof fn lemma_last_occurrence_unique(text: Seq<char>, marker: Seq<char>, a: int, b: int)
    requires
        is_last_occurrence(text, marker, a),
        is_last_occurrence(text, marker, b),
    ensures
        a == b,
{
}

/// `String::push`: the string grows by the one character `c` at its end.
#[verifier::external_body]
fn push_char(text: &mut String, c: char)
    ensures
        final(text)@ == old(text)@.push(c),
{
    text.push(c);
}

/// The characters of `s`, in order.
pub fn chars_of(s: &str) -> (chars: Vec<char>)
    ensures
        chars@ == s@,
{
    let mut chars: Vec<char> = Vec::new();
    for c in it: s.chars()
        invariant
            it.seq() == s@,
            chars@ =~= it.seq().take(it.index()),
    {
        chars.push(c);
    }
    assert(s@.take(s@.len() as int) =~= s@);
    chars
}

/// The string made of `chars[from..to]`.
pub fn string_of(chars: &Vec<char>, from: usize, to: usize) -> (text: String)
    requires
        from <= to <= chars.len(),
    ensures
        text@ == chars@.subrange(from as int, to as int),
{
    let mut text = String::new();
    let mut i: usize = from;
    while i < to
        invariant
            from <= i <= to <= chars.len(),
            text@ =~= chars@.subrange(from as int, i as int),
        decreases to - i,
    {
        push_char(&mut text, chars[i]);
        i += 1;
    }
    text
}

/// Whether `marker` stands in `text` at position `at`.
pub fn matches_at(text: &Vec<char>, marker: &Vec<char>, at: usize) -> (found: bool)
    requires
        at + marker.len() <= text.len(),
    ensures
        found == occurs_at(text@, marker@, at as int),
{
    let mut k: usize = 0;
    while k < marker.len()
        invariant
            at + marker.len() <= text.len(),
            k <= marker.len(),
            forall|j: int| 0 <= j < k ==> text@[at + j] == marker@[j],
        decreases marker.len() - k,
    {
        if text[at + k] != marker[k] {
            assert(text@.subrange(at as int, at + marker.len())[k as int] != marker@[k as int]);
            return false;
        }
        k += 1;
    }
    assert(text@.subrange(at as int, at + marker.len()) =~= marker@);
    true
}

/// The position of the last occurrence of `marker` in `text`, if it occurs.
pub fn find_last(text: &Vec<char>, marker: &Vec<char>) -> (found: Option<usize>)
    ensures
        match found {
            Some(at) => is_last_occurrence(text@, marker@, at as int),
            None => forall|at: int| !occurs_at(text@, marker@, at),
        },
{
    if marker.len() > text.len() {
        return None;
    }
    let mut at: usize = text.len() - marker.len();
    loop
        invariant
            at + marker.len() <= text.len(),
            forall|later: int| at < later ==> !occurs_at(text@, marker@, later),
        decreases at,
    {
        if matches_at(text, marker, at) {
            return Some(at);
        }
        if at == 0 {
            return None;
        }
        at -= 1;
    }
}

/// What follows the last occurrence of `marker` in `text`, as a string of
/// its own; all of `text` where `marker` does not occur.
pub fn suffix_after_last(text: &str, marker: &str) -> (rest: String)
    ensures
        rest@ == after_last(text@, marker@),
{
    let chars = chars_of(text);
    let pattern = chars_of(marker);
    match find_last(&chars, &pattern) {
        Some(at) => {
            proof {
                let chosen = choose|p: int| is_last_occurrence(text@, marker@, p);
                lemma_last_occurrence_unique(text@, marker@, at as int, chosen);
            }
            let end = chars.len();
            assert(at + pattern@.len() <= end);
            string_of(&chars, at + pattern.len(), end)
        },
        None => string_of(&chars, 0, chars.len()),
    }
}

/// Whether `text` begins with `prefix`.
pub fn starts_with(text: &Vec<char>, prefix: &Vec<char>) -> (yes: bool)
    ensures
        yes == has_prefix(text@, prefix@),
{
    if prefix.len() > text.len() {
        return false;
    }
    let yes = matches_at(text, prefix, 0);
    assert(text@.take(prefix@.len() as int) =~= text@.subrange(0, prefix@.len() as int));
    yes
}

/// Whether `text` ends with `suffix`.
pub fn ends_with(text: &Vec<char>, suffix: &Vec<char>) -> (yes: bool)
    ensures
        yes == has_suffix(text@, suffix@),
{
    if suffix.len() > text.len() {
        return false;
    }
    let at = text.len() - suffix.len();
    let yes = matches_at(text, suffix, at);
    assert(text@.skip(at as int) =~= text@.subrange(at as int, at + suffix@.len()));
    yes
}

} // verus!
