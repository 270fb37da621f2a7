//! Text handling shared by the rest of the library: characters of a string,
//! removal and search of a pattern, and the two Unicode questions that the
//! standard library answers.

use vstd::prelude::*;
use vstd::string::*;

verus! {

/// The lower-case form of a string, as `str::to_lowercase` gives it.
pub uninterp spec fn lowercase_of(s: Seq<char>) -> Seq<char>;

/// Whether a character is alphabetic or numeric, as `char::is_alphanumeric`
/// decides it.
pub uninterp spec fn is_alphanumeric_char(c: char) -> bool;

/// `str::to_lowercase`: the result is the lower-case form of the argument.
/// Nothing is claimed about what that form is.
pub assume_specification[ str::to_lowercase ](s: &str) -> (r: String)
    ensures
        r@ == lowercase_of(s@),
;

/// `char::is_alphanumeric`: the result is the named property of the
/// character. Nothing is claimed about which characters have it.
pub assume_specification[ char::is_alphanumeric ](c: char) -> (r: bool)
    ensures
        r == is_alphanumeric_char(c),
;

/// `String::push`: the string with the character at its end.
pub assume_specification[ String::push ](s: &mut String, c: char)
    ensures
        final(s)@ == old(s)@.push(c),
;

/// `s` with the occurrences of `pat` taken out in one pass from the left.
/// Text that only comes to match once an occurrence before it is gone stays.
pub open spec fn without(s: Seq<char>, pat: Seq<char>) -> Seq<char>
    decreases s.len(),
{
    if s.len() == 0 {
        s
    } else if pat.len() > 0 && pat.is_prefix_of(s) {
        without(s.skip(pat.len() as int), pat)
    } else {
        seq![s[0]] + without(s.skip(1), pat)
    }
}

/// Whether `pat` occurs in `s` as a run of consecutive characters.
pub open spec fn occurs_in(pat: Seq<char>, s: Seq<char>) -> bool {
    exists|i: int| 0 <= i <= s.len() - pat.len() && #[trigger] s.subrange(i, i + pat.len()) == pat
}

/// The characters of a string, in order.
pub fn chars_of(s: &str) -> (r: Vec<char>)
    ensures
        r@ == s@,
{
    let mut out: Vec<char> = Vec::new();
    for c in iter: s.chars()
        invariant
            iter.seq() == s@,
            out@ == s@.take(iter.index()),
    {
        assert(s@.take(iter.index() + 1) == s@.take(iter.index()).push(c));
        out.push(c);
    }
    assert(s@.take(s@.len() as int) == s@);
    out
}

/// Whether `pat` stands in `s` at position `at`.
pub fn matches_at(s: &Vec<char>, at: usize, pat: &Vec<char>) -> (r: bool)
    requires
        at <= s.len(),
    ensures
        r == pat@.is_prefix_of(s@.skip(at as int)),
{
    if pat.len() > s.len() - at {
        return false;
    }
    let mut j: usize = 0;
    while j < pat.len()
        invariant
            at <= s.len(),
            pat.len() <= s.len() - at,
            j <= pat.len(),
            forall|k: int| 0 <= k < j ==> s@[at + k] == pat@[k],
        decreases pat.len() - j,
    {
        if s[at + j] != pat[j] {
            assert(s@.skip(at as int)[j as int] != pat@[j as int]);
            return false;
        }
        j = j + 1;
    }
    assert(pat@ =~= s@.skip(at as int).subrange(0, pat@.len() as int));
    true
}

/// Takes every occurrence of `pat` out of `s`, in one pass from the left.
pub fn remove_all(s: &Vec<char>, pat: &Vec<char>) -> (r: Vec<char>)
    ensures
        r@ == without(s@, pat@),
{
    let mut out: Vec<char> = Vec::new();
    let mut i: usize = 0;
    assert(s@.skip(0) == s@);
    while i < s.len()
        invariant
            i <= s.len(),
            without(s@, pat@) == out@ + without(s@.skip(i as int), pat@),
        decreases s.len() - i,
    {
        let ghost rest = s@.skip(i as int);
        if pat.len() > 0 && matches_at(s, i, pat) {
            assert(rest.skip(pat@.len() as int) == s@.skip(i + pat@.len()));
            i = i + pat.len();
        } else {
            assert(rest.skip(1) == s@.skip(i + 1));
            assert(out@.push(s@[i as int]) + without(rest.skip(1), pat@) == out@ + (seq![rest[0]]
                + without(rest.skip(1), pat@)));
            out.push(s[i]);
            i = i + 1;
        }
    }
    assert(out@ + Seq::<char>::empty() == out@);
    out
}

/// Whether `pat` occurs somewhere in `s`.
pub fn contains_pattern(s: &Vec<char>, pat: &Vec<char>) -> (r: bool)
    ensures
        r == occurs_in(pat@, s@),
{
    if pat.len() > s.len() {
        return false;
    }
    let last: usize = s.len() - pat.len();
    let mut i: usize = 0;
    while i <= last
        invariant
            last == s.len() - pat.len(),
            i <= last + 1,
            forall|k: int| 0 <= k < i ==> #[trigger] s@.subrange(k, k + pat@.len()) != pat@,
        decreases last + 1 - i,
    {
        if matches_at(s, i, pat) {
            assert(s@.skip(i as int).subrange(0, pat@.len() as int) == s@.subrange(
                i as int,
                i + pat@.len(),
            ));
            return true;
        }
        assert(s@.skip(i as int).subrange(0, pat@.len() as int) == s@.subrange(
            i as int,
            i + pat@.len(),
        ));
        i = i + 1;
    }
    false
}

/// Whether a list of characters spells the string `s`.
pub fn spells(chars: &Vec<char>, s: &str) -> (r: bool)
    ensures
        r == (chars@ == s@),
{
    let wanted = chars_of(s);
    if chars.len() != wanted.len() {
        return false;
    }
    let mut i: usize = 0;
    while i < chars.len()
        invariant
            chars.len() == wanted.len(),
            wanted@ == s@,
            i <= chars.len(),
            forall|k: int| 0 <= k < i ==> chars@[k] == wanted@[k],
        decreases chars.len() - i,
    {
        if chars[i] != wanted[i] {
            return false;
        }
        i = i + 1;
    }
    assert(chars@ =~= wanted@);
    true
}

/// The text of the characters from position `from` up to position `to`.
pub fn string_of(chars: &Vec<char>, from: usize, to: usize) -> (r: String)
    requires
        from <= to <= chars.len(),
    ensures
        r@ == chars@.subrange(from as int, to as int),
{
    let mut out = String::new();
    let mut i: usize = from;
    while i < to
        invariant
            from <= i <= to,
            to <= chars.len(),
            out@ == chars@.subrange(from as int, i as int),
        decreases to - i,
    {
        out.push(chars[i]);
        assert(chars@.subrange(from as int, i + 1) == chars@.subrange(from as int, i as int).push(
            chars@[i as int],
        ));
        i = i + 1;
    }
    out
}

/// Taking a pattern out of a text that ends in the pattern takes that last
/// occurrence out too, and nothing else changes: the pattern at the end
/// never runs together with what stands before it, as long as its first
/// character occurs in it only once.
pub proof fn lemma_without_appended_pattern(s: Seq<char>, pat: Seq<char>)
    requires
        pat.len() > 0,
        forall|k: int| 1 <= k < pat.len() ==> #[trigger] pat[k] != pat[0],
    ensures
        without(s + pat, pat) == without(s, pat),
    decreases s.len(),
{
    let n = pat.len() as int;
    if s.len() == 0 {
        assert(s + pat == pat);
        assert(pat.is_prefix_of(pat));
        assert(pat.skip(n).len() == 0);
        assert(without(pat, pat) == without(pat.skip(n), pat));
    } else if pat.is_prefix_of(s) {
        assert(pat.is_prefix_of(s + pat));
        assert((s + pat).skip(n) == s.skip(n) + pat);
        lemma_without_appended_pattern(s.skip(n), pat);
    } else {
        if pat.is_prefix_of(s + pat) {
            if s.len() >= n {
                assert(s.subrange(0, n) =~= (s + pat).subrange(0, n));
            } else {
                assert((s + pat)[s.len() as int] == pat[0]);
                assert(pat[s.len() as int] == (s + pat).subrange(0, n)[s.len() as int]);
            }
            assert(false);
        }
        assert((s + pat).skip(1) == s.skip(1) + pat);
        assert((s + pat)[0] == s[0]);
        lemma_without_appended_pattern(s.skip(1), pat);
    }
}

/// Taking one pattern out of a text leaves another text at its end alone,
/// where that ending holds none of the characters of the pattern but, at
/// its very front, the pattern's first, and does not start with the
/// pattern.
pub proof fn lemma_without_keeps_ending(s: Seq<char>, pat: Seq<char>, ending: Seq<char>)
    requires
        pat.len() > 0,
        ending.len() > 0,
        !pat.is_prefix_of(ending),
        forall|k: int| 1 <= k < pat.len() ==> #[trigger] pat[k] != pat[0],
        forall|i: int, k: int|
            0 <= i < ending.len() && 0 <= k < pat.len() && (i > 0 || k > 0) ==> ending[i] != pat[k],
    ensures
        without(s + ending, pat) == without(s, pat) + ending,
    decreases s.len(),
{
    let n = pat.len() as int;
    if s.len() == 0 {
        assert(s + ending == ending);
        lemma_without_foreign(ending, pat);
        assert(without(s, pat) + ending == ending);
    } else if pat.is_prefix_of(s) {
        assert(pat.is_prefix_of(s + ending));
        assert((s + ending).skip(n) == s.skip(n) + ending);
        lemma_without_keeps_ending(s.skip(n), pat, ending);
    } else {
        if pat.is_prefix_of(s + ending) {
            if s.len() >= n {
                assert(s.subrange(0, n) =~= (s + ending).subrange(0, n));
            } else {
                assert((s + ending)[s.len() as int] == ending[0]);
                assert(pat[s.len() as int] == (s + ending).subrange(0, n)[s.len() as int]);
            }
            assert(false);
        }
        assert((s + ending).skip(1) == s.skip(1) + ending);
        assert((s + ending)[0] == s[0]);
        lemma_without_keeps_ending(s.skip(1), pat, ending);
        assert(seq![s[0]] + (without(s.skip(1), pat) + ending) == (seq![s[0]] + without(
            s.skip(1),
            pat,
        )) + ending);
    }
}

/// A text that does not start with a pattern, and holds the pattern's
/// first character nowhere but perhaps at its front, holds no occurrence
/// of the pattern: taking the pattern out changes nothing.
pub proof fn lemma_without_foreign(s: Seq<char>, pat: Seq<char>)
    requires
        pat.len() > 0,
        !pat.is_prefix_of(s),
        forall|i: int| 1 <= i < s.len() ==> #[trigger] s[i] != pat[0],
    ensures
        without(s, pat) == s,
    decreases s.len(),
{
    if s.len() > 0 {
        let rest = s.skip(1);
        if pat.is_prefix_of(rest) {
            assert(rest.subrange(0, pat.len() as int)[0] == pat[0]);
            assert(rest[0] == s[1]);
            assert(false);
        }
        assert forall|i: int| 1 <= i < rest.len() implies #[trigger] rest[i] != pat[0] by {
            assert(rest[i] == s[i + 1]);
        }
        lemma_without_foreign(rest, pat);
        assert(seq![s[0]] + rest == s);
    }
}

/// Taking a pattern out of a text never takes out a character that the
/// pattern does not hold.
pub proof fn lemma_without_keeps_foreign_chars(s: Seq<char>, pat: Seq<char>, c: char)
    requires
        s.contains(c),
        !pat.contains(c),
    ensures
        without(s, pat).contains(c),
    decreases s.len(),
{
    let i = choose|i: int| 0 <= i < s.len() && s[i] == c;
    let n = pat.len() as int;
    if pat.len() > 0 && pat.is_prefix_of(s) {
        if i < n {
            assert(s.subrange(0, n)[i] == pat[i]);
            assert(pat.contains(c));
        }
        assert(s.skip(n)[i - n] == c);
        lemma_without_keeps_foreign_chars(s.skip(n), pat, c);
    } else {
        let rest = without(s.skip(1), pat);
        if i == 0 {
            assert((seq![s[0]] + rest)[0] == c);
        } else {
            assert(s.skip(1)[i - 1] == c);
            lemma_without_keeps_foreign_chars(s.skip(1), pat, c);
            let j = choose|j: int| 0 <= j < rest.len() && rest[j] == c;
            assert((seq![s[0]] + rest)[j + 1] == c);
        }
    }
}

} // verus!
