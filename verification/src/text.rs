//! Text operations over sequences of characters.

use vstd::prelude::*;
use vstd::string::StringExecFns;

verus! {

/// `String::push` appends one character to the end of the string.
pub assume_specification[ String::push ](s: &mut String, c: char)
    ensures
        final(s)@ == old(s)@.push(c),
;

/// The characters of a string.
pub fn chars_of(s: &str) -> (chars: Vec<char>)
    ensures
        chars@ == s@,
{
    let mut chars: Vec<char> = Vec::new();
    for c in it: s.chars()
        invariant
            it.seq() == s@,
            chars@ == s@.take(it.index()),
    {
        chars.push(c);
        assert(s@.take(it.index() + 1) =~= s@.take(it.index()).push(c));
    }
    assert(s@.take(s@.len() as int) =~= s@);
    chars
}

/// Appends the characters from `from` up to `to` to the string.
pub fn push_chars(out: &mut String, chars: &Vec<char>, from: usize, to: usize)
    requires
        from <= to <= chars@.len(),
    ensures
        final(out)@ == old(out)@ + chars@.subrange(from as int, to as int),
{
    let ghost before = out@;
    let mut i: usize = from;
    assert(before + chars@.subrange(from as int, from as int) =~= before);
    while i < to
        invariant
            from <= i <= to <= chars@.len(),
            out@ == before + chars@.subrange(from as int, i as int),
        decreases to - i,
    {
        out.push(chars[i]);
        assert(before + chars@.subrange(from as int, i + 1) =~= (before + chars@.subrange(
            from as int,
            i as int,
        )).push(chars@[i as int]));
        i += 1;
    }
}

/// Characters with the Unicode property White_Space.
pub open spec fn is_space(c: char) -> bool {
    ||| '\u{9}' <= c <= '\u{d}'
    ||| c == ' '
    ||| c == '\u{85}'
    ||| c == '\u{a0}'
    ||| c == '\u{1680}'
    ||| '\u{2000}' <= c <= '\u{200a}'
    ||| c == '\u{2028}'
    ||| c == '\u{2029}'
    ||| c == '\u{202f}'
    ||| c == '\u{205f}'
    ||| c == '\u{3000}'
}

/// Tells whether the character has the Unicode property White_Space.
pub fn is_white_space(c: char) -> (space: bool)
    ensures
        space == is_space(c),
{
    ('\u{9}' <= c && c <= '\u{d}') || c == ' ' || c == '\u{85}' || c == '\u{a0}' || c == '\u{1680}' || (
    '\u{2000}' <= c && c <= '\u{200a}') || c == '\u{2028}' || c == '\u{2029}' || c == '\u{202f}' || c
        == '\u{205f}' || c == '\u{3000}'
}

/// The text without the white space that it starts with.
pub open spec fn trimmed_start(s: Seq<char>) -> Seq<char>
    decreases s.len(),
{
    if s.len() > 0 && is_space(s[0]) {
        trimmed_start(s.skip(1))
    } else {
        s
    }
}

/// The text without the white space that it ends with.
pub open spec fn trimmed_end(s: Seq<char>) -> Seq<char>
    decreases s.len(),
{
    if s.len() > 0 && is_space(s.last()) {
        trimmed_end(s.drop_last())
    } else {
        s
    }
}

/// The text without white space at either end.
pub open spec fn trimmed(s: Seq<char>) -> Seq<char> {
    trimmed_end(trimmed_start(s))
}

/// Removes white space from both ends of the text.
pub fn trim(s: &str) -> (out: String)
    ensures
        out@ == trimmed(s@),
{
    let chars = chars_of(s);
    let ghost all = s@;
    let len = chars.len();
    let mut from: usize = 0;
    assert(all.skip(0) =~= all);
    while from < len && is_white_space(chars[from])
        invariant
            chars@ == all,
            len == all.len(),
            from <= len,
            trimmed_start(all) == trimmed_start(all.skip(from as int)),
        decreases len - from,
    {
        assert(all.skip(from as int).skip(1) =~= all.skip(from + 1));
        from += 1;
    }
    let ghost kept = all.skip(from as int);
    assert(trimmed_start(all) == kept);
    let mut to: usize = len;
    assert(all.subrange(from as int, len as int) =~= kept);
    while to > from && is_white_space(chars[to - 1])
        invariant
            chars@ == all,
            len == all.len(),
            from <= to <= len,
            trimmed_end(kept) == trimmed_end(all.subrange(from as int, to as int)),
        decreases to,
    {
        assert(all.subrange(from as int, to as int).drop_last() =~= all.subrange(
            from as int,
            to - 1,
        ));
        to -= 1;
    }
    let mut out = String::new();
    push_chars(&mut out, &chars, from, to);
    assert(out@ =~= all.subrange(from as int, to as int));
    out
}

/// Nothing is left of a text exactly when it holds white space only.
pub proof fn law_trimmed_empty(s: Seq<char>)
    ensures
        trimmed(s).len() == 0 <==> forall|i: int| 0 <= i < s.len() ==> is_space(#[trigger] s[i]),
    decreases s.len(),
{
    if s.len() > 0 && is_space(s[0]) {
        law_trimmed_empty(s.skip(1));
        if trimmed(s).len() == 0 {
            assert forall|i: int| 0 <= i < s.len() implies is_space(#[trigger] s[i]) by {
                if i > 0 {
                    assert(s.skip(1)[i - 1] == s[i]);
                }
            }
        }
    } else if s.len() > 0 {
        lemma_trimmed_end_keeps_first(s);
    }
}

proof fn lemma_trimmed_end_keeps_first(s: Seq<char>)
    requires
        s.len() > 0,
        !is_space(s[0]),
    ensures
        trimmed_end(s).len() > 0,
        trimmed_end(s)[0] == s[0],
    decreases s.len(),
{
    if is_space(s.last()) {
        lemma_trimmed_end_keeps_first(s.drop_last());
    }
}

/// `pat` occurs in `s` at position `i`.
pub open spec fn occurs_at(s: Seq<char>, pat: Seq<char>, i: int) -> bool {
    &&& 0 <= i
    &&& i + pat.len() <= s.len()
    &&& s.subrange(i, i + pat.len()) == pat
}

/// `pat` occurs somewhere in `s`.
pub open spec fn occurs(s: Seq<char>, pat: Seq<char>) -> bool {
    exists|i: int| occurs_at(s, pat, i)
}

/// `s` ends with `pat`.
pub open spec fn has_suffix(s: Seq<char>, pat: Seq<char>) -> bool {
    occurs_at(s, pat, s.len() - pat.len())
}

/// Tells whether `pat` occurs in `s` at position `i`.
fn matches_at(s: &Vec<char>, pat: &Vec<char>, i: usize) -> (found: bool)
    requires
        i <= s@.len(),
    ensures
        found == occurs_at(s@, pat@, i as int),
{
    let total = s.len();
    if pat.len() > total - i {
        return false;
    }
    let len = pat.len();
    let mut k: usize = 0;
    while k < len
        invariant
            len == pat@.len(),
            total == s@.len(),
            i + len <= total,
            k <= len,
            forall|j: int| 0 <= j < k ==> s@[i + j] == #[trigger] pat@[j],
        decreases len - k,
    {
        if s[i + k] != pat[k] {
            assert(s@.subrange(i as int, i + len)[k as int] != pat@[k as int]);
            return false;
        }
        k += 1;
    }
    assert(s@.subrange(i as int, i + len) =~= pat@);
    true
}

/// Position of the first occurrence of `pat` in `s`, or the length of `s`.
fn find(s: &Vec<char>, pat: &Vec<char>) -> (at: usize)
    requires
        pat@.len() > 0,
    ensures
        at <= s@.len(),
        at < s@.len() ==> occurs_at(s@, pat@, at as int),
        forall|i: int| i < at ==> !#[trigger] occurs_at(s@, pat@, i),
        at == s@.len() ==> !occurs(s@, pat@),
{
    let len = s.len();
    let mut i: usize = 0;
    while i < len
        invariant
            len == s@.len(),
            i <= len,
            pat@.len() > 0,
            forall|j: int| j < i ==> !#[trigger] occurs_at(s@, pat@, j),
        decreases len - i,
    {
        if matches_at(s, pat, i) {
            return i;
        }
        i += 1;
    }
    len
}

/// Tells whether `pat` occurs in `s`.
pub fn contains(s: &str, pat: &str) -> (found: bool)
    requires
        pat@.len() > 0,
    ensures
        found == occurs(s@, pat@),
{
    let s = chars_of(s);
    let pat = chars_of(pat);
    find(&s, &pat) < s.len()
}

/// The text with the first occurrence of `pat` replaced by `with`.
pub open spec fn replaced_first(s: Seq<char>, pat: Seq<char>, with: Seq<char>) -> Seq<char>
    decreases s.len(),
{
    if occurs_at(s, pat, 0) {
        with + s.skip(pat.len() as int)
    } else if s.len() == 0 {
        s
    } else {
        seq![s[0]] + replaced_first(s.skip(1), pat, with)
    }
}

/// The text with every occurrence of `pat` replaced by `with`, from left to
/// right, each search going on behind the occurrence before it.
pub open spec fn replaced_all(s: Seq<char>, pat: Seq<char>, with: Seq<char>) -> Seq<char>
    decreases s.len(),
{
    if s.len() == 0 || pat.len() == 0 {
        s
    } else if occurs_at(s, pat, 0) {
        with + replaced_all(s.skip(pat.len() as int), pat, with)
    } else {
        seq![s[0]] + replaced_all(s.skip(1), pat, with)
    }
}

proof fn lemma_occurs_at_skip(s: Seq<char>, pat: Seq<char>, from: int, i: int)
    requires
        0 <= from <= s.len(),
        0 <= i,
    ensures
        occurs_at(s.skip(from), pat, i) == occurs_at(s, pat, from + i),
{
    if from + i + pat.len() <= s.len() {
        assert(s.skip(from).subrange(i, i + pat.len()) =~= s.subrange(
            from + i,
            from + i + pat.len(),
        ));
    }
}

/// The text before the first occurrence stays, and so does the text behind it.
pub proof fn law_replaced_first(s: Seq<char>, pat: Seq<char>, with: Seq<char>, at: int)
    requires
        occurs_at(s, pat, at),
        forall|i: int| i < at ==> !#[trigger] occurs_at(s, pat, i),
    ensures
        replaced_first(s, pat, with) == s.take(at) + with + s.skip(at + pat.len()),
    decreases at,
{
    if at == 0 {
        assert(s.take(0) + with + s.skip(at + pat.len()) =~= with + s.skip(pat.len() as int));
    } else {
        assert(!occurs_at(s, pat, 0));
        let rest = s.skip(1);
        lemma_occurs_at_skip(s, pat, 1, at - 1);
        assert forall|i: int| i < at - 1 implies !#[trigger] occurs_at(rest, pat, i) by {
            if i >= 0 {
                lemma_occurs_at_skip(s, pat, 1, i);
            }
        }
        law_replaced_first(rest, pat, with, at - 1);
        assert(seq![s[0]] + (rest.take(at - 1) + with + rest.skip(at - 1 + pat.len())) =~= s.take(
            at,
        ) + with + s.skip(at + pat.len()));
    }
}

/// A text in which the pattern does not occur is left as it is.
pub proof fn law_replaced_first_absent(s: Seq<char>, pat: Seq<char>, with: Seq<char>)
    requires
        !occurs(s, pat),
    ensures
        replaced_first(s, pat, with) == s,
    decreases s.len(),
{
    assert(!occurs_at(s, pat, 0));
    if s.len() > 0 {
        let rest = s.skip(1);
        assert forall|i: int| !#[trigger] occurs_at(rest, pat, i) by {
            if i >= 0 {
                lemma_occurs_at_skip(s, pat, 1, i);
                assert(!occurs_at(s, pat, i + 1));
            }
        }
        law_replaced_first_absent(rest, pat, with);
        assert(seq![s[0]] + rest =~= s);
    }
}

/// Replaces the first occurrence of `pat` by `with`.
pub fn replace_first(s: &str, pat: &str, with: &str) -> (out: String)
    requires
        pat@.len() > 0,
    ensures
        out@ == replaced_first(s@, pat@, with@),
{
    let text = chars_of(s);
    let key = chars_of(pat);
    let at = find(&text, &key);
    let mut out = String::new();
    push_chars(&mut out, &text, 0, at);
    if at < text.len() {
        proof {
            law_replaced_first(s@, pat@, with@, at as int);
        }
        out.append(with);
        push_chars(&mut out, &text, at + key.len(), text.len());
        assert(out@ =~= s@.take(at as int) + with@ + s@.skip(at + pat@.len()));
    } else {
        proof {
            law_replaced_first_absent(s@, pat@, with@);
        }
        assert(out@ =~= s@);
    }
    out
}

/// A text in which the pattern does not occur is left as it is.
pub proof fn law_replaced_all_absent(s: Seq<char>, pat: Seq<char>, with: Seq<char>)
    requires
        !occurs(s, pat),
    ensures
        replaced_all(s, pat, with) == s,
    decreases s.len(),
{
    if s.len() > 0 && pat.len() > 0 {
        assert(!occurs_at(s, pat, 0));
        let rest = s.skip(1);
        assert forall|i: int| !#[trigger] occurs_at(rest, pat, i) by {
            if i >= 0 {
                lemma_occurs_at_skip(s, pat, 1, i);
                assert(!occurs_at(s, pat, i + 1));
            }
        }
        law_replaced_all_absent(rest, pat, with);
        assert(seq![s[0]] + rest =~= s);
    }
}

/// Replaces every occurrence of `pat` by `with`.
pub fn replace_all(s: &str, pat: &str, with: &str) -> (out: String)
    requires
        pat@.len() > 0,
    ensures
        out@ == replaced_all(s@, pat@, with@),
{
    let text = chars_of(s);
    let key = chars_of(pat);
    let len = text.len();
    let mut out = String::new();
    let mut i: usize = 0;
    assert(s@.skip(0) =~= s@);
    assert(out@ + replaced_all(s@, pat@, with@) =~= replaced_all(s@, pat@, with@));
    while i < len
        invariant
            text@ == s@,
            key@ == pat@,
            pat@.len() > 0,
            len == s@.len(),
            i <= len,
            out@ + replaced_all(s@.skip(i as int), pat@, with@) == replaced_all(s@, pat@, with@),
        decreases len - i,
    {
        let ghost before = out@;
        let ghost rest = s@.skip(i as int);
        proof {
            lemma_occurs_at_skip(s@, pat@, i as int, 0);
        }
        if matches_at(&text, &key, i) {
            out.append(with);
            assert(rest.skip(pat@.len() as int) =~= s@.skip(i + pat@.len()));
            assert(before + (with@ + replaced_all(s@.skip(i + pat@.len()), pat@, with@)) =~= before
                + with@ + replaced_all(s@.skip(i + pat@.len()), pat@, with@));
            i += key.len();
        } else {
            out.push(text[i]);
            assert(rest.skip(1) =~= s@.skip(i + 1));
            assert(before + (seq![rest[0]] + replaced_all(s@.skip(i + 1), pat@, with@))
                =~= before.push(rest[0]) + replaced_all(s@.skip(i + 1), pat@, with@));
            i += 1;
        }
    }
    assert(s@.skip(len as int) =~= Seq::<char>::empty());
    assert(out@ + Seq::<char>::empty() =~= out@);
    out
}

/// The text without the copies of `suffix` that it ends with.
pub open spec fn without_suffixes(s: Seq<char>, suffix: Seq<char>) -> Seq<char>
    decreases s.len(),
{
    if suffix.len() > 0 && has_suffix(s, suffix) {
        without_suffixes(s.take(s.len() - suffix.len()), suffix)
    } else {
        s
    }
}

/// Tells whether `s` ends with `suffix`.
pub fn ends_with(s: &str, suffix: &str) -> (found: bool)
    ensures
        found == has_suffix(s@, suffix@),
{
    let text = chars_of(s);
    let key = chars_of(suffix);
    if key.len() > text.len() {
        return false;
    }
    matches_at(&text, &key, text.len() - key.len())
}

/// Removes all copies of `suffix` from the end of `s`.
pub fn strip_suffixes(s: &str, suffix: &str) -> (out: String)
    requires
        suffix@.len() > 0,
    ensures
        out@ == without_suffixes(s@, suffix@),
{
    let text = chars_of(s);
    let key = chars_of(suffix);
    let mut to: usize = text.len();
    assert(s@.take(to as int) =~= s@);
    while to >= key.len() && matches_before(&text, &key, to)
        invariant
            text@ == s@,
            key@ == suffix@,
            suffix@.len() > 0,
            to <= s@.len(),
            without_suffixes(s@, suffix@) == without_suffixes(s@.take(to as int), suffix@),
        decreases to,
    {
        assert(s@.take(to as int).take(to - suffix@.len()) =~= s@.take(to - suffix@.len()));
        to -= key.len();
    }
    let mut out = String::new();
    push_chars(&mut out, &text, 0, to);
    assert(out@ =~= s@.take(to as int));
    out
}

/// Tells whether the first `to` characters of `s` end with `pat`.
fn matches_before(s: &Vec<char>, pat: &Vec<char>, to: usize) -> (found: bool)
    requires
        pat@.len() <= to <= s@.len(),
    ensures
        found == has_suffix(s@.take(to as int), pat@),
{
    let from: usize = to - pat.len();
    let found = matches_at(s, pat, from);
    assert(s@.take(to as int).subrange(from as int, to as int) =~= s@.subrange(
        from as int,
        from + pat@.len(),
    ));
    found
}

/// What occurs in a text still occurs when the text goes on.
pub proof fn law_occurs_in_longer_text(start: Seq<char>, s: Seq<char>, pat: Seq<char>)
    requires
        occurs(start, pat),
        start.is_prefix_of(s),
    ensures
        occurs(s, pat),
{
    let i = choose|i: int| occurs_at(start, pat, i);
    assert(s.subrange(i, i + pat.len()) =~= start.subrange(i, i + pat.len()));
    assert(occurs_at(s, pat, i));
}

/// A text occurs in every text that it is a part of.
pub proof fn law_part_occurs(before: Seq<char>, part: Seq<char>, after: Seq<char>)
    ensures
        occurs(before + part + after, part),
        occurs_at(before + part + after, part, before.len() as int),
{
    let whole = before + part + after;
    let at = before.len() as int;
    assert(whole.subrange(at, at + part.len()) =~= part);
    assert(occurs_at(whole, part, at));
}

/// Between the same two texts, different texts stay different.
pub proof fn law_middle_is_told(
    before: Seq<char>,
    a: Seq<char>,
    b: Seq<char>,
    after: Seq<char>,
)
    requires
        before + a + after == before + b + after,
    ensures
        a == b,
{
    let left = before + a + after;
    let right = before + b + after;
    assert(left.len() == right.len());
    assert(a =~= left.subrange(before.len() as int, (before.len() + a.len()) as int));
    assert(b =~= right.subrange(before.len() as int, (before.len() + b.len()) as int));
}

/// White space is what Unicode calls so: five control characters from the tabulator on, the
/// space, the next-line character and twenty others, none of which is a letter, a digit or
/// any other ASCII character.
pub proof fn law_white_space(c: char)
    ensures
        (c as int) < 128 ==> (is_space(c) <==> 9 <= c as int <= 13 || c as int == 32),
        128 <= (c as int) < 0x1680 ==> (is_space(c) <==> c as int == 0x85 || c as int == 0xa0),
        0x1680 <= c as int ==> (is_space(c) <==> c as int == 0x1680 || 0x2000 <= c as int <= 0x200a
            || c as int == 0x2028 || c as int == 0x2029 || c as int == 0x202f || c as int == 0x205f
            || c as int == 0x3000),
{
}

proof fn lemma_trimmed_start_cuts(s: Seq<char>) -> (from: int)
    ensures
        0 <= from <= s.len(),
        trimmed_start(s) == s.skip(from),
        forall|i: int| 0 <= i < from ==> is_space(#[trigger] s[i]),
        from < s.len() ==> !is_space(s[from]),
    decreases s.len(),
{
    if s.len() > 0 && is_space(s[0]) {
        let rest = lemma_trimmed_start_cuts(s.skip(1));
        assert(s.skip(1).skip(rest) =~= s.skip(rest + 1));
        assert forall|i: int| 0 <= i < rest + 1 implies is_space(#[trigger] s[i]) by {
            if i > 0 {
                assert(s.skip(1)[i - 1] == s[i]);
            }
        }
        rest + 1
    } else {
        assert(s.skip(0) =~= s);
        0
    }
}

proof fn lemma_trimmed_end_cuts(s: Seq<char>) -> (to: int)
    ensures
        0 <= to <= s.len(),
        trimmed_end(s) == s.take(to),
        forall|i: int| to <= i < s.len() ==> is_space(#[trigger] s[i]),
        to > 0 ==> !is_space(s[to - 1]),
    decreases s.len(),
{
    if s.len() > 0 && is_space(s.last()) {
        let shorter = s.drop_last();
        let to = lemma_trimmed_end_cuts(shorter);
        assert(shorter.take(to) =~= s.take(to));
        assert forall|i: int| to <= i < s.len() implies is_space(#[trigger] s[i]) by {
            if i < s.len() - 1 {
                assert(shorter[i] == s[i]);
            }
        }
        to
    } else {
        assert(s.take(s.len() as int) =~= s);
        s.len() as int
    }
}

/// Trimming takes away white space at both ends and nothing else: what is left is a part of
/// the text, on both sides of it there is white space only, and it neither begins nor ends
/// with white space.
pub proof fn law_trimmed_is_the_middle(s: Seq<char>)
    ensures
        exists|from: int, to: int|
            0 <= from <= to <= s.len() && trimmed(s) == #[trigger] s.subrange(from, to) && (forall|
                i: int,
            |
                0 <= i < from || to <= i < s.len() ==> is_space(#[trigger] s[i])) && (from < to
                ==> !is_space(s[from]) && !is_space(s[to - 1])),
{
    let from = lemma_trimmed_start_cuts(s);
    let rest = s.skip(from);
    let kept = lemma_trimmed_end_cuts(rest);
    let to = from + kept;
    assert(rest.take(kept) =~= s.subrange(from, to));
    assert forall|i: int| 0 <= i < from || to <= i < s.len() implies is_space(#[trigger] s[i]) by {
        if i >= to {
            assert(rest[i - from] == s[i]);
        }
    }
    if from < to {
        assert(rest[0] == s[from]);
        assert(rest[kept - 1] == s[to - 1]);
    }
}

/// Replacing goes from left to right: up to the first occurrence the text stays, then comes
/// the replacement, and behind the occurrence it goes on in the same way.
pub proof fn law_replaced_all_step(s: Seq<char>, pat: Seq<char>, with: Seq<char>, at: int)
    requires
        pat.len() > 0,
        occurs_at(s, pat, at),
        forall|i: int| i < at ==> !#[trigger] occurs_at(s, pat, i),
    ensures
        replaced_all(s, pat, with) == s.take(at) + with + replaced_all(
            s.skip(at + pat.len()),
            pat,
            with,
        ),
    decreases at,
{
    if at == 0 {
        assert(s.take(0) + with + replaced_all(s.skip(pat.len() as int), pat, with) =~= with
            + replaced_all(s.skip(pat.len() as int), pat, with));
    } else {
        assert(!occurs_at(s, pat, 0));
        let rest = s.skip(1);
        lemma_occurs_at_skip(s, pat, 1, at - 1);
        assert forall|i: int| i < at - 1 implies !#[trigger] occurs_at(rest, pat, i) by {
            if i >= 0 {
                lemma_occurs_at_skip(s, pat, 1, i);
            }
        }
        law_replaced_all_step(rest, pat, with, at - 1);
        assert(rest.skip(at - 1 + pat.len()) =~= s.skip(at + pat.len()));
        let tail = replaced_all(s.skip(at + pat.len()), pat, with);
        assert(seq![s[0]] + (rest.take(at - 1) + with + tail) =~= s.take(at) + with + tail);
    }
}

/// A text ends with what was appended to it; and it ends with a suffix exactly if it is some
/// text followed by the suffix.
pub proof fn law_suffix(s: Seq<char>, base: Seq<char>, suffix: Seq<char>)
    ensures
        has_suffix(base + suffix, suffix),
        has_suffix(s, suffix) ==> s.len() >= suffix.len() && s == s.take(s.len() - suffix.len())
            + suffix,
{
    let url = base + suffix;
    assert(url.subrange(url.len() - suffix.len(), url.len() as int) =~= suffix);
    if has_suffix(s, suffix) {
        assert(s =~= s.take(s.len() - suffix.len()) + s.subrange(
            s.len() - suffix.len(),
            s.len() as int,
        ));
    }
}

/// Copies of a suffix are taken away one after the other until the text does not end with
/// one any more; what is left is the beginning of the text.
pub proof fn law_without_suffixes(s: Seq<char>, base: Seq<char>, suffix: Seq<char>)
    requires
        suffix.len() > 0,
    ensures
        without_suffixes(base + suffix, suffix) == without_suffixes(base, suffix),
        !has_suffix(s, suffix) ==> without_suffixes(s, suffix) == s,
        !has_suffix(without_suffixes(s, suffix), suffix),
        without_suffixes(s, suffix).is_prefix_of(s),
    decreases s.len(),
{
    law_suffix(base + suffix, base, suffix);
    assert((base + suffix).take(base.len() as int) =~= base);
    if has_suffix(s, suffix) {
        law_without_suffixes(s.take(s.len() - suffix.len()), base, suffix);
    }
}

/// A value stands between the end of what comes before it and the beginning of what comes
/// after it.
pub proof fn lemma_value_stands_between(
    before: Seq<char>,
    start: Seq<char>,
    value: Seq<char>,
    end: Seq<char>,
    after: Seq<char>,
)
    requires
        has_suffix(before, start),
        end.is_prefix_of(after),
    ensures
        occurs(before + value + after, start + value + end),
{
    let head = before.take(before.len() - start.len());
    let tail = after.skip(end.len() as int);
    law_suffix(before, before, start);
    assert(after =~= end + tail);
    assert(before + value + after =~= head + (start + value + end) + tail);
    law_part_occurs(head, start + value + end, tail);
}

/// A text ends as its last part does.
pub proof fn lemma_longer_text_ends_alike(front: Seq<char>, back: Seq<char>, end: Seq<char>)
    requires
        has_suffix(back, end),
    ensures
        has_suffix(front + back, end),
{
    let whole = front + back;
    assert(whole.subrange(whole.len() - end.len(), whole.len() as int) =~= back.subrange(
        back.len() - end.len(),
        back.len() as int,
    ));
}

} // verus!
