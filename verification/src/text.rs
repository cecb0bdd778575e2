//! Comparing, splitting and joining strings.

use vstd::prelude::*;
use vstd::string::*;

verus! {

/// The characters of a string.
pub fn characters(s: &str) -> (list: Vec<char>)
    ensures
        list@ == s@,
{
    let mut list: Vec<char> = Vec::new();
    for c in it: s.chars()
        invariant
            it.seq() == s@,
            list@ == s@.take(it.index()),
    {
        list.push(c);
        assert(s@.take(it.index() + 1) == s@.take(it.index()).push(c));
    }
    assert(s@.take(s@.len() as int) == s@);
    list
}

/// Whether `part` stands in `whole` from position `at` on.
pub open spec fn stands_at(whole: Seq<char>, at: int, part: Seq<char>) -> bool {
    &&& 0 <= at
    &&& at + part.len() <= whole.len()
    &&& whole.subrange(at, at + part.len()) == part
}

fn matches_at(whole: &Vec<char>, at: usize, part: &Vec<char>) -> (found: bool)
    requires
        at + part@.len() <= whole@.len(),
    ensures
        found == stands_at(whole@, at as int, part@),
{
    let end: usize = whole.len();
    let mut i: usize = 0;
    while i < part.len()
        invariant
            i <= part@.len(),
            end == whole@.len(),
            at + part@.len() <= whole@.len(),
            forall|j: int| 0 <= j < i ==> whole@[at + j] == part@[j],
        decreases part@.len() - i,
    {
        if whole[at + i] != part[i] {
            assert(whole@.subrange(at as int, at + part@.len())[i as int] != part@[i as int]);
            return false;
        }
        i = i + 1;
    }
    assert(whole@.subrange(at as int, at + part@.len()) =~= part@);
    true
}

/// Tells whether two strings hold the same characters.
pub fn equals(a: &str, b: &str) -> (same: bool)
    ensures
        same == (a@ == b@),
{
    let left = characters(a);
    let right = characters(b);
    assert(left@.subrange(0, left@.len() as int) == left@);
    left.len() == right.len() && matches_at(&left, 0, &right)
}

/// Tells whether `s` begins with `prefix`.
pub fn starts_with(s: &str, prefix: &str) -> (found: bool)
    ensures
        found == stands_at(s@, 0, prefix@),
{
    let whole = characters(s);
    let part = characters(prefix);
    part.len() <= whole.len() && matches_at(&whole, 0, &part)
}

/// Tells whether `part` stands somewhere in `s`.
pub fn contains(s: &str, part: &str) -> (found: bool)
    ensures
        found == exists|at: int| stands_at(s@, at, part@),
{
    let whole = characters(s);
    let sought = characters(part);
    if sought.len() > whole.len() {
        return false;
    }
    let last: usize = whole.len() - sought.len();
    let mut at: usize = 0;
    while at < last
        invariant
            whole@ == s@,
            sought@ == part@,
            at <= last,
            last == whole@.len() - sought@.len(),
            forall|j: int| 0 <= j < at ==> !stands_at(whole@, j, sought@),
        decreases last - at,
    {
        if matches_at(&whole, at, &sought) {
            return true;
        }
        at = at + 1;
    }
    matches_at(&whole, last, &sought)
}

/// Whether `c` has the Unicode property `White_Space`.
pub open spec fn white_space(c: char) -> bool {
    ||| '\u{9}' <= c && c <= '\u{d}'
    ||| c == ' '
    ||| c == '\u{85}'
    ||| c == '\u{a0}'
    ||| c == '\u{1680}'
    ||| '\u{2000}' <= c && c <= '\u{200a}'
    ||| c == '\u{2028}'
    ||| c == '\u{2029}'
    ||| c == '\u{202f}'
    ||| c == '\u{205f}'
    ||| c == '\u{3000}'
}

/// Tells whether `c` has the Unicode property `White_Space`.
pub fn is_white_space(c: char) -> (answer: bool)
    ensures
        answer == white_space(c),
{
    ('\u{9}' <= c && c <= '\u{d}') || c == ' ' || c == '\u{85}' || c == '\u{a0}' || c == '\u{1680}'
        || ('\u{2000}' <= c && c <= '\u{200a}') || c == '\u{2028}' || c == '\u{2029}' || c
        == '\u{202f}' || c == '\u{205f}' || c == '\u{3000}'
}

/// How many characters `s` begins with before its first white space.
pub open spec fn word_len(s: Seq<char>) -> nat
    decreases s.len(),
{
    if s.len() == 0 || white_space(s[0]) {
        0
    } else {
        1 + word_len(s.skip(1))
    }
}

/// The words of `s`: its longest runs of characters that are not white space,
/// in order.
pub open spec fn words(s: Seq<char>) -> Seq<Seq<char>>
    decreases s.len(),
{
    if s.len() == 0 {
        Seq::empty()
    } else if white_space(s[0]) {
        words(s.skip(1))
    } else {
        proof {
            word_len_is_maximal(s);
        }
        seq![s.take(word_len(s) as int)] + words(s.skip(word_len(s) as int))
    }
}

/// The first word is the longest run: white space, or the end, follows it.
pub proof fn word_len_is_maximal(s: Seq<char>)
    ensures
        word_len(s) <= s.len(),
        forall|i: int| 0 <= i < word_len(s) ==> !white_space(s[i]),
        word_len(s) < s.len() ==> white_space(s[word_len(s) as int]),
    decreases s.len(),
{
    if s.len() > 0 && !white_space(s[0]) {
        word_len_is_maximal(s.skip(1));
        assert forall|i: int| 0 <= i < word_len(s) implies !white_space(s[i]) by {
            if i > 0 {
                assert(s.skip(1)[i - 1] == s[i]);
            }
        }
    }
}

/// Splits a string at its white space.
pub fn split_whitespace(s: &str) -> (list: Vec<String>)
    ensures
        list.deep_view() == words(s@),
{
    let chars = characters(s);
    let mut list: Vec<String> = Vec::new();
    let mut i: usize = 0;
    assert(s@.skip(0) == s@);
    while i < chars.len()
        invariant
            chars@ == s@,
            i <= chars@.len(),
            list.deep_view() + words(s@.skip(i as int)) == words(s@),
        decreases chars@.len() - i,
    {
        let ghost rest = s@.skip(i as int);
        if is_white_space(chars[i]) {
            assert(rest.skip(1) == s@.skip(i + 1));
            i = i + 1;
        } else {
            let start: usize = i;
            while i < chars.len() && !is_white_space(chars[i])
                invariant
                    chars@ == s@,
                    start <= i <= chars@.len(),
                    forall|j: int| start <= j < i ==> !white_space(s@[j]),
                ensures
                    i < chars@.len() ==> white_space(s@[i as int]),
                decreases chars@.len() - i,
            {
                i = i + 1;
            }
            let word = s.substring_char(start, i).to_owned();
            proof {
                word_len_is_maximal(rest);
                if word_len(rest) < i - start {
                    assert(white_space(s@[start + word_len(rest)]));
                }
                if word_len(rest) > i - start {
                    assert(rest[i - start] == s@[i as int]);
                }
                assert(rest.take(word_len(rest) as int) == word@);
                assert(rest.skip(word_len(rest) as int) == s@.skip(i as int));
            }
            let ghost before = list.deep_view();
            list.push(word);
            assert(list.deep_view() == before.push(word@));
            assert(before + (seq![word@] + words(s@.skip(i as int))) == list.deep_view() + words(
                s@.skip(i as int),
            ));
        }
    }
    assert(words(s@.skip(i as int)) == Seq::<Seq<char>>::empty());
    list
}

/// The strings of `list` one after the other, with `separator` between them.
pub open spec fn joined(list: Seq<Seq<char>>, separator: Seq<char>) -> Seq<char>
    decreases list.len(),
{
    if list.len() == 0 {
        Seq::empty()
    } else if list.len() == 1 {
        list[0]
    } else {
        list[0] + separator + joined(list.skip(1), separator)
    }
}

/// Joins strings into one, with `separator` between them.
pub fn join(list: &Vec<String>, separator: &str) -> (whole: String)
    ensures
        whole@ == joined(list.deep_view(), separator@),
{
    let mut whole = String::new();
    let ghost parts = list.deep_view();
    let mut i: usize = 0;
    assert(parts.skip(0) == parts);
    while i < list.len()
        invariant
            parts == list.deep_view(),
            i <= list@.len(),
            joined(parts, separator@) == whole@ + joined(parts.skip(i as int), separator@),
        decreases list@.len() - i,
    {
        let ghost rest = parts.skip(i as int);
        let ghost before = whole@;
        whole.append(list[i].as_str());
        if i + 1 < list.len() {
            whole.append(separator);
        }
        assert(rest.skip(1) == parts.skip(i + 1));
        assert(whole@ + joined(parts.skip(i + 1), separator@) == before + joined(rest, separator@));
        i = i + 1;
    }
    whole
}

/// Whether `word` is a word: not empty, and without white space.
pub open spec fn is_word(word: Seq<char>) -> bool {
    &&& word.len() > 0
    &&& forall|i: int| 0 <= i < word.len() ==> !white_space(#[trigger] word[i])
}

/// What a string is split into is words only.
pub proof fn words_are_words(s: Seq<char>)
    ensures
        forall|i: int| 0 <= i < words(s).len() ==> is_word(#[trigger] words(s)[i]),
    decreases s.len(),
{
    if s.len() == 0 {
        assert(words(s).len() == 0);
    } else {
        if white_space(s[0]) {
            words_are_words(s.skip(1));
            assert(words(s) == words(s.skip(1)));
        } else {
            word_len_is_maximal(s);
            let rest = words(s.skip(word_len(s) as int));
            words_are_words(s.skip(word_len(s) as int));
            assert forall|i: int| 0 <= i < words(s).len() implies is_word(#[trigger] words(s)[i]) by {
                if i > 0 {
                    assert(words(s)[i] == rest[i - 1]);
                }
            }
        }
    }
}

/// Words that are joined with single spaces are found again by splitting.
pub proof fn joined_words_are_split(list: Seq<Seq<char>>)
    requires
        forall|i: int| 0 <= i < list.len() ==> is_word(#[trigger] list[i]),
    ensures
        words(joined(list, seq![' '])) == list,
    decreases list.len(),
{
    let s = joined(list, seq![' ']);
    if list.len() == 0 {
        assert(s.len() == 0);
        assert(words(s).len() == 0);
        assert(list == Seq::<Seq<char>>::empty());
        assert(words(s) == list);
    } else {
        let word = list[0];
        assert(is_word(word));
        assert forall|i: int| 0 <= i < word.len() implies s[i] == word[i] by {}
        word_len_is_maximal(s);
        let rest = list.skip(1);
        assert(s.take(word.len() as int) == word);
        if word_len(s) < word.len() {
            assert(!white_space(word[word_len(s) as int]));
        }
        assert(!white_space(word[0]));
        if list.len() == 1 {
            assert(s.skip(word_len(s) as int) == Seq::<char>::empty());
            assert(list == seq![word]);
            assert(words(s.skip(word_len(s) as int)).len() == 0);
            assert(words(s) == list);
        } else {
            assert(s[word.len() as int] == ' ');
            let tail = s.skip(word_len(s) as int);
            assert(tail.skip(1) == joined(rest, seq![' ']));
            assert forall|i: int| 0 <= i < rest.len() implies is_word(#[trigger] rest[i]) by {
                assert(rest[i] == list[i + 1]);
            }
            joined_words_are_split(rest);
            assert(words(tail) == rest);
            assert(list == seq![word] + rest);
            assert(words(s) == list);
        }
    }
}

/// Whether `part` occurs in `text`: something stands before it, and something after it.
pub open spec fn occurs(text: Seq<char>, part: Seq<char>) -> bool {
    exists|before: Seq<char>, after: Seq<char>| text == #[trigger] (before + part + after)
}

/// Whether `text` is `part` with something after it.
pub open spec fn leads(text: Seq<char>, part: Seq<char>) -> bool {
    exists|after: Seq<char>| text == #[trigger] (part + after)
}

/// A part stands in a text at the place where the text before it ends.
pub proof fn part_stands_where_it_is_put(before: Seq<char>, part: Seq<char>, after: Seq<char>)
    ensures
        stands_at(before + part + after, before.len() as int, part),
{
    let whole = before + part + after;
    assert(whole.subrange(before.len() as int, (before.len() + part.len()) as int) =~= part);
}

/// A text is what stands before a part, the part, and what stands after it.
pub proof fn part_can_be_cut_out(whole: Seq<char>, at: int, part: Seq<char>)
    requires
        stands_at(whole, at, part),
    ensures
        0 <= at <= whole.len() - part.len(),
        whole == whole.take(at) + part + whole.skip(at + part.len()),
{
    let end = at + part.len();
    assert(whole.subrange(at, end) == part);
    assert forall|i: int| 0 <= i < whole.len() implies whole[i] == (whole.take(at) + part
        + whole.skip(end))[i] by {
        if at <= i < end {
            assert(whole.subrange(at, end)[i - at] == whole[i]);
        }
    }
    assert(whole =~= whole.take(at) + part + whole.skip(end));
}

/// To stand somewhere in a text is to occur in it.
pub proof fn what_stands_somewhere_occurs(text: Seq<char>, part: Seq<char>)
    ensures
        (exists|at: int| stands_at(text, at, part)) == occurs(text, part),
{
    if exists|at: int| stands_at(text, at, part) {
        let at = choose|at: int| stands_at(text, at, part);
        part_can_be_cut_out(text, at, part);
    }
    if occurs(text, part) {
        let (before, after) = choose|before: Seq<char>, after: Seq<char>|
            text == #[trigger] (before + part + after);
        part_stands_where_it_is_put(before, part, after);
        assert(stands_at(text, before.len() as int, part));
    }
}

/// To stand at the start of a text is to have the rest of it after oneself.
pub proof fn what_stands_first_leads(text: Seq<char>, part: Seq<char>)
    ensures
        stands_at(text, 0, part) == leads(text, part),
{
    if stands_at(text, 0, part) {
        part_can_be_cut_out(text, 0, part);
        assert(text =~= part + text.skip(part.len() as int));
    }
    if leads(text, part) {
        let after = choose|after: Seq<char>| text == #[trigger] (part + after);
        let none = Seq::<char>::empty();
        assert(none + part + after =~= part + after);
        part_stands_where_it_is_put(none, part, after);
    }
}

/// A word in front of white space, or of nothing, is the first word, and the others are
/// those of what follows.
pub proof fn first_word_is_split_off(word: Seq<char>, rest: Seq<char>)
    requires
        is_word(word),
        rest.len() == 0 || white_space(rest[0]),
    ensures
        words(word + rest) == seq![word] + words(rest),
{
    let s = word + rest;
    word_len_is_maximal(s);
    if word_len(s) < word.len() {
        assert(!white_space(word[word_len(s) as int]));
    }
    if word_len(s) > word.len() {
        assert(s[word.len() as int] == rest[0]);
    }
    assert(!white_space(word[0]));
    assert(word_len(s) == word.len());
    assert(s.take(word.len() as int) =~= word);
    assert(s.skip(word.len() as int) =~= rest);
}

/// White space in front of a text makes no words.
pub proof fn white_space_is_no_word(gap: Seq<char>, rest: Seq<char>)
    requires
        forall|i: int| 0 <= i < gap.len() ==> white_space(#[trigger] gap[i]),
    ensures
        words(gap + rest) == words(rest),
        words(gap) == Seq::<Seq<char>>::empty(),
    decreases gap.len(),
{
    if gap.len() == 0 {
        assert(gap + rest =~= rest);
        assert(words(gap) =~= Seq::<Seq<char>>::empty());
    } else {
        let tail = gap.skip(1);
        assert(white_space(gap[0]));
        assert forall|i: int| 0 <= i < tail.len() implies white_space(#[trigger] tail[i]) by {
            assert(tail[i] == gap[i + 1]);
        }
        white_space_is_no_word(tail, rest);
        assert((gap + rest).skip(1) =~= tail + rest);
    }
}

/// A string that is joined alone is itself, and two lists that are joined have the
/// separator between what each of them is joined to.
pub proof fn joining_is_by_parts(a: Seq<Seq<char>>, b: Seq<Seq<char>>, separator: Seq<char>)
    requires
        a.len() > 0,
        b.len() > 0,
    ensures
        joined(a + b, separator) == joined(a, separator) + separator + joined(b, separator),
        a.len() == 1 ==> joined(a, separator) == a[0],
    decreases a.len(),
{
    let rest = (a + b).skip(1);
    if a.len() == 1 {
        assert(rest =~= b);
        assert(joined(a + b, separator) =~= joined(a, separator) + separator + joined(
            b,
            separator,
        ));
    } else {
        assert(rest =~= a.skip(1) + b);
        joining_is_by_parts(a.skip(1), b, separator);
        assert(joined(a + b, separator) =~= joined(a, separator) + separator + joined(
            b,
            separator,
        ));
    }
}

/// What `s` falls into when it is cut at every `c`.
pub open spec fn pieces(s: Seq<char>, c: char) -> Seq<Seq<char>>
    decreases s.len(),
{
    if s.len() == 0 {
        seq![Seq::empty()]
    } else {
        let rest = pieces(s.skip(1), c);
        if s[0] == c {
            seq![Seq::empty()] + rest
        } else {
            seq![seq![s[0]] + rest[0]] + rest.skip(1)
        }
    }
}

proof fn first_piece(a: Seq<char>, rest: Seq<char>, c: char)
    requires
        !a.contains(c),
    ensures
        pieces(a, c) == seq![a],
        pieces(a + seq![c] + rest, c) == seq![a] + pieces(rest, c),
    decreases a.len(),
{
    let s = a + seq![c] + rest;
    if a.len() == 0 {
        assert(s.skip(1) =~= rest);
        assert(a =~= Seq::<char>::empty());
        assert(pieces(a, c) =~= seq![a]);
    } else {
        let tail = a.skip(1);
        assert(!tail.contains(c)) by {
            if tail.contains(c) {
                let i = choose|i: int| 0 <= i < tail.len() && tail[i] == c;
                assert(a[i + 1] == c);
            }
        }
        assert(a[0] != c);
        first_piece(tail, rest, c);
        assert(s.skip(1) =~= tail + seq![c] + rest);
        assert(seq![a[0]] + tail =~= a);
        assert(pieces(a, c) =~= seq![a]);
        assert(pieces(s, c) =~= seq![a] + pieces(rest, c));
    }
}

/// Strings without the separator are found again when what they are joined to is cut at it.
pub proof fn joined_strings_are_cut_again(list: Seq<Seq<char>>, c: char)
    requires
        list.len() > 0,
        forall|i: int| 0 <= i < list.len() ==> !(#[trigger] list[i]).contains(c),
    ensures
        pieces(joined(list, seq![c]), c) == list,
    decreases list.len(),
{
    assert(!list[0].contains(c));
    if list.len() == 1 {
        first_piece(list[0], Seq::empty(), c);
        assert(list =~= seq![list[0]]);
    } else {
        let rest = list.skip(1);
        assert forall|i: int| 0 <= i < rest.len() implies !(#[trigger] rest[i]).contains(c) by {
            assert(rest[i] == list[i + 1]);
        }
        joined_strings_are_cut_again(rest, c);
        first_piece(list[0], joined(rest, seq![c]), c);
        assert(list =~= seq![list[0]] + rest);
    }
}

} // verus!
