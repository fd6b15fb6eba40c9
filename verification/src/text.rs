//! Character-level text operations: trimming, splitting and joining.

use vstd::prelude::*;

verus! {

/// `String::push` appends one character at the end of the string.
pub assume_specification[ String::push ](text: &mut String, character: char)
    ensures
        final(text)@ == old(text)@.push(character),
;

/// A set of characters that trimming removes.
#[derive(Clone, Copy)]
pub enum CharClass {
    /// The characters with the Unicode property `White_Space`.
    Space,
    /// One particular character.
    Exactly(char),
}

/// The characters with the Unicode property `White_Space`.
pub open spec fn is_space(character: char) -> bool {
    let code = character as u32;
    ||| 0x09 <= code <= 0x0d
    ||| code == 0x20
    ||| code == 0x85
    ||| code == 0xa0
    ||| code == 0x1680
    ||| 0x2000 <= code <= 0x200a
    ||| code == 0x2028
    ||| code == 0x2029
    ||| code == 0x202f
    ||| code == 0x205f
    ||| code == 0x3000
}

/// The control characters (Unicode category `Cc`).
pub open spec fn is_control_char(character: char) -> bool {
    let code = character as u32;
    code <= 0x1f || 0x7f <= code <= 0x9f
}

impl CharClass {
    pub open spec fn holds(self, character: char) -> bool {
        match self {
            CharClass::Space => is_space(character),
            CharClass::Exactly(only) => character == only,
        }
    }

    pub fn contains(self, character: char) -> (result: bool)
        ensures
            result == self.holds(character),
    {
        match self {
            CharClass::Space => is_whitespace(character),
            CharClass::Exactly(only) => character == only,
        }
    }
}

pub fn is_whitespace(character: char) -> (result: bool)
    ensures
        result == is_space(character),
{
    let code: u32 = character as u32;
    (code >= 0x09 && code <= 0x0d) || code == 0x20 || code == 0x85 || code == 0xa0 || code
        == 0x1680 || (code >= 0x2000 && code <= 0x200a) || code == 0x2028 || code == 0x2029
        || code == 0x202f || code == 0x205f || code == 0x3000
}

pub fn is_control(character: char) -> (result: bool)
    ensures
        result == is_control_char(character),
{
    let code: u32 = character as u32;
    code <= 0x1f || (code >= 0x7f && code <= 0x9f)
}

/// `text` without its longest prefix of characters in `class`.
pub open spec fn strip_start(text: Seq<char>, class: CharClass) -> Seq<char>
    decreases text.len(),
{
    if text.len() > 0 && class.holds(text[0]) {
        strip_start(text.skip(1), class)
    } else {
        text
    }
}

/// `text` without its longest suffix of characters in `class`.
pub open spec fn strip_end(text: Seq<char>, class: CharClass) -> Seq<char>
    decreases text.len(),
{
    if text.len() > 0 && class.holds(text.last()) {
        strip_end(text.drop_last(), class)
    } else {
        text
    }
}

/// `text` without leading and trailing characters in `class`.
pub open spec fn strip(text: Seq<char>, class: CharClass) -> Seq<char> {
    strip_end(strip_start(text, class), class)
}

/// `text` without leading and trailing white space.
pub open spec fn trimmed(text: Seq<char>) -> Seq<char> {
    strip(text, CharClass::Space)
}

/// Text that holds nothing but white space.
pub open spec fn blank(text: Seq<char>) -> bool {
    trimmed(text).len() == 0
}

/// The contents of an optional string.
pub open spec fn opt_text(text: Option<String>) -> Option<Seq<char>> {
    match text {
        Some(value) => Some(value@),
        None => None,
    }
}

/// The contents of each string of a list.
pub open spec fn texts(list: Seq<String>) -> Seq<Seq<char>> {
    Seq::new(list.len(), |i: int| list[i]@)
}

pub fn clone_opt_text(text: &Option<String>) -> (result: Option<String>)
    ensures
        result == *text,
{
    match text {
        Some(value) => Some(value.clone()),
        None => None,
    }
}

pub fn chars_of(text: &str) -> (chars: Vec<char>)
    ensures
        chars@ == text@,
{
    let mut chars: Vec<char> = Vec::new();
    for character in iter: text.chars()
        invariant
            chars@ == text@.take(iter.index() as int),
            iter.seq() == text@,
    {
        proof {
            assert(text@.take(iter.index() as int).push(character) =~= text@.take(
                iter.index() as int + 1,
            ));
        }
        chars.push(character);
    }
    assert(text@.take(text@.len() as int) =~= text@);
    chars
}

pub fn string_of(chars: &[char]) -> (text: String)
    ensures
        text@ == chars@,
{
    let mut text = String::new();
    let mut i: usize = 0;
    while i < chars.len()
        invariant
            i <= chars.len(),
            text@ == chars@.take(i as int),
        decreases chars.len() - i,
    {
        text.push(chars[i]);
        proof {
            assert(chars@.take(i as int).push(chars@[i as int]) =~= chars@.take(i as int + 1));
        }
        i += 1;
    }
    assert(chars@.take(chars@.len() as int) =~= chars@);
    text
}

fn copy_range(chars: &[char], from: usize, to: usize) -> (result: Vec<char>)
    requires
        from <= to <= chars@.len(),
    ensures
        result@ == chars@.subrange(from as int, to as int),
{
    let mut result: Vec<char> = Vec::new();
    let mut i: usize = from;
    while i < to
        invariant
            from <= i <= to <= chars@.len(),
            result@ == chars@.subrange(from as int, i as int),
        decreases to - i,
    {
        result.push(chars[i]);
        proof {
            assert(chars@.subrange(from as int, i as int).push(chars@[i as int])
                =~= chars@.subrange(from as int, i as int + 1));
        }
        i += 1;
    }
    result
}

pub fn strip_chars_start(chars: &[char], class: CharClass) -> (result: Vec<char>)
    ensures
        result@ == strip_start(chars@, class),
{
    let mut from: usize = 0;
    assert(chars@.skip(0) =~= chars@);
    while from < chars.len() && class.contains(chars[from])
        invariant
            from <= chars@.len(),
            strip_start(chars@, class) == strip_start(chars@.skip(from as int), class),
        decreases chars.len() - from,
    {
        proof {
            assert(chars@.skip(from as int).skip(1) =~= chars@.skip(from as int + 1));
        }
        from += 1;
    }
    assert(chars@.subrange(from as int, chars@.len() as int) =~= chars@.skip(from as int));
    copy_range(chars, from, chars.len())
}

pub fn strip_chars_end(chars: &[char], class: CharClass) -> (result: Vec<char>)
    ensures
        result@ == strip_end(chars@, class),
{
    let mut to: usize = chars.len();
    assert(chars@.take(to as int) =~= chars@);
    while to > 0 && class.contains(chars[to - 1])
        invariant
            to <= chars@.len(),
            strip_end(chars@, class) == strip_end(chars@.take(to as int), class),
        decreases to,
    {
        proof {
            assert(chars@.take(to as int).drop_last() =~= chars@.take(to as int - 1));
        }
        to -= 1;
    }
    assert(chars@.subrange(0, to as int) =~= chars@.take(to as int));
    copy_range(chars, 0, to)
}

pub fn strip_chars(chars: &[char], class: CharClass) -> (result: Vec<char>)
    ensures
        result@ == strip(chars@, class),
{
    let from_start = strip_chars_start(chars, class);
    strip_chars_end(from_start.as_slice(), class)
}

pub fn trim(text: &str) -> (result: String)
    ensures
        result@ == trimmed(text@),
{
    let chars = chars_of(text);
    let kept = strip_chars(chars.as_slice(), CharClass::Space);
    string_of(kept.as_slice())
}

pub fn is_blank(text: &str) -> (result: bool)
    ensures
        result == blank(text@),
{
    let chars = chars_of(text);
    let kept = strip_chars(chars.as_slice(), CharClass::Space);
    kept.len() == 0
}

/// What `strip_start` keeps begins behind the characters in `class`.
pub proof fn lemma_strip_start(text: Seq<char>, class: CharClass) -> (from: int)
    ensures
        0 <= from <= text.len(),
        strip_start(text, class) == text.skip(from),
        from < text.len() ==> !class.holds(text[from]),
    decreases text.len(),
{
    if text.len() > 0 && class.holds(text[0]) {
        let rest = lemma_strip_start(text.skip(1), class);
        assert(text.skip(1).skip(rest) =~= text.skip(rest + 1));
        rest + 1
    } else {
        assert(text.skip(0) =~= text);
        0
    }
}

/// What `strip_end` keeps ends before the characters in `class`.
pub proof fn lemma_strip_end(text: Seq<char>, class: CharClass) -> (to: int)
    ensures
        0 <= to <= text.len(),
        strip_end(text, class) == text.take(to),
        to > 0 ==> !class.holds(text[to - 1]),
    decreases text.len(),
{
    if text.len() > 0 && class.holds(text.last()) {
        let to = lemma_strip_end(text.drop_last(), class);
        assert(text.drop_last().take(to) =~= text.take(to));
        to
    } else {
        assert(text.take(text.len() as int) =~= text);
        text.len() as int
    }
}

/// What `strip` keeps is a part of the text with no character in `class` at its ends.
pub proof fn lemma_strip(text: Seq<char>, class: CharClass) -> (range: (int, int))
    ensures
        0 <= range.0 <= range.1 <= text.len(),
        strip(text, class) == text.subrange(range.0, range.1),
        strip(text, class).len() > 0 ==> !class.holds(strip(text, class)[0]) && !class.holds(
            strip(text, class).last(),
        ),
{
    let from = lemma_strip_start(text, class);
    let to = lemma_strip_end(text.skip(from), class);
    assert(text.skip(from).take(to) =~= text.subrange(from, from + to));
    (from, from + to)
}

/// Nothing is stripped from text whose first and last character are not in `class`.
pub proof fn lemma_strip_nothing(text: Seq<char>, class: CharClass)
    requires
        text.len() > 0 ==> !class.holds(text[0]) && !class.holds(text.last()),
    ensures
        strip(text, class) == text,
        strip_start(text, class) == text,
        strip_end(text, class) == text,
{
}

/// Text is not blank where its first and its last character are no white space.
pub proof fn lemma_visible_is_not_blank(text: Seq<char>)
    requires
        text.len() > 0,
        !is_space(text[0]),
        !is_space(text.last()),
    ensures
        trimmed(text) == text,
        !blank(text),
{
}

/// Text that holds nothing but white space, or nothing at all.
pub open spec fn all_space(text: Seq<char>) -> bool {
    forall|i: int| 0 <= i < text.len() ==> is_space(#[trigger] text[i])
}

proof fn lemma_strip_start_space(lead: Seq<char>, text: Seq<char>)
    requires
        all_space(lead),
    ensures
        strip_start(lead + text, CharClass::Space) == strip_start(text, CharClass::Space),
    decreases lead.len(),
{
    if lead.len() > 0 {
        let shorter = lead.skip(1);
        assert forall|i: int| 0 <= i < shorter.len() implies is_space(#[trigger] shorter[i]) by {
            assert(shorter[i] == lead[i + 1]);
        }
        assert(is_space(lead[0]));
        assert((lead + text).skip(1) =~= shorter + text);
        lemma_strip_start_space(shorter, text);
    } else {
        assert(lead + text =~= text);
    }
}

proof fn lemma_strip_end_space(text: Seq<char>, trail: Seq<char>)
    requires
        all_space(trail),
    ensures
        strip_end(text + trail, CharClass::Space) == strip_end(text, CharClass::Space),
    decreases trail.len(),
{
    if trail.len() > 0 {
        let shorter = trail.drop_last();
        assert(is_space(trail[trail.len() - 1]));
        assert((text + trail).drop_last() =~= text + shorter);
        lemma_strip_end_space(text, shorter);
    } else {
        assert(text + trail =~= text);
    }
}

proof fn lemma_strip_start_visible(text: Seq<char>, trail: Seq<char>)
    requires
        strip_start(text, CharClass::Space).len() > 0,
    ensures
        strip_start(text + trail, CharClass::Space) == strip_start(text, CharClass::Space) + trail,
    decreases text.len(),
{
    if text.len() > 0 && is_space(text[0]) {
        assert((text + trail).skip(1) =~= text.skip(1) + trail);
        lemma_strip_start_visible(text.skip(1), trail);
    }
}

/// White space around a text does not matter once it is trimmed.
pub proof fn lemma_trimmed_outer_space(lead: Seq<char>, text: Seq<char>, trail: Seq<char>)
    requires
        all_space(lead),
        all_space(trail),
    ensures
        trimmed(lead + text + trail) == trimmed(text),
{
    let empty = Seq::<char>::empty();
    assert(lead + text + trail =~= lead + (text + trail));
    lemma_strip_start_space(lead, text + trail);
    let kept = strip_start(text, CharClass::Space);
    if kept.len() > 0 {
        lemma_strip_start_visible(text, trail);
        lemma_strip_end_space(kept, trail);
    } else {
        lemma_stripped_is_space(text);
        lemma_strip_start_space(text, trail);
        lemma_strip_start_space(trail, empty);
        assert(trail + empty =~= trail);
        assert(kept =~= empty);
    }
}

proof fn lemma_stripped_is_space(text: Seq<char>)
    requires
        strip_start(text, CharClass::Space).len() == 0,
    ensures
        all_space(text),
    decreases text.len(),
{
    if text.len() > 0 {
        let rest = text.skip(1);
        lemma_stripped_is_space(rest);
        assert forall|i: int| 0 <= i < text.len() implies is_space(#[trigger] text[i]) by {
            if i > 0 {
                assert(rest[i - 1] == text[i]);
            }
        }
    }
}

/// Text is blank exactly where it holds nothing but white space.
pub proof fn lemma_blank_is_space(text: Seq<char>)
    ensures
        blank(text) <==> all_space(text),
{
    let empty = Seq::<char>::empty();
    let from = lemma_strip_start(text, CharClass::Space);
    let kept = text.skip(from);
    let to = lemma_strip_end(kept, CharClass::Space);
    if all_space(text) {
        lemma_strip_start_space(text, empty);
        assert(text + empty =~= text);
    }
    if blank(text) {
        assert(to == 0);
        if kept.len() > 0 {
            lemma_stripped_end_is_space(kept);
            assert(is_space(kept[0]));
            assert(kept[0] == text[from]);
        } else {
            lemma_stripped_is_space(text);
        }
    }
}

proof fn lemma_stripped_end_is_space(text: Seq<char>)
    requires
        strip_end(text, CharClass::Space).len() == 0,
    ensures
        all_space(text),
    decreases text.len(),
{
    if text.len() > 0 {
        let rest = text.drop_last();
        lemma_stripped_end_is_space(rest);
        assert forall|i: int| 0 <= i < text.len() implies is_space(#[trigger] text[i]) by {
            if i < rest.len() {
                assert(rest[i] == text[i]);
            }
        }
    }
}

/// The trimmed text, or `None` where nothing is left of it.
pub open spec fn non_blank_text(text: Seq<char>) -> Option<Seq<char>> {
    if blank(text) {
        None
    } else {
        Some(trimmed(text))
    }
}

/// The trimmed text, or `None` for text that is blank.
pub fn non_empty_string(value: &str) -> (result: Option<String>)
    ensures
        opt_text(result) == non_blank_text(value@),
{
    let kept = trim(value);
    if kept.as_str().is_empty() {
        None
    } else {
        Some(kept)
    }
}

/// The pieces of `text` between the occurrences of `separator`; there is always one more
/// piece than there are separators.
pub open spec fn split(text: Seq<char>, separator: char) -> Seq<Seq<char>>
    decreases text.len(),
{
    if text.len() == 0 {
        seq![Seq::<char>::empty()]
    } else {
        let before = split(text.drop_last(), separator);
        if text.last() == separator {
            before.push(Seq::<char>::empty())
        } else {
            before.drop_last().push(before.last().push(text.last()))
        }
    }
}

/// The pieces of a list, one after the other, with `separator` between two of them.
pub open spec fn join(pieces: Seq<Seq<char>>, separator: Seq<char>) -> Seq<char>
    decreases pieces.len(),
{
    if pieces.len() == 0 {
        Seq::<char>::empty()
    } else if pieces.len() == 1 {
        pieces[0]
    } else {
        join(pieces.drop_last(), separator) + separator + pieces.last()
    }
}

/// The contents of each list of a list of character lists.
pub open spec fn char_lists(list: Seq<Vec<char>>) -> Seq<Seq<char>> {
    Seq::new(list.len(), |i: int| list[i]@)
}

pub proof fn lemma_split_nonempty(text: Seq<char>, separator: char)
    ensures
        split(text, separator).len() >= 1,
    decreases text.len(),
{
    if text.len() > 0 {
        lemma_split_nonempty(text.drop_last(), separator);
    }
}

/// Text behind a separator, itself without one, is the last piece.
pub proof fn lemma_split_append(text: Seq<char>, separator: char, last: Seq<char>)
    requires
        !last.contains(separator),
    ensures
        split(text.push(separator) + last, separator) == split(text, separator).push(last),
    decreases last.len(),
{
    let whole = text.push(separator) + last;
    if last.len() == 0 {
        assert(whole =~= text.push(separator));
        assert(whole.drop_last() =~= text);
        assert(last =~= Seq::<char>::empty());
    } else {
        let shorter = last.drop_last();
        assert(whole.drop_last() =~= text.push(separator) + shorter);
        assert(last.contains(last.last()));
        assert forall|c: char| shorter.contains(c) implies last.contains(c) by {
            let i = choose|i: int| 0 <= i < shorter.len() && shorter[i] == c;
            assert(last[i] == c);
        }
        lemma_split_append(text, separator, shorter);
        assert(split(text, separator).push(shorter).drop_last() =~= split(text, separator));
        assert(shorter.push(last.last()) =~= last);
    }
}

/// Text without a separator is its own only piece.
pub proof fn lemma_split_single(text: Seq<char>, separator: char)
    requires
        !text.contains(separator),
    ensures
        split(text, separator) == seq![text],
    decreases text.len(),
{
    if text.len() > 0 {
        let shorter = text.drop_last();
        assert(text.contains(text.last()));
        assert forall|c: char| shorter.contains(c) implies text.contains(c) by {
            let i = choose|i: int| 0 <= i < shorter.len() && shorter[i] == c;
            assert(text[i] == c);
        }
        lemma_split_single(shorter, separator);
        assert(shorter.push(text.last()) =~= text);
        assert(seq![shorter].drop_last().push(text) =~= seq![text]);
    } else {
        assert(text =~= Seq::<char>::empty());
    }
}

/// Splitting undoes joining, where there is a piece and no piece holds the separator.
pub proof fn lemma_split_join(pieces: Seq<Seq<char>>, separator: char)
    requires
        pieces.len() > 0,
        forall|i: int| 0 <= i < pieces.len() ==> !(#[trigger] pieces[i]).contains(separator),
    ensures
        split(join(pieces, seq![separator]), separator) == pieces,
    decreases pieces.len(),
{
    if pieces.len() == 1 {
        lemma_split_single(pieces[0], separator);
        assert(seq![pieces[0]] =~= pieces);
    } else {
        let before = pieces.drop_last();
        lemma_split_join(before, separator);
        let text = join(before, seq![separator]);
        lemma_split_append(text, separator, pieces.last());
        assert(text + seq![separator] + pieces.last() =~= text.push(separator) + pieces.last());
        assert(before.push(pieces.last()) =~= pieces);
    }
}

/// Joining two lists of pieces is joining each, with the separator between them.
pub proof fn lemma_join_concat(
    left: Seq<Seq<char>>,
    right: Seq<Seq<char>>,
    separator: Seq<char>,
)
    requires
        left.len() > 0,
        right.len() > 0,
    ensures
        join(left + right, separator) == join(left, separator) + separator + join(
            right,
            separator,
        ),
    decreases right.len(),
{
    let all = left + right;
    if right.len() == 1 {
        assert(all.drop_last() =~= left);
    } else {
        assert(all.drop_last() =~= left + right.drop_last());
        lemma_join_concat(left, right.drop_last(), separator);
        assert(join(all, separator) =~= join(left, separator) + separator + (join(
            right.drop_last(),
            separator,
        ) + separator + right.last()));
    }
}

/// Each character of joined pieces stands in a piece or in the separator.
pub proof fn lemma_join_chars(pieces: Seq<Seq<char>>, separator: Seq<char>, at: int)
    requires
        0 <= at < join(pieces, separator).len(),
    ensures
        separator.contains(join(pieces, separator)[at]) || exists|i: int|
            0 <= i < pieces.len() && (#[trigger] pieces[i]).contains(
                join(pieces, separator)[at],
            ),
    decreases pieces.len(),
{
    if pieces.len() == 1 {
        assert(pieces[0].contains(pieces[0][at]));
    } else {
        let before = pieces.drop_last();
        let text = join(before, separator);
        if at < text.len() {
            lemma_join_chars(before, separator, at);
            if !separator.contains(text[at]) {
                let i = choose|i: int|
                    0 <= i < before.len() && (#[trigger] before[i]).contains(text[at]);
                assert(pieces[i].contains(text[at]));
            }
        } else if at < text.len() + separator.len() {
            assert(separator.contains(separator[at - text.len()]));
        } else {
            let last = pieces[pieces.len() - 1];
            assert(last.contains(last[at - text.len() - separator.len()]));
        }
    }
}

pub fn split_chars(chars: &[char], separator: char) -> (pieces: Vec<Vec<char>>)
    ensures
        char_lists(pieces@) == split(chars@, separator),
{
    let mut done: Vec<Vec<char>> = Vec::new();
    let mut current: Vec<char> = Vec::new();
    let mut i: usize = 0;
    proof {
        assert(chars@.take(0) =~= Seq::<char>::empty());
        assert(char_lists(done@).push(current@) =~= seq![Seq::<char>::empty()]);
    }
    while i < chars.len()
        invariant
            i <= chars@.len(),
            char_lists(done@).push(current@) == split(chars@.take(i as int), separator),
        decreases chars.len() - i,
    {
        let ghost before = split(chars@.take(i as int), separator);
        let ghost done_before = char_lists(done@);
        proof {
            assert(chars@.take(i as int + 1).drop_last() =~= chars@.take(i as int));
            assert(before.last() == current@);
            assert(before.drop_last() =~= done_before);
        }
        if chars[i] == separator {
            done.push(current);
            current = Vec::new();
            proof {
                assert(char_lists(done@) =~= before);
                assert(current@ =~= Seq::<char>::empty());
            }
        } else {
            current.push(chars[i]);
        }
        i += 1;
    }
    assert(chars@.take(chars@.len() as int) =~= chars@);
    let ghost all = char_lists(done@).push(current@);
    done.push(current);
    assert(char_lists(done@) =~= all);
    done
}

pub fn push_all(target: &mut Vec<char>, more: &[char])
    ensures
        final(target)@ == old(target)@ + more@,
{
    let ghost start = target@;
    let mut i: usize = 0;
    while i < more.len()
        invariant
            i <= more@.len(),
            target@ == start + more@.take(i as int),
        decreases more.len() - i,
    {
        target.push(more[i]);
        proof {
            assert(more@.take(i as int + 1) =~= more@.take(i as int).push(more@[i as int]));
        }
        i += 1;
    }
    assert(more@.take(more@.len() as int) =~= more@);
}

pub fn join_chars(pieces: &Vec<Vec<char>>, separator: char) -> (result: Vec<char>)
    ensures
        result@ == join(char_lists(pieces@), seq![separator]),
{
    let mut result: Vec<char> = Vec::new();
    let mut i: usize = 0;
    let ghost all = char_lists(pieces@);
    while i < pieces.len()
        invariant
            i <= pieces@.len(),
            all == char_lists(pieces@),
            result@ == join(all.take(i as int), seq![separator]),
        decreases pieces.len() - i,
    {
        proof {
            assert(all.take(i as int + 1).drop_last() =~= all.take(i as int));
            assert(all.take(i as int + 1).last() == pieces@[i as int]@);
        }
        if i > 0 {
            result.push(separator);
        }
        push_all(&mut result, pieces[i].as_slice());
        proof {
            if i == 0 {
                assert(result@ =~= pieces@[0]@);
            } else {
                assert(result@ =~= join(all.take(i as int), seq![separator]) + seq![separator]
                    + pieces@[i as int]@);
            }
        }
        i += 1;
    }
    assert(all.take(all.len() as int) =~= all);
    result
}

pub fn join_texts(pieces: &Vec<String>, separator: &str) -> (result: String)
    ensures
        result@ == join(texts(pieces@), separator@),
{
    let mut result = String::new();
    let mut i: usize = 0;
    let ghost all = texts(pieces@);
    while i < pieces.len()
        invariant
            i <= pieces@.len(),
            all == texts(pieces@),
            result@ == join(all.take(i as int), separator@),
        decreases pieces.len() - i,
    {
        proof {
            assert(all.take(i as int + 1).drop_last() =~= all.take(i as int));
            assert(all.take(i as int + 1).last() == pieces@[i as int]@);
        }
        if i > 0 {
            result.append(separator);
        }
        result.append(pieces[i].as_str());
        proof {
            if i == 0 {
                assert(result@ =~= pieces@[0]@);
            }
        }
        i += 1;
    }
    assert(all.take(all.len() as int) =~= all);
    result
}

} // verus!
