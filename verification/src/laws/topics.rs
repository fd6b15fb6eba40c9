//! Where values are published to.

use vstd::prelude::*;

use crate::model::PointConfigView;
use crate::numerals::{decimal, is_digit, lemma_decimal_digits};
use crate::text::{
    all_space, blank, is_space, lemma_blank_is_space, lemma_split_nonempty, lemma_split_single,
    lemma_strip_nothing, lemma_trimmed_outer_space, lemma_visible_is_not_blank, split, strip,
    strip_end, strip_start, CharClass,
};
use crate::topic::{
    collapse, default_path, law_clean_segments_stay, law_topic_levels, normal_prefix, path_segments,
    point_topic, segment, segment_chars, segments, topic_text,
};

verus! {

/// A point with a path of its own is published by it, whatever else there is to say of the point:
/// the levels of its topic are the segments of the prefix and then those of the path.
pub proof fn law_own_paths_win(prefix: Seq<char>, point: PointConfigView)
    requires
        !all_space(point.tag_path),
    ensures
        point_topic(prefix, point) == topic_text(
            path_segments(normal_prefix(prefix)) + path_segments(point.tag_path),
        ),
        path_segments(point.tag_path).len() > 0 ==> split(point_topic(prefix, point), '/')
            == path_segments(normal_prefix(prefix)) + path_segments(point.tag_path),
{
    lemma_blank_is_space(point.tag_path);
    if path_segments(point.tag_path).len() > 0 {
        law_topic_levels(prefix, point);
    }
}

/// Two points with the same path of their own are published to the same topic.
pub proof fn law_own_paths_decide(prefix: Seq<char>, left: PointConfigView, right: PointConfigView)
    requires
        !all_space(left.tag_path),
        left.tag_path == right.tag_path,
    ensures
        point_topic(prefix, left) == point_topic(prefix, right),
{
    law_own_paths_win(prefix, left);
    law_own_paths_win(prefix, right);
}

/// A point without a path of its own is published by its device's label or, where that is blank,
/// `device_` and the device instance, then its object type, its object instance and its property.
/// Neither whether it is enabled nor its interval matters.
pub proof fn law_points_without_a_path(prefix: Seq<char>, point: PointConfigView)
    requires
        all_space(point.tag_path),
    ensures
        ({
            let device = if all_space(point.device_label) {
                "device_"@ + decimal(point.device_instance as nat)
            } else {
                point.device_label
            };
            point_topic(prefix, point) == topic_text(
                path_segments(normal_prefix(prefix)) + (path_segments(segment(device))
                    + path_segments(segment(point.object_type)) + seq![
                    decimal(point.object_instance as nat),
                ] + path_segments(segment(point.property))),
            )
        }),
{
    lemma_blank_is_space(point.tag_path);
    lemma_blank_is_space(point.device_label);
    let device = if all_space(point.device_label) {
        "device_"@ + decimal(point.device_instance as nat)
    } else {
        point.device_label
    };
    let number = decimal(point.object_instance as nat);
    let (a, b, c) = (segment(device), segment(point.object_type), segment(point.property));
    reveal_strlit("/");
    assert("/"@ =~= seq!['/']);
    law_paths_are_joined_by_slashes(a, b);
    law_paths_are_joined_by_slashes(a + seq!['/'] + b, number);
    law_paths_are_joined_by_slashes(a + seq!['/'] + b + seq!['/'] + number, c);
    lemma_number_is_a_segment(point.object_instance as nat);
    assert(path_segments(default_path(point)) == path_segments(a) + path_segments(b) + seq![number]
        + path_segments(c));
}

proof fn lemma_number_is_a_segment(number: nat)
    ensures
        path_segments(decimal(number)) == seq![decimal(number)],
{
    let digits = decimal(number);
    lemma_decimal_digits(number);
    assert(is_digit(digits[0]));
    assert(is_digit(digits[digits.len() - 1]));
    assert forall|i: int| 0 <= i < digits.len() implies !plainly_replaced(#[trigger] digits[i])
        && digits[i] != '_' by {
        assert(is_digit(digits[i]));
    }
    law_plain_segments_stay(digits);
    assert(!digits.contains('/')) by {
        if digits.contains('/') {
            let i = choose|i: int| 0 <= i < digits.len() && digits[i] == '/';
            assert(is_digit(digits[i]));
        }
    }
    law_paths_of_one_segment(digits);
    lemma_visible_is_not_blank(digits);
    lemma_blank_is_space(digits);
}

/// A path is as good as its parts: the segments of two paths with a slash between them are the
/// segments of the first and then those of the second.
pub proof fn law_paths_are_joined_by_slashes(left: Seq<char>, right: Seq<char>)
    ensures
        path_segments(left + seq!['/'] + right) == path_segments(left) + path_segments(right),
{
    law_texts_are_split_at_separators(left, right, '/');
    lemma_segments_concat(split(left, '/'), split(right, '/'));
}

/// A text is split at each separator and nowhere else: the pieces of two texts with a separator
/// between them are the pieces of the first and then those of the second, and a text without a
/// separator is one piece.
pub proof fn law_texts_are_split_at_separators(left: Seq<char>, right: Seq<char>, separator: char)
    ensures
        split(left + seq![separator] + right, separator) == split(left, separator) + split(
            right,
            separator,
        ),
        !left.contains(separator) ==> split(left, separator) == seq![left],
    decreases right.len(),
{
    if !left.contains(separator) {
        lemma_split_single(left, separator);
    }
    let whole = left + seq![separator] + right;
    if right.len() == 0 {
        assert(whole.drop_last() =~= left);
        assert(split(whole, separator) =~= split(left, separator) + split(right, separator));
    } else {
        let shorter = right.drop_last();
        assert(whole.drop_last() =~= left + seq![separator] + shorter);
        law_texts_are_split_at_separators(left, shorter, separator);
        lemma_split_nonempty(shorter, separator);
        let before = split(left, separator) + split(shorter, separator);
        assert(before.last() == split(shorter, separator).last());
        assert(before.drop_last() =~= split(left, separator) + split(shorter, separator).drop_last());
        assert(split(whole, separator) =~= split(left, separator) + split(right, separator));
    }
}

proof fn lemma_segments_concat(left: Seq<Seq<char>>, right: Seq<Seq<char>>)
    ensures
        segments(left + right) == segments(left) + segments(right),
    decreases right.len(),
{
    if right.len() == 0 {
        assert(left + right =~= left);
        assert(segments(left) + segments(right) =~= segments(left));
    } else {
        assert((left + right).drop_last() =~= left + right.drop_last());
        lemma_segments_concat(left, right.drop_last());
        assert(segments(left + right) =~= segments(left) + segments(right));
    }
}

/// A path without a slash is one segment, and none where it is blank.
pub proof fn law_paths_of_one_segment(path: Seq<char>)
    requires
        !path.contains('/'),
    ensures
        all_space(path) ==> path_segments(path) == Seq::<Seq<char>>::empty(),
        !all_space(path) ==> path_segments(path) == seq![segment(path)],
{
    lemma_split_single(path, '/');
    lemma_blank_is_space(path);
    let pieces = seq![path];
    assert(pieces.drop_last() =~= Seq::<Seq<char>>::empty());
    assert(segments(pieces.drop_last()) =~= Seq::<Seq<char>>::empty());
    assert(segments(pieces) =~= if blank(path) {
        Seq::<Seq<char>>::empty()
    } else {
        seq![segment(path)]
    });
}

/// The characters that cannot stand in a segment: the slash, the wildcards, the space and the
/// control characters.
pub open spec fn plainly_replaced(character: char) -> bool {
    let code = character as u32;
    ||| character == '/'
    ||| character == '#'
    ||| character == '+'
    ||| character == ' '
    ||| code < 0x20
    ||| 0x7f <= code < 0xa0
}

/// Text that holds none of these characters, no two underscores in a row, and neither an underscore
/// nor white space at its ends, is a segment as it is.
pub proof fn law_plain_segments_stay(text: Seq<char>)
    requires
        forall|i: int| 0 <= i < text.len() ==> !plainly_replaced(#[trigger] text[i]),
        forall|i: int|
            0 <= i < text.len() - 1 ==> (#[trigger] text[i]) != '_' || text[i + 1] != '_',
        text.len() > 0 ==> text[0] != '_' && text.last() != '_' && !is_space(text[0]) && !is_space(
            text.last(),
        ),
    ensures
        segment(text) == text,
{
    assert forall|i: int| !#[trigger] crate::topic::double_underscore(text, i) by {
        if 0 <= i && i + 1 < text.len() {
            assert(text[i] != '_' || text[i + 1] != '_');
        }
    }
    law_clean_segments_stay(text);
}

/// White space around a segment does not matter.
pub proof fn law_segments_are_trimmed(lead: Seq<char>, text: Seq<char>, trail: Seq<char>)
    requires
        all_space(lead),
        all_space(trail),
    ensures
        segment(lead + text + trail) == segment(text),
{
    lemma_trimmed_outer_space(lead, text, trail);
}

/// In a segment, each of these characters is as good as an underscore.
pub proof fn law_replaced_characters_are_underscores(
    left: Seq<char>,
    character: char,
    right: Seq<char>,
)
    requires
        plainly_replaced(character),
        !is_space((left + seq![character] + right)[0]),
        !is_space((left + seq![character] + right).last()),
    ensures
        segment(left + seq![character] + right) == segment(left + seq!['_'] + right),
{
    let (text, other) = (left + seq![character] + right, left + seq!['_'] + right);
    if left.len() > 0 {
        assert(text[0] == other[0]);
    } else {
        assert(other[0] == '_');
    }
    if right.len() > 0 {
        assert(text.last() == other.last());
    } else {
        assert(other.last() == '_');
    }
    lemma_strip_nothing(text, CharClass::Space);
    lemma_strip_nothing(other, CharClass::Space);
    assert(segment_chars(text) =~= segment_chars(other));
}

/// An underscore at the end of a segment does not matter.
pub proof fn law_underscores_are_dropped_at_the_end(left: Seq<char>)
    requires
        left.len() > 0,
        !is_space(left[0]) && !is_space(left.last()),
    ensures
        segment(left + seq!['_']) == segment(left),
        segment(seq!['_']) == Seq::<char>::empty(),
{
    let text = left + seq!['_'];
    assert(text[0] == left[0] && text.last() == '_');
    lemma_strip_nothing(text, CharClass::Space);
    lemma_strip_nothing(left, CharClass::Space);
    assert(segment_chars(text) =~= segment_chars(left).push('_'));
    assert(segment_chars(text).drop_last() =~= segment_chars(left));
    let (whole, kept) = (collapse(segment_chars(text)), collapse(segment_chars(left)));
    if whole != kept {
        assert(whole == kept.push('_'));
        lemma_strip_trailing_underscore(kept);
    }
    let one = seq!['_'];
    lemma_strip_nothing(one, CharClass::Space);
    assert(segment_chars(one) =~= one);
    assert(one.drop_last() =~= Seq::<char>::empty());
    assert(collapse(Seq::empty()) =~= Seq::<char>::empty());
    assert(collapse(one) =~= one);
    let none = Seq::<char>::empty();
    assert(one.skip(1) =~= none);
    assert(strip_start(none, CharClass::Exactly('_')) == none);
    assert(strip_start(one, CharClass::Exactly('_')) == none);
}

proof fn lemma_strip_trailing_underscore(text: Seq<char>)
    ensures
        strip(text.push('_'), CharClass::Exactly('_')) == strip(text, CharClass::Exactly('_')),
    decreases text.len(),
{
    let whole = text.push('_');
    if text.len() > 0 && text[0] == '_' {
        assert(whole.skip(1) =~= text.skip(1).push('_'));
        lemma_strip_trailing_underscore(text.skip(1));
    } else if text.len() > 0 {
        assert(whole[0] == text[0]);
        assert(whole.drop_last() =~= text);
    } else {
        assert(whole.skip(1) =~= text);
    }
}

/// Any number of underscores in a row is as good as one, and none at the ends.
pub proof fn law_underscores_are_not_repeated(left: Seq<char>, right: Seq<char>)
    requires
        left.len() > 0 && !is_space(left[0]),
        right.len() > 0 && !is_space(right.last()),
    ensures
        segment(left + seq!['_', '_'] + right) == segment(left + seq!['_'] + right),
        segment(seq!['_'] + right) == segment(seq!['_', '_'] + right),
        !is_space(right[0]) ==> segment(seq!['_'] + right) == segment(right),
{
    let (text, other) = (left + seq!['_', '_'] + right, left + seq!['_'] + right);
    assert(text[0] == left[0] && other[0] == left[0]);
    assert(text.last() == right.last() && other.last() == right.last());
    lemma_strip_nothing(text, CharClass::Space);
    lemma_strip_nothing(other, CharClass::Space);
    lemma_collapse_double(segment_chars(left), segment_chars(right));
    assert(segment_chars(text) =~= segment_chars(left) + seq!['_', '_'] + segment_chars(right));
    assert(segment_chars(other) =~= segment_chars(left) + seq!['_'] + segment_chars(right));

    let (one, two) = (seq!['_'] + right, seq!['_', '_'] + right);
    assert(one[0] == '_' && two[0] == '_');
    assert(one.last() == right.last() && two.last() == right.last());
    lemma_strip_nothing(one, CharClass::Space);
    lemma_strip_nothing(two, CharClass::Space);
    let none = Seq::<char>::empty();
    lemma_collapse_double(none, segment_chars(right));
    assert(segment_chars(one) =~= none + seq!['_'] + segment_chars(right));
    assert(segment_chars(two) =~= none + seq!['_', '_'] + segment_chars(right));
    if !is_space(right[0]) {
        lemma_strip_nothing(right, CharClass::Space);
        lemma_collapse_leading(segment_chars(right));
        assert(segment_chars(one) =~= seq!['_'] + segment_chars(right));
    }
}

proof fn lemma_collapse_double(left: Seq<char>, right: Seq<char>)
    ensures
        collapse(left + seq!['_', '_'] + right) == collapse(left + seq!['_'] + right),
    decreases right.len(),
{
    let (text, other) = (left + seq!['_', '_'] + right, left + seq!['_'] + right);
    if right.len() == 0 {
        assert(text.drop_last() =~= left + seq!['_']);
        assert(other =~= left + seq!['_']);
        assert(other.drop_last() =~= left);
    } else {
        assert(text.drop_last() =~= left + seq!['_', '_'] + right.drop_last());
        assert(other.drop_last() =~= left + seq!['_'] + right.drop_last());
        lemma_collapse_double(left, right.drop_last());
    }
}

/// With an underscore before it, a text collapses to the same behind an underscore, unless it begins
/// with one itself.
proof fn lemma_collapse_leading(text: Seq<char>)
    requires
        text.len() > 0,
    ensures
        strip(collapse(seq!['_'] + text), CharClass::Exactly('_')) == strip(
            collapse(text),
            CharClass::Exactly('_'),
        ),
{
    lemma_collapse_front(text);
    let (inner, outer) = (collapse(text), collapse(seq!['_'] + text));
    if outer != inner {
        assert(outer.skip(1) =~= inner);
        assert(outer[0] == '_');
    }
}

proof fn lemma_collapse_front(text: Seq<char>)
    ensures
        ({
            let (inner, outer) = (collapse(text), collapse(seq!['_'] + text));
            if text.len() > 0 && text[0] == '_' {
                outer == inner && inner.len() > 0 && inner[0] == '_'
            } else {
                outer == seq!['_'] + inner && (inner.len() > 0 ==> inner[0] == text[0]
                    && text.len() > 0) && (text.len() > 0 ==> inner.len() > 0)
            }
        }),
    decreases text.len(),
{
    let whole = seq!['_'] + text;
    if text.len() == 0 {
        assert(whole.drop_last() =~= Seq::<char>::empty());
        assert(collapse(whole.drop_last()) =~= Seq::<char>::empty());
        assert(collapse(whole) =~= seq!['_']);
        assert(collapse(whole) =~= seq!['_'] + collapse(text));
    } else {
        let shorter = text.drop_last();
        lemma_collapse_front(shorter);
        assert(whole.drop_last() =~= seq!['_'] + shorter);
        assert(whole.last() == text.last());
        let (inner, outer) = (collapse(shorter), collapse(whole.drop_last()));
        if shorter.len() == 0 {
            assert(inner =~= Seq::<char>::empty());
            assert(outer =~= seq!['_']);
            if text[0] != '_' {
                assert(collapse(whole) =~= seq!['_'] + collapse(text));
            } else {
                assert(collapse(whole) =~= collapse(text));
            }
        } else {
            assert(shorter[0] == text[0]);
            if text[0] != '_' {
                assert(outer.last() == inner.last());
                assert(collapse(whole) =~= seq!['_'] + collapse(text));
            }
        }
    }
}

/// A subscription wildcard behind a prefix, and slashes around it, do not matter.
pub proof fn law_prefixes_may_be_subscriptions(prefix: Seq<char>, point: PointConfigView)
    requires
        prefix.len() > 0,
        !is_space(prefix[0]) && !is_space(prefix.last()),
        prefix.last() != '#',
    ensures
        normal_prefix(prefix + seq!['/', '#']) == normal_prefix(prefix),
        normal_prefix(prefix + seq!['/']) == normal_prefix(prefix),
        point_topic(prefix + seq!['/', '#'], point) == point_topic(prefix, point),
        point_topic(prefix + seq!['/'], point) == point_topic(prefix, point),
        normal_prefix(seq!['/'] + prefix) == normal_prefix(prefix),
        prefix[0] != '/' && prefix.last() != '/' ==> normal_prefix(prefix) == topic_text(
            path_segments(prefix),
        ),
{
    let slashed = prefix + seq!['/'];
    let wild = prefix + seq!['/', '#'];
    lemma_strip_nothing(prefix, CharClass::Space);
    lemma_strip_nothing(slashed, CharClass::Space);
    lemma_strip_nothing(wild, CharClass::Space);
    let hash = CharClass::Exactly('#');
    assert(wild.drop_last() =~= slashed);
    assert(wild.last() == '#');
    assert(slashed.last() == '/');
    assert(strip_end(slashed, hash) == slashed);
    assert(strip_end(wild, hash) == slashed);
    assert(strip_end(prefix, hash) == prefix);
    lemma_strip_trailing_slash(prefix);
    let leading = seq!['/'] + prefix;
    assert(leading[0] == '/' && leading.last() == prefix.last());
    lemma_strip_nothing(leading, CharClass::Space);
    assert(strip_end(leading, hash) == leading);
    assert(leading.skip(1) =~= prefix);
    if prefix[0] != '/' && prefix.last() != '/' {
        lemma_strip_nothing(prefix, CharClass::Exactly('/'));
    }
}

proof fn lemma_strip_trailing_slash(text: Seq<char>)
    ensures
        strip(text + seq!['/'], CharClass::Exactly('/')) == strip(text, CharClass::Exactly('/')),
    decreases text.len(),
{
    let slash = CharClass::Exactly('/');
    let whole = text + seq!['/'];
    if text.len() > 0 && text[0] == '/' {
        assert(whole.skip(1) =~= text.skip(1) + seq!['/']);
        lemma_strip_trailing_slash(text.skip(1));
    } else if text.len() > 0 {
        assert(whole[0] == text[0]);
        assert(whole.drop_last() =~= text);
    } else {
        assert(whole.skip(1) =~= text);
    }
}

} // verus!
