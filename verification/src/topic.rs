//! MQTT topics: the topic that a point's value is published to, and the form of its parts.

use vstd::prelude::*;

use crate::config::MqttConfig;
use crate::model::{PointConfig, PointConfigView};
use crate::numerals::{decimal, decimal_text, is_digit, lemma_decimal_digits};
use crate::text::{
    blank, char_lists, chars_of, is_blank, is_control, is_control_char, is_space, join, join_chars,
    lemma_join_chars, lemma_join_concat, lemma_split_join, lemma_strip, lemma_strip_nothing,
    lemma_visible_is_not_blank, split, split_chars, string_of, strip, strip_chars, strip_chars_end,
    strip_end, trimmed, CharClass,
};

verus! {

/// Characters that may not stand in a segment of a topic: the separator, the wildcards, white
/// space of ASCII and control characters.
pub open spec fn is_replaced(character: char) -> bool {
    ||| character == '/'
    ||| character == '#'
    ||| character == '+'
    ||| character == ' '
    ||| is_control_char(character)
}

/// A character as it stands in a segment.
pub open spec fn segment_char(character: char) -> char {
    if is_replaced(character) {
        '_'
    } else {
        character
    }
}

/// Each character of a text as it stands in a segment.
pub open spec fn segment_chars(text: Seq<char>) -> Seq<char> {
    Seq::new(text.len(), |i: int| segment_char(text[i]))
}

/// Text in which each run of underscores has become one.
pub open spec fn collapse(text: Seq<char>) -> Seq<char>
    decreases text.len(),
{
    if text.len() == 0 {
        text
    } else {
        let before = collapse(text.drop_last());
        if text.last() == '_' && before.len() > 0 && before.last() == '_' {
            before
        } else {
            before.push(text.last())
        }
    }
}

/// Text as a segment of a topic: trimmed, with an underscore for each run of replaced characters
/// and underscores, and none at its ends.
pub open spec fn segment(text: Seq<char>) -> Seq<char> {
    strip(collapse(segment_chars(trimmed(text))), CharClass::Exactly('_'))
}

/// The segments of those pieces that are not blank.
pub open spec fn segments(pieces: Seq<Seq<char>>) -> Seq<Seq<char>>
    decreases pieces.len(),
{
    if pieces.len() == 0 {
        Seq::empty()
    } else {
        let before = segments(pieces.drop_last());
        if blank(pieces.last()) {
            before
        } else {
            before.push(segment(pieces.last()))
        }
    }
}

/// The segments of a path that is separated by slashes.
pub open spec fn path_segments(path: Seq<char>) -> Seq<Seq<char>> {
    segments(split(path, '/'))
}

/// Segments as a topic.
pub open spec fn topic_text(parts: Seq<Seq<char>>) -> Seq<char> {
    join(parts, seq!['/'])
}

/// A topic prefix without a subscription wildcard and slashes at its ends, in segments.
pub open spec fn normal_prefix(prefix: Seq<char>) -> Seq<char> {
    let bare = strip(
        strip_end(trimmed(prefix), CharClass::Exactly('#')),
        CharClass::Exactly('/'),
    );
    topic_text(path_segments(bare))
}

/// The path of a point that was given none.
pub open spec fn default_path(point: PointConfigView) -> Seq<char> {
    let device = if blank(point.device_label) {
        "device_"@ + decimal(point.device_instance as nat)
    } else {
        point.device_label
    };
    segment(device) + "/"@ + segment(point.object_type) + "/"@ + decimal(
        point.object_instance as nat,
    ) + "/"@ + segment(point.property)
}

/// The path of a point below the topic prefix.
pub open spec fn point_path(point: PointConfigView) -> Seq<char> {
    if blank(point.tag_path) {
        default_path(point)
    } else {
        point.tag_path
    }
}

/// The topic that a point's value is published to.
pub open spec fn point_topic(prefix: Seq<char>, point: PointConfigView) -> Seq<char> {
    topic_text(path_segments(normal_prefix(prefix)) + path_segments(point_path(point)))
}

fn to_segment(chars: &[char]) -> (result: Vec<char>)
    ensures
        result@ == segment(chars@),
{
    let kept = strip_chars(chars, CharClass::Space);
    let mut collapsed: Vec<char> = Vec::new();
    let mut i: usize = 0;
    let ghost mapped = segment_chars(kept@);
    assert(mapped.take(0) =~= Seq::<char>::empty());
    while i < kept.len()
        invariant
            i <= kept@.len(),
            mapped == segment_chars(kept@),
            collapsed@ == collapse(mapped.take(i as int)),
        decreases kept.len() - i,
    {
        proof {
            assert(mapped.take(i as int + 1).drop_last() =~= mapped.take(i as int));
            assert(mapped.take(i as int + 1).last() == segment_char(kept@[i as int]));
        }
        let original = kept[i];
        let character = if original == '/' || original == '#' || original == '+' || original
            == ' ' || is_control(original) {
            '_'
        } else {
            original
        };
        if !(character == '_' && collapsed.len() > 0 && collapsed[collapsed.len() - 1] == '_') {
            collapsed.push(character);
        }
        i += 1;
    }
    assert(mapped.take(mapped.len() as int) =~= mapped);
    strip_chars(collapsed.as_slice(), CharClass::Exactly('_'))
}

/// Appends the segments of a path.
fn push_segments(parts: &mut Vec<Vec<char>>, path: &[char])
    ensures
        char_lists(final(parts)@) == char_lists(old(parts)@) + path_segments(path@),
{
    let pieces = split_chars(path, '/');
    let ghost all = char_lists(pieces@);
    let ghost start = char_lists(parts@);
    let mut i: usize = 0;
    assert(all.take(0) =~= Seq::<Seq<char>>::empty());
    while i < pieces.len()
        invariant
            i <= pieces@.len(),
            all == char_lists(pieces@),
            char_lists(parts@) == start + segments(all.take(i as int)),
        decreases pieces.len() - i,
    {
        proof {
            assert(all.take(i as int + 1).drop_last() =~= all.take(i as int));
            assert(all.take(i as int + 1).last() == pieces@[i as int]@);
        }
        let kept = strip_chars(pieces[i].as_slice(), CharClass::Space);
        if kept.len() > 0 {
            let ghost before = parts@;
            parts.push(to_segment(pieces[i].as_slice()));
            proof {
                assert(char_lists(parts@) =~= char_lists(before).push(segment(pieces@[i as int]@)));
                assert(char_lists(parts@) =~= start + segments(all.take(i as int + 1)));
            }
        }
        i += 1;
    }
    assert(all.take(all.len() as int) =~= all);
}

pub fn sanitize_segment(value: &str) -> (result: String)
    ensures
        result@ == segment(value@),
{
    let chars = chars_of(value);
    let result = to_segment(chars.as_slice());
    string_of(result.as_slice())
}

pub fn normalize_prefix(prefix: &str) -> (result: String)
    ensures
        result@ == normal_prefix(prefix@),
{
    let chars = chars_of(prefix);
    let kept = strip_chars(chars.as_slice(), CharClass::Space);
    let unwild = strip_chars_end(kept.as_slice(), CharClass::Exactly('#'));
    let bare = strip_chars(unwild.as_slice(), CharClass::Exactly('/'));
    let mut parts: Vec<Vec<char>> = Vec::new();
    push_segments(&mut parts, bare.as_slice());
    assert(char_lists(parts@) =~= path_segments(bare@));
    let result = join_chars(&parts, '/');
    string_of(result.as_slice())
}

pub fn default_tag_path(point: &PointConfig) -> (path: String)
    ensures
        path@ == default_path(point@),
{
    let device = if is_blank(point.device_label.as_str()) {
        let mut name = "device_".to_string();
        name.append(decimal_text(point.device_instance as u64).as_str());
        name
    } else {
        point.device_label.clone()
    };
    let mut path = sanitize_segment(device.as_str());
    path.append("/");
    path.append(sanitize_segment(point.object_type.as_str()).as_str());
    path.append("/");
    path.append(decimal_text(point.object_instance as u64).as_str());
    path.append("/");
    path.append(sanitize_segment(point.property.as_str()).as_str());
    path
}

/// The topic made of the segments of two paths.
fn join_topic(prefix: &str, path: &str) -> (topic: String)
    ensures
        topic@ == topic_text(path_segments(prefix@) + path_segments(path@)),
{
    let mut parts: Vec<Vec<char>> = Vec::new();
    push_segments(&mut parts, chars_of(prefix).as_slice());
    assert(char_lists(parts@) =~= path_segments(prefix@));
    push_segments(&mut parts, chars_of(path).as_slice());
    let topic = join_chars(&parts, '/');
    string_of(topic.as_slice())
}

pub fn telemetry_topic(config: &MqttConfig, point: &PointConfig) -> (topic: String)
    ensures
        topic@ == point_topic(config@.topic_prefix, point@),
{
    let tag_path = if is_blank(point.tag_path.as_str()) {
        default_tag_path(point)
    } else {
        point.tag_path.clone()
    };
    join_topic(normalize_prefix(config.topic_prefix.as_str()).as_str(), tag_path.as_str())
}

/// Two underscores next to each other.
pub open spec fn double_underscore(text: Seq<char>, at: int) -> bool {
    0 <= at && at + 1 < text.len() && text[at] == '_' && text[at + 1] == '_'
}

/// What every segment of a topic is: free of separators, wildcards, ASCII white space and control
/// characters, without two underscores in a row and without one at its ends.
pub open spec fn clean(text: Seq<char>) -> bool {
    &&& forall|i: int| 0 <= i < text.len() ==> !is_replaced(#[trigger] text[i])
    &&& forall|i: int| !#[trigger] double_underscore(text, i)
    &&& text.len() > 0 ==> text[0] != '_' && text.last() != '_'
}

/// A segment that is left as it is: clean, not empty, and with no white space at its ends.
pub open spec fn stable(text: Seq<char>) -> bool {
    clean(text) && text.len() > 0 && !is_space(text[0]) && !is_space(text.last())
}

proof fn lemma_collapse(text: Seq<char>)
    requires
        forall|i: int| 0 <= i < text.len() ==> !is_replaced(#[trigger] text[i]),
    ensures
        forall|i: int| 0 <= i < collapse(text).len() ==> !is_replaced(#[trigger] collapse(text)[i]),
        forall|i: int| !#[trigger] double_underscore(collapse(text), i),
    decreases text.len(),
{
    if text.len() > 0 {
        let shorter = text.drop_last();
        lemma_collapse(shorter);
        assert(!is_replaced(text[text.len() - 1]));
        let before = collapse(shorter);
        assert forall|i: int| !#[trigger] double_underscore(collapse(text), i) by {
            assert(!double_underscore(before, i));
        }
    }
}

proof fn lemma_collapse_nothing(text: Seq<char>)
    requires
        forall|i: int| !#[trigger] double_underscore(text, i),
    ensures
        collapse(text) == text,
    decreases text.len(),
{
    if text.len() > 0 {
        let shorter = text.drop_last();
        assert forall|i: int| !#[trigger] double_underscore(shorter, i) by {
            assert(!double_underscore(text, i));
        }
        lemma_collapse_nothing(shorter);
        assert(!double_underscore(text, text.len() - 2));
        assert(shorter.push(text.last()) =~= text);
    }
}

/// A sanitized segment is clean, whatever it was made from.
pub proof fn law_segments_are_clean(text: Seq<char>)
    ensures
        clean(segment(text)),
{
    let mapped = segment_chars(trimmed(text));
    lemma_collapse(mapped);
    let collapsed = collapse(mapped);
    let range = lemma_strip(collapsed, CharClass::Exactly('_'));
    let kept = segment(text);
    assert forall|i: int| 0 <= i < kept.len() implies !is_replaced(#[trigger] kept[i]) by {
        assert(kept[i] == collapsed[range.0 + i]);
    }
    assert forall|i: int| !#[trigger] double_underscore(kept, i) by {
        assert(!double_underscore(collapsed, range.0 + i));
    }
}

/// Sanitizing leaves a clean segment as it is, unless white space that is not ASCII stands at one
/// of its ends.
pub proof fn law_clean_segments_stay(text: Seq<char>)
    requires
        clean(text),
        text.len() > 0 ==> !is_space(text[0]) && !is_space(text.last()),
    ensures
        segment(text) == text,
{
    lemma_strip_nothing(text, CharClass::Space);
    assert(segment_chars(text) =~= text);
    lemma_collapse_nothing(text);
    lemma_strip_nothing(text, CharClass::Exactly('_'));
}

/// Sanitizing twice gives what sanitizing once gives, unless sanitizing uncovered white space
/// that is not ASCII.
pub proof fn law_sanitizing_is_idempotent(text: Seq<char>)
    requires
        segment(text).len() > 0 ==> !is_space(segment(text)[0]) && !is_space(
            segment(text).last(),
        ),
    ensures
        segment(segment(text)) == segment(text),
{
    law_segments_are_clean(text);
    law_clean_segments_stay(segment(text));
}

proof fn lemma_segments_clean(pieces: Seq<Seq<char>>)
    ensures
        forall|i: int| 0 <= i < segments(pieces).len() ==> clean(#[trigger] segments(pieces)[i]),
    decreases pieces.len(),
{
    if pieces.len() > 0 {
        lemma_segments_clean(pieces.drop_last());
        law_segments_are_clean(pieces.last());
        let before = segments(pieces.drop_last());
        assert forall|i: int| 0 <= i < segments(pieces).len() implies clean(
            #[trigger] segments(pieces)[i],
        ) by {
            if i < before.len() {
                assert(segments(pieces)[i] == before[i]);
            }
        }
    }
}

proof fn lemma_segments_stable(pieces: Seq<Seq<char>>)
    requires
        forall|i: int| 0 <= i < pieces.len() ==> stable(#[trigger] pieces[i]),
    ensures
        segments(pieces) == pieces,
    decreases pieces.len(),
{
    if pieces.len() > 0 {
        let before = pieces.drop_last();
        assert forall|i: int| 0 <= i < before.len() implies stable(#[trigger] before[i]) by {
            assert(before[i] == pieces[i]);
        }
        lemma_segments_stable(before);
        let last = pieces[pieces.len() - 1];
        assert(stable(last));
        lemma_visible_is_not_blank(last);
        law_clean_segments_stay(last);
        assert(before.push(last) =~= pieces);
    }
}

proof fn lemma_clean_has_no_slash(text: Seq<char>)
    requires
        clean(text),
    ensures
        !text.contains('/'),
{
}

/// Text that a broker takes as a topic to publish to, and that is easy to read: no wildcards, no
/// control characters, no spaces, and no two underscores in a row.
pub open spec fn publishable(topic: Seq<char>) -> bool {
    &&& forall|i: int|
        #![trigger topic[i]]
        0 <= i < topic.len() ==> topic[i] == '/' || !is_replaced(topic[i])
    &&& forall|i: int| !#[trigger] double_underscore(topic, i)
}

proof fn lemma_topic_underscores(parts: Seq<Seq<char>>)
    requires
        forall|i: int| 0 <= i < parts.len() ==> clean(#[trigger] parts[i]),
    ensures
        forall|at: int| !#[trigger] double_underscore(topic_text(parts), at),
    decreases parts.len(),
{
    let topic = topic_text(parts);
    if parts.len() == 1 {
        assert(clean(parts[0]));
    } else if parts.len() > 1 {
        let shorter = parts.drop_last();
        let last = parts[parts.len() - 1];
        assert forall|i: int| 0 <= i < shorter.len() implies clean(#[trigger] shorter[i]) by {
            assert(shorter[i] == parts[i]);
        }
        lemma_topic_underscores(shorter);
        assert(clean(last));
        let before = topic_text(shorter);
        assert(topic == before + seq!['/'] + last);
        assert forall|at: int| !#[trigger] double_underscore(topic, at) by {
            assert(!double_underscore(before, at));
            assert(!double_underscore(last, at - before.len() - 1));
            if 0 <= at && at + 1 < topic.len() {
                if at + 1 == before.len() {
                    assert(topic[at + 1] == '/');
                } else if at == before.len() {
                    assert(topic[at] == '/');
                } else if at > before.len() {
                    assert(topic[at] == last[at - before.len() - 1]);
                    assert(topic[at + 1] == last[at - before.len()]);
                } else {
                    assert(topic[at] == before[at] && topic[at + 1] == before[at + 1]);
                }
            }
        }
    }
}

proof fn lemma_topic_publishable(parts: Seq<Seq<char>>)
    requires
        forall|i: int| 0 <= i < parts.len() ==> clean(#[trigger] parts[i]),
    ensures
        publishable(topic_text(parts)),
{
    let topic = topic_text(parts);
    lemma_topic_underscores(parts);
    assert forall|at: int| #![trigger topic[at]] 0 <= at < topic.len() implies topic[at] == '/'
        || !is_replaced(topic[at]) by {
        lemma_join_chars(parts, seq!['/'], at);
        if !seq!['/'].contains(topic[at]) {
            let i = choose|i: int|
                0 <= i < parts.len() && (#[trigger] parts[i]).contains(topic[at]);
            assert(clean(parts[i]));
        }
    }
}

/// Whatever the prefix and the point are, the topic holds no wildcard, no control character, no space
/// and no two underscores in a row.
pub proof fn law_topics_are_publishable(prefix: Seq<char>, point: PointConfigView)
    ensures
        publishable(point_topic(prefix, point)),
        publishable(normal_prefix(prefix)),
{
    let left = path_segments(normal_prefix(prefix));
    let right = path_segments(point_path(point));
    lemma_segments_clean(split(normal_prefix(prefix), '/'));
    lemma_segments_clean(split(point_path(point), '/'));
    let parts = left + right;
    assert forall|i: int| 0 <= i < parts.len() implies clean(#[trigger] parts[i]) by {
        if i < left.len() {
            assert(parts[i] == left[i]);
        } else {
            assert(parts[i] == right[i - left.len()]);
        }
    }
    lemma_topic_publishable(parts);
    let bare = strip(
        strip_end(trimmed(prefix), CharClass::Exactly('#')),
        CharClass::Exactly('/'),
    );
    lemma_segments_clean(split(bare, '/'));
    lemma_topic_publishable(path_segments(bare));
}

/// The levels of a topic are the segments of the prefix followed by those of the point's path.
pub proof fn law_topic_levels(prefix: Seq<char>, point: PointConfigView)
    requires
        path_segments(normal_prefix(prefix)).len() + path_segments(point_path(point)).len() > 0,
    ensures
        split(point_topic(prefix, point), '/') == path_segments(normal_prefix(prefix))
            + path_segments(point_path(point)),
{
    let left = path_segments(normal_prefix(prefix));
    let right = path_segments(point_path(point));
    lemma_segments_clean(split(normal_prefix(prefix), '/'));
    lemma_segments_clean(split(point_path(point), '/'));
    let parts = left + right;
    assert forall|i: int| 0 <= i < parts.len() implies !(#[trigger] parts[i]).contains('/') by {
        if i < left.len() {
            assert(parts[i] == left[i]);
        } else {
            assert(parts[i] == right[i - left.len()]);
        }
        lemma_clean_has_no_slash(parts[i]);
    }
    lemma_split_join(parts, '/');
}

/// Stable segments come back from the topic that they make.
proof fn lemma_path_of_topic(parts: Seq<Seq<char>>)
    requires
        forall|i: int| 0 <= i < parts.len() ==> stable(#[trigger] parts[i]),
    ensures
        path_segments(topic_text(parts)) == parts,
{
    if parts.len() == 0 {
        let empty = Seq::<char>::empty();
        assert(topic_text(parts) =~= empty);
        assert(split(empty, '/') =~= seq![empty]);
        assert(seq![empty].drop_last() =~= Seq::<Seq<char>>::empty());
        assert(segments(seq![empty].drop_last()) =~= Seq::<Seq<char>>::empty());
        assert(seq![empty].last() == empty);
        lemma_strip_nothing(empty, CharClass::Space);
        assert(blank(empty));
        assert(parts =~= Seq::<Seq<char>>::empty());
    } else {
        assert forall|i: int| 0 <= i < parts.len() implies !(#[trigger] parts[i]).contains(
            '/',
        ) by {
            assert(stable(parts[i]));
            lemma_clean_has_no_slash(parts[i]);
        }
        lemma_split_join(parts, '/');
        lemma_segments_stable(parts);
    }
}

/// The segments of a prefix, before they are joined again.
pub open spec fn prefix_segments(prefix: Seq<char>) -> Seq<Seq<char>> {
    path_segments(
        strip(
            strip_end(trimmed(prefix), CharClass::Exactly('#')),
            CharClass::Exactly('/'),
        ),
    )
}

/// A topic is the normalized prefix, a slash, and the segments of the point's path, where every
/// segment of the prefix is one that sanitizing leaves as it is.
pub proof fn law_topic_stands_below_prefix(prefix: Seq<char>, point: PointConfigView)
    requires
        forall|i: int| 0 <= i < prefix_segments(prefix).len() ==> stable(
            #[trigger] prefix_segments(prefix)[i],
        ),
        prefix_segments(prefix).len() > 0,
        path_segments(point_path(point)).len() > 0,
    ensures
        point_topic(prefix, point) == normal_prefix(prefix) + seq!['/'] + topic_text(
            path_segments(point_path(point)),
        ),
{
    let parts = prefix_segments(prefix);
    lemma_path_of_topic(parts);
    lemma_join_concat(parts, path_segments(point_path(point)), seq!['/']);
}

proof fn lemma_stable_topic_ends(parts: Seq<Seq<char>>)
    requires
        parts.len() > 0,
        forall|i: int| 0 <= i < parts.len() ==> stable(#[trigger] parts[i]),
    ensures
        topic_text(parts).len() > 0,
        topic_text(parts)[0] == parts[0][0],
        topic_text(parts).last() == parts.last().last(),
    decreases parts.len(),
{
    assert(stable(parts[0]));
    if parts.len() > 1 {
        let before = parts.drop_last();
        assert forall|i: int| 0 <= i < before.len() implies stable(#[trigger] before[i]) by {
            assert(before[i] == parts[i]);
        }
        lemma_stable_topic_ends(before);
        assert(stable(parts[parts.len() - 1]));
    }
}

/// Normalizing a prefix again changes nothing, where every segment of it is one that sanitizing
/// leaves as it is.
pub proof fn law_normalizing_prefix_is_idempotent(prefix: Seq<char>)
    requires
        forall|i: int| 0 <= i < prefix_segments(prefix).len() ==> stable(
            #[trigger] prefix_segments(prefix)[i],
        ),
    ensures
        normal_prefix(normal_prefix(prefix)) == normal_prefix(prefix),
{
    let parts = prefix_segments(prefix);
    let topic = normal_prefix(prefix);
    if parts.len() == 0 {
        assert(topic =~= Seq::<char>::empty());
    } else {
        lemma_stable_topic_ends(parts);
        assert(stable(parts[0]));
        assert(stable(parts[parts.len() - 1]));
    }
    lemma_strip_nothing(topic, CharClass::Space);
    lemma_strip_nothing(topic, CharClass::Exactly('#'));
    lemma_strip_nothing(topic, CharClass::Exactly('/'));
    lemma_path_of_topic(parts);
}

/// The segments of a default path: device, object type, object instance and property.
pub open spec fn default_path_segments(point: PointConfigView) -> Seq<Seq<char>> {
    let device = if blank(point.device_label) {
        "device_"@ + decimal(point.device_instance as nat)
    } else {
        point.device_label
    };
    seq![
        segment(device),
        segment(point.object_type),
        decimal(point.object_instance as nat),
        segment(point.property),
    ]
}

/// A point without a path of its own is published below the prefix by its device, object type,
/// object instance and property, one level each, where sanitizing leaves something of each.
pub proof fn law_default_topic(prefix: Seq<char>, point: PointConfigView)
    requires
        blank(point.tag_path),
        forall|i: int| 0 <= i < 4 && i != 2 ==> stable(
            #[trigger] default_path_segments(point)[i],
        ),
        forall|i: int| 0 <= i < prefix_segments(prefix).len() ==> stable(
            #[trigger] prefix_segments(prefix)[i],
        ),
    ensures
        point_topic(prefix, point) == topic_text(
            prefix_segments(prefix) + default_path_segments(point),
        ),
{
    let parts = default_path_segments(point);
    reveal_strlit("/");
    assert("/"@ =~= seq!['/']);
    let digits = decimal(point.object_instance as nat);
    lemma_decimal_digits(point.object_instance as nat);
    assert(stable(digits)) by {
        assert forall|i: int| !#[trigger] double_underscore(digits, i) by {
            if 0 <= i < digits.len() {
                assert(is_digit(digits[i]));
            }
        }
        assert forall|i: int| 0 <= i < digits.len() implies !is_replaced(#[trigger] digits[i]) by {
            assert(is_digit(digits[i]));
        }
        assert(is_digit(digits[0]));
        assert(is_digit(digits[digits.len() - 1]));
    }
    assert forall|i: int| 0 <= i < parts.len() implies stable(#[trigger] parts[i]) by {
        if i == 2 {
            assert(parts[i] == digits);
        }
    }
    lemma_path_of_topic(parts);
    let slash = seq!['/'];
    assert(parts.take(1) =~= seq![parts[0]]);
    assert(parts.take(2).drop_last() =~= parts.take(1));
    assert(parts.take(3).drop_last() =~= parts.take(2));
    assert(parts.drop_last() =~= parts.take(3));
    assert(topic_text(parts.take(1)) == parts[0]);
    assert(parts.take(2).last() == parts[1]);
    assert(parts.take(3).last() == parts[2]);
    assert(topic_text(parts.take(2)) == parts[0] + slash + parts[1]);
    assert(topic_text(parts.take(3)) == topic_text(parts.take(2)) + slash + parts[2]);
    assert(topic_text(parts) == topic_text(parts.take(3)) + slash + parts[3]);
    assert(default_path(point) == topic_text(parts));
    lemma_path_of_topic(prefix_segments(prefix));
}

} // verus!
