//! Which points are the same, and what is known of each of them.

use vstd::prelude::*;

use crate::model::{
    identity_of, identity_text, PointConfigView, PointFailureView, PointIdentityView,
    PointSampleView, PointStatusView,
};
use crate::statuses::{stale_identities, with_publication, with_read_failure, with_sample};
use crate::text::{all_space, is_space, lemma_blank_is_space, lemma_trimmed_outer_space, trimmed};
use crate::worker::backoff::with_failures;
use crate::worker::republisher::with_samples;

verus! {

/// The white space that is trimmed away and makes a text blank.
pub proof fn law_white_space(character: char)
    ensures
        ({
            let code = character as u32;
            &&& character == ' ' || character == '\t' || character == '\n' || character == '\r'
                ==> is_space(character)
            &&& 0x21 <= code < 0x7f ==> !is_space(character)
            &&& code < 0x80 ==> is_space(character) == (code == 0x20 || 0x09 <= code <= 0x0d)
        }),
{
}

/// Trimming takes away the white space at both ends, and nothing else.
pub proof fn law_trimming(lead: Seq<char>, text: Seq<char>, trail: Seq<char>)
    requires
        all_space(lead),
        all_space(trail),
        text.len() == 0 || (!is_space(text[0]) && !is_space(text.last())),
    ensures
        trimmed(lead + text + trail) == text,
{
    if text.len() > 0 {
        lemma_trimmed_outer_space(lead, text, trail);
        crate::text::lemma_strip_nothing(text, crate::text::CharClass::Space);
    } else {
        let whole = lead + text + trail;
        assert forall|i: int| 0 <= i < whole.len() implies is_space(#[trigger] whole[i]) by {
            if i < lead.len() {
                assert(whole[i] == lead[i]);
            } else {
                assert(whole[i] == trail[i - lead.len()]);
            }
        }
        lemma_blank_is_space(whole);
        assert(trimmed(whole) =~= text);
    }
}

/// Characters that count as the same in a name: the space, the hyphen and the underscore, and the
/// two cases of a letter.
pub open spec fn same_character(left: char, right: char) -> bool {
    ||| left == right
    ||| (left == ' ' || left == '-' || left == '_') && (right == ' ' || right == '-' || right == '_')
    ||| 0x41 <= left as u32 <= 0x5a && right as u32 == left as u32 + 0x20
    ||| 0x41 <= right as u32 <= 0x5a && left as u32 == right as u32 + 0x20
}

/// Names that count as the same.
pub open spec fn same_name(left: Seq<char>, right: Seq<char>) -> bool {
    let (kept, other) = (trimmed(left), trimmed(right));
    kept.len() == other.len() && forall|i: int|
        0 <= i < kept.len() ==> same_character(#[trigger] kept[i], other[i])
}

/// Two points are the same where they read the same property of the same object of the same device,
/// however the object type and the property are spelled; nothing else of a point matters.
pub proof fn law_when_points_are_the_same(left: PointConfigView, right: PointConfigView)
    ensures
        identity_of(left) == identity_of(right) <==> {
            &&& left.device_instance == right.device_instance
            &&& left.object_instance == right.object_instance
            &&& same_name(left.object_type, right.object_type)
            &&& same_name(left.property, right.property)
        },
{
    lemma_same_name(left.object_type, right.object_type);
    lemma_same_name(left.property, right.property);
}

proof fn lemma_same_name(left: Seq<char>, right: Seq<char>)
    ensures
        identity_text(left) == identity_text(right) <==> same_name(left, right),
{
    let (kept, other) = (trimmed(left), trimmed(right));
    let (spelled, named) = (identity_text(left), identity_text(right));
    if spelled == named {
        assert(kept.len() == spelled.len());
        assert forall|i: int| 0 <= i < kept.len() implies same_character(
            #[trigger] kept[i],
            other[i],
        ) by {
            assert(spelled[i] == named[i]);
            lemma_same_character(kept[i], other[i]);
        }
    }
    if same_name(left, right) {
        assert forall|i: int| 0 <= i < spelled.len() implies spelled[i] == named[i] by {
            assert(same_character(kept[i], other[i]));
            lemma_same_character(kept[i], other[i]);
        }
        assert(spelled =~= named);
    }
}

proof fn lemma_same_character(left: char, right: char)
    ensures
        same_character(left, right) <==> crate::model::identity_char(left)
            == crate::model::identity_char(right),
{
}

/// After a value was read, a point has that value and its time, is not stale and has no failures;
/// what is known of its publication stays, and so does all that is known of other points.
pub proof fn law_samples_are_recorded(
    statuses: Map<PointIdentityView, PointStatusView>,
    sample: PointSampleView,
    other: PointIdentityView,
)
    ensures
        ({
            let identity = identity_of(sample.point);
            let after = with_sample(statuses, sample);
            let status = after[identity];
            &&& after.contains_key(identity)
            &&& status.last_value == Some(sample.value)
            &&& status.last_sample_ms == Some(sample.timestamp_ms)
            &&& !status.stale
            &&& status.consecutive_failures == 0
            &&& status.last_error is None
            &&& statuses.contains_key(identity) ==> status.last_publish_error
                == statuses[identity].last_publish_error
            &&& !statuses.contains_key(identity) ==> status.last_publish_error is None
            &&& other != identity ==> {
                &&& after.contains_key(other) == statuses.contains_key(other)
                &&& statuses.contains_key(other) ==> after[other] == statuses[other]
            }
        }),
{
}

/// After a read failed, a point is stale with that error and one failure more; its last value, the
/// time of that and what is known of its publication stay, and so does all that is known of other
/// points.
pub proof fn law_failures_are_recorded(
    statuses: Map<PointIdentityView, PointStatusView>,
    identity: PointIdentityView,
    error: Seq<char>,
    other: PointIdentityView,
)
    ensures
        ({
            let after = with_read_failure(statuses, identity, error);
            let status = after[identity];
            &&& after.contains_key(identity)
            &&& status.stale
            &&& status.last_error == Some(error)
            &&& statuses.contains_key(identity) ==> {
                &&& status.last_value == statuses[identity].last_value
                &&& status.last_sample_ms == statuses[identity].last_sample_ms
                &&& status.last_publish_error == statuses[identity].last_publish_error
                &&& status.consecutive_failures == if statuses[identity].consecutive_failures
                    == 0xffff_ffff {
                    0xffff_ffff
                } else {
                    statuses[identity].consecutive_failures + 1
                }
            }
            &&& !statuses.contains_key(identity) ==> {
                &&& status.last_value is None
                &&& status.last_sample_ms is None
                &&& status.last_publish_error is None
                &&& status.consecutive_failures == 1
            }
            &&& other != identity ==> {
                &&& after.contains_key(other) == statuses.contains_key(other)
                &&& statuses.contains_key(other) ==> after[other] == statuses[other]
            }
        }),
{
}

/// After a publication, only what is known of the publication of that point changes: its error, or
/// none. A point that nothing was known of is stale and was never read.
pub proof fn law_publications_are_recorded(
    statuses: Map<PointIdentityView, PointStatusView>,
    identity: PointIdentityView,
    error: Option<Seq<char>>,
    other: PointIdentityView,
)
    ensures
        ({
            let after = with_publication(statuses, identity, error);
            let status = after[identity];
            &&& after.contains_key(identity)
            &&& status.last_publish_error == error
            &&& statuses.contains_key(identity) ==> {
                &&& status.last_value == statuses[identity].last_value
                &&& status.last_sample_ms == statuses[identity].last_sample_ms
                &&& status.stale == statuses[identity].stale
                &&& status.consecutive_failures == statuses[identity].consecutive_failures
                &&& status.last_error == statuses[identity].last_error
            }
            &&& !statuses.contains_key(identity) ==> {
                &&& status.last_value is None
                &&& status.last_sample_ms is None
                &&& status.stale
                &&& status.consecutive_failures == 0
                &&& status.last_error is None
            }
            &&& other != identity ==> {
                &&& after.contains_key(other) == statuses.contains_key(other)
                &&& statuses.contains_key(other) ==> after[other] == statuses[other]
            }
        }),
{
}

/// The stale points are those whose last read failed or that were never read.
pub proof fn law_stale_points(
    statuses: Map<PointIdentityView, PointStatusView>,
    identity: PointIdentityView,
)
    ensures
        stale_identities(statuses).contains(identity) <==> statuses.contains_key(identity)
            && statuses[identity].stale,
{
}

/// Of several samples, the last one of a point counts; a point without a sample keeps what is known
/// of it.
pub proof fn law_the_last_sample_counts(
    statuses: Map<PointIdentityView, PointStatusView>,
    samples: Seq<PointSampleView>,
    at: int,
    other: PointIdentityView,
)
    requires
        0 <= at < samples.len(),
        forall|i: int|
            at < i < samples.len() ==> identity_of((#[trigger] samples[i]).point) != identity_of(
                samples[at].point,
            ),
    ensures
        ({
            let after = with_samples(statuses, samples);
            let status = after[identity_of(samples[at].point)];
            &&& after.contains_key(identity_of(samples[at].point))
            &&& status.last_value == Some(samples[at].value)
            &&& status.last_sample_ms == Some(samples[at].timestamp_ms)
            &&& !status.stale
            &&& (forall|i: int|
                0 <= i < samples.len() ==> identity_of((#[trigger] samples[i]).point) != other) ==> {
                &&& after.contains_key(other) == statuses.contains_key(other)
                &&& statuses.contains_key(other) ==> after[other] == statuses[other]
            }
        }),
{
    lemma_unsampled(statuses, samples, other);
    lemma_last_sample(statuses, samples, at);
}

proof fn lemma_unsampled(
    statuses: Map<PointIdentityView, PointStatusView>,
    samples: Seq<PointSampleView>,
    other: PointIdentityView,
)
    ensures
        (forall|i: int|
            0 <= i < samples.len() ==> identity_of((#[trigger] samples[i]).point) != other) ==> {
            let after = with_samples(statuses, samples);
            &&& after.contains_key(other) == statuses.contains_key(other)
            &&& statuses.contains_key(other) ==> after[other] == statuses[other]
        },
    decreases samples.len(),
{
    if samples.len() > 0 && forall|i: int|
        0 <= i < samples.len() ==> identity_of((#[trigger] samples[i]).point) != other {
        let before = samples.drop_last();
        assert forall|i: int| 0 <= i < before.len() implies identity_of(
            (#[trigger] before[i]).point,
        ) != other by {
            assert(before[i] == samples[i]);
        }
        lemma_unsampled(statuses, before, other);
        assert(samples[samples.len() - 1] == samples.last());
    }
}

proof fn lemma_last_sample(
    statuses: Map<PointIdentityView, PointStatusView>,
    samples: Seq<PointSampleView>,
    at: int,
)
    requires
        0 <= at < samples.len(),
        forall|i: int|
            at < i < samples.len() ==> identity_of((#[trigger] samples[i]).point) != identity_of(
                samples[at].point,
            ),
    ensures
        ({
            let after = with_samples(statuses, samples);
            let status = after[identity_of(samples[at].point)];
            &&& after.contains_key(identity_of(samples[at].point))
            &&& status.last_value == Some(samples[at].value)
            &&& status.last_sample_ms == Some(samples[at].timestamp_ms)
            &&& !status.stale
        }),
    decreases samples.len(),
{
    let before = samples.drop_last();
    if at < samples.len() - 1 {
        assert forall|i: int| at < i < before.len() implies identity_of(
            (#[trigger] before[i]).point,
        ) != identity_of(before[at].point) by {
            assert(before[i] == samples[i]);
        }
        lemma_last_sample(statuses, before, at);
        assert(samples[samples.len() - 1] == samples.last());
    }
}

/// Of several failures, the last one of a point leaves its error; a point that did not fail keeps
/// what is known of it.
pub proof fn law_the_last_failure_is_shown(
    statuses: Map<PointIdentityView, PointStatusView>,
    failures: Seq<PointFailureView>,
    at: int,
    other: PointIdentityView,
)
    requires
        0 <= at < failures.len(),
        forall|i: int|
            at < i < failures.len() ==> identity_of((#[trigger] failures[i]).point) != identity_of(
                failures[at].point,
            ),
    ensures
        ({
            let after = with_failures(statuses, failures);
            let status = after[identity_of(failures[at].point)];
            &&& after.contains_key(identity_of(failures[at].point))
            &&& status.stale
            &&& status.last_error == Some(failures[at].error)
            &&& (forall|i: int|
                0 <= i < failures.len() ==> identity_of((#[trigger] failures[i]).point) != other)
                ==> {
                &&& after.contains_key(other) == statuses.contains_key(other)
                &&& statuses.contains_key(other) ==> after[other] == statuses[other]
            }
        }),
{
    lemma_unfailed(statuses, failures, other);
    lemma_last_failure(statuses, failures, at);
}

proof fn lemma_unfailed(
    statuses: Map<PointIdentityView, PointStatusView>,
    failures: Seq<PointFailureView>,
    other: PointIdentityView,
)
    ensures
        (forall|i: int|
            0 <= i < failures.len() ==> identity_of((#[trigger] failures[i]).point) != other) ==> {
            let after = with_failures(statuses, failures);
            &&& after.contains_key(other) == statuses.contains_key(other)
            &&& statuses.contains_key(other) ==> after[other] == statuses[other]
        },
    decreases failures.len(),
{
    if failures.len() > 0 && forall|i: int|
        0 <= i < failures.len() ==> identity_of((#[trigger] failures[i]).point) != other {
        let before = failures.drop_last();
        assert forall|i: int| 0 <= i < before.len() implies identity_of(
            (#[trigger] before[i]).point,
        ) != other by {
            assert(before[i] == failures[i]);
        }
        lemma_unfailed(statuses, before, other);
        assert(failures[failures.len() - 1] == failures.last());
    }
}

proof fn lemma_last_failure(
    statuses: Map<PointIdentityView, PointStatusView>,
    failures: Seq<PointFailureView>,
    at: int,
)
    requires
        0 <= at < failures.len(),
        forall|i: int|
            at < i < failures.len() ==> identity_of((#[trigger] failures[i]).point) != identity_of(
                failures[at].point,
            ),
    ensures
        ({
            let after = with_failures(statuses, failures);
            let status = after[identity_of(failures[at].point)];
            &&& after.contains_key(identity_of(failures[at].point))
            &&& status.stale
            &&& status.last_error == Some(failures[at].error)
        }),
    decreases failures.len(),
{
    let before = failures.drop_last();
    if at < failures.len() - 1 {
        assert forall|i: int| at < i < before.len() implies identity_of(
            (#[trigger] before[i]).point,
        ) != identity_of(before[at].point) by {
            assert(before[i] == failures[i]);
        }
        lemma_last_failure(statuses, before, at);
        assert(failures[failures.len() - 1] == failures.last());
    }
}

} // verus!
