//! What is handed to the broker, how it is connected to, and what is counted.

use vstd::prelude::*;

use crate::config::MqttConfigView;
use crate::model::{PointSampleView, PollOutcomeView, PublishStatsView, TelemetryValueView};
use crate::mqtt::{
    connection_of, escaped, health_published, health_report, json_object, law_every_sample_is_counted,
    payload_of, published, sample_messages, stats_of, tls_of, HandedOver,
    HealthSnapshotView, JsonScalarView, TlsSetupView,
};
use crate::worker::{health_of, poll_handed_over};

verus! {

/// Values that can be written are handed over one by one, in their order, each under its own topic,
/// with its own payload and retained or not as configured, behind what was handed over before.
pub proof fn law_values_are_handed_over_in_order(
    before: Seq<HandedOver>,
    after: Seq<HandedOver>,
    samples: Seq<PointSampleView>,
    payloads: Seq<Result<Seq<u8>, Seq<char>>>,
    retain: bool,
    replies: Seq<Result<(), Seq<char>>>,
    stats: PublishStatsView,
)
    requires
        published(before, after, samples, payloads, retain, replies, stats),
        payloads.len() == samples.len(),
        forall|i: int| 0 <= i < payloads.len() ==> (#[trigger] payloads[i]) is Ok,
    ensures
        after.len() == before.len() + samples.len(),
        forall|i: int| 0 <= i < before.len() ==> #[trigger] after[i] == before[i],
        forall|i: int|
            #![trigger samples[i]]
            0 <= i < samples.len() ==> {
                let message = after[before.len() + i];
                &&& message.topic == samples[i].topic
                &&& message.payload == payloads[i]->Ok_0
                &&& message.retain == retain
                &&& message.reply == replies[i]
            },
{
    lemma_messages(samples, payloads, retain, replies);
    let messages = sample_messages(samples, payloads, retain, replies);
    assert forall|i: int|
        #![trigger samples[i]]
        0 <= i < samples.len() implies {
        let message = after[before.len() + i];
        &&& message.topic == samples[i].topic
        &&& message.payload == payloads[i]->Ok_0
        &&& message.retain == retain
        &&& message.reply == replies[i]
    } by {
        assert(after[before.len() + i] == messages[i]);
    }
}

proof fn lemma_messages(
    samples: Seq<PointSampleView>,
    payloads: Seq<Result<Seq<u8>, Seq<char>>>,
    retain: bool,
    replies: Seq<Result<(), Seq<char>>>,
)
    requires
        payloads.len() == samples.len(),
        replies.len() == samples.len(),
        forall|i: int| 0 <= i < payloads.len() ==> (#[trigger] payloads[i]) is Ok,
    ensures
        ({
            let messages = sample_messages(samples, payloads, retain, replies);
            &&& messages.len() == samples.len()
            &&& forall|i: int|
                #![trigger messages[i]]
                0 <= i < samples.len() ==> messages[i] == (HandedOver {
                    topic: samples[i].topic,
                    payload: payloads[i]->Ok_0,
                    retain,
                    reply: replies[i],
                })
        }),
    decreases samples.len(),
{
    if samples.len() > 0 {
        let shorter = payloads.drop_last();
        assert forall|i: int| 0 <= i < shorter.len() implies (#[trigger] shorter[i]) is Ok by {
            assert(shorter[i] == payloads[i]);
        }
        lemma_messages(samples.drop_last(), shorter, retain, replies.drop_last());
        assert(payloads[payloads.len() - 1] is Ok);
    }
}

/// A value that cannot be written is not handed over, and counts as failed; the others are handed
/// over as if it were not there.
pub proof fn law_unwritable_values_are_left_out(
    samples: Seq<PointSampleView>,
    payloads: Seq<Result<Seq<u8>, Seq<char>>>,
    retain: bool,
    replies: Seq<Result<(), Seq<char>>>,
    sample: PointSampleView,
    error: Seq<char>,
    reply: Result<(), Seq<char>>,
)
    requires
        samples.len() == payloads.len() < usize::MAX,
        replies.len() == payloads.len(),
    ensures
        sample_messages(samples.push(sample), payloads.push(Err(error)), retain, replies.push(reply))
            == sample_messages(samples, payloads, retain, replies),
        stats_of(payloads.push(Err(error)), replies.push(reply)).failed == stats_of(
            payloads,
            replies,
        ).failed + 1,
        stats_of(payloads.push(Err(error)), replies.push(reply)).published == stats_of(
            payloads,
            replies,
        ).published,
        stats_of(payloads.push(Err(error)), replies.push(reply)).last_error == Some(error),
{
    assert(samples.push(sample).drop_last() =~= samples);
    assert(payloads.push(Err(error)).drop_last() =~= payloads);
    assert(replies.push(reply).drop_last() =~= replies);
    law_every_sample_is_counted(payloads, replies);
}

/// A value that was handed over counts as published where the broker took it, and as failed with the
/// broker's reply where not.
pub proof fn law_replies_are_counted(
    payloads: Seq<Result<Seq<u8>, Seq<char>>>,
    replies: Seq<Result<(), Seq<char>>>,
    payload: Seq<u8>,
    reply: Result<(), Seq<char>>,
)
    requires
        replies.len() == payloads.len() < usize::MAX,
    ensures
        ({
            let before = stats_of(payloads, replies);
            let after = stats_of(payloads.push(Ok(payload)), replies.push(reply));
            &&& after.queued == 0
            &&& after.reconnects == 0
            &&& match reply {
                Ok(_) => {
                    &&& after.published == before.published + 1
                    &&& after.failed == before.failed
                    &&& after.last_error == before.last_error
                },
                Err(error) => {
                    &&& after.published == before.published
                    &&& after.failed == before.failed + 1
                    &&& after.last_error == Some(error)
                },
            }
        }),
        ({
            let none = stats_of(Seq::empty(), Seq::empty());
            none.published == 0 && none.failed == 0 && none.last_error is None
        }),
{
    assert(payloads.push(Ok(payload)).drop_last() =~= payloads);
    assert(replies.push(reply).drop_last() =~= replies);
    law_every_sample_is_counted(payloads, replies);
    lemma_untouched_counts(payloads, replies);
}

proof fn lemma_untouched_counts(
    payloads: Seq<Result<Seq<u8>, Seq<char>>>,
    replies: Seq<Result<(), Seq<char>>>,
)
    ensures
        stats_of(payloads, replies).queued == 0,
        stats_of(payloads, replies).reconnects == 0,
    decreases payloads.len(),
{
    if payloads.len() > 0 {
        lemma_untouched_counts(payloads.drop_last(), replies.drop_last());
    }
}

/// A text is published as that text in quotes, a number as it was written, whatever the one is while
/// the other is published.
pub proof fn law_payloads(
    text: Seq<char>,
    number: crate::model::Numeric,
    written: Result<Seq<u8>, Seq<char>>,
)
    ensures
        payload_of(TelemetryValueView::Number(number), written) == written,
        payload_of(TelemetryValueView::Text(text), written) is Ok,
        payload_of(TelemetryValueView::Text(text), written)->Ok_0 == vstd::utf8::encode_utf8(
            seq!['"'] + escaped(text) + seq!['"'],
        ),
{
}

/// Text is escaped character by character: quotes and backslashes behind a backslash, line breaks
/// and tabs by their letters, other characters below the space by their number, and all the rest
/// stays as it is.
pub proof fn law_escapes(left: Seq<char>, character: char)
    ensures
        escaped(Seq::empty()) == Seq::<char>::empty(),
        ({
            let before = escaped(left);
            let after = escaped(left.push(character));
            let code = character as u32;
            &&& code >= 0x20 && character != '"' && character != '\\' ==> after == before.push(
                character,
            )
            &&& character == '"' || character == '\\' ==> after == before + seq!['\\', character]
            &&& character == '\n' ==> after == before + seq!['\\', 'n']
            &&& character == '\r' ==> after == before + seq!['\\', 'r']
            &&& character == '\t' ==> after == before + seq!['\\', 't']
            &&& code == 0x08 ==> after == before + seq!['\\', 'b']
            &&& code == 0x0c ==> after == before + seq!['\\', 'f']
            &&& code == 0 ==> after == before + seq!['\\', 'u', '0', '0', '0', '0']
            &&& code == 0x0b ==> after == before + seq!['\\', 'u', '0', '0', '0', 'b']
            &&& code == 0x1f ==> after == before + seq!['\\', 'u', '0', '0', '1', 'f']
        }),
{
    assert(left.push(character).drop_last() =~= left);
    assert(escaped(left) + seq![character] =~= escaped(left).push(character));
}

/// The connection is made as configured, with a keep-alive of at least five seconds, and with
/// credentials where a user is named, the password being empty where there is none.
pub proof fn law_connected_as_configured(config: MqttConfigView)
    ensures
        ({
            let connection = connection_of(config);
            &&& connection.client_id == config.client_id
            &&& connection.host == config.host
            &&& connection.port == config.port
            &&& connection.use_tls == config.use_tls
            &&& config.keep_alive_secs >= 5 ==> connection.keep_alive_secs
                == config.keep_alive_secs
            &&& config.keep_alive_secs < 5 ==> connection.keep_alive_secs == 5
            &&& match config.username {
                None => connection.credentials is None,
                Some(user) => if user.len() == 0 {
                    connection.credentials is None
                } else {
                    &&& connection.credentials is Some
                    &&& connection.credentials->Some_0.0 == user
                    &&& config.password is Some ==> connection.credentials->Some_0.1
                        == config.password->Some_0
                    &&& config.password is None ==> connection.credentials->Some_0.1.len() == 0
                },
            }
        }),
{
}

/// With TLS, the configured certificates are used: the authority's, and the client's with its key. A
/// client certificate without a key is refused; a key alone is not used.
pub proof fn law_certificates_are_used(config: MqttConfigView)
    requires
        config.use_tls,
    ensures
        config.client_cert_path is Some && config.client_key_path is Some ==> tls_of(config)
            == Ok::<TlsSetupView, Seq<char>>(
            TlsSetupView::Pem {
                ca: config.ca_cert_path,
                client: Some((config.client_cert_path->Some_0, config.client_key_path->Some_0)),
            },
        ),
        config.client_cert_path is Some && config.client_key_path is None ==> tls_of(config)
            == Err::<TlsSetupView, Seq<char>>("MQTT client certificate requires a client key"@),
        config.client_cert_path is None && config.ca_cert_path is Some ==> tls_of(config)
            == Ok::<TlsSetupView, Seq<char>>(
            TlsSetupView::Pem { ca: config.ca_cert_path, client: None },
        ),
        config.client_cert_path is None && config.ca_cert_path is None ==> tls_of(config)
            == Ok::<TlsSetupView, Seq<char>>(TlsSetupView::PlatformRoots),
{
}

/// A health report holds each count of the snapshot under its own name, the last error or null, the
/// time, and whether all is well, which it is where no read and no publication failed.
pub proof fn law_health_reports(snapshot: HealthSnapshotView, timestamp: i64)
    ensures
        ({
            let report = health_report(snapshot, timestamp);
            &&& report.len() == 8
            &&& report.contains(
                ("published"@, JsonScalarView::Count(snapshot.published as u64)),
            )
            &&& report.contains(
                ("failed_reads"@, JsonScalarView::Count(snapshot.failed_reads as u64)),
            )
            &&& report.contains(
                ("failed_publishes"@, JsonScalarView::Count(snapshot.failed_publishes as u64)),
            )
            &&& report.contains(
                ("stale_points"@, JsonScalarView::Count(snapshot.stale_points as u64)),
            )
            &&& report.contains(
                ("reconnects"@, JsonScalarView::Count(snapshot.reconnects as u64)),
            )
            &&& report.contains(("timestamp"@, JsonScalarView::Integer(timestamp)))
            &&& snapshot.last_error is None ==> report.contains(
                ("last_error"@, JsonScalarView::Null),
            )
            &&& snapshot.last_error is Some ==> report.contains(
                ("last_error"@, JsonScalarView::Text(snapshot.last_error->Some_0)),
            )
            &&& snapshot.failed_reads == 0 && snapshot.failed_publishes == 0 ==> report.contains(
                ("status"@, JsonScalarView::Text("ok"@)),
            )
            &&& snapshot.failed_reads > 0 || snapshot.failed_publishes > 0 ==> report.contains(
                ("status"@, JsonScalarView::Text("degraded"@)),
            )
        }),
{
    let report = health_report(snapshot, timestamp);
    assert(report[0] == ("failed_publishes"@, JsonScalarView::Count(snapshot.failed_publishes as u64)));
    assert(report[1] == ("failed_reads"@, JsonScalarView::Count(snapshot.failed_reads as u64)));
    assert(report[2].0 == "last_error"@);
    assert(report[3] == ("published"@, JsonScalarView::Count(snapshot.published as u64)));
    assert(report[4] == ("reconnects"@, JsonScalarView::Count(snapshot.reconnects as u64)));
    assert(report[5] == ("stale_points"@, JsonScalarView::Count(snapshot.stale_points as u64)));
    assert(report[6].0 == "status"@);
    assert(report[7] == ("timestamp"@, JsonScalarView::Integer(timestamp)));
}

/// A snapshot counts the failed reads of the poll and what was counted of its publication.
pub proof fn law_health_of_a_poll(
    outcome: PollOutcomeView,
    stats: PublishStatsView,
    stale_points: usize,
)
    requires
        outcome.failures.len() <= usize::MAX,
    ensures
        ({
            let snapshot = health_of(outcome, stats, stale_points);
            &&& snapshot.failed_reads == outcome.failures.len()
            &&& snapshot.published == stats.published
            &&& snapshot.failed_publishes == stats.failed
            &&& snapshot.stale_points == stale_points
            &&& snapshot.reconnects == stats.reconnects
            &&& snapshot.last_error == stats.last_error
        }),
{
}

/// After a poll, the values and then one health report are handed over, the report being of that very
/// poll.
pub proof fn law_polls_are_followed_by_a_report(
    before: Seq<HandedOver>,
    after: Seq<HandedOver>,
    mqtt: MqttConfigView,
    outcome: PollOutcomeView,
    payloads: Seq<Result<Seq<u8>, Seq<char>>>,
    stale_points: usize,
    replies: Seq<Result<(), Seq<char>>>,
    timestamp: i64,
    health_reply: Result<(), Seq<char>>,
    stats: PublishStatsView,
)
    requires
        poll_handed_over(
            before,
            after,
            mqtt,
            outcome,
            payloads,
            stale_points,
            replies,
            timestamp,
            health_reply,
            stats,
        ),
        payloads.len() == outcome.samples.len(),
        forall|i: int| 0 <= i < payloads.len() ==> (#[trigger] payloads[i]) is Ok,
    ensures
        after.len() == before.len() + outcome.samples.len() + 1,
        forall|i: int|
            #![trigger outcome.samples[i]]
            0 <= i < outcome.samples.len() ==> {
                let message = after[before.len() + i];
                &&& message.topic == outcome.samples[i].topic
                &&& message.payload == payloads[i]->Ok_0
                &&& message.retain == mqtt.retain
            },
        after.last().topic == mqtt.health_topic,
        after.last().retain,
        after.last().payload == json_object(
            health_report(health_of(outcome, stats, stale_points), timestamp),
        ),
{
    let between = before + sample_messages(outcome.samples, payloads, mqtt.retain, replies);
    law_values_are_handed_over_in_order(
        before,
        between,
        outcome.samples,
        payloads,
        mqtt.retain,
        replies,
        stats,
    );
    assert forall|i: int|
        #![trigger outcome.samples[i]]
        0 <= i < outcome.samples.len() implies {
        let message = after[before.len() + i];
        &&& message.topic == outcome.samples[i].topic
        &&& message.payload == payloads[i]->Ok_0
        &&& message.retain == mqtt.retain
    } by {
        assert(after[before.len() + i] == between[before.len() + i]);
    }
}

/// A health report is one message behind all others, under the health topic, and retained.
pub proof fn law_health_is_retained(
    before: Seq<HandedOver>,
    after: Seq<HandedOver>,
    topic: Seq<char>,
    payload: Seq<u8>,
    reply: Result<(), Seq<char>>,
)
    requires
        health_published(before, after, topic, payload, reply),
    ensures
        after.len() == before.len() + 1,
        after.drop_last() == before,
        after.last().topic == topic,
        after.last().payload == payload,
        after.last().retain,
        after.last().reply == reply,
{
    assert(after.drop_last() =~= before);
}

} // verus!
