//! Publishing: the payloads of values and of health reports, what is handed to the publisher, and
//! how it is connected.

use vstd::prelude::*;

use crate::config::{MqttConfig, MqttConfigView};
use crate::model::{
    now_millis, views, PointSample, PointSampleView, PublishStats, PublishStatsView,
    TelemetryValue, TelemetryValueView,
};
use crate::numerals::{decimal, signed_decimal};
use crate::text::{clone_opt_text, join, opt_text};

verus! {

/// The shortest keep-alive interval that a connection is opened with.
pub const MIN_KEEP_ALIVE_SECS: u64 = 5;

/// What a connection to the broker is opened with.
#[derive(Debug, PartialEq, Eq)]
pub struct MqttConnection {
    pub client_id: String,
    pub host: String,
    pub port: u16,
    pub keep_alive_secs: u64,
    pub use_tls: bool,
    pub credentials: Option<(String, String)>,
}

/// The contents of a [`MqttConnection`].
#[verifier::ext_equal]
pub struct MqttConnectionView {
    pub client_id: Seq<char>,
    pub host: Seq<char>,
    pub port: u16,
    pub keep_alive_secs: u64,
    pub use_tls: bool,
    pub credentials: Option<(Seq<char>, Seq<char>)>,
}

impl View for MqttConnection {
    type V = MqttConnectionView;

    open spec fn view(&self) -> MqttConnectionView {
        MqttConnectionView {
            client_id: self.client_id@,
            host: self.host@,
            port: self.port,
            keep_alive_secs: self.keep_alive_secs,
            use_tls: self.use_tls,
            credentials: match self.credentials {
                Some(pair) => Some((pair.0@, pair.1@)),
                None => None,
            },
        }
    }
}

/// What a connection is opened with: a keep-alive interval that is not too short, and credentials
/// where there is a user name.
pub open spec fn connection_of(config: MqttConfigView) -> MqttConnectionView {
    MqttConnectionView {
        client_id: config.client_id,
        host: config.host,
        port: config.port,
        keep_alive_secs: if config.keep_alive_secs < MIN_KEEP_ALIVE_SECS {
            MIN_KEEP_ALIVE_SECS
        } else {
            config.keep_alive_secs
        },
        use_tls: config.use_tls,
        credentials: match config.username {
            Some(username) => if username.len() == 0 {
                None
            } else {
                Some(
                    (
                        username,
                        match config.password {
                            Some(password) => password,
                            None => Seq::empty(),
                        },
                    ),
                )
            },
            None => None,
        },
    }
}

impl MqttConnection {
    pub fn new(config: &MqttConfig) -> (connection: MqttConnection)
        ensures
            connection@ == connection_of(config@),
    {
        let credentials = match &config.username {
            Some(username) => {
                if username.as_str().is_empty() {
                    None
                } else {
                    let password = match &config.password {
                        Some(password) => password.clone(),
                        None => String::new(),
                    };
                    Some((username.clone(), password))
                }
            },
            None => None,
        };
        MqttConnection {
            client_id: config.client_id.clone(),
            host: config.host.clone(),
            port: config.port,
            keep_alive_secs: if config.keep_alive_secs < MIN_KEEP_ALIVE_SECS {
                MIN_KEEP_ALIVE_SECS
            } else {
                config.keep_alive_secs
            },
            use_tls: config.use_tls,
            credentials,
        }
    }
}

/// How a connection is secured.
#[derive(Debug, PartialEq, Eq)]
pub enum TlsSetup {
    /// Not at all.
    Plain,
    /// By the root certificates of the platform.
    PlatformRoots,
    /// By PEM files: a trust anchor, and a certificate and its key to be known by.
    Pem { ca: Option<String>, client: Option<(String, String)> },
}

/// The contents of a [`TlsSetup`].
#[verifier::ext_equal]
pub enum TlsSetupView {
    Plain,
    PlatformRoots,
    Pem { ca: Option<Seq<char>>, client: Option<(Seq<char>, Seq<char>)> },
}

impl View for TlsSetup {
    type V = TlsSetupView;

    open spec fn view(&self) -> TlsSetupView {
        match *self {
            TlsSetup::Plain => TlsSetupView::Plain,
            TlsSetup::PlatformRoots => TlsSetupView::PlatformRoots,
            TlsSetup::Pem { ca, client } => TlsSetupView::Pem {
                ca: opt_text(ca),
                client: match client {
                    Some(pair) => Some((pair.0@, pair.1@)),
                    None => None,
                },
            },
        }
    }
}

/// How a connection is secured: by the platform's root certificates, unless PEM files are
/// configured. A certificate needs its key.
pub open spec fn tls_of(config: MqttConfigView) -> Result<TlsSetupView, Seq<char>> {
    if !config.use_tls {
        Ok(TlsSetupView::Plain)
    } else {
        match (config.client_cert_path, config.client_key_path) {
            (Some(certificate), Some(key)) => Ok(
                TlsSetupView::Pem { ca: config.ca_cert_path, client: Some((certificate, key)) },
            ),
            (Some(_), None) => Err("MQTT client certificate requires a client key"@),
            (None, _) => match config.ca_cert_path {
                Some(ca) => Ok(TlsSetupView::Pem { ca: Some(ca), client: None }),
                None => Ok(TlsSetupView::PlatformRoots),
            },
        }
    }
}

pub fn tls_setup(config: &MqttConfig) -> (setup: Result<TlsSetup, String>)
    ensures
        match setup {
            Ok(tls) => tls_of(config@) == Ok::<TlsSetupView, Seq<char>>(tls@),
            Err(message) => tls_of(config@) == Err::<TlsSetupView, Seq<char>>(message@),
        },
{
    if !config.use_tls {
        return Ok(TlsSetup::Plain);
    }
    match &config.client_cert_path {
        Some(certificate) => match &config.client_key_path {
            Some(key) => Ok(
                TlsSetup::Pem {
                    ca: clone_opt_text(&config.ca_cert_path),
                    client: Some((certificate.clone(), key.clone())),
                },
            ),
            None => Err("MQTT client certificate requires a client key".to_string()),
        },
        None => match &config.ca_cert_path {
            Some(ca) => Ok(TlsSetup::Pem { ca: Some(ca.clone()), client: None }),
            None => Ok(TlsSetup::PlatformRoots),
        },
    }
}

/// Connections are secured by the platform's root certificates unless a trust anchor or a client
/// certificate is configured, and not secured at all exactly where that is switched off.
pub proof fn law_default_tls(config: MqttConfigView)
    ensures
        tls_of(config) == Ok::<TlsSetupView, Seq<char>>(TlsSetupView::Plain) <==> !config.use_tls,
        tls_of(config) == Ok::<TlsSetupView, Seq<char>>(TlsSetupView::PlatformRoots)
            <==> config.use_tls && config.ca_cert_path is None && config.client_cert_path is None,
        tls_of(config) is Err <==> config.use_tls && config.client_cert_path is Some
            && config.client_key_path is None,
{
}

/// The lower-case hexadecimal digit of a number below sixteen.
pub open spec fn lower_hex_digit(value: u32) -> char {
    if value < 10 {
        (0x30 + value) as char
    } else {
        (0x57 + value) as char
    }
}

/// How a character stands in a JSON string: quotation marks, backslashes and control characters
/// are escaped, and all others stand as they are.
pub open spec fn escaped_char(character: char) -> Seq<char> {
    let code = character as u32;
    if character == '"' || character == '\\' {
        seq!['\\', character]
    } else if code == 0x08 {
        seq!['\\', 'b']
    } else if code == 0x09 {
        seq!['\\', 't']
    } else if code == 0x0a {
        seq!['\\', 'n']
    } else if code == 0x0c {
        seq!['\\', 'f']
    } else if code == 0x0d {
        seq!['\\', 'r']
    } else if code < 0x20 {
        seq!['\\', 'u', '0', '0', lower_hex_digit(code / 16), lower_hex_digit(code % 16)]
    } else {
        seq![character]
    }
}

/// How a text stands in a JSON string.
pub open spec fn escaped(text: Seq<char>) -> Seq<char>
    decreases text.len(),
{
    if text.len() == 0 {
        text
    } else {
        escaped(text.drop_last()) + escaped_char(text.last())
    }
}

/// A text as a JSON string.
pub open spec fn string_text(text: Seq<char>) -> Seq<char> {
    seq!['"'] + escaped(text) + seq!['"']
}

/// A text as a JSON string, in UTF-8.
pub open spec fn json_string(text: Seq<char>) -> Seq<u8> {
    vstd::utf8::encode_utf8(string_text(text))
}

/// `serde_json::to_vec` on a string, which does not fail: the text stands between quotation marks,
/// with quotation marks, backslashes and control characters escaped.
#[verifier::external_body]
fn encode_string(text: &str) -> (encoded: Result<Vec<u8>, String>)
    ensures
        encoded is Ok,
        encoded->Ok_0@ == json_string(text@),
{
    serde_json::to_vec(text).map_err(|error| error.to_string())
}

/// The texts without quotation marks, backslashes and control characters.
pub open spec fn is_plain(text: Seq<char>) -> bool {
    forall|i: int|
        #![trigger text[i]]
        0 <= i < text.len() ==> text[i] as u32 >= 0x20 && text[i] != '"' && text[i] != '\\'
}

/// A plain text is published as it is, between quotation marks.
pub proof fn law_plain_text_is_not_escaped(text: Seq<char>)
    requires
        is_plain(text),
    ensures
        json_string(text) == vstd::utf8::encode_utf8(seq!['"'] + text + seq!['"']),
{
    lemma_plain_text(text);
}

proof fn lemma_plain_text(text: Seq<char>)
    requires
        is_plain(text),
    ensures
        escaped(text) == text,
    decreases text.len(),
{
    if text.len() > 0 {
        let shorter = text.drop_last();
        assert(forall|i: int| 0 <= i < shorter.len() ==> shorter[i] == text[i]);
        lemma_plain_text(shorter);
        assert(text.last() == text[text.len() - 1]);
        assert(shorter + seq![text.last()] =~= text);
    }
}

/// The contents of bytes or of an error.
pub open spec fn encoded_bytes(encoded: Result<Vec<u8>, String>) -> Result<Seq<u8>, Seq<char>> {
    match encoded {
        Ok(bytes) => Ok(bytes@),
        Err(message) => Err(message@),
    }
}

/// The payload of a value: text as a JSON string, and a number as given.
pub open spec fn payload_of(
    value: TelemetryValueView,
    number: Result<Seq<u8>, Seq<char>>,
) -> Result<Seq<u8>, Seq<char>> {
    match value {
        TelemetryValueView::Number(_) => number,
        TelemetryValueView::Text(text) => Ok(json_string(text)),
    }
}

/// The payload of a value, a number's being `number`.
pub fn value_payload(
    value: &TelemetryValue,
    number: Result<Vec<u8>, String>,
) -> (payload: Result<Vec<u8>, String>)
    ensures
        encoded_bytes(payload) == payload_of(value@, encoded_bytes(number)),
{
    match value {
        TelemetryValue::Number(_) => number,
        TelemetryValue::Text(text) => encode_string(text.as_str()),
    }
}

/// A message that was handed to a publisher: its topic, its payload, whether the broker keeps it,
/// and what the publisher replied.
#[verifier::ext_equal]
pub struct HandedOver {
    pub topic: Seq<char>,
    pub payload: Seq<u8>,
    pub retain: bool,
    pub reply: Result<(), Seq<char>>,
}

/// The contents of a reply.
pub open spec fn reply_of(result: Result<(), String>) -> Result<(), Seq<char>> {
    match result {
        Ok(unit) => Ok(unit),
        Err(message) => Err(message@),
    }
}

/// The messages that were handed over so far. There is no such record when the program runs.
pub type History = Seq<HandedOver>;

/// Whatever messages can be handed to.
pub trait MqttPublisher {
    /// The messages that were handed over so far. This only says what [`MqttPublisher::publish`]
    /// does; nothing calls it.
    spec fn handed(&self) -> History;

    /// Hands over a message; it is taken or, with an error, it is not.
    fn publish(&mut self, topic: &str, payload: Vec<u8>, retain: bool) -> (result: Result<
        (),
        String,
    >)
        ensures
            final(self).handed() == old(self).handed().push(
                HandedOver { topic: topic@, payload: payload@, retain, reply: reply_of(result) },
            ),
    ;
}

/// The messages of samples, given the replies: those whose payload could be made.
pub open spec fn sample_messages(
    samples: Seq<PointSampleView>,
    payloads: Seq<Result<Seq<u8>, Seq<char>>>,
    retain: bool,
    replies: Seq<Result<(), Seq<char>>>,
) -> Seq<HandedOver>
    decreases samples.len(),
{
    if samples.len() == 0 {
        Seq::empty()
    } else {
        let before = sample_messages(
            samples.drop_last(),
            payloads.drop_last(),
            retain,
            replies.drop_last(),
        );
        match payloads.last() {
            Ok(payload) => before.push(
                HandedOver {
                    topic: samples.last().topic,
                    payload,
                    retain,
                    reply: replies.last(),
                },
            ),
            Err(_) => before,
        }
    }
}

/// One more failure.
pub open spec fn with_failure(stats: PublishStatsView, error: Seq<char>) -> PublishStatsView {
    PublishStatsView { failed: (stats.failed + 1) as usize, last_error: Some(error), ..stats }
}

/// How publishing went, given the replies: a message that was taken counts as published, one that
/// was not taken or whose payload could not be made counts as failed.
pub open spec fn stats_of(
    payloads: Seq<Result<Seq<u8>, Seq<char>>>,
    replies: Seq<Result<(), Seq<char>>>,
) -> PublishStatsView
    decreases payloads.len(),
{
    if payloads.len() == 0 {
        PublishStatsView { queued: 0, published: 0, failed: 0, reconnects: 0, last_error: None }
    } else {
        let before = stats_of(payloads.drop_last(), replies.drop_last());
        match payloads.last() {
            Ok(_) => match replies.last() {
                Ok(_) => PublishStatsView { published: (before.published + 1) as usize, ..before },
                Err(error) => with_failure(before, error),
            },
            Err(error) => with_failure(before, error),
        }
    }
}

/// The payloads of samples: each that of its own value, where a number's is as given.
pub open spec fn sample_payloads(
    samples: Seq<PointSampleView>,
    numbers: Seq<Result<Vec<u8>, String>>,
) -> Seq<Result<Seq<u8>, Seq<char>>> {
    Seq::new(samples.len(), |i: int| payload_of(samples[i].value, encoded_bytes(numbers[i])))
}

/// What publishing samples does, given the replies.
pub open spec fn published(
    before: Seq<HandedOver>,
    after: Seq<HandedOver>,
    samples: Seq<PointSampleView>,
    payloads: Seq<Result<Seq<u8>, Seq<char>>>,
    retain: bool,
    replies: Seq<Result<(), Seq<char>>>,
    stats: PublishStatsView,
) -> bool {
    &&& replies.len() == samples.len()
    &&& after == before + sample_messages(samples, payloads, retain, replies)
    &&& stats == stats_of(payloads, replies)
}

fn clone_encoded(encoded: &Result<Vec<u8>, String>) -> (copy: Result<Vec<u8>, String>)
    ensures
        encoded_bytes(copy) == encoded_bytes(*encoded),
{
    match encoded {
        Ok(bytes) => {
            let copy = bytes.clone();
            assert(copy@ =~= bytes@);
            Ok(copy)
        },
        Err(message) => Err(message.clone()),
    }
}

/// Publishes samples, each with the payload of its value, in order; one whose payload could not be
/// made, or that is not taken, counts as failed. The payloads of those that are numbers stand in
/// `numbers`, in the places of the samples.
pub fn publish_samples<P: MqttPublisher>(
    publisher: &mut P,
    config: &MqttConfig,
    samples: &[PointSample],
    numbers: &Vec<Result<Vec<u8>, String>>,
) -> (stats: PublishStats)
    requires
        numbers@.len() == samples@.len(),
    ensures
        exists|replies: Seq<Result<(), Seq<char>>>| #[trigger]
            published(
                old(publisher).handed(),
                final(publisher).handed(),
                views(samples@),
                sample_payloads(views(samples@), numbers@),
                config.retain,
                replies,
                stats@,
            ),
{
    let mut stats = PublishStats::empty();
    let ghost mut replies: Seq<Result<(), Seq<char>>> = Seq::empty();
    let ghost start = publisher.handed();
    let ghost all = views(samples@);
    let ghost bytes = sample_payloads(views(samples@), numbers@);
    let mut i: usize = 0;
    assert(start + Seq::<HandedOver>::empty() =~= start);
    while i < samples.len()
        invariant
            i <= samples@.len(),
            numbers@.len() == samples@.len(),
            all == views(samples@),
            bytes == sample_payloads(all, numbers@),
            stats.published + stats.failed == i,
            published(
                start,
                publisher.handed(),
                all.take(i as int),
                bytes.take(i as int),
                config.retain,
                replies,
                stats@,
            ),
        decreases samples.len() - i,
    {
        let ghost before = replies;
        let ghost handed_before = publisher.handed();
        let ghost messages = sample_messages(
            all.take(i as int),
            bytes.take(i as int),
            config.retain,
            before,
        );
        proof {
            assert(all.take(i as int + 1).drop_last() =~= all.take(i as int));
            assert(bytes.take(i as int + 1).drop_last() =~= bytes.take(i as int));
            assert(all.take(i as int + 1).last() == samples@[i as int]@);
            assert(bytes.take(i as int + 1).last() == payload_of(
                samples@[i as int]@.value,
                encoded_bytes(numbers@[i as int]),
            ));
        }
        match value_payload(&samples[i].value, clone_encoded(&numbers[i])) {
            Ok(payload) => {
                let result = publisher.publish(samples[i].topic.as_str(), payload, config.retain);
                proof {
                    replies = before.push(reply_of(result));
                    assert(replies.drop_last() =~= before);
                    let message = HandedOver {
                        topic: samples@[i as int]@.topic,
                        payload: payload@,
                        retain: config.retain,
                        reply: reply_of(result),
                    };
                    assert(handed_before.push(message) =~= start + messages.push(message));
                }
                match result {
                    Ok(_) => {
                        stats.published = stats.published + 1;
                    },
                    Err(error) => {
                        stats.record_failure(error.as_str());
                    },
                }
            },
            Err(error) => {
                stats.record_failure(error.as_str());
                proof {
                    replies = before.push(Ok(()));
                    assert(replies.drop_last() =~= before);
                }
            },
        }
        i += 1;
    }
    proof {
        assert(all.take(all.len() as int) =~= all);
        assert(bytes.take(bytes.len() as int) =~= bytes);
    }
    stats
}

/// Every sample is counted once, as published or as failed, and there is an error exactly where one
/// failed.
pub proof fn law_every_sample_is_counted(
    payloads: Seq<Result<Seq<u8>, Seq<char>>>,
    replies: Seq<Result<(), Seq<char>>>,
)
    requires
        payloads.len() <= usize::MAX,
        replies.len() == payloads.len(),
    ensures
        stats_of(payloads, replies).published + stats_of(payloads, replies).failed
            == payloads.len(),
        stats_of(payloads, replies).last_error is Some <==> stats_of(payloads, replies).failed > 0,
        (forall|i: int| #![trigger payloads[i]]
            0 <= i < payloads.len() ==> payloads[i] is Ok && replies[i] is Ok) ==> stats_of(
            payloads,
            replies,
        ).failed == 0,
    decreases payloads.len(),
{
    if payloads.len() > 0 {
        let shorter = payloads.drop_last();
        law_every_sample_is_counted(shorter, replies.drop_last());
        assert(forall|i: int| 0 <= i < shorter.len() ==> shorter[i] == payloads[i]);
        assert(payloads.last() == payloads[payloads.len() - 1]);
    }
}

/// How reading and publishing went, for the health topic.
#[derive(Debug, PartialEq, Eq)]
pub struct HealthSnapshot {
    pub published: usize,
    pub failed_reads: usize,
    pub failed_publishes: usize,
    pub stale_points: usize,
    pub reconnects: usize,
    pub last_error: Option<String>,
}

/// The contents of a [`HealthSnapshot`].
#[verifier::ext_equal]
pub struct HealthSnapshotView {
    pub published: usize,
    pub failed_reads: usize,
    pub failed_publishes: usize,
    pub stale_points: usize,
    pub reconnects: usize,
    pub last_error: Option<Seq<char>>,
}

impl View for HealthSnapshot {
    type V = HealthSnapshotView;

    open spec fn view(&self) -> HealthSnapshotView {
        HealthSnapshotView {
            published: self.published,
            failed_reads: self.failed_reads,
            failed_publishes: self.failed_publishes,
            stale_points: self.stale_points,
            reconnects: self.reconnects,
            last_error: opt_text(self.last_error),
        }
    }
}

impl Clone for HealthSnapshot {
    fn clone(&self) -> (result: Self)
        ensures
            result == *self,
    {
        HealthSnapshot {
            published: self.published,
            failed_reads: self.failed_reads,
            failed_publishes: self.failed_publishes,
            stale_points: self.stale_points,
            reconnects: self.reconnects,
            last_error: clone_opt_text(&self.last_error),
        }
    }
}

/// A scalar in a JSON object.
#[derive(Debug, PartialEq, Eq)]
pub enum JsonScalar {
    Text(String),
    Count(u64),
    Integer(i64),
    Null,
}

/// The contents of a [`JsonScalar`].
#[verifier::ext_equal]
pub enum JsonScalarView {
    Text(Seq<char>),
    Count(u64),
    Integer(i64),
    Null,
}

impl View for JsonScalar {
    type V = JsonScalarView;

    open spec fn view(&self) -> JsonScalarView {
        match *self {
            JsonScalar::Text(text) => JsonScalarView::Text(text@),
            JsonScalar::Count(number) => JsonScalarView::Count(number),
            JsonScalar::Integer(number) => JsonScalarView::Integer(number),
            JsonScalar::Null => JsonScalarView::Null,
        }
    }
}

/// The contents of the fields of an object.
pub open spec fn field_list(
    fields: Seq<(String, JsonScalar)>,
) -> Seq<(Seq<char>, JsonScalarView)> {
    Seq::new(fields.len(), |i: int| (fields[i].0@, fields[i].1@))
}

/// A scalar in JSON.
pub open spec fn scalar_text(scalar: JsonScalarView) -> Seq<char> {
    match scalar {
        JsonScalarView::Text(text) => string_text(text),
        JsonScalarView::Count(number) => decimal(number as nat),
        JsonScalarView::Integer(number) => signed_decimal(number as int),
        JsonScalarView::Null => "null"@,
    }
}

/// The fields of an object in JSON, each as its name and its value.
pub open spec fn field_texts(fields: Seq<(Seq<char>, JsonScalarView)>) -> Seq<Seq<char>> {
    Seq::new(
        fields.len(),
        |i: int| string_text(fields[i].0) + seq![':'] + scalar_text(fields[i].1),
    )
}

/// An object with these fields in JSON, in UTF-8.
pub open spec fn json_object(fields: Seq<(Seq<char>, JsonScalarView)>) -> Seq<u8> {
    vstd::utf8::encode_utf8(seq!['{'] + join(field_texts(fields), seq![',']) + seq!['}'])
}

/// Whether a name comes before another one, which first differs from it at `at`.
pub open spec fn comes_before(left: Seq<char>, right: Seq<char>, at: int) -> bool {
    &&& 0 <= at <= left.len()
    &&& at < right.len()
    &&& forall|i: int| 0 <= i < at ==> left[i] == right[i]
    &&& at < left.len() ==> (left[at] as u32) < (right[at] as u32)
}

/// Whether the names of fields stand in ascending order, none of them twice.
pub open spec fn in_order(fields: Seq<(Seq<char>, JsonScalarView)>) -> bool {
    forall|i: int|
        #![trigger fields[i]]
        0 <= i < fields.len() - 1 ==> exists|at: int| #[trigger]
            comes_before(fields[i].0, fields[i + 1].0, at)
}

/// `serde_json::to_vec` on an object with these fields, which does not fail: the fields are written
/// in the order of their names.
#[verifier::external_body]
fn encode_object(fields: Vec<(String, JsonScalar)>) -> (encoded: Result<Vec<u8>, String>)
    requires
        in_order(field_list(fields@)),
    ensures
        encoded is Ok,
        encoded->Ok_0@ == json_object(field_list(fields@)),
{
    let object: serde_json::Map<String, serde_json::Value> = fields.into_iter().map(
        |field| match field.1 {
            JsonScalar::Text(text) => (field.0, serde_json::Value::from(text)),
            JsonScalar::Count(number) => (field.0, serde_json::Value::from(number)),
            JsonScalar::Integer(number) => (field.0, serde_json::Value::from(number)),
            JsonScalar::Null => (field.0, serde_json::Value::Null),
        },
    ).collect();
    serde_json::to_vec(&object).map_err(|error| error.to_string())
}

/// All is well where nothing failed to be read or to be published.
pub open spec fn health_status(snapshot: HealthSnapshotView) -> Seq<char> {
    if snapshot.failed_reads == 0 && snapshot.failed_publishes == 0 {
        "ok"@
    } else {
        "degraded"@
    }
}

/// The fields of a health report.
pub open spec fn health_report(
    snapshot: HealthSnapshotView,
    timestamp: i64,
) -> Seq<(Seq<char>, JsonScalarView)> {
    seq![
        ("failed_publishes"@, JsonScalarView::Count(snapshot.failed_publishes as u64)),
        ("failed_reads"@, JsonScalarView::Count(snapshot.failed_reads as u64)),
        (
            "last_error"@,
            match snapshot.last_error {
                Some(error) => JsonScalarView::Text(error),
                None => JsonScalarView::Null,
            },
        ),
        ("published"@, JsonScalarView::Count(snapshot.published as u64)),
        ("reconnects"@, JsonScalarView::Count(snapshot.reconnects as u64)),
        ("stale_points"@, JsonScalarView::Count(snapshot.stale_points as u64)),
        ("status"@, JsonScalarView::Text(health_status(snapshot))),
        ("timestamp"@, JsonScalarView::Integer(timestamp)),
    ]
}

/// The fields of a health report.
pub fn health_fields(
    snapshot: &HealthSnapshot,
    timestamp: i64,
) -> (fields: Vec<(String, JsonScalar)>)
    ensures
        field_list(fields@) == health_report(snapshot@, timestamp),
{
    let status = if snapshot.failed_reads == 0 && snapshot.failed_publishes == 0 {
        "ok".to_string()
    } else {
        "degraded".to_string()
    };
    let last_error = match &snapshot.last_error {
        Some(error) => JsonScalar::Text(error.clone()),
        None => JsonScalar::Null,
    };
    let fields = vec![
        ("failed_publishes".to_string(), JsonScalar::Count(snapshot.failed_publishes as u64)),
        ("failed_reads".to_string(), JsonScalar::Count(snapshot.failed_reads as u64)),
        ("last_error".to_string(), last_error),
        ("published".to_string(), JsonScalar::Count(snapshot.published as u64)),
        ("reconnects".to_string(), JsonScalar::Count(snapshot.reconnects as u64)),
        ("stale_points".to_string(), JsonScalar::Count(snapshot.stale_points as u64)),
        ("status".to_string(), JsonScalar::Text(status)),
        ("timestamp".to_string(), JsonScalar::Integer(timestamp)),
    ];
    assert(field_list(fields@) =~= health_report(snapshot@, timestamp));
    fields
}

proof fn lemma_health_report_in_order(snapshot: HealthSnapshotView, timestamp: i64)
    ensures
        in_order(health_report(snapshot, timestamp)),
{
    let fields = health_report(snapshot, timestamp);
    reveal_strlit("failed_publishes");
    reveal_strlit("failed_reads");
    reveal_strlit("last_error");
    reveal_strlit("published");
    reveal_strlit("reconnects");
    reveal_strlit("stale_points");
    reveal_strlit("status");
    reveal_strlit("timestamp");
    assert(comes_before(fields[0].0, fields[1].0, 7));
    assert(comes_before(fields[1].0, fields[2].0, 0));
    assert(comes_before(fields[2].0, fields[3].0, 0));
    assert(comes_before(fields[3].0, fields[4].0, 0));
    assert(comes_before(fields[4].0, fields[5].0, 0));
    assert(comes_before(fields[5].0, fields[6].0, 3));
    assert(comes_before(fields[6].0, fields[7].0, 0));
    assert forall|i: int| #![trigger fields[i]] 0 <= i < fields.len() - 1 implies exists|at: int|
        #[trigger] comes_before(fields[i].0, fields[i + 1].0, at) by {
        if i == 0 {
            assert(comes_before(fields[i].0, fields[i + 1].0, 7));
        } else if i == 5 {
            assert(comes_before(fields[i].0, fields[i + 1].0, 3));
        } else {
            assert(comes_before(fields[i].0, fields[i + 1].0, 0));
        }
    }
}

/// The payload of a health report.
pub fn health_payload(
    snapshot: &HealthSnapshot,
    timestamp: i64,
) -> (payload: Result<Vec<u8>, String>)
    ensures
        payload is Ok,
        payload->Ok_0@ == json_object(health_report(snapshot@, timestamp)),
{
    proof {
        lemma_health_report_in_order(snapshot@, timestamp);
    }
    encode_object(health_fields(snapshot, timestamp))
}

/// What publishing a health report does: it is handed over to the health topic, to be kept by the
/// broker.
pub open spec fn health_published(
    before: Seq<HandedOver>,
    after: Seq<HandedOver>,
    topic: Seq<char>,
    payload: Seq<u8>,
    reply: Result<(), Seq<char>>,
) -> bool {
    after == before.push(HandedOver { topic, payload, retain: true, reply })
}

/// Publishes a health report that was made at some time.
pub fn publish_health_at<P: MqttPublisher>(
    publisher: &mut P,
    config: &MqttConfig,
    snapshot: &HealthSnapshot,
    timestamp: i64,
) -> (result: Result<(), String>)
    ensures
        health_published(
            old(publisher).handed(),
            final(publisher).handed(),
            config@.health_topic,
            json_object(health_report(snapshot@, timestamp)),
            reply_of(result),
        ),
{
    match health_payload(snapshot, timestamp) {
        Ok(payload) => publisher.publish(config.health_topic.as_str(), payload, true),
        Err(error) => {
            let mut message = "failed to encode health payload: ".to_string();
            message.append(error.as_str());
            Err(message)
        },
    }
}

/// Publishes a health report.
pub fn publish_health<P: MqttPublisher>(
    publisher: &mut P,
    config: &MqttConfig,
    snapshot: &HealthSnapshot,
) -> (result: Result<(), String>)
    ensures
        exists|timestamp: i64|
            timestamp >= 0 && health_published(
                old(publisher).handed(),
                final(publisher).handed(),
                config@.health_topic,
                #[trigger] json_object(health_report(snapshot@, timestamp)),
                reply_of(result),
            ),
{
    let timestamp: i64 = now_millis();
    publish_health_at(publisher, config, snapshot, timestamp)
}

/// A health report says that all is well exactly where nothing failed.
pub proof fn law_health_status(snapshot: HealthSnapshotView, timestamp: i64)
    ensures
        health_report(snapshot, timestamp)[6] == ("status"@, JsonScalarView::Text("ok"@))
            <==> snapshot.failed_reads == 0 && snapshot.failed_publishes == 0,
{
    reveal_strlit("ok");
    reveal_strlit("degraded");
    assert("ok"@.len() != "degraded"@.len());
}

/// A connection never has a keep-alive interval below the minimum, and has credentials exactly
/// where there is a user name that is not empty.
pub proof fn law_connection(config: MqttConfigView)
    ensures
        connection_of(config).keep_alive_secs >= MIN_KEEP_ALIVE_SECS,
        connection_of(config).keep_alive_secs >= config.keep_alive_secs,
        connection_of(config).credentials is Some <==> config.username is Some
            && config.username->Some_0.len() > 0,
{
}

} // verus!
