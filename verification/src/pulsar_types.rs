//! Types of `pulsar`, the Pulsar client.

use pulsar::producer::Message;
use pulsar::proto::EncryptionKeys;
use pulsar::proto::Schema;
use pulsar::ProducerOptions;
use vstd::prelude::*;

verus! {

/// A message as the client sends it.
#[verifier::external_type_specification]
pub struct ExMessage(Message);

/// How a producer sends messages.
#[verifier::external_type_specification]
pub struct ExProducerOptions(ProducerOptions);

/// An error of the client.
#[verifier::external_type_specification]
#[verifier::external_body]
pub struct ExError(pulsar::Error);

/// Keys that messages are encrypted with. They are carried as they are.
#[verifier::external_type_specification]
#[verifier::external_body]
pub struct ExEncryptionKeys(EncryptionKeys);

/// The schema of a topic. It is carried as it is.
#[verifier::external_type_specification]
#[verifier::external_body]
pub struct ExSchema(Schema);

/// Nothing is set in a message but its payload.
pub open spec fn is_plain_message(message: Message) -> bool {
    &&& message.properties@ == Map::<String, String>::empty()
    &&& message.partition_key is None
    &&& message.replicate_to@ == Seq::<String>::empty()
    &&& message.compression is None
    &&& message.uncompressed_size is None
    &&& message.num_messages_in_batch is None
    &&& message.event_time is None
    &&& message.encryption_keys@ == Seq::<EncryptionKeys>::empty()
    &&& message.encryption_algo is None
    &&& message.encryption_param is None
    &&& message.schema_version is None
}

/// `Message::default`: an empty message with nothing set.
#[verifier::external_body]
pub(crate) fn message_default() -> (r: Message)
    ensures
        r.payload@ == Seq::<u8>::empty(),
        is_plain_message(r),
{
    Message::default()
}

/// Nothing is set in a producer's options but the size of its batches.
pub open spec fn is_plain_producer(options: ProducerOptions) -> bool {
    &&& options.encrypted is None
    &&& options.metadata@ == Map::<String, String>::empty()
    &&& options.schema is None
}

/// A message with nothing set has no property, key, compression, encryption or schema.
pub proof fn law_plain_message_sets_nothing(message: Message, name: String)
    requires
        is_plain_message(message),
    ensures
        !message.properties@.dom().contains(name),
        message.partition_key is None,
        message.replicate_to@.len() == 0,
        message.compression is None,
        message.uncompressed_size is None,
        message.num_messages_in_batch is None,
        message.event_time is None,
        message.encryption_keys@.len() == 0,
        message.encryption_algo is None,
        message.encryption_param is None,
        message.schema_version is None,
{
}

/// Options with nothing set ask for no encryption, metadata or schema.
pub proof fn law_plain_producer_sets_nothing(options: ProducerOptions, name: String)
    requires
        is_plain_producer(options),
    ensures
        options.encrypted is None,
        !options.metadata@.dom().contains(name),
        options.schema is None,
{
}

/// `ProducerOptions::default`: nothing set.
#[verifier::external_body]
pub(crate) fn producer_options_default() -> (r: ProducerOptions)
    ensures
        r.batch_size is None,
        is_plain_producer(r),
{
    ProducerOptions::default()
}

} // verus!
