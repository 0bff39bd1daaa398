//! Types of `lapin`, the RabbitMQ client.

use lapin_futures::auth::SASLMechanism;
use lapin_futures::options::BasicPublishOptions;
use lapin_futures::options::QueueDeclareOptions;
use lapin_futures::types::FieldTable;
use lapin_futures::BasicProperties;
use lapin_futures::ConnectionProperties;
use vstd::prelude::*;

verus! {

/// How a client authenticates.
#[verifier::external_type_specification]
pub struct ExSASLMechanism(SASLMechanism);

/// How a queue is declared.
#[verifier::external_type_specification]
pub struct ExQueueDeclareOptions(QueueDeclareOptions);

/// How a message is published.
#[verifier::external_type_specification]
pub struct ExBasicPublishOptions(BasicPublishOptions);

/// Named arguments for the server. It is carried as it is; the names in it are its
/// [`table_names`].
#[verifier::external_type_specification]
#[verifier::external_body]
pub struct ExFieldTable(FieldTable);

/// How a client connects. What it holds is its [`connection_view`].
#[verifier::external_type_specification]
#[verifier::external_body]
pub struct ExConnectionProperties(ConnectionProperties);

/// What is said of a message besides its payload. It is carried as it is; the names of what is set
/// in it are its [`property_names`].
#[verifier::external_type_specification]
#[verifier::external_body]
pub struct ExBasicProperties(BasicProperties);

/// The names of the properties that are set.
pub uninterp spec fn property_names(properties: BasicProperties) -> Set<Seq<char>>;

/// `BasicProperties::default`: no property set.
#[verifier::external_body]
pub(crate) fn properties_default() -> (r: BasicProperties)
    ensures
        property_names(r) == Set::<Seq<char>>::empty(),
{
    BasicProperties::default()
}

/// The names of the arguments in a table.
pub uninterp spec fn table_names(table: FieldTable) -> Set<Seq<char>>;

/// `FieldTable::default`: no arguments.
#[verifier::external_body]
pub(crate) fn table_default() -> (r: FieldTable)
    ensures
        table_names(r) == Set::<Seq<char>>::empty(),
{
    FieldTable::default()
}

/// `FieldTable::clone`: the same arguments.
#[verifier::external_body]
pub(crate) fn table_clone(table: &FieldTable) -> (r: FieldTable)
    ensures
        r == *table,
{
    table.clone()
}

/// What [`ConnectionProperties`] hold.
pub struct ConnectionView {
    pub mechanism: SASLMechanism,
    pub locale: Seq<char>,
    pub client_properties: FieldTable,
    /// Whether the client runs on an executor that it was handed.
    pub has_executor: bool,
    pub max_executor_threads: usize,
}

/// What connection properties hold.
pub uninterp spec fn connection_view(properties: ConnectionProperties) -> ConnectionView;

/// [`ConnectionProperties`] with these fields, and without an executor.
#[verifier::external_body]
pub(crate) fn connection_properties(
    mechanism: SASLMechanism,
    locale: String,
    client_properties: FieldTable,
    max_executor_threads: usize,
) -> (r: ConnectionProperties)
    ensures
        connection_view(r) == (ConnectionView {
            mechanism,
            locale: locale@,
            client_properties,
            has_executor: false,
            max_executor_threads,
        }),
{
    ConnectionProperties {
        mechanism,
        locale,
        client_properties,
        executor: None,
        max_executor_threads,
    }
}

} // verus!
