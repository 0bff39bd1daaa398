//! Log events, as the encoders of the sinks read them.

use serde_json::Value;
use vstd::prelude::*;

verus! {

/// The name of the field that holds the text of a log line.
pub const MESSAGE: &'static str = "message";

/// The kind of events that a sink takes.
#[derive(Clone, Copy, Debug, PartialEq, Eq)]
pub enum DataType {
    Any,
    Log,
    Metric,
}

/// One field of a log event.
#[derive(Debug)]
pub struct Field {
    /// The field's name, with dots where the field is nested.
    pub name: String,
    /// The field's value as bytes.
    pub bytes: Vec<u8>,
}

/// A log event, in the two forms in which sinks send it.
#[derive(Debug)]
pub struct LogEvent {
    /// The fields of the event, each by its full name.
    pub fields: Vec<Field>,
    /// The same fields nested along the dots in their names, as a JSON object.
    pub unflattened: Value,
}

/// The bytes of the first of `fields` that is called `name`.
pub open spec fn field_bytes(fields: Seq<Field>, name: Seq<char>) -> Option<Seq<u8>>
    decreases fields.len(),
{
    if fields.len() == 0 {
        None
    } else if fields[0].name@ == name {
        Some(fields[0].bytes@)
    } else {
        field_bytes(fields.drop_first(), name)
    }
}

/// Field `i` is called `name`, and no field before it is.
pub open spec fn is_first_field(fields: Seq<Field>, name: Seq<char>, i: int) -> bool {
    &&& 0 <= i < fields.len()
    &&& fields[i].name@ == name
    &&& forall|j: int| 0 <= j < i ==> (#[trigger] fields[j]).name@ != name
}

/// The value of a field is that of the first field with its name, at whatever index it stands.
pub proof fn law_first_field_is_found(fields: Seq<Field>, name: Seq<char>, i: int)
    requires
        0 <= i < fields.len(),
        fields[i].name@ == name,
        forall|j: int| 0 <= j < i ==> (#[trigger] fields[j]).name@ != name,
    ensures
        field_bytes(fields, name) == Some(fields[i].bytes@),
    decreases fields.len(),
{
    if i > 0 {
        assert(fields[0].name@ != name);
        let rest = fields.drop_first();
        assert forall|j: int| 0 <= j < i - 1 implies (#[trigger] rest[j]).name@ != name by {
            assert(rest[j] == fields[j + 1]);
        }
        law_first_field_is_found(rest, name, i - 1);
    }
}

/// There is no value where no field has the name.
pub proof fn law_missing_field_has_no_value(fields: Seq<Field>, name: Seq<char>)
    requires
        forall|j: int| 0 <= j < fields.len() ==> (#[trigger] fields[j]).name@ != name,
    ensures
        field_bytes(fields, name) is None,
    decreases fields.len(),
{
    if fields.len() > 0 {
        assert(fields[0].name@ != name);
        let rest = fields.drop_first();
        assert forall|j: int| 0 <= j < rest.len() implies (#[trigger] rest[j]).name@ != name by {
            assert(rest[j] == fields[j + 1]);
        }
        law_missing_field_has_no_value(rest, name);
    }
}

/// In plain text an event is sent as the bytes of its first field called `message`, at whatever
/// index it stands.
pub proof fn law_text_is_first_message(event: LogEvent, i: int)
    requires
        0 <= i < event.fields@.len(),
        event.fields@[i].name@ == "message"@,
        forall|j: int| 0 <= j < i ==> (#[trigger] event.fields@[j]).name@ != "message"@,
    ensures
        event.text() == event.fields@[i].bytes@,
{
    law_first_field_is_found(event.fields@, "message"@, i);
}

/// In plain text an event is sent as no bytes where no field is called `message`.
pub proof fn law_text_without_message_is_empty(event: LogEvent)
    requires
        forall|j: int|
            0 <= j < event.fields@.len() ==> (#[trigger] event.fields@[j]).name@ != "message"@,
    ensures
        event.text() == Seq::<u8>::empty(),
{
    law_missing_field_has_no_value(event.fields@, "message"@);
}

impl LogEvent {
    /// The value of the field called `name`, if the event has one.
    pub fn get(&self, name: &str) -> (r: Option<&Vec<u8>>)
        ensures
            match field_bytes(self.fields@, name@) {
                Some(bytes) => r matches Some(value) && value@ == bytes,
                None => r is None,
            },
            match r {
                Some(value) => exists|i: int| #[trigger]
                    is_first_field(self.fields@, name@, i) && value@ == self.fields@[i].bytes@,
                None => forall|i: int|
                    0 <= i < self.fields@.len() ==> (#[trigger] self.fields@[i]).name@ != name@,
            },
    {
        let key = name.to_owned();
        let mut i: usize = 0;
        assert(self.fields@.skip(0) =~= self.fields@);
        while i < self.fields.len()
            invariant
                i <= self.fields@.len(),
                key@ == name@,
                forall|j: int| 0 <= j < i ==> (#[trigger] self.fields@[j]).name@ != name@,
                field_bytes(self.fields@, name@) == field_bytes(
                    self.fields@.skip(i as int),
                    name@,
                ),
            decreases self.fields@.len() - i,
        {
            if self.fields[i].name == key {
                assert(is_first_field(self.fields@, name@, i as int));
                return Some(&self.fields[i].bytes);
            }
            assert(self.fields@.skip(i as int).drop_first() =~= self.fields@.skip(i + 1));
            i = i + 1;
        }
        None
    }

    /// The bytes that an event is sent as in plain text: those of its message, or none.
    pub open spec fn text(self) -> Seq<u8> {
        match field_bytes(self.fields@, MESSAGE@) {
            Some(bytes) => bytes,
            None => Seq::empty(),
        }
    }

    /// The event in plain text: a copy of its message, empty where it has none.
    pub fn to_text(&self) -> (r: Vec<u8>)
        ensures
            r@ == self.text(),
    {
        match self.get(MESSAGE) {
            Some(bytes) => {
                let copy = bytes.clone();
                assert(copy@ =~= bytes@);
                copy
            },
            None => Vec::new(),
        }
    }
}

} // verus!
