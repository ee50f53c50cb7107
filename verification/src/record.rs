//! Input records and the ways a batch can fail.

use crate::text::{decimal, push_decimal};
use vstd::prelude::*;
use vstd::string::StringExecFns;

verus! {

/// The value of one field of a record: text, or anything else, which the
/// pipeline carries along without looking at it.
#[derive(Debug, Clone, PartialEq, Eq)]
pub enum Value<T> {
    /// A string.
    Text(String),
    /// Any other value.
    Other(T),
}

/// One entry of a record.
#[derive(Debug, Clone, PartialEq, Eq)]
pub struct Field<T> {
    /// The field's name.
    pub key: String,
    /// What the field holds.
    pub value: Value<T>,
}

/// One element of a batch as the caller supplied it.
#[derive(Debug, Clone, PartialEq, Eq)]
pub enum Record<T> {
    /// A string-keyed mapping.
    Mapping(Vec<Field<T>>),
    /// Anything that is not a mapping.
    NotMapping,
}

/// Why a record cannot be dispatched.
#[derive(Debug, Clone, Copy, PartialEq, Eq, Structural)]
pub enum RecordFault {
    /// The record is not a mapping.
    NotMapping,
    /// The record has no field named `seq`.
    MissingSeq,
    /// The record's `seq` field does not hold text.
    SeqNotText,
}

/// Why the submission of a batch failed.
#[derive(Debug, Clone, Copy, PartialEq, Eq, Structural)]
pub enum BatchError {
    /// No worker was enabled before the batch was submitted.
    ConfigurationError,
    /// The record that would have got this id is not a mapping.
    MalformedRecord { id: usize },
    /// The record with this id has no field named `seq`.
    MissingField { id: usize },
    /// The record with this id has a `seq` field that is not text.
    InvalidSeq { id: usize },
    /// The work queue did not take an item: the work item with this id, or,
    /// for `None`, a termination sentinel.
    QueueFull { item: Option<usize> },
}

/// The name of the field that holds the sequence to align.
pub open spec fn seq_key() -> Seq<char> {
    "seq"@
}

/// The value of the first field of `fields` that is named `key`.
pub open spec fn lookup<T>(fields: Seq<Field<T>>, key: Seq<char>) -> Option<Value<T>>
    decreases fields.len(),
{
    if fields.len() == 0 {
        None
    } else if fields[0].key@ == key {
        Some(fields[0].value)
    } else {
        lookup(fields.drop_first(), key)
    }
}

/// The sequence to align that `fields` names, or why there is none.
pub open spec fn payload_of<T>(fields: Seq<Field<T>>) -> Result<String, RecordFault> {
    match lookup(fields, seq_key()) {
        None => Err(RecordFault::MissingSeq),
        Some(Value::Other(_)) => Err(RecordFault::SeqNotText),
        Some(Value::Text(seq)) => Ok(seq),
    }
}

/// The sequence to align that a record names, or why there is none.
pub open spec fn record_payload<T>(record: Record<T>) -> Result<String, RecordFault> {
    match record {
        Record::NotMapping => Err(RecordFault::NotMapping),
        Record::Mapping(fields) => payload_of(fields@),
    }
}

/// The failure of a batch whose record with this id has this fault.
pub open spec fn fault_error(fault: RecordFault, id: usize) -> BatchError {
    match fault {
        RecordFault::NotMapping => BatchError::MalformedRecord { id },
        RecordFault::MissingSeq => BatchError::MissingField { id },
        RecordFault::SeqNotText => BatchError::InvalidSeq { id },
    }
}

/// What a failure says to the caller.
pub open spec fn error_text(error: BatchError) -> Seq<char> {
    match error {
        BatchError::ConfigurationError =>
            "Multi threading not enabled on this instance. Please call `.enable_threading()`"@,
        BatchError::MalformedRecord { id } => "Element in iterable is not a dictionary"@,
        BatchError::MissingField { id } => "Key `seq` not found in iterated dictionary"@,
        BatchError::InvalidSeq { id } => "`seq` must be a string"@,
        BatchError::QueueFull { item: Some(id) } =>
            "Internal error adding data to work queue: no room for work item "@ + decimal(
                id as nat,
            ),
        BatchError::QueueFull { item: None } =>
            "Internal error adding data to work queue: no room for a termination sentinel"@,
    }
}

impl BatchError {
    /// What the failure says to the caller.
    pub fn message(&self) -> (text: String)
        ensures
            text@ == error_text(*self),
    {
        match self {
            BatchError::ConfigurationError => String::from_str(
                "Multi threading not enabled on this instance. Please call `.enable_threading()`",
            ),
            BatchError::MalformedRecord { id } => String::from_str(
                "Element in iterable is not a dictionary",
            ),
            BatchError::MissingField { id } => String::from_str(
                "Key `seq` not found in iterated dictionary",
            ),
            BatchError::InvalidSeq { id } => String::from_str("`seq` must be a string"),
            BatchError::QueueFull { item: Some(id) } => {
                let mut text = String::from_str(
                    "Internal error adding data to work queue: no room for work item ",
                );
                push_decimal(&mut text, *id as u64);
                text
            },
            BatchError::QueueFull { item: None } => String::from_str(
                "Internal error adding data to work queue: no room for a termination sentinel",
            ),
        }
    }
}

impl RecordFault {
    /// The failure of a batch whose record with this id has this fault.
    pub fn at(self, id: usize) -> (error: BatchError)
        ensures
            error == fault_error(self, id),
    {
        match self {
            RecordFault::NotMapping => BatchError::MalformedRecord { id },
            RecordFault::MissingSeq => BatchError::MissingField { id },
            RecordFault::SeqNotText => BatchError::InvalidSeq { id },
        }
    }
}

/// Looking a key up from position `from` on gives what the whole lookup
/// gives, as long as no field before `from` has that key.
proof fn lemma_lookup_skip<T>(fields: Seq<Field<T>>, key: Seq<char>, from: int)
    requires
        0 <= from <= fields.len(),
        forall|j: int| 0 <= j < from ==> fields[j].key@ != key,
    ensures
        lookup(fields, key) == lookup(fields.skip(from), key),
    decreases from,
{
    if from == 0 {
        assert(fields.skip(0) =~= fields);
    } else {
        lemma_lookup_skip(fields, key, from - 1);
        let rest = fields.skip(from - 1);
        assert(rest[0] == fields[from - 1]);
        assert(rest.drop_first() =~= fields.skip(from));
    }
}

/// The sequence to align that `fields` names: a copy of the text of the
/// first field named `seq`.
pub fn find_payload<T>(fields: &Vec<Field<T>>) -> (payload: Result<String, RecordFault>)
    ensures
        payload == payload_of(fields@),
{
    let key = String::from_str("seq");
    let mut i: usize = 0;
    while i < fields.len()
        invariant
            i <= fields.len(),
            key@ == seq_key(),
            forall|j: int| 0 <= j < i ==> fields@[j].key@ != seq_key(),
        decreases fields.len() - i,
    {
        if fields[i].key == key {
            proof {
                lemma_lookup_skip(fields@, seq_key(), i as int);
                assert(fields@.skip(i as int)[0] == fields@[i as int]);
            }
            return match &fields[i].value {
                Value::Text(seq) => Ok(seq.clone()),
                Value::Other(_) => Err(RecordFault::SeqNotText),
            };
        }
        i += 1;
    }
    proof {
        lemma_lookup_skip(fields@, seq_key(), fields@.len() as int);
        assert(fields@.skip(fields@.len() as int).len() == 0);
    }
    Err(RecordFault::MissingSeq)
}

impl<T> Record<T> {
    /// The sequence to align that this record names, or why there is none.
    pub fn payload(&self) -> (payload: Result<String, RecordFault>)
        ensures
            payload == record_payload(*self),
    {
        match self {
            Record::NotMapping => Err(RecordFault::NotMapping),
            Record::Mapping(fields) => find_payload(fields),
        }
    }
}

} // verus!
