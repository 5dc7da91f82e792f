use vstd::prelude::*;

use crate::text::{bool_text, TextValue};

verus! {

/// One telemetry record: the name of the quantity, its value and the time at
/// which it was sampled. The time stays opaque to the library: it is carried
/// along, never computed on.
#[derive(Debug, Clone)]
pub struct DataEntry<V, Ts> {
    pub id: String,
    pub value: V,
    pub timestamp: Ts,
}

/// The mathematical model of a record: its name as characters, the model of
/// its value, and its time.
pub struct EntryModel<A, T> {
    pub id: Seq<char>,
    pub value: A,
    pub timestamp: T,
}

impl<V: DeepView, Ts> DeepView for DataEntry<V, Ts> {
    type V = EntryModel<V::V, Ts>;

    open spec fn deep_view(&self) -> EntryModel<V::V, Ts> {
        EntryModel { id: self.id@, value: self.value.deep_view(), timestamp: self.timestamp }
    }
}

/// A record's value as it appears in a log file, before it is turned into
/// text: a string, `null`, a boolean, or any other JSON value (a number, an
/// array, an object) given by its JSON text.
#[derive(Debug, Clone)]
pub enum RawValue {
    Str(String),
    Null,
    Bool(bool),
    Json(String),
}

/// The text that a raw value is stored as.
pub open spec fn raw_value_text(v: RawValue) -> Seq<char> {
    match v {
        RawValue::Str(s) => s@,
        RawValue::Null => "null"@,
        RawValue::Bool(b) => bool_text(b),
        RawValue::Json(t) => t@,
    }
}

/// The record that a text record reads as, for values of type `V`: the same
/// name and time, and the value that the text reads as; `None` where the text
/// is no valid `V`.
pub open spec fn parse_entry<V: TextValue, Ts>(e: EntryModel<Seq<char>, Ts>) -> Option<
    EntryModel<<V as DeepView>::V, Ts>,
> {
    match V::text_parse(e.value) {
        Some(v) => Some(EntryModel { id: e.id, value: v, timestamp: e.timestamp }),
        None => None,
    }
}

/// A record whose value may be missing, as a record with a value where it has
/// one.
pub open spec fn present_entry<V, Ts>(e: DataEntry<Option<V>, Ts>) -> Option<DataEntry<V, Ts>> {
    match e.value {
        Some(v) => Some(DataEntry { id: e.id, value: v, timestamp: e.timestamp }),
        None => None,
    }
}

impl RawValue {
    /// The text a raw value is stored as: a string as it is, `null` for null,
    /// `true` or `false` for a boolean, and the JSON text of anything else.
    pub fn into_text(self) -> (r: String)
        ensures
            r@ == raw_value_text(self),
            self matches RawValue::Str(t) ==> r@ == t@,
            self matches RawValue::Json(t) ==> r@ == t@,
    {
        match self {
            RawValue::Str(s) => s,
            RawValue::Null => String::from_str("null"),
            RawValue::Bool(b) => b.to_text(),
            RawValue::Json(t) => t,
        }
    }
}

impl<Ts> DataEntry<String, Ts> {
    /// A text record made from a record as read from a log file: the value
    /// becomes its text.
    pub fn from_raw(id: String, value: RawValue, timestamp: Ts) -> (r: Self)
        ensures
            r.id == id,
            r.value@ == raw_value_text(value),
            r.timestamp == timestamp,
    {
        DataEntry { id, value: value.into_text(), timestamp }
    }
}

impl<Ts: Copy> DataEntry<String, Ts> {
    /// Reads the record's text as a value of type `V`; the error of `V` where
    /// the text is no valid `V`.
    pub fn parse<V: TextValue>(&self) -> (r: Result<DataEntry<V, Ts>, V::Err>)
        ensures
            match r {
                Ok(e) => parse_entry::<V, Ts>(self.deep_view()) == Some(e.deep_view()),
                Err(_) => parse_entry::<V, Ts>(self.deep_view()) is None,
            },
    {
        match V::from_text(self.value.as_str()) {
            Ok(v) => Ok(DataEntry { id: self.id.clone(), value: v, timestamp: self.timestamp }),
            Err(e) => Err(e),
        }
    }
}

/// The records that have a value, in their order, each with that value.
pub fn keep_parsed<V: Copy, Ts: Copy>(entries: &Vec<DataEntry<Option<V>, Ts>>) -> (r: Vec<
    DataEntry<V, Ts>,
>)
    ensures
        r@ == entries@.filter_map(|e: DataEntry<Option<V>, Ts>| present_entry(e)),
{
    let mut r: Vec<DataEntry<V, Ts>> = Vec::new();
    let n = entries.len();
    for i in 0..n
        invariant
            n == entries@.len(),
            r@ == entries@.take(i as int).filter_map(
                |e: DataEntry<Option<V>, Ts>| present_entry(e),
            ),
    {
        proof {
            entries@.lemma_filter_map_take_succ(
                |e: DataEntry<Option<V>, Ts>| present_entry(e),
                i as int,
            );
        }
        let e = &entries[i];
        match e.value {
            Some(v) => {
                r.push(DataEntry { id: e.id.clone(), value: v, timestamp: e.timestamp });
            },
            None => {},
        }
    }
    assert(entries@.take(n as int) =~= entries@);
    r
}

} // verus!

verus! {

/// A boolean stored in a log file reads back as that boolean: the text that a
/// JSON `true` or `false` is stored as is the text of the same `bool`.
pub proof fn lemma_raw_bool_reads_back(b: bool)
    ensures
        <bool as TextValue>::text_parse(raw_value_text(RawValue::Bool(b))) == Some(b),
{
    crate::text::lemma_bool_text_round_trip(b);
}

} // verus!

verus! {

/// How a raw value becomes text: a string is kept as it is, null becomes
/// `null`, and any other JSON value is given by its JSON text unchanged, so a
/// number keeps its sign, digits and exponent and reads back as the same
/// number.
pub proof fn lemma_raw_text_keeps_the_value(t: String)
    ensures
        raw_value_text(RawValue::Json(t)) == t@,
        raw_value_text(RawValue::Str(t)) == t@,
        raw_value_text(RawValue::Null) == "null"@,
        <i32 as TextValue>::text_parse(raw_value_text(RawValue::Json(t)))
            == <i32 as TextValue>::text_parse(t@),
{
}

/// A record reads exactly when its text reads: where the text reads as `v`,
/// the record reads as the record with value `v` and the same name and time;
/// where it does not, the record does not.
pub proof fn lemma_parse_entry_reads_exactly_the_text<V: TextValue, Ts>(
    e: EntryModel<Seq<char>, Ts>,
    v: <V as DeepView>::V,
)
    ensures
        V::text_parse(e.value) == Some(v) ==> parse_entry::<V, Ts>(e) == Some(
            EntryModel { id: e.id, value: v, timestamp: e.timestamp },
        ),
        V::text_parse(e.value) is None ==> parse_entry::<V, Ts>(e) is None,
        parse_entry::<V, Ts>(e) is Some ==> parse_entry::<V, Ts>(e)->0.id == e.id
            && parse_entry::<V, Ts>(e)->0.timestamp == e.timestamp,
{
}

} // verus!
