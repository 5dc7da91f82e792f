use vstd::prelude::*;

use crate::entry::{DataEntry, EntryModel};
use crate::text::TextValue;

verus! {

/// A labelled stretch of the time axis: one phase of the flight (a stage, a
/// program, a status, an RCS state), from its start to its end.
#[derive(Debug, Clone)]
pub struct SpanInfo<Ts> {
    pub name: String,
    pub start: Ts,
    pub end: Ts,
}

/// The mathematical model of a span.
pub struct SpanModel<T> {
    pub name: Seq<char>,
    pub start: T,
    pub end: T,
}

impl<Ts> DeepView for SpanInfo<Ts> {
    type V = SpanModel<Ts>;

    open spec fn deep_view(&self) -> SpanModel<Ts> {
        SpanModel { name: self.name@, start: self.start, end: self.end }
    }
}

/// The name of a span: the value's text, after the label and a space where
/// there is a label.
pub open spec fn span_name(label: Seq<char>, text: Seq<char>) -> Seq<char> {
    if label.len() == 0 {
        text
    } else {
        label + seq![' '] + text
    }
}

/// The spans of a series of records: one per record, named after its value,
/// from its time to the time of the next record, the last one to `end`.
pub open spec fn spans_of<V: TextValue, Ts>(
    s: Seq<EntryModel<<V as DeepView>::V, Ts>>,
    label: Seq<char>,
    end: Ts,
) -> Seq<SpanModel<Ts>> {
    Seq::new(
        s.len(),
        |i: int|
            SpanModel {
                name: span_name(label, V::text_of(s[i].value)),
                start: s[i].timestamp,
                end: if i + 1 < s.len() {
                    s[i + 1].timestamp
                } else {
                    end
                },
            },
    )
}

/// The name of a span for a value, as a string.
fn make_name<V: TextValue>(label: &str, value: &V) -> (r: String)
    ensures
        r@ == span_name(label@, V::text_of(value.deep_view())),
{
    let text = value.to_text();
    if label.is_empty() {
        text
    } else {
        let mut name = String::from_str(label);
        name.append(" ");
        name.append(text.as_str());
        proof {
            reveal_strlit(" ");
            assert(" "@ =~= seq![' ']);
        }
        name
    }
}

/// The spans of a series of records: each record opens a span named after its
/// value (after `label` and a space, where `label` is not empty) that lasts
/// until the next record; the last span lasts until `end_time`.
pub fn create_span<V: TextValue, Ts: Copy>(
    data: &[DataEntry<V, Ts>],
    label: &str,
    end_time: Ts,
) -> (r: Vec<SpanInfo<Ts>>)
    ensures
        r.deep_view() == spans_of::<V, Ts>(data.deep_view(), label@, end_time),
{
    let ghost s = data.deep_view();
    let n = data.len();
    let mut r: Vec<SpanInfo<Ts>> = Vec::new();
    for i in 0..n
        invariant
            n == data@.len(),
            s == data.deep_view(),
            r.deep_view() =~= spans_of::<V, Ts>(s, label@, end_time).take(i as int),
    {
        let e = &data[i];
        let name = make_name(label, &e.value);
        let end = if i + 1 < n {
            data[i + 1].timestamp
        } else {
            end_time
        };
        let ghost before = r.deep_view();
        r.push(SpanInfo { name, start: e.timestamp, end });
        assert(r.deep_view() =~= before.push(spans_of::<V, Ts>(s, label@, end_time)[i as int]));
    }
    r
}

} // verus!

verus! {

/// The spans of a series tile the flight from its first record to `end`: one
/// span per record, each starting at its record's time, each ending where the
/// next one starts, and the last ending at `end`.
pub proof fn lemma_spans_tile<V: TextValue, Ts>(
    s: Seq<EntryModel<<V as DeepView>::V, Ts>>,
    label: Seq<char>,
    end: Ts,
)
    ensures
        spans_of::<V, Ts>(s, label, end).len() == s.len(),
        forall|i: int|
            0 <= i < s.len() ==> #[trigger] spans_of::<V, Ts>(s, label, end)[i].start
                == s[i].timestamp,
        forall|i: int|
            0 <= i < s.len() - 1 ==> #[trigger] spans_of::<V, Ts>(s, label, end)[i].end
                == spans_of::<V, Ts>(s, label, end)[i + 1].start,
        s.len() > 0 ==> spans_of::<V, Ts>(s, label, end)[s.len() - 1].end == end,
{
}

} // verus!
