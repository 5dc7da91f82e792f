use vstd::prelude::*;

use crate::entry::{parse_entry, DataEntry, EntryModel};
use crate::text::TextValue;

verus! {

/// What is known of the flight as a whole: the vessel, the body it flew from,
/// and the time span of the log.
#[derive(Debug, Clone)]
pub struct MetaDta<Ts> {
    pub vessel_name: String,
    pub vessel_type: String,
    pub body: String,
    pub start_time: Ts,
    pub end_time: Ts,
}

/// A flight log: its records in file order, and its metadata.
#[derive(Debug, Clone)]
pub struct Data<Ts> {
    pub raw: Vec<DataEntry<String, Ts>>,
    pub meta: MetaDta<Ts>,
}

/// The records of a log that carry the name `id`, in their order.
pub open spec fn with_id<Ts>(s: Seq<EntryModel<Seq<char>, Ts>>, id: Seq<char>) -> Seq<
    EntryModel<Seq<char>, Ts>,
> {
    s.filter(|e: EntryModel<Seq<char>, Ts>| e.id == id)
}

/// The records named `id` that read as values of type `V`, each with its
/// value, in their order.
pub open spec fn parsed_with_id<V: TextValue, Ts>(
    s: Seq<EntryModel<Seq<char>, Ts>>,
    id: Seq<char>,
) -> Seq<EntryModel<<V as DeepView>::V, Ts>> {
    with_id(s, id).filter_map(|e: EntryModel<Seq<char>, Ts>| parse_entry::<V, Ts>(e))
}

/// The text of the first record named `id`, if there is one.
pub open spec fn first_value<Ts>(s: Seq<EntryModel<Seq<char>, Ts>>, id: Seq<char>) -> Option<
    Seq<char>,
>
    decreases s.len(),
{
    if s.len() == 0 {
        None
    } else if s[0].id == id {
        Some(s[0].value)
    } else {
        first_value(s.drop_first(), id)
    }
}

/// A text that is replaced by the first value of the records named `id`, and
/// kept where there is none.
pub open spec fn first_value_or<Ts>(
    s: Seq<EntryModel<Seq<char>, Ts>>,
    id: Seq<char>,
    current: Seq<char>,
) -> Seq<char> {
    match first_value(s, id) {
        Some(v) => v,
        None => current,
    }
}

/// Where no record before `i` carries the name, the first one is found from `i` on.
proof fn lemma_first_value_from<Ts>(s: Seq<EntryModel<Seq<char>, Ts>>, id: Seq<char>, i: int)
    requires
        0 <= i <= s.len(),
        forall|j: int| 0 <= j < i ==> s[j].id != id,
    ensures
        first_value(s, id) == first_value(s.skip(i), id),
    decreases i,
{
    if i > 0 {
        lemma_first_value_from(s.drop_first(), id, i - 1);
        assert(s.drop_first().skip(i - 1) =~= s.skip(i));
    } else {
        assert(s.skip(0) =~= s);
    }
}

/// The value of the first record of `raw` named `id`.
fn find_value<Ts>(raw: &Vec<DataEntry<String, Ts>>, id: &str) -> (r: Option<String>)
    ensures
        match r {
            Some(v) => first_value(raw.deep_view(), id@) == Some(v@),
            None => first_value(raw.deep_view(), id@) is None,
        },
{
    let n = raw.len();
    let ghost s = raw.deep_view();
    let key = String::from_str(id);
    let mut i: usize = 0;
    while i < n
        invariant
            n == raw@.len(),
            s == raw.deep_view(),
            i <= n,
            key@ == id@,
            forall|j: int| 0 <= j < i ==> s[j].id != id@,
        decreases n - i,
    {
        if raw[i].id == key {
            proof {
                lemma_first_value_from(s, id@, i as int);
            }
            return Some(raw[i].value.clone());
        }
        i = i + 1;
    }
    proof {
        lemma_first_value_from(s, id@, i as int);
    }
    None
}

impl<Ts: Copy> Data<Ts> {
    /// The records named `id`, in their order.
    pub fn filter_data(&self, id: &str) -> (r: Vec<DataEntry<String, Ts>>)
        ensures
            r.deep_view() == with_id(self.raw.deep_view(), id@),
    {
        let ghost s = self.raw.deep_view();
        let ghost pred = |e: EntryModel<Seq<char>, Ts>| e.id == id@;
        let key = String::from_str(id);
        let mut r: Vec<DataEntry<String, Ts>> = Vec::new();
        let n = self.raw.len();
        for i in 0..n
            invariant
                n == self.raw@.len(),
                key@ == id@,
                s == self.raw.deep_view(),
                pred == (|e: EntryModel<Seq<char>, Ts>| e.id == id@),
                r.deep_view() == s.take(i as int).filter(pred),
        {
            proof {
                reveal_with_fuel(Seq::<_>::filter, 1);
                assert(s.take(i + 1).drop_last() =~= s.take(i as int));
            }
            let e = &self.raw[i];
            if e.id == key {
                let ghost before = r.deep_view();
                r.push(DataEntry { id: e.id.clone(), value: e.value.clone(), timestamp: e.timestamp });
                assert(r.deep_view() =~= before.push(s[i as int]));
            }
        }
        assert(s.take(n as int) =~= s);
        r
    }

    /// The records named `id` whose text reads as a value of type `V`, each
    /// with its value, in their order; records whose text does not read are
    /// skipped.
    pub fn get_data<V: TextValue>(&self, id: &str) -> (r: Vec<DataEntry<V, Ts>>)
        ensures
            r.deep_view() == parsed_with_id::<V, Ts>(self.raw.deep_view(), id@),
    {
        let ghost s = self.raw.deep_view();
        let ghost pred = |e: EntryModel<Seq<char>, Ts>| e.id == id@;
        let ghost f = |e: EntryModel<Seq<char>, Ts>| parse_entry::<V, Ts>(e);
        let key = String::from_str(id);
        let mut r: Vec<DataEntry<V, Ts>> = Vec::new();
        let n = self.raw.len();
        for i in 0..n
            invariant
                n == self.raw@.len(),
                key@ == id@,
                s == self.raw.deep_view(),
                pred == (|e: EntryModel<Seq<char>, Ts>| e.id == id@),
                f == (|e: EntryModel<Seq<char>, Ts>| parse_entry::<V, Ts>(e)),
                r.deep_view() == s.take(i as int).filter(pred).filter_map(f),
        {
            proof {
                reveal_with_fuel(Seq::<_>::filter, 1);
                assert(s.take(i + 1).drop_last() =~= s.take(i as int));
            }
            let e = &self.raw[i];
            if e.id == key {
                let ghost kept = s.take(i as int).filter(pred);
                assert(kept.push(s[i as int]).drop_last() =~= kept);
                let parsed = e.parse::<V>();
                match parsed {
                    Ok(p) => {
                        let ghost before = r.deep_view();
                        r.push(p);
                        assert(r.deep_view() =~= before + seq![f(s[i as int]).unwrap()]);
                    },
                    Err(_) => {},
                }
            }
        }
        assert(s.take(n as int) =~= s);
        r
    }

    /// The log with its metadata filled in from its records: the vessel's
    /// name, its type and the body are each taken from the first record named
    /// `Vessel`, `Vessel Type` and `Body`, and kept where there is none. The
    /// time span becomes `start_time` to `end_time`, the earliest and the
    /// latest time of the records, which the caller measures on its time type.
    /// The records stay as they are.
    pub fn parse_metadata(self, start_time: Ts, end_time: Ts) -> (r: Self)
        ensures
            r.raw@ == self.raw@,
            r.meta.vessel_name@ == first_value_or(
                self.raw.deep_view(),
                "Vessel"@,
                self.meta.vessel_name@,
            ),
            r.meta.vessel_type@ == first_value_or(
                self.raw.deep_view(),
                "Vessel Type"@,
                self.meta.vessel_type@,
            ),
            r.meta.body@ == first_value_or(self.raw.deep_view(), "Body"@, self.meta.body@),
            r.meta.start_time == start_time,
            r.meta.end_time == end_time,
    {
        let mut d = self;
        if let Some(v) = find_value(&d.raw, "Vessel") {
            d.meta.vessel_name = v;
        }
        if let Some(v) = find_value(&d.raw, "Vessel Type") {
            d.meta.vessel_type = v;
        }
        if let Some(v) = find_value(&d.raw, "Body") {
            d.meta.body = v;
        }
        d.meta.start_time = start_time;
        d.meta.end_time = end_time;
        d
    }
}

} // verus!

verus! {

/// Mapping a sequence with one more element at its end.
proof fn lemma_filter_map_push<A, B>(t: Seq<A>, x: A, f: spec_fn(A) -> Option<B>)
    ensures
        t.push(x).filter_map(f) == t.filter_map(f) + match f(x) {
            Some(b) => seq![b],
            None => Seq::<B>::empty(),
        },
{
    assert(t.push(x).drop_last() =~= t);
    assert(t.push(x).last() == x);
}

/// Selecting the records of one name from records that all carry it keeps
/// them all: asking `filter_data` twice for a name gives what asking once gave.
pub proof fn lemma_filter_data_twice<Ts>(s: Seq<EntryModel<Seq<char>, Ts>>, id: Seq<char>)
    ensures
        with_id(with_id(s, id), id) == with_id(s, id),
    decreases s.len(),
{
    broadcast use Seq::lemma_filter_push;

    let pred = |e: EntryModel<Seq<char>, Ts>| e.id == id;
    if s.len() == 0 {
        reveal_with_fuel(Seq::<_>::filter, 1);
        assert(with_id(with_id(s, id), id) =~= with_id(s, id));
    } else {
        let t = s.drop_last();
        let x = s.last();
        assert(t.push(x) =~= s);
        lemma_filter_data_twice(t, id);
        t.lemma_filter_push(x, pred);
        if pred(x) {
            t.filter(pred).lemma_filter_push(x, pred);
        }
    }
}

/// `get_data` asks only about records of its name: on the records that
/// `filter_data` selected for that name it gives what it gives on the whole log.
pub proof fn lemma_get_data_of_filtered<V: TextValue, Ts>(
    s: Seq<EntryModel<Seq<char>, Ts>>,
    id: Seq<char>,
)
    ensures
        parsed_with_id::<V, Ts>(with_id(s, id), id) == parsed_with_id::<V, Ts>(s, id),
{
    lemma_filter_data_twice(s, id);
}

/// Each record that `get_data` gives back carries the asked name, and comes
/// from a record of the log with that name and the same time, whose text
/// reads as its value; there are no more of them than records of that name.
pub proof fn lemma_get_data_sound<V: TextValue, Ts>(
    s: Seq<EntryModel<Seq<char>, Ts>>,
    id: Seq<char>,
)
    ensures
        parsed_with_id::<V, Ts>(s, id).len() <= with_id(s, id).len(),
        forall|k: int|
            0 <= k < parsed_with_id::<V, Ts>(s, id).len() ==> {
                let r = #[trigger] parsed_with_id::<V, Ts>(s, id)[k];
                &&& r.id == id
                &&& exists|j: int|
                    0 <= j < s.len() && s[j].id == id && s[j].timestamp == r.timestamp
                        && V::text_parse(s[j].value) == Some(r.value)
            },
    decreases s.len(),
{
    broadcast use Seq::lemma_filter_push;

    let pred = |e: EntryModel<Seq<char>, Ts>| e.id == id;
    let f = |e: EntryModel<Seq<char>, Ts>| parse_entry::<V, Ts>(e);
    if s.len() == 0 {
        reveal_with_fuel(Seq::<_>::filter, 1);
        assert(with_id(s, id) =~= s);
        assert(parsed_with_id::<V, Ts>(s, id) =~= Seq::empty());
    } else {
        let t = s.drop_last();
        let x = s.last();
        assert(t.push(x) =~= s);
        lemma_get_data_sound::<V, Ts>(t, id);
        t.lemma_filter_push(x, pred);
        let old_r = parsed_with_id::<V, Ts>(t, id);
        if pred(x) {
            lemma_filter_map_push(t.filter(pred), x, f);
            let new_r = parsed_with_id::<V, Ts>(s, id);
            assert forall|k: int| 0 <= k < new_r.len() implies {
                let r = #[trigger] new_r[k];
                &&& r.id == id
                &&& exists|j: int|
                    0 <= j < s.len() && s[j].id == id && s[j].timestamp == r.timestamp
                        && V::text_parse(s[j].value) == Some(r.value)
            } by {
                if k < old_r.len() {
                    assert(new_r[k] == old_r[k]);
                    let r = old_r[k];
                    let j = choose|j: int|
                        0 <= j < t.len() && t[j].id == id && t[j].timestamp == r.timestamp
                            && V::text_parse(t[j].value) == Some(r.value);
                    assert(s[j] == t[j]);
                } else {
                    assert(s[s.len() - 1] == x);
                }
            }
        } else {
            assert(parsed_with_id::<V, Ts>(s, id) == old_r);
            assert forall|k: int| 0 <= k < old_r.len() implies {
                let r = #[trigger] old_r[k];
                &&& r.id == id
                &&& exists|j: int|
                    0 <= j < s.len() && s[j].id == id && s[j].timestamp == r.timestamp
                        && V::text_parse(s[j].value) == Some(r.value)
            } by {
                let r = old_r[k];
                let j = choose|j: int|
                    0 <= j < t.len() && t[j].id == id && t[j].timestamp == r.timestamp
                        && V::text_parse(t[j].value) == Some(r.value);
                assert(s[j] == t[j]);
            }
        }
    }
}

/// Filling in the metadata twice gives what filling it in once gave: a text
/// taken from the first record of a name stays that text.
pub proof fn lemma_metadata_settles<Ts>(
    s: Seq<EntryModel<Seq<char>, Ts>>,
    id: Seq<char>,
    current: Seq<char>,
)
    ensures
        first_value_or(s, id, first_value_or(s, id, current)) == first_value_or(s, id, current),
{
}

/// The text that the metadata takes for a name is the value of a record of
/// that name, and no earlier record carries the name.
pub proof fn lemma_first_value_is_first<Ts>(s: Seq<EntryModel<Seq<char>, Ts>>, id: Seq<char>)
    ensures
        first_value(s, id) is Some ==> exists|j: int|
            0 <= j < s.len() && s[j].id == id && s[j].value == first_value(s, id)->0 && forall|
                i: int,
            |
                0 <= i < j ==> s[i].id != id,
        first_value(s, id) is None ==> forall|j: int| 0 <= j < s.len() ==> s[j].id != id,
    decreases s.len(),
{
    if s.len() > 0 {
        let t = s.drop_first();
        lemma_first_value_is_first(t, id);
        if s[0].id != id {
            if first_value(t, id) is Some {
                let j = choose|j: int|
                    0 <= j < t.len() && t[j].id == id && t[j].value == first_value(t, id)->0
                        && forall|i: int| 0 <= i < j ==> t[i].id != id;
                assert(s[j + 1] == t[j]);
                assert forall|i: int| 0 <= i < j + 1 implies s[i].id != id by {
                    if i > 0 {
                        assert(s[i] == t[i - 1]);
                    }
                }
            } else {
                assert forall|j: int| 0 <= j < s.len() implies s[j].id != id by {
                    if j > 0 {
                        assert(s[j] == t[j - 1]);
                    }
                }
            }
        }
    }
}

} // verus!

verus! {

/// Text always reads as text, so reading the records of a name as `String`
/// gives the records that `filter_data` selects.
pub proof fn lemma_get_text_data_is_filter_data<Ts>(s: Seq<EntryModel<Seq<char>, Ts>>, id: Seq<char>)
    ensures
        parsed_with_id::<String, Ts>(s, id) == with_id(s, id),
{
    let f = |e: EntryModel<Seq<char>, Ts>| parse_entry::<String, Ts>(e);
    lemma_filter_map_all_some(with_id(s, id), f);
}

/// Reading every record as text keeps each one as it is.
proof fn lemma_filter_map_all_some<Ts>(
    t: Seq<EntryModel<Seq<char>, Ts>>,
    f: spec_fn(EntryModel<Seq<char>, Ts>) -> Option<EntryModel<Seq<char>, Ts>>,
)
    requires
        f == (|e: EntryModel<Seq<char>, Ts>| parse_entry::<String, Ts>(e)),
    ensures
        t.filter_map(f) == t,
    decreases t.len(),
{
    if t.len() > 0 {
        let u = t.drop_last();
        lemma_filter_map_all_some(u, f);
        lemma_filter_map_push(u, t.last(), f);
        assert(u.push(t.last()) =~= t);
        assert(f(t.last()) == Some(t.last()));
        assert(t.filter_map(f) =~= t);
    } else {
        assert(t.filter_map(f) =~= t);
    }
}

} // verus!

verus! {

/// How the records of a name are selected, record by record: from no records
/// none, and one more record at the end of the log is added at the end of the
/// selection exactly when it carries the name, whatever its value and time.
pub proof fn lemma_filter_data_selects_every_record_of_the_name<Ts>(
    s: Seq<EntryModel<Seq<char>, Ts>>,
    x: EntryModel<Seq<char>, Ts>,
    id: Seq<char>,
)
    ensures
        with_id(Seq::<EntryModel<Seq<char>, Ts>>::empty(), id).len() == 0,
        x.id == id ==> with_id(s.push(x), id) == with_id(s, id).push(x),
        x.id != id ==> with_id(s.push(x), id) == with_id(s, id),
{
    broadcast use Seq::lemma_filter_push;

    reveal_with_fuel(Seq::<_>::filter, 1);
    let pred = |e: EntryModel<Seq<char>, Ts>| e.id == id;
    s.lemma_filter_push(x, pred);
}

/// How `get_data` reads a log, record by record: from no records nothing, and
/// one more record at the end of the log adds its value at the end exactly
/// when it carries the name and its text reads.
pub proof fn lemma_get_data_reads_every_record_of_the_name<V: TextValue, Ts>(
    s: Seq<EntryModel<Seq<char>, Ts>>,
    x: EntryModel<Seq<char>, Ts>,
    id: Seq<char>,
    v: <V as DeepView>::V,
)
    ensures
        parsed_with_id::<V, Ts>(Seq::<EntryModel<Seq<char>, Ts>>::empty(), id).len() == 0,
        x.id == id && V::text_parse(x.value) == Some(v) ==> parsed_with_id::<V, Ts>(s.push(x), id)
            == parsed_with_id::<V, Ts>(s, id).push(
            EntryModel { id: x.id, value: v, timestamp: x.timestamp },
        ),
        x.id == id && V::text_parse(x.value) is None ==> parsed_with_id::<V, Ts>(s.push(x), id)
            == parsed_with_id::<V, Ts>(s, id),
        x.id != id ==> parsed_with_id::<V, Ts>(s.push(x), id) == parsed_with_id::<V, Ts>(s, id),
{
    let f = |e: EntryModel<Seq<char>, Ts>| parse_entry::<V, Ts>(e);
    lemma_filter_data_selects_every_record_of_the_name(s, x, id);
    let e = Seq::<EntryModel<Seq<char>, Ts>>::empty();
    assert(with_id(e, id) =~= e);
    assert(e.filter_map(f) =~= Seq::<EntryModel<<V as DeepView>::V, Ts>>::empty());
    lemma_filter_map_push(with_id(s, id), x, f);
    assert(with_id(s, id).filter_map(f) + seq![EntryModel { id: x.id, value: v, timestamp: x.timestamp }]
        =~= with_id(s, id).filter_map(f).push(EntryModel { id: x.id, value: v, timestamp: x.timestamp }));
    assert(with_id(s, id).filter_map(f) + Seq::<EntryModel<<V as DeepView>::V, Ts>>::empty()
        =~= with_id(s, id).filter_map(f));
}

/// The metadata takes the first record of a name whatever the field held:
/// where a record carries the name and no earlier one does, the field becomes
/// its value; where no record carries the name, the field keeps what it held.
pub proof fn lemma_metadata_takes_the_first_record<Ts>(
    s: Seq<EntryModel<Seq<char>, Ts>>,
    id: Seq<char>,
    current: Seq<char>,
)
    ensures
        forall|j: int|
            0 <= j < s.len() && #[trigger] s[j].id == id && (forall|i: int|
                0 <= i < j ==> s[i].id != id) ==> first_value_or(s, id, current) == s[j].value,
        (forall|j: int| 0 <= j < s.len() ==> s[j].id != id) ==> first_value_or(s, id, current)
            == current,
{
    lemma_first_value_is_first(s, id);
    assert forall|j: int|
        0 <= j < s.len() && #[trigger] s[j].id == id && (forall|i: int|
            0 <= i < j ==> s[i].id != id) implies first_value_or(s, id, current) == s[j].value by {
        if first_value(s, id) is Some {
            let k = choose|k: int|
                0 <= k < s.len() && s[k].id == id && s[k].value == first_value(s, id)->0 && forall|
                    i: int,
                |
                    0 <= i < k ==> s[i].id != id;
            if k < j {
                assert(s[k].id != id);
            } else if j < k {
                assert(s[j].id != id);
            }
        } else {
            assert(s[j].id != id);
        }
    }
    if forall|j: int| 0 <= j < s.len() ==> s[j].id != id {
        if first_value(s, id) is Some {
            let k = choose|k: int|
                0 <= k < s.len() && s[k].id == id && s[k].value == first_value(s, id)->0 && forall|
                    i: int,
                |
                    0 <= i < k ==> s[i].id != id;
            assert(s[k].id != id);
        }
    }
}

} // verus!
