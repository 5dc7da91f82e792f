use madoi::data::{Data, MetaDta};
use madoi::entry::{keep_parsed, DataEntry, RawValue};
use madoi::modes::TimeMode;
use madoi::spans::create_span;
use madoi::text::TextValue;

fn entry(id: &str, value: &str, timestamp: f64) -> DataEntry<String, f64> {
    DataEntry { id: id.to_string(), value: value.to_string(), timestamp }
}

fn empty_meta() -> MetaDta<f64> {
    MetaDta {
        vessel_name: String::new(),
        vessel_type: String::new(),
        body: String::new(),
        start_time: 0.0,
        end_time: 0.0,
    }
}

fn sample() -> Data<f64> {
    Data {
        raw: vec![
            entry("Vessel", "Anna 1", 100.0),
            entry("Stage", "3", 100.0),
            entry("Body", "Kerbin", 100.0),
            entry("Altitude", "70.5", 101.0),
            entry("Stage", "two", 102.0),
            entry("RCS", "true", 103.0),
            entry("Stage", "2", 104.0),
            entry("Vessel", "Other", 105.0),
            entry("RCS", "false", 106.0),
            entry("Vessel Type", "Ship", 107.0),
        ],
        meta: empty_meta(),
    }
}

#[test]
fn filter_data_keeps_the_records_of_one_name_in_order() {
    let d = sample();
    let stages = d.filter_data("Stage");
    let values: Vec<&str> = stages.iter().map(|e| e.value.as_str()).collect();
    assert_eq!(values, vec!["3", "two", "2"]);
    let times: Vec<f64> = stages.iter().map(|e| e.timestamp).collect();
    assert_eq!(times, vec![100.0, 102.0, 104.0]);
    assert!(stages.iter().all(|e| e.id == "Stage"));
    assert!(d.filter_data("Missing").is_empty());
}

#[test]
fn filter_data_twice_gives_the_same_records() {
    let d = sample();
    let once = d.filter_data("RCS");
    let again = Data { raw: once.clone(), meta: empty_meta() }.filter_data("RCS");
    assert_eq!(once.len(), again.len());
    for (a, b) in once.iter().zip(again.iter()) {
        assert_eq!(a.id, b.id);
        assert_eq!(a.value, b.value);
        assert_eq!(a.timestamp, b.timestamp);
    }
}

#[test]
fn get_data_skips_records_that_do_not_parse() {
    let d = sample();
    let stages = d.get_data::<i32>("Stage");
    let values: Vec<i32> = stages.iter().map(|e| e.value).collect();
    assert_eq!(values, vec![3, 2]);
    let times: Vec<f64> = stages.iter().map(|e| e.timestamp).collect();
    assert_eq!(times, vec![100.0, 104.0]);
    assert!(stages.iter().all(|e| e.id == "Stage"));
}

#[test]
fn get_data_on_filtered_records_is_the_same() {
    let d = sample();
    let filtered = Data { raw: d.filter_data("Stage"), meta: empty_meta() };
    let a: Vec<(i32, f64)> = d.get_data::<i32>("Stage").iter().map(|e| (e.value, e.timestamp)).collect();
    let b: Vec<(i32, f64)> =
        filtered.get_data::<i32>("Stage").iter().map(|e| (e.value, e.timestamp)).collect();
    assert_eq!(a, b);
}

#[test]
fn get_data_reads_booleans() {
    let d = sample();
    let rcs: Vec<(bool, f64)> = d.get_data::<bool>("RCS").iter().map(|e| (e.value, e.timestamp)).collect();
    assert_eq!(rcs, vec![(true, 103.0), (false, 106.0)]);
}

#[test]
fn get_data_reads_text() {
    let d = sample();
    let names: Vec<String> = d.get_data::<String>("Vessel").into_iter().map(|e| e.value).collect();
    assert_eq!(names, vec!["Anna 1".to_string(), "Other".to_string()]);
}

#[test]
fn parse_reads_one_record() {
    let e = entry("Stage", "-7", 5.0);
    let p = e.parse::<i32>().unwrap();
    assert_eq!(p.id, "Stage");
    assert_eq!(p.value, -7);
    assert_eq!(p.timestamp, 5.0);
    assert!(entry("Stage", "7.0", 5.0).parse::<i32>().is_err());
    assert!(entry("RCS", "True", 5.0).parse::<bool>().is_err());
}

#[test]
fn parse_metadata_takes_the_first_record_of_each_name() {
    let d = sample().parse_metadata(100.0, 107.0);
    assert_eq!(d.meta.vessel_name, "Anna 1");
    assert_eq!(d.meta.vessel_type, "Ship");
    assert_eq!(d.meta.body, "Kerbin");
    assert_eq!(d.meta.start_time, 100.0);
    assert_eq!(d.meta.end_time, 107.0);
    assert_eq!(d.raw.len(), 10);
}

#[test]
fn parse_metadata_keeps_what_has_no_record() {
    let d = Data {
        raw: vec![entry("Altitude", "1", 1.0)],
        meta: MetaDta {
            vessel_name: "kept".to_string(),
            vessel_type: String::new(),
            body: "Mun".to_string(),
            start_time: 3.0,
            end_time: 9.0,
        },
    }
    .parse_metadata(1.0, 1.0);
    assert_eq!(d.meta.vessel_name, "kept");
    assert_eq!(d.meta.vessel_type, "");
    assert_eq!(d.meta.body, "Mun");
    assert_eq!(d.meta.start_time, 1.0);
    assert_eq!(d.meta.end_time, 1.0);
}

#[test]
fn parse_metadata_twice_is_parse_metadata_once() {
    let once = sample().parse_metadata(100.0, 107.0);
    let twice = once.clone().parse_metadata(100.0, 107.0);
    assert_eq!(once.meta.vessel_name, twice.meta.vessel_name);
    assert_eq!(once.meta.vessel_type, twice.meta.vessel_type);
    assert_eq!(once.meta.body, twice.meta.body);
    assert_eq!(once.meta.start_time, twice.meta.start_time);
    assert_eq!(once.meta.end_time, twice.meta.end_time);
}

#[test]
fn keep_parsed_keeps_values_in_order() {
    let entries = vec![
        DataEntry { id: "Q".to_string(), value: Some(1.5f64), timestamp: 1.0f64 },
        DataEntry { id: "Q".to_string(), value: None, timestamp: 2.0 },
        DataEntry { id: "Q".to_string(), value: Some(-3.0), timestamp: 3.0 },
    ];
    let kept: Vec<(f64, f64)> = keep_parsed(&entries).iter().map(|e| (e.value, e.timestamp)).collect();
    assert_eq!(kept, vec![(1.5, 1.0), (-3.0, 3.0)]);
}

#[test]
fn raw_values_become_text() {
    assert_eq!(RawValue::Str("Ascent".to_string()).into_text(), "Ascent");
    assert_eq!(RawValue::Null.into_text(), "null");
    assert_eq!(RawValue::Bool(true).into_text(), "true");
    assert_eq!(RawValue::Bool(false).into_text(), "false");
    assert_eq!(RawValue::Json("12.5".to_string()).into_text(), "12.5");
    let e = DataEntry::from_raw("Stage".to_string(), RawValue::Json("4".to_string()), 8.0f64);
    assert_eq!(e.id, "Stage");
    assert_eq!(e.value, "4");
    assert_eq!(e.timestamp, 8.0);
}

#[test]
fn raw_booleans_read_back() {
    for b in [true, false] {
        let text = RawValue::Bool(b).into_text();
        assert_eq!(<bool as TextValue>::from_text(&text).ok(), Some(b));
    }
}

#[test]
fn i32_text_rules() {
    assert_eq!(<i32 as TextValue>::from_text("42").ok(), Some(42));
    assert_eq!(<i32 as TextValue>::from_text("+42").ok(), Some(42));
    assert_eq!(<i32 as TextValue>::from_text("-0").ok(), Some(0));
    assert_eq!(<i32 as TextValue>::from_text("007").ok(), Some(7));
    assert_eq!(<i32 as TextValue>::from_text("-2147483648").ok(), Some(i32::MIN));
    assert_eq!(<i32 as TextValue>::from_text("2147483648").ok(), None);
    assert_eq!(<i32 as TextValue>::from_text("").ok(), None);
    assert_eq!(<i32 as TextValue>::from_text("-").ok(), None);
    assert_eq!(<i32 as TextValue>::from_text(" 1").ok(), None);
    assert_eq!(<i32 as TextValue>::from_text("1e3").ok(), None);
    assert_eq!((-12i32).to_text(), "-12");
    assert_eq!(0i32.to_text(), "0");
    assert_eq!(i32::MIN.to_text(), "-2147483648");
}

#[test]
fn i32_text_round_trip() {
    for v in [0, 1, -1, 9, 10, 12345, -987, i32::MAX, i32::MIN] {
        assert_eq!(<i32 as TextValue>::from_text(&v.to_text()).ok(), Some(v));
    }
}

#[test]
fn bool_and_string_text_rules() {
    assert_eq!(<bool as TextValue>::from_text("true").ok(), Some(true));
    assert_eq!(<bool as TextValue>::from_text("false").ok(), Some(false));
    assert_eq!(<bool as TextValue>::from_text("TRUE").ok(), None);
    assert_eq!(<bool as TextValue>::from_text("1").ok(), None);
    assert_eq!(true.to_text(), "true");
    assert_eq!(<String as TextValue>::from_text(" any text ").ok(), Some(" any text ".to_string()));
    assert_eq!("x".to_string().to_text(), "x");
}

#[test]
fn spans_with_a_label() {
    let stages = vec![
        DataEntry { id: "Stage".to_string(), value: 3i32, timestamp: 10.0f64 },
        DataEntry { id: "Stage".to_string(), value: 2i32, timestamp: 25.0 },
        DataEntry { id: "Stage".to_string(), value: 1i32, timestamp: 40.0 },
    ];
    let spans = create_span(&stages, "Stage", 60.0);
    let got: Vec<(String, f64, f64)> = spans.into_iter().map(|s| (s.name, s.start, s.end)).collect();
    assert_eq!(
        got,
        vec![
            ("Stage 3".to_string(), 10.0, 25.0),
            ("Stage 2".to_string(), 25.0, 40.0),
            ("Stage 1".to_string(), 40.0, 60.0),
        ]
    );
}

#[test]
fn spans_without_a_label() {
    let program = vec![
        DataEntry { id: "Program".to_string(), value: "Launch".to_string(), timestamp: 0.0f64 },
        DataEntry { id: "Program".to_string(), value: "Gravity turn".to_string(), timestamp: 12.0 },
    ];
    let spans = create_span(&program, "", 30.0);
    assert_eq!(spans.len(), 2);
    assert_eq!(spans[0].name, "Launch");
    assert_eq!((spans[0].start, spans[0].end), (0.0, 12.0));
    assert_eq!(spans[1].name, "Gravity turn");
    assert_eq!((spans[1].start, spans[1].end), (12.0, 30.0));
    let rcs = vec![DataEntry { id: "RCS".to_string(), value: false, timestamp: 5.0f64 }];
    let spans = create_span(&rcs, "", 9.0);
    assert_eq!(spans[0].name, "false");
    assert_eq!((spans[0].start, spans[0].end), (5.0, 9.0));
}

#[test]
fn spans_tile_the_flight() {
    let stages: Vec<DataEntry<i32, f64>> = (0..6)
        .map(|i| DataEntry { id: "Stage".to_string(), value: 5 - i, timestamp: 3.0 * i as f64 })
        .collect();
    let spans = create_span(&stages, "Stage", 100.0);
    assert_eq!(spans.len(), stages.len());
    for i in 0..spans.len() {
        assert_eq!(spans[i].start, stages[i].timestamp);
        if i + 1 < spans.len() {
            assert_eq!(spans[i].end, spans[i + 1].start);
        }
    }
    assert_eq!(spans[spans.len() - 1].end, 100.0);
}

#[test]
fn no_records_no_spans() {
    let none: Vec<DataEntry<i32, f64>> = Vec::new();
    assert!(create_span(&none, "Stage", 1.0).is_empty());
}

#[test]
fn time_mode_tells_whether_time_is_relative() {
    assert!(bool::from(TimeMode::Elapsed));
    assert!(!bool::from(TimeMode::Ut));
    assert_eq!(TimeMode::default(), TimeMode::Elapsed);
}

#[test]
fn text_series_read_as_text_are_the_filtered_records() {
    let d = sample();
    let read: Vec<(String, String, f64)> =
        d.get_data::<String>("Stage").into_iter().map(|e| (e.id, e.value, e.timestamp)).collect();
    let filtered: Vec<(String, String, f64)> =
        d.filter_data("Stage").into_iter().map(|e| (e.id, e.value, e.timestamp)).collect();
    assert_eq!(read, filtered);
}

#[test]
fn parse_metadata_first_vessel_wins_and_takes_the_given_time_span() {
    let d = Data {
        raw: vec![entry("Vessel", "Anna 1", 100.0), entry("Body", "Kerbin", 50.0), entry("Vessel", "B", 200.0)],
        meta: empty_meta(),
    };
    let start = d.raw.iter().fold(f64::MAX, |a, b| if b.timestamp < a { b.timestamp } else { a });
    let end = d.raw.iter().fold(0.0, |a, b| if b.timestamp > a { b.timestamp } else { a });
    let r = d.parse_metadata(start, end);
    assert_eq!(r.meta.vessel_name, "Anna 1");
    assert_eq!(r.meta.vessel_type, "");
    assert_eq!(r.meta.body, "Kerbin");
    assert_eq!(r.meta.start_time, 50.0);
    assert_eq!(r.meta.end_time, 200.0);
    assert_eq!(r.raw.len(), 3);
}

#[test]
fn parse_errors_are_the_std_errors() {
    let e = entry("Stage", "x", 1.0).parse::<i32>().unwrap_err();
    assert_eq!(e, "x".parse::<i32>().unwrap_err());
    let e = entry("RCS", "yes", 1.0).parse::<bool>().unwrap_err();
    assert_eq!(e, "yes".parse::<bool>().unwrap_err());
}
