use napal::index::LoadedData;
use napal::series::{parse_timestamp, FileData, LoadError, Table, Timestamp};

const FMT: &str = "%Y-%m-%d %H:%M:%S";

fn strings(v: &[&str]) -> Vec<String> {
    v.iter().map(|s| s.to_string()).collect()
}

fn table(name: &str, headers: &[&str], rows: &[&[&str]]) -> Table {
    Table {
        file_name: name.to_string(),
        headers: strings(headers),
        rows: rows.iter().map(|r| strings(r)).collect(),
    }
}

fn number(s: &String) -> f64 {
    s.parse::<f64>().unwrap_or(0.0)
}

#[test]
fn timestamp_parses_to_epoch_seconds() {
    assert_eq!(parse_timestamp("1970-01-01 00:01:05", FMT), Some(Timestamp { secs: 65, nanos: 0 }));
    assert_eq!(
        parse_timestamp("05/02/2020 15:30:10.012", "%m/%d/%Y %H:%M:%S%.f"),
        Some(Timestamp { secs: 1588433410, nanos: 12_000_000 })
    );
    assert_eq!(parse_timestamp("not a time", FMT), None);
}

#[test]
fn load_keeps_lengths_equal() {
    let t = table(
        "a.csv",
        &["Time", "CPU", "Mem"],
        &[&["2020-01-01 00:00:00", "1", "2"], &["2020-01-01 00:00:01", "3", "4"]],
    );
    let f = FileData::load(&t, FMT, number).unwrap();
    assert_eq!(f.file_name, "a.csv");
    assert_eq!(f.timestamps.data.len(), 2);
    assert_eq!(f.metrics.len(), 2);
    for m in &f.metrics {
        assert_eq!(m.data.len(), f.timestamps.data.len());
    }
    assert_eq!(f.metrics[0].name, "CPU");
    assert_eq!(f.metrics[1].data, vec![2.0, 4.0]);
    assert!(f.contains_metric("Mem"));
    assert!(!f.contains_metric("Time"));
}

#[test]
fn non_numeric_cell_loads_as_zero() {
    let t = table("a.csv", &["Time", "CPU"], &[&["2020-01-01 00:00:00", "abc"], &["2020-01-01 00:00:01", "7.5"]]);
    let f = FileData::load(&t, FMT, number).unwrap();
    assert_eq!(f.metrics[0].data, vec![0.0, 7.5]);
}

#[test]
fn bad_timestamp_aborts_and_names_file() {
    let good = table("good.csv", &["Time", "CPU"], &[&["2020-01-01 00:00:00", "1"]]);
    let bad = table("bad.csv", &["Time", "CPU"], &[&["2020-01-01 00:00:00", "1"], &["yesterday", "2"]]);
    let r = LoadedData::load_file_data(&vec![good, bad], FMT, &number);
    match r {
        Err(LoadError::BadTimestamp { file, row, entry }) => {
            assert_eq!(file, "bad.csv");
            assert_eq!(row, 1);
            assert_eq!(entry, "yesterday");
        }
        _ => panic!("expected a timestamp error"),
    }
}

#[test]
fn ragged_row_and_missing_header_are_errors() {
    let t = table("r.csv", &["Time", "CPU"], &[&["2020-01-01 00:00:00"]]);
    assert_eq!(
        FileData::load(&t, FMT, number).err(),
        Some(LoadError::RaggedRow { file: "r.csv".to_string(), row: 0 })
    );
    let e = table("e.csv", &[], &[]);
    assert_eq!(
        FileData::load(&e, FMT, number).err(),
        Some(LoadError::NoColumns { file: "e.csv".to_string() })
    );
}

#[test]
fn repeated_header_keeps_first_column() {
    let t = table("d.csv", &["Time", "A", "A", "Time"], &[&["2020-01-01 00:00:00", "1", "2", "3"]]);
    let f = FileData::load(&t, FMT, number).unwrap();
    assert_eq!(f.metrics.len(), 1);
    assert_eq!(f.metrics[0].data, vec![1.0]);
}

#[test]
fn metric_index_over_batch() {
    let a = table("a.csv", &["Time", "CPU", "Mem"], &[&["2020-01-01 00:00:00", "1", "2"]]);
    let b = table("b.csv", &["Time", "CPU", "Disk"], &[&["2020-01-01 00:00:00", "1", "2"]]);
    let c = table("c.csv", &["Time", "Disk"], &[&["2020-01-01 00:00:00", "1"]]);
    let data = LoadedData::load_file_data(&vec![a, b, c], FMT, &number).unwrap();
    let mut names = data.get_distinct_metrics();
    names.sort();
    assert_eq!(names, strings(&["CPU", "Disk", "Mem"]));
    let disk: Vec<String> = data.get_files_that_contain_metric("Disk").iter().map(|f| f.file_name.clone()).collect();
    assert_eq!(disk, strings(&["b.csv", "c.csv"]));
    assert!(data.get_files_that_contain_metric("Swap").is_empty());
    assert_eq!(data.get_all_data().len(), 3);
}

#[test]
fn from_rows_uses_given_times() {
    let t = table("g.csv", &["Time", "CPU"], &[&["first", "1"], &["second", "2"]]);
    let t0 = Timestamp { secs: 10, nanos: 0 };
    let t1 = Timestamp { secs: 12, nanos: 5 };
    let f = FileData::from_rows(&t, &vec![Some(t0), Some(t1)], number).unwrap();
    assert_eq!(f.timestamps.data, vec![t0, t1]);
    assert_eq!(f.metrics[0].data, vec![1.0, 2.0]);
    let e = FileData::from_rows(&t, &vec![Some(t0), None], number).err();
    assert_eq!(e, Some(LoadError::BadTimestamp { file: "g.csv".to_string(), row: 1, entry: "second".to_string() }));
}
