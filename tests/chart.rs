use napal::chart::{elapsed, prepare_chart, ChartError, TimeFormat, RGB};
use napal::index::LoadedData;
use napal::series::{Table, Timestamp};

const FMT: &str = "%Y-%m-%d %H:%M:%S";

fn table(name: &str, values: &[&str]) -> Table {
    Table {
        file_name: name.to_string(),
        headers: vec!["Time".to_string(), "CPU_Usage".to_string()],
        rows: values
            .iter()
            .enumerate()
            .map(|(i, v)| vec![format!("2020-01-01 00:00:0{}", i), v.to_string()])
            .collect(),
    }
}

fn number(s: &String) -> f64 {
    s.parse::<f64>().unwrap_or(0.0)
}

fn palette(n: usize) -> Vec<RGB> {
    (0..n).map(|i| RGB(i as u8, 0, 0)).collect()
}

#[test]
fn two_files_share_axes() {
    let a = table("a.csv", &["10", "20", "30", "40"]);
    let b = table("b.csv", &["5", "15", "25", "35"]);
    let data = LoadedData::load_file_data(&vec![a, b], FMT, &number).unwrap();
    let c = prepare_chart(&data, "CPU_Usage", TimeFormat::Seconds, 1, 1500, &palette(2)).unwrap();
    assert_eq!(c.time_max, 3);
    assert_eq!(c.width, 1500);
    assert_eq!(c.series.len(), 2);
    assert_eq!(c.series[0].file_name, "a.csv");
    assert_eq!(c.series[1].color, RGB(1, 0, 0));
    assert_eq!(c.series[0].points, vec![(0, 10.0), (1, 20.0), (2, 30.0), (3, 40.0)]);
    let value_max = c.series.iter().flat_map(|s| s.points.iter().map(|p| p.1)).fold(f64::MIN, f64::max);
    assert_eq!(value_max, 40.0);
}

#[test]
fn width_follows_sample_count() {
    let a = table("a.csv", &["1", "2", "3"]);
    let data = LoadedData::load_file_data(&vec![a], FMT, &number).unwrap();
    let c = prepare_chart(&data, "CPU_Usage", TimeFormat::Seconds, 600, 1500, &palette(1)).unwrap();
    assert_eq!(c.width, 1800);
}

#[test]
fn too_few_colors_is_an_error() {
    let a = table("a.csv", &["1"]);
    let b = table("b.csv", &["2"]);
    let data = LoadedData::load_file_data(&vec![a, b], FMT, &number).unwrap();
    let r = prepare_chart(&data, "CPU_Usage", TimeFormat::Minutes, 1, 10, &palette(1));
    assert_eq!(r.err(), Some(ChartError::NotEnoughColors { needed: 2, available: 1 }));
}

#[test]
fn file_without_samples_is_an_error() {
    let a = table("empty.csv", &[]);
    let data = LoadedData::load_file_data(&vec![a], FMT, &number).unwrap();
    let r = prepare_chart(&data, "CPU_Usage", TimeFormat::Seconds, 1, 10, &palette(1));
    assert_eq!(r.err(), Some(ChartError::EmptySeries { file: "empty.csv".to_string() }));
}

#[test]
fn elapsed_truncates_toward_zero() {
    let t0 = Timestamp { secs: 100, nanos: 500_000_000 };
    assert_eq!(elapsed(t0, Timestamp { secs: 101, nanos: 400_000_000 }, TimeFormat::Seconds), 0);
    assert_eq!(elapsed(t0, Timestamp { secs: 219, nanos: 600_000_000 }, TimeFormat::Minutes), 1);
    assert_eq!(elapsed(t0, Timestamp { secs: 98, nanos: 600_000_000 }, TimeFormat::Seconds), -1);
    assert_eq!(elapsed(t0, Timestamp { secs: 0, nanos: 0 }, TimeFormat::Minutes), -1);
}
