use napal::index::LoadedData;
use napal::report::{get_file_name, DataError, Statistics};
use napal::series::{FileData, Metric, Table, Timestamp};
use statrs::statistics::{Data, OrderStatistics, Statistics as _};

const FMT: &str = "%Y-%m-%d %H:%M:%S";

fn table(name: &str, values: &[&str]) -> Table {
    Table {
        file_name: name.to_string(),
        headers: vec!["Time".to_string(), "CPU_Usage".to_string()],
        rows: values
            .iter()
            .enumerate()
            .map(|(i, v)| vec![format!("2020-01-01 00:00:0{}", i), v.to_string()])
            .collect(),
    }
}

fn number(s: &String) -> f64 {
    s.parse::<f64>().unwrap_or(0.0)
}

fn summary(v: &Vec<f64>) -> [f64; 6] {
    let mean = v.iter().mean();
    let mut d = Data::new(v.clone());
    [mean, d.median(), d.percentile(25), d.percentile(75), d.percentile(90), d.percentile(99)]
}

#[test]
fn metric_key_is_file_safe() {
    assert_eq!(get_file_name("\\\\host\\CPU #1/Load", ".png"), "--host-CPU__1_Load.png");
    assert_eq!(get_file_name("", ".png"), ".png");
}

#[test]
fn means_per_file() {
    let a = table("a.csv", &["10", "20", "30", "40"]);
    let b = table("b.csv", &["5", "15", "25", "35"]);
    let data = LoadedData::load_file_data(&vec![a, b], FMT, &number).unwrap();
    let st = Statistics::calculate_statistics(&data, &summary).unwrap();
    assert_eq!(st.stats.len(), 1);
    let e = &st.stats[0];
    assert_eq!(e.metric, "CPU_Usage");
    assert_eq!(e.key, "CPU_Usage.png");
    assert_eq!(e.files[0].0, "a.csv");
    assert_eq!(e.files[0].1[0], 25.0);
    assert_eq!(e.files[1].0, "b.csv");
    assert_eq!(e.files[1].1[0], 20.0);
}

#[test]
fn percentiles_are_ordered() {
    let a = table("a.csv", &["3", "9", "1", "7", "5", "2"]);
    let data = LoadedData::load_file_data(&vec![a], FMT, &number).unwrap();
    let st = Statistics::calculate_statistics(&data, &summary).unwrap();
    let s = st.stats[0].files[0].1;
    assert!(s[2] <= s[1] && s[1] <= s[3] && s[3] <= s[4] && s[4] <= s[5]);
    assert!(1.0 <= s[0] && s[0] <= 9.0);
}

#[test]
fn empty_samples_are_a_data_error() {
    let f = FileData {
        metrics: vec![Metric { data: Vec::<f64>::new(), name: "CPU".to_string() }],
        timestamps: Metric { data: Vec::<Timestamp>::new(), name: "date".to_string() },
        file_name: "e.csv".to_string(),
    };
    let data = LoadedData::new(vec![f]);
    let r = Statistics::calculate_statistics(&data, &summary);
    assert_eq!(r.err(), Some(DataError { metric: "CPU".to_string(), file: "e.csv".to_string() }));
}
