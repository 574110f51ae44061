use napal::rules::{project_row, MetricRules, SEPARATOR};

fn strings(v: &[&str]) -> Vec<String> {
    v.iter().map(|s| s.to_string()).collect()
}

#[test]
fn rules_split_at_separator() {
    let lines = strings(&["CPU", "", "Memory", SEPARATOR, "CPU_Idle", "", SEPARATOR, "Swap"]);
    let rules = MetricRules::from_lines(&lines);
    assert_eq!(rules.metrics, strings(&["CPU", "Memory"]));
    assert_eq!(rules.ignore, strings(&["CPU_Idle", "Swap"]));
}

#[test]
fn rules_without_separator_ignore_nothing() {
    let rules = MetricRules::from_lines(&strings(&["A", "B"]));
    assert_eq!(rules.metrics, strings(&["A", "B"]));
    assert!(rules.ignore.is_empty());
}

#[test]
fn ignore_rule_excludes_column() {
    let rules = MetricRules::from_lines(&strings(&["CPU", SEPARATOR, "CPU_Idle"]));
    let headers = strings(&["Time", "CPU_Usage", "CPU_Idle", "Memory"]);
    assert_eq!(rules.relevant_indices(&headers), vec![0, 1]);
    let row = strings(&["01/01/2020 00:00:00.000", "12", "88", "1024"]);
    assert_eq!(project_row(&row, &vec![0, 1]), Some(strings(&["01/01/2020 00:00:00.000", "12"])));
}

#[test]
fn timestamp_column_kept_with_empty_rules() {
    let rules = MetricRules::from_lines(&Vec::new());
    assert_eq!(rules.relevant_indices(&strings(&["Time", "A", "B"])), vec![0]);
    assert_eq!(rules.relevant_indices(&Vec::new()), vec![0]);
}

#[test]
fn timestamp_column_listed_once_even_if_it_matches() {
    let rules = MetricRules::from_lines(&strings(&["Time"]));
    assert_eq!(rules.relevant_indices(&strings(&["Time", "Time2", "X"])), vec![0, 1]);
}

#[test]
fn inclusion_is_case_sensitive_substring() {
    let rules = MetricRules::from_lines(&strings(&["cpu", "Disk", SEPARATOR, "Idle"]));
    assert!(!rules.keeps_header("CPU Load"));
    assert!(rules.keeps_header("my cpu load"));
    assert!(rules.keeps_header("\\\\host\\PhysicalDisk(_Total)\\Reads"));
    assert!(!rules.keeps_header("Disk Idle Time"));
}

#[test]
fn short_row_is_dropped() {
    let row = strings(&["t", "1"]);
    assert_eq!(project_row(&row, &vec![0, 2]), None);
}
