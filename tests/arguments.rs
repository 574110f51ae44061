use napal::arguments::{parse_arguments, ArgsError, CommandLine, Invocation};
use napal::chart::TimeFormat;

fn strings(v: &[&str]) -> Vec<String> {
    v.iter().map(|s| s.to_string()).collect()
}

fn run(v: &[&str]) -> CommandLine {
    match parse_arguments(&strings(v)) {
        Ok(Invocation::Run(c)) => c,
        _ => panic!("expected a run"),
    }
}

#[test]
fn no_arguments_asks_for_help() {
    assert!(matches!(parse_arguments(&Vec::new()), Ok(Invocation::Help)));
    assert!(matches!(parse_arguments(&strings(&["a.csv", "-HELP", "-w"])), Ok(Invocation::Help)));
}

#[test]
fn defaults_and_files() {
    let c = run(&["a.csv", "b.csv"]);
    assert_eq!(c.files, strings(&["a.csv", "b.csv"]));
    assert!(!c.skip_parse && !c.verbose);
    assert_eq!(c.width_per_point, 1);
    assert_eq!(c.target_directory, None);
    assert_eq!(c.data_time_format, "%m/%d/%Y %H:%M:%S.%f");
    assert_eq!(c.x_axis, TimeFormat::Seconds);
    assert_eq!(c.wanted_metrics_file, "config/DefaultMetrics.txt");
    assert_eq!(c.plotter_config_file, "config/DefaultPlotSettings.txt");
    assert_eq!(c.plotter_colors_file, "config/DefaultPlotLineColors.txt");
}

#[test]
fn flags_ignore_case_and_take_values() {
    let c = run(&[
        "-SkipParse", "-W", "3", "-targetDir", "out", "-tf", "%H", "-ps", "p.txt", "-c", "c.txt", "-wm",
        "m.txt", "-v", "-xaxis", "MINUTES", "x.csv",
    ]);
    assert!(c.skip_parse && c.verbose);
    assert_eq!(c.width_per_point, 3);
    assert_eq!(c.target_directory, Some("out".to_string()));
    assert_eq!(c.data_time_format, "%H");
    assert_eq!(c.plotter_config_file, "p.txt");
    assert_eq!(c.plotter_colors_file, "c.txt");
    assert_eq!(c.wanted_metrics_file, "m.txt");
    assert_eq!(c.x_axis, TimeFormat::Minutes);
    assert_eq!(c.files, strings(&["x.csv"]));
}

#[test]
fn argument_errors() {
    assert_eq!(parse_arguments(&strings(&["a.csv", "-w"])).err(), Some(ArgsError::MissingValue { index: 1 }));
    assert_eq!(parse_arguments(&strings(&["-w", "wide"])).err(), Some(ArgsError::BadWidth { index: 1 }));
    assert_eq!(parse_arguments(&strings(&["-w", "4294967296"])).err(), Some(ArgsError::BadWidth { index: 1 }));
    assert_eq!(parse_arguments(&strings(&["-xaxis", "hours"])).err(), Some(ArgsError::BadAxis { index: 1 }));
}

#[test]
fn lowered_forms_decide_flags() {
    let args = strings(&["-Q", "-XAXIS", "x"]);
    let low = strings(&["-s", "-xaxis", "minutes"]);
    match napal::arguments::parse_lowered_arguments(&args, &low) {
        Ok(Invocation::Run(c)) => {
            assert!(c.skip_parse);
            assert_eq!(c.x_axis, TimeFormat::Minutes);
            assert!(c.files.is_empty());
        }
        _ => panic!("expected a run"),
    }
}
