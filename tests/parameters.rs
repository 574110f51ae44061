use napal::chart::TimeFormat;
use napal::parameters::Parameters;

#[test]
fn print_describes_settings() {
    let p = Parameters {
        base_directory: String::new(),
        skip_parse: true,
        width_per_point: 12,
        target_directory: "results/x".to_string(),
        x_axis: TimeFormat::Minutes,
        data_time_format: "%H:%M".to_string(),
        wanted_metrics_file: "config/DefaultMetrics.txt".to_string(),
        plotter_config_file: "p.txt".to_string(),
        plotter_colors_file: "c.txt".to_string(),
    };
    let (detail, lines) = p.print();
    assert_eq!(detail, "Skipping file parsing");
    assert_eq!(lines.len(), 10);
    assert_eq!(lines[1], "     The analysed metrics file is \"config/DefaultMetrics.txt\".");
    assert_eq!(lines[6], "     Width per point is 12.");
    assert_eq!(lines[7], "     The data time format is %H:%M.");
    assert_eq!(lines[8], "     Plot X axis will be in minutes.");
}
