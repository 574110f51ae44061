//! The settings of one run.
use vstd::prelude::*;
use crate::chart::TimeFormat;
use vstd::string::StringExecFns;

verus! {

/// What `format!("{:?}", s)` writes for a text: quoted, with escapes.
pub uninterp spec fn debug_text(s: Seq<char>) -> Seq<char>;

/// Relies on `<str as Debug>::fmt` through `format!("{:?}")`.
#[verifier::external_body]
fn quoted(s: &str) -> (r: String)
    ensures
        r@ == debug_text(s@),
{
    format!("{:?}", s)
}

/// The decimal digits of `n`, without sign or leading zeros.
pub open spec fn decimal_text(n: nat) -> Seq<char>
    decreases n,
{
    if n < 10 {
        seq![('0' as u8 + n) as char]
    } else {
        decimal_text(n / 10) + seq![('0' as u8 + (n % 10)) as char]
    }
}

/// Relies on `<u32 as Display>` through `to_string`: the decimal digits.
#[verifier::external_body]
fn decimal(n: u32) -> (r: String)
    ensures
        r@ == decimal_text(n as nat),
{
    n.to_string()
}

/// The settings of a run; paths are held as text.
pub struct Parameters {
    pub base_directory: String,
    pub skip_parse: bool,
    pub width_per_point: u32,
    pub target_directory: String,
    pub x_axis: TimeFormat,
    pub data_time_format: String,
    pub wanted_metrics_file: String,
    pub plotter_config_file: String,
    pub plotter_colors_file: String,
}

impl Parameters {
    /// The detail line of the summary.
    pub open spec fn detail_line(&self) -> Seq<char> {
        if self.skip_parse {
            "Skipping file parsing"@
        } else {
            "Will parse the files"@
        }
    }

    /// The summary lines of the run's settings.
    pub open spec fn summary_lines(&self) -> Seq<Seq<char>> {
        seq![
            "Files: "@,
            "     The analysed metrics file is "@ + debug_text(self.wanted_metrics_file@) + "."@,
            "     The Plot config file is "@ + debug_text(self.plotter_config_file@) + "."@,
            "     The colors file is "@ + debug_text(self.plotter_colors_file@) + "."@,
            "     Target directory is "@ + debug_text(self.target_directory@) + "."@,
            "Other configs:"@,
            "     Width per point is "@ + decimal_text(self.width_per_point as nat) + "."@,
            "     The data time format is "@ + self.data_time_format@ + "."@,
            match self.x_axis {
                TimeFormat::Seconds => "     Plot X axis will be in seconds."@,
                TimeFormat::Minutes => "     Plot X axis will be in minutes."@,
            },
            ""@,
        ]
    }

    /// Describes the settings: a detail line (whether files are parsed) and
    /// the summary lines, for the caller to log.
    pub fn print(&self) -> (r: (String, Vec<String>))
        ensures
            r.0@ == self.detail_line(),
            r.1@.map_values(|l: String| l@) == self.summary_lines(),
    {
        let detail = if self.skip_parse {
            String::from_str("Skipping file parsing")
        } else {
            String::from_str("Will parse the files")
        };
        let mut lines: Vec<String> = Vec::new();
        lines.push(String::from_str("Files: "));
        lines.push(framed("     The analysed metrics file is ", quoted(self.wanted_metrics_file.as_str()), "."));
        lines.push(framed("     The Plot config file is ", quoted(self.plotter_config_file.as_str()), "."));
        lines.push(framed("     The colors file is ", quoted(self.plotter_colors_file.as_str()), "."));
        lines.push(framed("     Target directory is ", quoted(self.target_directory.as_str()), "."));
        lines.push(String::from_str("Other configs:"));
        lines.push(framed("     Width per point is ", decimal(self.width_per_point), "."));
        lines.push(framed("     The data time format is ", self.data_time_format.clone(), "."));
        match self.x_axis {
            TimeFormat::Seconds => lines.push(String::from_str("     Plot X axis will be in seconds.")),
            TimeFormat::Minutes => lines.push(String::from_str("     Plot X axis will be in minutes.")),
        }
        lines.push(String::from_str(""));
        assert(lines@.map_values(|l: String| l@) =~= self.summary_lines());
        (detail, lines)
    }
}

/// `before`, then `middle`, then `after`.
fn framed(before: &str, middle: String, after: &str) -> (r: String)
    ensures
        r@ == before@ + middle@ + after@,
{
    let mut s = String::from_str(before);
    s.append(middle.as_str());
    s.append(after);
    s
}

} // verus!
