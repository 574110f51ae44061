//! The command line: flags, their values and the input files.
use vstd::prelude::*;
use crate::chart::TimeFormat;
use crate::text::{unsigned_value, parse_usize, same_text};
use vstd::string::StringExecFns;

verus! {

pub const WANTED_METRICS_DEFAULT_PATH: &'static str = "config/DefaultMetrics.txt";
pub const PLOTTER_CONFIG_DEFAULT_PATH: &'static str = "config/DefaultPlotSettings.txt";
pub const PLOTTER_COLORS_DEFAULT_PATH: &'static str = "config/DefaultPlotLineColors.txt";
pub const TIME_FORMAT_DEFAULT: &'static str = "%m/%d/%Y %H:%M:%S.%f";

/// What `str::to_lowercase` gives for `s`.
pub uninterp spec fn lower_of(s: Seq<char>) -> Seq<char>;

/// Relies on `str::to_lowercase`: the lowercase form of every character.
#[verifier::external_body]
fn lowercase(s: &str) -> (r: String)
    ensures
        r@ == lower_of(s@),
{
    s.to_lowercase()
}

/// The settings a command line asks for; `target_directory` is `None` where
/// none was given.
pub struct CommandLine {
    pub skip_parse: bool,
    pub width_per_point: u32,
    pub target_directory: Option<String>,
    pub data_time_format: String,
    pub x_axis: TimeFormat,
    pub wanted_metrics_file: String,
    pub plotter_config_file: String,
    pub plotter_colors_file: String,
    pub verbose: bool,
    pub files: Vec<String>,
}

/// The same settings as plain values.
pub struct ArgsView {
    pub skip_parse: bool,
    pub width_per_point: u32,
    pub target_directory: Option<Seq<char>>,
    pub data_time_format: Seq<char>,
    pub x_axis: TimeFormat,
    pub wanted_metrics_file: Seq<char>,
    pub plotter_config_file: Seq<char>,
    pub plotter_colors_file: Seq<char>,
    pub verbose: bool,
    pub files: Seq<Seq<char>>,
}

impl View for CommandLine {
    type V = ArgsView;

    open spec fn view(&self) -> ArgsView {
        ArgsView {
            skip_parse: self.skip_parse,
            width_per_point: self.width_per_point,
            target_directory: match self.target_directory {
                Some(t) => Some(t@),
                None => None,
            },
            data_time_format: self.data_time_format@,
            x_axis: self.x_axis,
            wanted_metrics_file: self.wanted_metrics_file@,
            plotter_config_file: self.plotter_config_file@,
            plotter_colors_file: self.plotter_colors_file@,
            verbose: self.verbose,
            files: self.files@.map_values(|f: String| f@),
        }
    }
}

pub open spec fn default_args() -> ArgsView {
    ArgsView {
        skip_parse: false,
        width_per_point: 1,
        target_directory: None,
        data_time_format: TIME_FORMAT_DEFAULT@,
        x_axis: TimeFormat::Seconds,
        wanted_metrics_file: WANTED_METRICS_DEFAULT_PATH@,
        plotter_config_file: PLOTTER_CONFIG_DEFAULT_PATH@,
        plotter_colors_file: PLOTTER_COLORS_DEFAULT_PATH@,
        verbose: false,
        files: seq![],
    }
}

/// Why a command line is refused; each names the position of the offending argument.
#[derive(Debug, Clone, Copy, PartialEq, Eq, Structural)]
pub enum ArgsError {
    /// The flag at `index` is the last argument but needs a value.
    MissingValue { index: usize },
    /// The width per point at `index` is not a `u32`.
    BadWidth { index: usize },
    /// The axis unit at `index` is neither `seconds` nor `minutes`.
    BadAxis { index: usize },
}

/// What a command line asks for.
pub enum Invocation {
    Help,
    Run(CommandLine),
}

/// The outcome of reading arguments from position `i` on, with settings `st` so far.
pub enum ArgsOutcome {
    Help,
    Run(ArgsView),
    Fail(ArgsError),
}

/// Reads the arguments from position `i` on, where `low` holds the lowercase
/// form of each. Flags are matched on the lowercase form; a flag that takes a
/// value consumes the next argument; anything that is no flag is an input file.
pub open spec fn run_from(args: Seq<String>, low: Seq<Seq<char>>, i: int, st: ArgsView) -> ArgsOutcome
    decreases args.len() - i,
{
    if i < 0 || i >= args.len() {
        ArgsOutcome::Run(st)
    } else {
        let a = low[i];
        let has_next = i + 1 < args.len();
        let v = args[i + 1]@;
        if a == "-s"@ || a == "-skipparse"@ {
            run_from(args, low, i + 1, ArgsView { skip_parse: true, ..st })
        } else if a == "-w"@ || a == "-widthperpoint"@ {
            if !has_next {
                ArgsOutcome::Fail(ArgsError::MissingValue { index: i as usize })
            } else {
                match unsigned_value(v) {
                    Some(n) => if n <= u32::MAX {
                        run_from(args, low, i + 2, ArgsView { width_per_point: n as u32, ..st })
                    } else {
                        ArgsOutcome::Fail(ArgsError::BadWidth { index: (i + 1) as usize })
                    },
                    None => ArgsOutcome::Fail(ArgsError::BadWidth { index: (i + 1) as usize }),
                }
            }
        } else if a == "-t"@ || a == "-targetdir"@ {
            if !has_next {
                ArgsOutcome::Fail(ArgsError::MissingValue { index: i as usize })
            } else {
                run_from(args, low, i + 2, ArgsView { target_directory: Some(v), ..st })
            }
        } else if a == "-tf"@ || a == "-timeformat"@ {
            if !has_next {
                ArgsOutcome::Fail(ArgsError::MissingValue { index: i as usize })
            } else {
                run_from(args, low, i + 2, ArgsView { data_time_format: v, ..st })
            }
        } else if a == "-ps"@ || a == "-plotsettings"@ {
            if !has_next {
                ArgsOutcome::Fail(ArgsError::MissingValue { index: i as usize })
            } else {
                run_from(args, low, i + 2, ArgsView { plotter_config_file: v, ..st })
            }
        } else if a == "-c"@ || a == "-colorsfile"@ {
            if !has_next {
                ArgsOutcome::Fail(ArgsError::MissingValue { index: i as usize })
            } else {
                run_from(args, low, i + 2, ArgsView { plotter_colors_file: v, ..st })
            }
        } else if a == "-wm"@ || a == "-wantedmetrics"@ {
            if !has_next {
                ArgsOutcome::Fail(ArgsError::MissingValue { index: i as usize })
            } else {
                run_from(args, low, i + 2, ArgsView { wanted_metrics_file: v, ..st })
            }
        } else if a == "-v"@ || a == "-verbose"@ {
            run_from(args, low, i + 1, ArgsView { verbose: true, ..st })
        } else if a == "-h"@ || a == "-help"@ {
            ArgsOutcome::Help
        } else if a == "-xaxis"@ {
            if !has_next {
                ArgsOutcome::Fail(ArgsError::MissingValue { index: i as usize })
            } else {
                let u = low[i + 1];
                if u == "seconds"@ {
                    run_from(args, low, i + 2, ArgsView { x_axis: TimeFormat::Seconds, ..st })
                } else if u == "minutes"@ {
                    run_from(args, low, i + 2, ArgsView { x_axis: TimeFormat::Minutes, ..st })
                } else {
                    ArgsOutcome::Fail(ArgsError::BadAxis { index: (i + 1) as usize })
                }
            }
        } else {
            run_from(args, low, i + 1, ArgsView { files: st.files.push(args[i]@), ..st })
        }
    }
}

/// `r` is what `run_from` gives.
pub open spec fn outcome_is(r: Result<Invocation, ArgsError>, o: ArgsOutcome) -> bool {
    match o {
        ArgsOutcome::Help => r matches Ok(Invocation::Help),
        ArgsOutcome::Run(v) => r matches Ok(Invocation::Run(c)) && c@ == v,
        ArgsOutcome::Fail(e) => r == Err::<Invocation, ArgsError>(e),
    }
}

/// The lowercase form of each argument.
pub open spec fn lowered(args: Seq<String>) -> Seq<Seq<char>> {
    args.map_values(|a: String| lower_of(a@))
}

/// Reads a command line (without the program name). No arguments at all asks for help.
pub fn parse_arguments(args: &Vec<String>) -> (r: Result<Invocation, ArgsError>)
    ensures
        args@.len() == 0 ==> r matches Ok(Invocation::Help),
        args@.len() > 0 ==> outcome_is(r, run_from(args@, lowered(args@), 0, default_args())),
{
    let mut low: Vec<String> = Vec::new();
    let mut i: usize = 0;
    while i < args.len()
        invariant
            i <= args@.len(),
            low@.len() == i,
            forall|k: int| 0 <= k < i ==> (#[trigger] low@[k])@ == lower_of(args@[k]@),
        decreases args@.len() - i,
    {
        low.push(lowercase(args[i].as_str()));
        i = i + 1;
    }
    assert(low@.map_values(|l: String| l@) =~= lowered(args@));
    parse_lowered_arguments(args, &low)
}

/// Reads a command line given the lowercase form `low` of each argument.
pub fn parse_lowered_arguments(args: &Vec<String>, low: &Vec<String>) -> (r: Result<Invocation, ArgsError>)
    requires
        low@.len() == args@.len(),
    ensures
        args@.len() == 0 ==> r matches Ok(Invocation::Help),
        args@.len() > 0 ==> outcome_is(
            r,
            run_from(args@, low@.map_values(|l: String| l@), 0, default_args()),
        ),
{
    if args.len() == 0 {
        return Ok(Invocation::Help);
    }
    let ghost lv = low@.map_values(|l: String| l@);
    let mut c = CommandLine {
        skip_parse: false,
        width_per_point: 1,
        target_directory: None,
        data_time_format: String::from_str(TIME_FORMAT_DEFAULT),
        x_axis: TimeFormat::Seconds,
        wanted_metrics_file: String::from_str(WANTED_METRICS_DEFAULT_PATH),
        plotter_config_file: String::from_str(PLOTTER_CONFIG_DEFAULT_PATH),
        plotter_colors_file: String::from_str(PLOTTER_COLORS_DEFAULT_PATH),
        verbose: false,
        files: Vec::new(),
    };
    assert(c@.files =~= seq![]);
    assert(c@ == default_args());
    let n = args.len();
    let mut i: usize = 0;
    while i < n
        invariant
            n == args@.len(),
            i <= n,
            low@.len() == n,
            lv == low@.map_values(|l: String| l@),
            run_from(args@, lv, 0, default_args()) == run_from(args@, lv, i as int, c@),
        decreases n - i,
    {
        let has_next = i + 1 < n;
        let flag = low[i].as_str();
        assert(lv[i as int] == low@[i as int]@);
        if same_text(flag, "-s") || same_text(flag, "-skipparse") {
            c.skip_parse = true;
            i = i + 1;
        } else if same_text(flag, "-w") || same_text(flag, "-widthperpoint") {
            if !has_next {
                return Err(ArgsError::MissingValue { index: i });
            }
            match parse_usize(args[i + 1].as_str()) {
                Some(w) => if w <= 0xffff_ffffusize {
                    c.width_per_point = w as u32;
                } else {
                    return Err(ArgsError::BadWidth { index: i + 1 });
                },
                None => {
                    return Err(ArgsError::BadWidth { index: i + 1 });
                },
            }
            i = i + 2;
        } else if same_text(flag, "-t") || same_text(flag, "-targetdir") {
            if !has_next {
                return Err(ArgsError::MissingValue { index: i });
            }
            c.target_directory = Some(args[i + 1].clone());
            i = i + 2;
        } else if same_text(flag, "-tf") || same_text(flag, "-timeformat") {
            if !has_next {
                return Err(ArgsError::MissingValue { index: i });
            }
            c.data_time_format = args[i + 1].clone();
            i = i + 2;
        } else if same_text(flag, "-ps") || same_text(flag, "-plotsettings") {
            if !has_next {
                return Err(ArgsError::MissingValue { index: i });
            }
            c.plotter_config_file = args[i + 1].clone();
            i = i + 2;
        } else if same_text(flag, "-c") || same_text(flag, "-colorsfile") {
            if !has_next {
                return Err(ArgsError::MissingValue { index: i });
            }
            c.plotter_colors_file = args[i + 1].clone();
            i = i + 2;
        } else if same_text(flag, "-wm") || same_text(flag, "-wantedmetrics") {
            if !has_next {
                return Err(ArgsError::MissingValue { index: i });
            }
            c.wanted_metrics_file = args[i + 1].clone();
            i = i + 2;
        } else if same_text(flag, "-v") || same_text(flag, "-verbose") {
            c.verbose = true;
            i = i + 1;
        } else if same_text(flag, "-h") || same_text(flag, "-help") {
            return Ok(Invocation::Help);
        } else if same_text(flag, "-xaxis") {
            if !has_next {
                return Err(ArgsError::MissingValue { index: i });
            }
            let u = &low[i + 1];
            assert(lv[i + 1] == low@[i + 1]@);
            if same_text(u.as_str(), "seconds") {
                c.x_axis = TimeFormat::Seconds;
            } else if same_text(u.as_str(), "minutes") {
                c.x_axis = TimeFormat::Minutes;
            } else {
                return Err(ArgsError::BadAxis { index: i + 1 });
            }
            i = i + 2;
        } else {
            let ghost before = c@.files;
            c.files.push(args[i].clone());
            assert(c@.files =~= before.push(args@[i as int]@));
            i = i + 1;
        }
    }
    Ok(Invocation::Run(c))
}

} // verus!
