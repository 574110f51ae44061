//! Plot settings (`key: value` lines) and the color palette (`R,G,B` lines).
use vstd::prelude::*;
use crate::chart::RGB;
use crate::text::{
    has_substring, split_on, trimmed, unsigned_value, contains_text, split_text, trim_text,
    parse_usize, same_text,
};

verus! {

/// Sizes used when drawing a chart.
#[derive(Clone, Copy, Debug, PartialEq, Eq, Structural)]
pub struct PlotterSettings {
    pub minimum_width: u32,
    pub caption_size: u32,
    pub x_label_area_size: u32,
    pub y_label_area_size: u32,
    pub x_labels: usize,
    pub x_label_style: u32,
    pub y_labels: usize,
    pub y_label_style: u32,
    pub legend_label_font: u32,
    pub stroke_width: u32,
}

pub open spec fn default_settings() -> PlotterSettings {
    PlotterSettings {
        minimum_width: 1500,
        caption_size: 50,
        x_label_area_size: 70,
        y_label_area_size: 100,
        x_labels: 10,
        x_label_style: 20,
        y_labels: 10,
        y_label_style: 20,
        legend_label_font: 20,
        stroke_width: 2,
    }
}

/// The trimmed text after the first `:` of a line split into `parts`, as a `usize`.
pub open spec fn value_usize(parts: Seq<Seq<char>>) -> Option<usize> {
    if parts.len() >= 2 {
        match unsigned_value(trimmed(parts[1])) {
            Some(v) => if v <= usize::MAX {
                Some(v as usize)
            } else {
                None
            },
            None => None,
        }
    } else {
        None
    }
}

/// The same value as a `u32`.
pub open spec fn value_u32(parts: Seq<Seq<char>>) -> Option<u32> {
    match value_usize(parts) {
        Some(v) => if v <= u32::MAX {
            Some(v as u32)
        } else {
            None
        },
        None => None,
    }
}

/// The settings after reading one line: blank lines and lines holding `//`
/// change nothing, nor do unknown keys; a known key whose value is missing or
/// not a number gives `None`.
pub open spec fn apply_setting(s: PlotterSettings, line: Seq<char>) -> Option<PlotterSettings> {
    if line.len() == 0 || has_substring(line, "//"@) {
        Some(s)
    } else {
        let parts = split_on(line, ':');
        let key = trimmed(parts[0]);
        let v32 = value_u32(parts);
        let vsz = value_usize(parts);
        if key == "minimum_width"@ {
            match v32 { Some(v) => Some(PlotterSettings { minimum_width: v, ..s }), None => None }
        } else if key == "caption_size"@ {
            match v32 { Some(v) => Some(PlotterSettings { caption_size: v, ..s }), None => None }
        } else if key == "x_label_area_size"@ {
            match v32 { Some(v) => Some(PlotterSettings { x_label_area_size: v, ..s }), None => None }
        } else if key == "y_label_area_size"@ {
            match v32 { Some(v) => Some(PlotterSettings { y_label_area_size: v, ..s }), None => None }
        } else if key == "x_labels"@ {
            match vsz { Some(v) => Some(PlotterSettings { x_labels: v, ..s }), None => None }
        } else if key == "x_label_style"@ {
            match v32 { Some(v) => Some(PlotterSettings { x_label_style: v, ..s }), None => None }
        } else if key == "y_labels"@ {
            match vsz { Some(v) => Some(PlotterSettings { y_labels: v, ..s }), None => None }
        } else if key == "y_label_style"@ {
            match v32 { Some(v) => Some(PlotterSettings { y_label_style: v, ..s }), None => None }
        } else if key == "legend_label_font"@ {
            match v32 { Some(v) => Some(PlotterSettings { legend_label_font: v, ..s }), None => None }
        } else if key == "stroke_width"@ {
            match v32 { Some(v) => Some(PlotterSettings { stroke_width: v, ..s }), None => None }
        } else {
            Some(s)
        }
    }
}

/// The settings after the first `n` lines, starting from the defaults.
pub open spec fn settings_after(lines: Seq<String>, n: int) -> Option<PlotterSettings>
    decreases n,
{
    if n <= 0 {
        Some(default_settings())
    } else {
        match settings_after(lines, n - 1) {
            Some(s) => apply_setting(s, lines[n - 1]@),
            None => None,
        }
    }
}

pub proof fn lemma_split_nonempty(s: Seq<char>, c: char)
    ensures
        split_on(s, c).len() >= 1,
    decreases s.len(),
{
    if s.len() > 0 {
        lemma_split_nonempty(s.drop_last(), c);
    }
}

fn field_usize(parts: &Vec<String>) -> (r: Option<usize>)
    ensures
        r == value_usize(parts@.map_values(|p: String| p@)),
{
    if parts.len() < 2 {
        return None;
    }
    let t = trim_text(parts[1].as_str());
    parse_usize(t.as_str())
}

fn field_u32(parts: &Vec<String>) -> (r: Option<u32>)
    ensures
        r == value_u32(parts@.map_values(|p: String| p@)),
{
    match field_usize(parts) {
        Some(v) => if v <= 0xffff_ffffusize {
            Some(v as u32)
        } else {
            None
        },
        None => None,
    }
}

impl PlotterSettings {
    pub fn defaults() -> (r: PlotterSettings)
        ensures
            r == default_settings(),
    {
        PlotterSettings {
            minimum_width: 1500,
            caption_size: 50,
            x_label_area_size: 70,
            y_label_area_size: 100,
            x_labels: 10,
            x_label_style: 20,
            y_labels: 10,
            y_label_style: 20,
            legend_label_font: 20,
            stroke_width: 2,
        }
    }

    /// Applies one settings line; `None` where a known key has no valid value.
    pub fn apply_line(self, line: &str) -> (r: Option<PlotterSettings>)
        ensures
            r == apply_setting(self, line@),
    {
        if line.unicode_len() == 0 || contains_text(line, "//") {
            return Some(self);
        }
        let parts = split_text(line, ':');
        proof {
            lemma_split_nonempty(line@, ':');
        }
        let ghost ps = parts@.map_values(|p: String| p@);
        assert(parts@.len() == ps.len());
        let key = trim_text(parts[0].as_str());
        assert(key@ == trimmed(ps[0]));
        let mut s = self;
        if same_text(key.as_str(), "minimum_width") {
            match field_u32(&parts) { Some(v) => s.minimum_width = v, None => return None }
        } else if same_text(key.as_str(), "caption_size") {
            match field_u32(&parts) { Some(v) => s.caption_size = v, None => return None }
        } else if same_text(key.as_str(), "x_label_area_size") {
            match field_u32(&parts) { Some(v) => s.x_label_area_size = v, None => return None }
        } else if same_text(key.as_str(), "y_label_area_size") {
            match field_u32(&parts) { Some(v) => s.y_label_area_size = v, None => return None }
        } else if same_text(key.as_str(), "x_labels") {
            match field_usize(&parts) { Some(v) => s.x_labels = v, None => return None }
        } else if same_text(key.as_str(), "x_label_style") {
            match field_u32(&parts) { Some(v) => s.x_label_style = v, None => return None }
        } else if same_text(key.as_str(), "y_labels") {
            match field_usize(&parts) { Some(v) => s.y_labels = v, None => return None }
        } else if same_text(key.as_str(), "y_label_style") {
            match field_u32(&parts) { Some(v) => s.y_label_style = v, None => return None }
        } else if same_text(key.as_str(), "legend_label_font") {
            match field_u32(&parts) { Some(v) => s.legend_label_font = v, None => return None }
        } else if same_text(key.as_str(), "stroke_width") {
            match field_u32(&parts) { Some(v) => s.stroke_width = v, None => return None }
        }
        Some(s)
    }

    /// Reads settings lines over the defaults. Fails with the index of the
    /// first line whose known key has no valid value.
    pub fn from_lines(lines: &Vec<String>) -> (r: Result<PlotterSettings, usize>)
        ensures
            r matches Ok(s) ==> settings_after(lines@, lines@.len() as int) == Some(s),
            r is Err <==> settings_after(lines@, lines@.len() as int) is None,
            r matches Err(i) ==> i < lines@.len() && settings_after(lines@, i as int) is Some
                && settings_after(lines@, i + 1) is None,
    {
        let mut s = PlotterSettings::defaults();
        let mut i: usize = 0;
        while i < lines.len()
            invariant
                i <= lines@.len(),
                settings_after(lines@, i as int) == Some(s),
            decreases lines@.len() - i,
        {
            match s.apply_line(lines[i].as_str()) {
                Some(n) => s = n,
                None => {
                    proof {
                        lemma_stays_none(lines@, i + 1, lines@.len() as int);
                    }
                    return Err(i);
                },
            }
            i = i + 1;
        }
        Ok(s)
    }
}

/// A trimmed piece of a color line as a byte.
pub open spec fn byte_of(piece: Seq<char>) -> Option<u8> {
    match unsigned_value(trimmed(piece)) {
        Some(v) => if v <= 255 {
            Some(v as u8)
        } else {
            None
        },
        None => None,
    }
}

/// The color a line `R,G,B` denotes: every comma-separated piece must be a
/// byte, and the first three are taken.
pub open spec fn rgb_of(line: Seq<char>) -> Option<RGB> {
    let parts = split_on(line, ',');
    if parts.len() >= 3 && forall|i: int| 0 <= i < parts.len() ==> (#[trigger] byte_of(parts[i])) is Some {
        Some(RGB(byte_of(parts[0])->0, byte_of(parts[1])->0, byte_of(parts[2])->0))
    } else {
        None
    }
}

/// The palette after the first `n` lines: empty lines are skipped, every
/// other line must be a color.
pub open spec fn palette_after(lines: Seq<String>, n: int) -> Option<Seq<RGB>>
    decreases n,
{
    if n <= 0 {
        Some(seq![])
    } else {
        match palette_after(lines, n - 1) {
            Some(p) => if lines[n - 1]@.len() == 0 {
                Some(p)
            } else {
                match rgb_of(lines[n - 1]@) {
                    Some(c) => Some(p.push(c)),
                    None => None,
                }
            },
            None => None,
        }
    }
}

fn parse_byte(piece: &str) -> (r: Option<u8>)
    ensures
        r == byte_of(piece@),
{
    let t = trim_text(piece);
    match parse_usize(t.as_str()) {
        Some(v) => if v <= 255 {
            Some(v as u8)
        } else {
            None
        },
        None => None,
    }
}

impl RGB {
    /// Reads a color line `R,G,B` (pieces trimmed).
    pub fn parse(line: &str) -> (r: Option<RGB>)
        ensures
            r == rgb_of(line@),
    {
        let parts = split_text(line, ',');
        let ghost ps = parts@.map_values(|p: String| p@);
        assert(parts@.len() == ps.len());
        let mut bytes: Vec<u8> = Vec::new();
        let mut i: usize = 0;
        while i < parts.len()
            invariant
                ps == parts@.map_values(|p: String| p@),
                ps == split_on(line@, ','),
                i <= parts@.len() == ps.len(),
                bytes@.len() == i,
                forall|k: int| 0 <= k < i ==> byte_of(ps[k]) == Some(#[trigger] bytes@[k]),
            decreases parts@.len() - i,
        {
            match parse_byte(parts[i].as_str()) {
                Some(b) => bytes.push(b),
                None => {
                    assert(byte_of(ps[i as int]) is None);
                    return None;
                },
            }
            i = i + 1;
        }
        if bytes.len() < 3 {
            return None;
        }
        assert(forall|k: int| 0 <= k < ps.len() ==> (#[trigger] byte_of(ps[k])) is Some) by {
            assert forall|k: int| 0 <= k < ps.len() implies (#[trigger] byte_of(ps[k])) is Some by {
                assert(byte_of(ps[k]) == Some(bytes@[k]));
            }
        }
        Some(RGB(bytes[0], bytes[1], bytes[2]))
    }
}

/// Reads the palette: one color per non-empty line, in order. Fails with the
/// index of the first line that is not a color.
pub fn parse_palette(lines: &Vec<String>) -> (r: Result<Vec<RGB>, usize>)
    ensures
        r matches Ok(p) ==> palette_after(lines@, lines@.len() as int) == Some(p@),
        r is Err <==> palette_after(lines@, lines@.len() as int) is None,
        r matches Err(i) ==> i < lines@.len() && palette_after(lines@, i as int) is Some
            && palette_after(lines@, i + 1) is None,
{
    let mut p: Vec<RGB> = Vec::new();
    let mut i: usize = 0;
    while i < lines.len()
        invariant
            i <= lines@.len(),
            palette_after(lines@, i as int) == Some(p@),
        decreases lines@.len() - i,
    {
        if lines[i].as_str().unicode_len() != 0 {
            match RGB::parse(lines[i].as_str()) {
                Some(c) => p.push(c),
                None => {
                    proof {
                        lemma_palette_stays_none(lines@, i + 1, lines@.len() as int);
                    }
                    return Err(i);
                },
            }
        }
        i = i + 1;
    }
    Ok(p)
}

proof fn lemma_palette_stays_none(lines: Seq<String>, a: int, b: int)
    requires
        a <= b,
        palette_after(lines, a) is None,
    ensures
        palette_after(lines, b) is None,
    decreases b - a,
{
    if a < b {
        lemma_palette_stays_none(lines, a, b - 1);
    }
}

proof fn lemma_stays_none(lines: Seq<String>, a: int, b: int)
    requires
        a <= b,
        settings_after(lines, a) is None,
    ensures
        settings_after(lines, b) is None,
    decreases b - a,
{
    if a < b {
        lemma_stays_none(lines, a, b - 1);
    }
}

} // verus!
