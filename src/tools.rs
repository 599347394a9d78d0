//! Availability of the external conversion tools.
use vstd::prelude::*;

use crate::text::find_char;

verus! {

/// Whether a tool was found, and the version it reported.
pub struct ToolStatus {
    pub name: String,
    pub available: bool,
    pub version: Option<String>,
}

/// The outcome of a conversion.
pub struct ConversionResult {
    pub success: bool,
    pub output_path: String,
    pub message: String,
    pub output_size: Option<u64>,
}

/// A document's path, name, size and extension.
pub struct DocumentInfo {
    pub file_path: String,
    pub file_name: String,
    pub file_size: u64,
    pub extension: String,
}

/// The first line of `s` as `str::lines` gives it: up to the first `\n`,
/// without a `\r` just before it; empty for empty text.
pub open spec fn first_line(s: Seq<char>) -> Seq<char> {
    let n = find_char(s, '\n', 0);
    let l = s.subrange(0, n);
    if n < s.len() && l.len() > 0 && l.last() == '\r' { l.drop_last() } else { l }
}

/// The first line of a text.
pub fn first_line_of(s: &str) -> (r: String)
    ensures
        r@ == first_line(s@),
{
    let len = s.unicode_len();
    let mut n: usize = 0;
    while n < len && s.get_char(n) != '\n'
        invariant
            n <= len,
            len == s@.len(),
            find_char(s@, '\n', n as int) == find_char(s@, '\n', 0),
        decreases len - n,
    {
        n = n + 1;
    }
    if n < len && n > 0 && s.get_char(n - 1) == '\r' {
        String::from_str(s.substring_char(0, n - 1))
    } else {
        String::from_str(s.substring_char(0, n))
    }
}

fn tool(name: &str, version: Option<String>) -> (t: ToolStatus)
    ensures
        t.name@ == name@,
        t.available == version is Some,
        t.version == version,
{
    ToolStatus { name: String::from_str(name), available: version.is_some(), version }
}

/// The status of LibreOffice, Pandoc, wkhtmltopdf and FFmpeg from what each
/// printed for its version query (none where it could not be run): the whole
/// text for LibreOffice and wkhtmltopdf, the first line for Pandoc and FFmpeg.
pub fn check_tools(soffice: Option<String>, pandoc: Option<String>, wkhtmltopdf: Option<String>, ffmpeg: Option<String>) -> (r: Vec<ToolStatus>)
    ensures
        r@.len() == 4,
        r@[0].name@ == "LibreOffice"@ && r@[0].available == soffice is Some && r@[0].version == soffice,
        r@[1].name@ == "Pandoc"@ && r@[1].available == pandoc is Some
            && (pandoc is Some ==> r@[1].version is Some && r@[1].version->Some_0@ == first_line(pandoc->Some_0@))
            && (pandoc is None ==> r@[1].version is None),
        r@[2].name@ == "wkhtmltopdf"@ && r@[2].available == wkhtmltopdf is Some && r@[2].version == wkhtmltopdf,
        r@[3].name@ == "FFmpeg"@ && r@[3].available == ffmpeg is Some
            && (ffmpeg is Some ==> r@[3].version is Some && r@[3].version->Some_0@ == first_line(ffmpeg->Some_0@))
            && (ffmpeg is None ==> r@[3].version is None),
{
    let mut tools: Vec<ToolStatus> = Vec::new();
    tools.push(tool("LibreOffice", soffice));
    let pandoc_line = match pandoc {
        Some(v) => Some(first_line_of(v.as_str())),
        None => None,
    };
    tools.push(tool("Pandoc", pandoc_line));
    tools.push(tool("wkhtmltopdf", wkhtmltopdf));
    let ffmpeg_line = match ffmpeg {
        Some(v) => Some(first_line_of(v.as_str())),
        None => None,
    };
    tools.push(tool("FFmpeg", ffmpeg_line));
    tools
}

} // verus!
