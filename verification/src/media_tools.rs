//! The external tools that read and write media.
use crate::copying::{copy_text, optional, views, Duplicate};
use crate::export_graph::{join_texts, joined_by};
use crate::paths::{is_beside, plain_name, with_file_name};
use crate::text::{
    chars_of, ends_in, ends_with, joined, joined3, lowered, owned, text_is, text_of,
    to_ascii_lowercase, trim, trimmed,
};
use vstd::prelude::*;

verus! {

broadcast use crate::copying::group_views;

/// The system that the program runs on.
#[derive(Clone, Copy, Debug, PartialEq, Eq, Structural)]
pub enum HostPlatform {
    MacOS,
    Windows,
    Linux,
    Other,
}

/// Which of the tools were found, and under what commands.
#[derive(Debug)]
pub struct MediaDependencyStatus {
    pub host: HostPlatform,
    pub ffmpeg_command: String,
    pub ffprobe_command: String,
    pub ffmpeg_available: bool,
    pub ffprobe_available: bool,
    pub ffmpeg_version: Option<String>,
    pub ffprobe_version: Option<String>,
}

/// What was found.
pub ghost struct MediaDependencyStatusView {
    pub host: HostPlatform,
    pub ffmpeg_command: Seq<char>,
    pub ffprobe_command: Seq<char>,
    pub ffmpeg_available: bool,
    pub ffprobe_available: bool,
    pub ffmpeg_version: Option<Seq<char>>,
    pub ffprobe_version: Option<Seq<char>>,
}

impl View for MediaDependencyStatus {
    type V = MediaDependencyStatusView;

    open spec fn view(&self) -> MediaDependencyStatusView {
        MediaDependencyStatusView {
            host: self.host,
            ffmpeg_command: self.ffmpeg_command@,
            ffprobe_command: self.ffprobe_command@,
            ffmpeg_available: self.ffmpeg_available,
            ffprobe_available: self.ffprobe_available,
            ffmpeg_version: optional(self.ffmpeg_version),
            ffprobe_version: optional(self.ffprobe_version),
        }
    }
}

impl Clone for MediaDependencyStatus {
    fn clone(&self) -> (copy: Self)
        ensures
            copy@ == self@,
    {
        MediaDependencyStatus {
            host: self.host,
            ffmpeg_command: self.ffmpeg_command.clone(),
            ffprobe_command: self.ffprobe_command.clone(),
            ffmpeg_available: self.ffmpeg_available,
            ffprobe_available: self.ffprobe_available,
            ffmpeg_version: copy_text(&self.ffmpeg_version),
            ffprobe_version: copy_text(&self.ffprobe_version),
        }
    }
}

impl Duplicate for MediaDependencyStatus {
    fn duplicate(&self) -> (copy: Self) {
        self.clone()
    }
}

impl HostPlatform {
    /// The system with the name.
    pub fn from_os(os: &str) -> (host: HostPlatform)
        ensures
            host == if os@ == "macos"@ {
                HostPlatform::MacOS
            } else if os@ == "windows"@ {
                HostPlatform::Windows
            } else if os@ == "linux"@ {
                HostPlatform::Linux
            } else {
                HostPlatform::Other
            },
    {
        if text_is(os, "macos") {
            HostPlatform::MacOS
        } else if text_is(os, "windows") {
            HostPlatform::Windows
        } else if text_is(os, "linux") {
            HostPlatform::Linux
        } else {
            HostPlatform::Other
        }
    }

    /// Its name.
    pub fn label(self) -> (text: &'static str)
        ensures
            text@ == match self {
                HostPlatform::MacOS => "macOS"@,
                HostPlatform::Windows => "Windows"@,
                HostPlatform::Linux => "Linux"@,
                HostPlatform::Other => "Other"@,
            },
    {
        match self {
            HostPlatform::MacOS => "macOS",
            HostPlatform::Windows => "Windows",
            HostPlatform::Linux => "Linux",
            HostPlatform::Other => "Other",
        }
    }

    /// How ffmpeg is installed: who does it, and the command.
    pub open spec fn ffmpeg_ways(self) -> Seq<(Seq<char>, Seq<char>)> {
        match self {
            HostPlatform::MacOS => seq![("Homebrew"@, "brew install ffmpeg"@)],
            HostPlatform::Windows => seq![("winget"@, "winget install --id Gyan.FFmpeg -e"@)],
            HostPlatform::Linux => seq![
                ("Debian/Ubuntu"@, "sudo apt install ffmpeg"@),
                ("Fedora"@, "sudo dnf install ffmpeg"@),
                ("Arch"@, "sudo pacman -S ffmpeg"@),
            ],
            HostPlatform::Other => seq![],
        }
    }

    /// How GStreamer is installed: who does it, and the command.
    pub open spec fn gstreamer_ways(self) -> Seq<(Seq<char>, Seq<char>)> {
        match self {
            HostPlatform::MacOS => seq![
                (
                    "Latest version"@,
                    "brew install gstreamer gst-plugins-base gst-plugins-good gst-editing-services"@,
                ),
            ],
            HostPlatform::Windows => seq![
                ("winget"@, "winget install --id GStreamer.GStreamer -e"@),
            ],
            HostPlatform::Linux => seq![
                (
                    "Debian/Ubuntu"@,
                    "sudo apt install libgstreamer1.0-dev libgstreamer-plugins-base1.0-dev gstreamer1.0-plugins-base gstreamer1.0-plugins-good gstreamer1.0-editing-services libges-1.0-dev"@,
                ),
            ],
            HostPlatform::Other => seq![],
        }
    }

    /// How ffmpeg is installed.
    pub fn install_commands(self) -> (ways: &'static [(&'static str, &'static str)])
        ensures
            says(ways@, self.ffmpeg_ways()),
    {
        match self {
            HostPlatform::MacOS => {
                let ways: &'static [(&'static str, &'static str)] = &[
                    ("Homebrew", "brew install ffmpeg"),
                ];
                ways
            },
            HostPlatform::Windows => {
                let ways: &'static [(&'static str, &'static str)] = &[
                    ("winget", "winget install --id Gyan.FFmpeg -e"),
                ];
                ways
            },
            HostPlatform::Linux => {
                let ways: &'static [(&'static str, &'static str)] = &[
                    ("Debian/Ubuntu", "sudo apt install ffmpeg"),
                    ("Fedora", "sudo dnf install ffmpeg"),
                    ("Arch", "sudo pacman -S ffmpeg"),
                ];
                ways
            },
            HostPlatform::Other => {
                let ways: &'static [(&'static str, &'static str)] = &[];
                ways
            },
        }
    }

    /// How GStreamer is installed.
    pub fn gstreamer_install_commands(self) -> (ways: &'static [(&'static str, &'static str)])
        ensures
            says(ways@, self.gstreamer_ways()),
    {
        match self {
            HostPlatform::MacOS => {
                let ways: &'static [(&'static str, &'static str)] = &[
                    (
                        "Latest version",
                        "brew install gstreamer gst-plugins-base gst-plugins-good gst-editing-services",
                    ),
                ];
                ways
            },
            HostPlatform::Windows => {
                let ways: &'static [(&'static str, &'static str)] = &[
                    ("winget", "winget install --id GStreamer.GStreamer -e"),
                ];
                ways
            },
            HostPlatform::Linux => {
                let ways: &'static [(&'static str, &'static str)] = &[
                    (
                        "Debian/Ubuntu",
                        "sudo apt install libgstreamer1.0-dev libgstreamer-plugins-base1.0-dev gstreamer1.0-plugins-base gstreamer1.0-plugins-good gstreamer1.0-editing-services libges-1.0-dev",
                    ),
                ];
                ways
            },
            HostPlatform::Other => {
                let ways: &'static [(&'static str, &'static str)] = &[];
                ways
            },
        }
    }
}

/// Whether pairs of texts say the same.
pub open spec fn says(
    pairs: Seq<(&'static str, &'static str)>,
    texts: Seq<(Seq<char>, Seq<char>)>,
) -> bool {
    pairs.len() == texts.len() && forall|i: int|
        0 <= i < pairs.len() ==> (#[trigger] pairs[i]).0@ == texts[i].0 && pairs[i].1@
            == texts[i].1
}

impl MediaDependencyStatusView {
    /// Nothing has been found.
    pub open spec fn nothing(host: HostPlatform) -> MediaDependencyStatusView {
        MediaDependencyStatusView {
            host,
            ffmpeg_command: "ffmpeg"@,
            ffprobe_command: "ffprobe"@,
            ffmpeg_available: false,
            ffprobe_available: false,
            ffmpeg_version: None,
            ffprobe_version: None,
        }
    }

    /// Whether both tools were found.
    pub open spec fn complete(self) -> bool {
        self.ffmpeg_available && self.ffprobe_available
    }
}

impl MediaDependencyStatus {
    /// Nothing has been found.
    pub fn new(host: HostPlatform) -> (s: MediaDependencyStatus)
        ensures
            s@ == MediaDependencyStatusView::nothing(host),
    {
        MediaDependencyStatus {
            host,
            ffmpeg_command: owned("ffmpeg"),
            ffprobe_command: owned("ffprobe"),
            ffmpeg_available: false,
            ffprobe_available: false,
            ffmpeg_version: None,
            ffprobe_version: None,
        }
    }

    /// Whether both tools were found.
    pub fn all_available(&self) -> (yes: bool)
        ensures
            yes == self@.complete(),
    {
        self.ffmpeg_available && self.ffprobe_available
    }

    /// The tools that were not found.
    pub fn missing_tools(&self) -> (missing: Vec<&'static str>)
        ensures
            views(missing@) == match (self@.ffmpeg_available, self@.ffprobe_available) {
                (false, false) => seq!["ffmpeg"@, "ffprobe"@],
                (false, true) => seq!["ffmpeg"@],
                (true, false) => seq!["ffprobe"@],
                (true, true) => seq![],
            },
            missing.len() == 0 <==> self@.complete(),
    {
        reveal(views);
        let mut missing: Vec<&'static str> = Vec::new();
        if !self.ffmpeg_available {
            missing.push("ffmpeg");
        }
        if !self.ffprobe_available {
            missing.push("ffprobe");
        }
        assert(views(missing@) =~= match (self@.ffmpeg_available, self@.ffprobe_available) {
            (false, false) => seq!["ffmpeg"@, "ffprobe"@],
            (false, true) => seq!["ffmpeg"@],
            (true, false) => seq!["ffprobe"@],
            (true, true) => seq![],
        });
        missing
    }
}

/// What went wrong when the tools were installed.
#[derive(Debug)]
pub enum MediaBootstrapError {
    LaunchBootstrapScript { source: String },
    BootstrapScriptFailed { status: String, reason: String },
    BootstrapScriptNotFound { path: String },
    WindowsBootstrapFailed { details: String },
    UnsupportedHostPlatform,
}

impl MediaBootstrapError {
    /// What is told of it.
    pub open spec fn text(self) -> Seq<char> {
        match self {
            MediaBootstrapError::LaunchBootstrapScript { source } =>
                "Failed to launch bootstrap script: "@ + source@,
            MediaBootstrapError::BootstrapScriptFailed { status, reason } =>
                "Bootstrap script failed (status "@ + status@ + "): "@ + reason@,
            MediaBootstrapError::BootstrapScriptNotFound { path } => "Bootstrap script not found: "@
                + path@,
            MediaBootstrapError::WindowsBootstrapFailed { details } =>
                "Windows bootstrap failed via pwsh/powershell. "@ + details@,
            MediaBootstrapError::UnsupportedHostPlatform =>
                "Unsupported host platform for runtime bootstrap."@,
        }
    }

    /// What is told of it.
    pub fn message(&self) -> (text: String)
        ensures
            text@ == self.text(),
    {
        match self {
            MediaBootstrapError::LaunchBootstrapScript { source } => joined(
                "Failed to launch bootstrap script: ",
                source.as_str(),
            ),
            MediaBootstrapError::BootstrapScriptFailed { status, reason } => joined(
                joined3("Bootstrap script failed (status ", status.as_str(), "): ").as_str(),
                reason.as_str(),
            ),
            MediaBootstrapError::BootstrapScriptNotFound { path } => joined(
                "Bootstrap script not found: ",
                path.as_str(),
            ),
            MediaBootstrapError::WindowsBootstrapFailed { details } => joined(
                "Windows bootstrap failed via pwsh/powershell. ",
                details.as_str(),
            ),
            MediaBootstrapError::UnsupportedHostPlatform => owned(
                "Unsupported host platform for runtime bootstrap.",
            ),
        }
    }
}

// ---------------------------------------------------------------------------
// Lines
// ---------------------------------------------------------------------------

/// Where the first line of a text ends.
pub open spec fn line_end(text: Seq<char>) -> int
    decreases text.len(),
{
    if text.len() == 0 || text[0] == '\n' {
        0
    } else {
        1 + line_end(text.drop_first())
    }
}

/// The line without white space around it, if anything is left.
pub open spec fn filled(line: Seq<char>) -> Seq<Seq<char>> {
    if trimmed(line).len() == 0 {
        seq![]
    } else {
        seq![trimmed(line)]
    }
}

proof fn lemma_line_end(text: Seq<char>)
    ensures
        0 <= line_end(text) <= text.len(),
    decreases text.len(),
{
    if text.len() > 0 {
        lemma_line_end(text.drop_first());
    }
}

/// The lines of a text without white space around them and without empty ones, from a
/// place on.
pub open spec fn lines_from(text: Seq<char>, from: int) -> Seq<Seq<char>>
    decreases text.len() - from,
    when 0 <= from <= text.len()
    via lines_from_ends
{
    let rest = text.skip(from);
    let n = line_end(rest);
    if from + n >= text.len() {
        filled(rest)
    } else {
        filled(rest.take(n)) + lines_from(text, from + n + 1)
    }
}

#[via_fn]
proof fn lines_from_ends(text: Seq<char>, from: int) {
    lemma_line_end(text.skip(from));
}

/// The lines of a text without white space around them and without empty ones.
pub open spec fn filled_lines(text: Seq<char>) -> Seq<Seq<char>> {
    lines_from(text, 0)
}

fn find_line_end(chars: &Vec<char>, from: usize) -> (end: usize)
    requires
        from <= chars.len(),
    ensures
        end == from + line_end(chars@.skip(from as int)),
        from <= end <= chars.len(),
{
    let mut i: usize = from;
    while i < chars.len() && chars[i] != '\n'
        invariant
            from <= i <= chars.len(),
            from + line_end(chars@.skip(from as int)) == i + line_end(chars@.skip(i as int)),
        decreases chars.len() - i,
    {
        assert(chars@.skip(i as int).drop_first() =~= chars@.skip(i + 1));
        assert(chars@.skip(i as int)[0] == chars@[i as int]);
        i += 1;
    }
    if i < chars.len() {
        assert(chars@.skip(i as int)[0] == chars@[i as int]);
    }
    i
}

/// The lines of a text without white space around them and without empty ones.
pub fn split_filled_lines(text: &str) -> (lines: Vec<String>)
    ensures
        views(lines@) == filled_lines(text@),
{
    let chars = chars_of(text);
    let mut lines: Vec<String> = Vec::new();
    let mut from: usize = 0;
    let mut more = true;
    assert(views(lines@) =~= seq![]);
    assert(views(lines@) + lines_from(chars@, 0) =~= lines_from(chars@, 0));
    while more
        invariant
            from <= chars.len(),
            chars@ == text@,
            more ==> views(lines@) + lines_from(chars@, from as int) == filled_lines(text@),
            !more ==> views(lines@) == filled_lines(text@),
        decreases
            (if more {
                chars.len() - from + 1
            } else {
                0
            }),
    {
        let end = find_line_end(&chars, from);
        let ghost before = views(lines@);
        let ghost rest = chars@.skip(from as int);
        let line = trim(text_of(&chars, from, end).as_str());
        assert(chars@.subrange(from as int, end as int) =~= rest.take(end - from));
        let empty = line.as_str().unicode_len() == 0;
        if !empty {
            crate::export_settings::push_text(&mut lines, line.as_str());
        }
        assert(views(lines@) =~= before + filled(rest.take(end - from)));
        if end >= chars.len() {
            assert(rest.take(end - from) =~= rest);
            more = false;
        } else {
            assert(before + (filled(rest.take(end - from)) + lines_from(chars@, end + 1))
                =~= views(lines@) + lines_from(chars@, end + 1));
            from = end + 1;
        }
    }
    lines
}

/// The first line of a text that says anything.
pub open spec fn first_line(text: Seq<char>) -> Option<Seq<char>> {
    if filled_lines(text).len() > 0 {
        Some(filled_lines(text)[0])
    } else {
        None
    }
}

/// The first line of a text that says anything.
pub fn first_non_empty_line(raw: &str) -> (line: Option<String>)
    ensures
        optional(line) == first_line(raw@),
{
    let lines = split_filled_lines(raw);
    if lines.len() > 0 {
        Some(owned(lines[0].as_str()))
    } else {
        None
    }
}

/// Whether a text has another in it.
pub open spec fn has_part(text: Seq<char>, part: Seq<char>) -> bool {
    exists|i: int|
        0 <= i && i + part.len() <= text.len() && #[trigger] text.subrange(i, i + part.len())
            == part
}

/// Whether a text has another in it.
pub fn contains_text(text: &str, part: &str) -> (yes: bool)
    ensures
        yes == has_part(text@, part@),
{
    let t = chars_of(text);
    let p = chars_of(part);
    if p.len() > t.len() {
        return false;
    }
    let last: usize = t.len() - p.len();
    let mut i: usize = 0;
    while i <= last
        invariant
            i <= last + 1,
            last == t.len() - p.len(),
            p.len() <= t.len(),
            t@ == text@,
            p@ == part@,
            forall|j: int| 0 <= j < i ==> #[trigger] text@.subrange(j, j + part@.len()) != part@,
        decreases last + 1 - i,
    {
        let mut k: usize = 0;
        let mut same = true;
        while k < p.len() && same
            invariant
                k <= p.len(),
                i <= last,
                last == t.len() - p.len(),
                p.len() <= t.len(),
                t@ == text@,
                p@ == part@,
                same ==> forall|j: int| 0 <= j < k ==> p@[j] == t@[i + j],
                !same ==> text@.subrange(i as int, i + part@.len()) != part@,
            decreases
                (if same {
                    p.len() - k + 1
                } else {
                    0
                }),
        {
            if p[k] != t[i + k] {
                assert(text@.subrange(i as int, i + part@.len())[k as int] != part@[k as int]);
                same = false;
            } else {
                k += 1;
            }
        }
        if same {
            assert(text@.subrange(i as int, i + part@.len()) =~= part@);
            return true;
        }
        if i == last {
            return false;
        }
        i += 1;
    }
    false
}

/// Whether a line tells of an error, not of a warning.
pub open spec fn tells_error(line: Seq<char>) -> bool {
    let l = lowered(line);
    (has_part(l, "error:"@) || has_part(l, "fatal:"@) || has_part(l, "failed"@)) && !has_part(
        l,
        "warning:"@,
    )
}

fn is_error_line(line: &str) -> (yes: bool)
    ensures
        yes == tells_error(line@),
{
    let l = to_ascii_lowercase(line);
    (contains_text(l.as_str(), "error:") || contains_text(l.as_str(), "fatal:") || contains_text(
        l.as_str(),
        "failed",
    )) && !contains_text(l.as_str(), "warning:")
}

/// The last of the lines that tells of an error, or just the last.
pub open spec fn last_error(lines: Seq<Seq<char>>) -> Option<Seq<char>> {
    match last_error_line(lines) {
        Some(l) => Some(l),
        None => if lines.len() > 0 {
            Some(lines.last())
        } else {
            None
        },
    }
}

/// The last of the lines that tells of an error.
pub open spec fn last_error_line(lines: Seq<Seq<char>>) -> Option<Seq<char>>
    decreases lines.len(),
{
    if lines.len() == 0 {
        None
    } else if tells_error(lines.last()) {
        Some(lines.last())
    } else {
        last_error_line(lines.drop_last())
    }
}

/// The last lines that are not the given one, at most `n` of them.
pub open spec fn last_others(lines: Seq<Seq<char>>, not: Seq<char>, n: int) -> Seq<Seq<char>>
    decreases lines.len(),
{
    if lines.len() == 0 || n <= 0 {
        seq![]
    } else if lines.last() == not {
        last_others(lines.drop_last(), not, n)
    } else {
        last_others(lines.drop_last(), not, n - 1).push(lines.last())
    }
}

/// Why installing the tools failed: the last error, and the last lines around it.
pub open spec fn bootstrap_reason(stderr: Seq<char>, stdout: Seq<char>) -> Seq<char> {
    let lines = filled_lines(stderr);
    let primary = match last_error(lines) {
        Some(l) => l,
        None => match first_line(stdout) {
            Some(l) => l,
            None => "unknown bootstrap error"@,
        },
    };
    let tail = last_others(lines, primary, 4);
    if tail.len() == 0 {
        primary
    } else {
        primary + " | stderr: "@ + joined_by(tail, " | "@)
    }
}

fn find_last_error(lines: &Vec<String>) -> (line: Option<String>)
    ensures
        optional(line) == last_error(views(lines@)),
{
    let ghost all = views(lines@);
    let mut n: usize = lines.len();
    assert(all.take(n as int) =~= all);
    while n > 0
        invariant
            n <= lines.len(),
            all == views(lines@),
            last_error_line(all) == last_error_line(all.take(n as int)),
        decreases n,
    {
        assert(all.take(n as int).last() == lines@[n - 1]@);
        assert(all.take(n as int).drop_last() =~= all.take(n - 1));
        if is_error_line(lines[n - 1].as_str()) {
            return Some(owned(lines[n - 1].as_str()));
        }
        n -= 1;
    }
    if lines.len() > 0 {
        Some(owned(lines[lines.len() - 1].as_str()))
    } else {
        None
    }
}

fn find_last_others(lines: &Vec<String>, upto: usize, not: &str, n: usize) -> (out: Vec<String>)
    requires
        upto <= lines.len(),
    ensures
        views(out@) == last_others(views(lines@).take(upto as int), not@, n as int),
    decreases upto,
{
    let ghost all = views(lines@);
    if upto == 0 || n == 0 {
        let out: Vec<String> = Vec::new();
        assert(views(out@) =~= seq![]);
        return out;
    }
    assert(all.take(upto as int).last() == lines@[upto - 1]@);
    assert(all.take(upto as int).drop_last() =~= all.take(upto - 1));
    if text_is(lines[upto - 1].as_str(), not) {
        return find_last_others(lines, upto - 1, not, n);
    }
    let mut out = find_last_others(lines, upto - 1, not, n - 1);
    crate::export_settings::push_text(&mut out, lines[upto - 1].as_str());
    out
}

/// Why installing the tools failed.
pub fn extract_bootstrap_error_reason(stderr: &str, stdout: &str) -> (reason: String)
    ensures
        reason@ == bootstrap_reason(stderr@, stdout@),
{
    let lines = split_filled_lines(stderr);
    let primary = match find_last_error(&lines) {
        Some(l) => l,
        None => match first_non_empty_line(stdout) {
            Some(l) => l,
            None => owned("unknown bootstrap error"),
        },
    };
    assert(views(lines@).take(lines.len() as int) =~= views(lines@));
    let tail = find_last_others(&lines, lines.len(), primary.as_str(), 4);
    if tail.len() == 0 {
        primary
    } else {
        joined3(primary.as_str(), " | stderr: ", join_texts(&tail, " | ").as_str())
    }
}

// ---------------------------------------------------------------------------
// Where the tools are
// ---------------------------------------------------------------------------

/// Whether a setting says yes.
pub open spec fn says_yes(raw: Option<Seq<char>>) -> bool {
    match raw {
        Some(r) => {
            let n = lowered(trimmed(r));
            n == "1"@ || n == "true"@ || n == "yes"@ || n == "on"@
        },
        None => false,
    }
}

/// Whether a setting says no.
pub open spec fn says_no(raw: Option<Seq<char>>) -> bool {
    match raw {
        Some(r) => {
            let n = lowered(trimmed(r));
            n == "0"@ || n == "false"@ || n == "no"@ || n == "off"@
        },
        None => false,
    }
}

/// Whether a setting says yes.
pub fn flag_true(raw: &Option<String>) -> (yes: bool)
    ensures
        yes == says_yes(optional(*raw)),
{
    match raw {
        Some(r) => {
            let n = to_ascii_lowercase(trim(r.as_str()).as_str());
            text_is(n.as_str(), "1") || text_is(n.as_str(), "true") || text_is(n.as_str(), "yes")
                || text_is(n.as_str(), "on")
        },
        None => false,
    }
}

/// Whether a setting says no.
pub fn flag_false(raw: &Option<String>) -> (yes: bool)
    ensures
        yes == says_no(optional(*raw)),
{
    match raw {
        Some(r) => {
            let n = to_ascii_lowercase(trim(r.as_str()).as_str());
            text_is(n.as_str(), "0") || text_is(n.as_str(), "false") || text_is(n.as_str(), "no")
                || text_is(n.as_str(), "off")
        },
        None => false,
    }
}

/// Whether the tools may be installed, by the settings for and against it.
pub fn auto_bootstrap_enabled(auto_download: &Option<String>, disabled: &Option<String>) -> (yes:
    bool)
    ensures
        yes == (!says_no(optional(*auto_download)) && !says_yes(optional(*disabled))),
{
    !flag_false(auto_download) && !flag_true(disabled)
}

/// Whether only the tools that were installed with the program are used.
pub fn runtime_strict_pinned_enabled(strict: &Option<String>) -> (yes: bool)
    ensures
        yes == !says_no(optional(*strict)),
{
    !flag_false(strict)
}

/// Whether tools of the system are used too.
pub fn system_media_fallback_enabled(strict: &Option<String>, allow_system: &Option<String>) -> (yes:
    bool)
    ensures
        yes == (says_no(optional(*strict)) || says_yes(optional(*allow_system))),
{
    !runtime_strict_pinned_enabled(strict) || flag_true(allow_system)
}

/// A setting says yes or no, never both.
pub proof fn no_flag_says_both(raw: Option<Seq<char>>)
    ensures
        !(says_yes(raw) && says_no(raw)),
{
    reveal_strlit("1");
    reveal_strlit("true");
    reveal_strlit("yes");
    reveal_strlit("on");
    reveal_strlit("0");
    reveal_strlit("false");
    reveal_strlit("no");
    reveal_strlit("off");
    assert("1"@[0] != "0"@[0]);
    assert("on"@[0] != "no"@[0]);
    assert("yes"@[0] != "off"@[0]);
    assert("1"@.len() == 1 && "0"@.len() == 1 && "on"@.len() == 2 && "no"@.len() == 2);
    assert("yes"@.len() == 3 && "off"@.len() == 3 && "true"@.len() == 4 && "false"@.len() == 5);
}

/// The list with a text that says anything, unless it has it.
pub open spec fn with_unique(list: Seq<Seq<char>>, text: Seq<char>) -> Seq<Seq<char>> {
    if trimmed(text).len() == 0 || list.contains(text) {
        list
    } else {
        list.push(text)
    }
}

/// The list with a text, if there is one.
pub open spec fn with_some(list: Seq<Seq<char>>, text: Option<Seq<char>>) -> Seq<Seq<char>> {
    match text {
        Some(t) => with_unique(list, t),
        None => list,
    }
}

/// Adds a text that says anything to a list that does not have it.
pub fn push_unique(list: &mut Vec<String>, text: &str)
    ensures
        views(final(list)@) == with_unique(views(old(list)@), text@),
{
    if trim(text).as_str().unicode_len() == 0 {
        return;
    }
    let mut i: usize = 0;
    while i < list.len()
        invariant
            i <= list.len(),
            forall|j: int| 0 <= j < i ==> #[trigger] views(list@)[j] != text@,
        decreases list.len() - i,
    {
        if text_is(list[i].as_str(), text) {
            assert(views(list@)[i as int] == text@);
            return;
        }
        i += 1;
    }
    crate::export_settings::push_text(list, text);
}

fn push_some(list: &mut Vec<String>, text: &Option<String>)
    ensures
        views(final(list)@) == with_some(views(old(list)@), optional(*text)),
{
    if let Some(t) = text {
        push_unique(list, t.as_str());
    }
}

/// A list with one more text has no text twice if it had none.
pub proof fn unique_stays_unique(list: Seq<Seq<char>>, text: Seq<char>)
    requires
        list.no_duplicates(),
    ensures
        with_unique(list, text).no_duplicates(),
{
}

/// The places where a tool may be, as far as they are known.
#[derive(Debug)]
pub struct ToolPlaces {
    /// The one that is wanted.
    pub preferred: Option<String>,
    /// The one that a setting names.
    pub from_env: Option<String>,
    pub workspace: Option<String>,
    /// In the home of tools that a setting names.
    pub configured: Option<String>,
    /// In the usual home of tools.
    pub usual: Option<String>,
    /// With the program.
    pub bundled: Option<String>,
}

/// The places where a tool may be.
pub ghost struct ToolPlacesView {
    pub preferred: Option<Seq<char>>,
    pub from_env: Option<Seq<char>>,
    pub workspace: Option<Seq<char>>,
    pub configured: Option<Seq<char>>,
    pub usual: Option<Seq<char>>,
    pub bundled: Option<Seq<char>>,
}

impl View for ToolPlaces {
    type V = ToolPlacesView;

    open spec fn view(&self) -> ToolPlacesView {
        ToolPlacesView {
            preferred: optional(self.preferred),
            from_env: optional(self.from_env),
            workspace: optional(self.workspace),
            configured: optional(self.configured),
            usual: optional(self.usual),
            bundled: optional(self.bundled),
        }
    }
}

/// The text without white space around it, if anything is left.
pub open spec fn wanted(text: Option<Seq<char>>) -> Option<Seq<char>> {
    match text {
        Some(t) => if trimmed(t).len() > 0 {
            Some(trimmed(t))
        } else {
            None
        },
        None => None,
    }
}

impl ToolPlacesView {
    /// The places in the order in which they are tried; the usual home of tools only where not
    /// just the installed ones are used.
    pub open spec fn in_turn(self, strict: bool) -> Seq<Seq<char>> {
        let first = with_some(
            with_some(
                with_some(with_some(seq![], wanted(self.preferred)), self.from_env),
                self.workspace,
            ),
            self.configured,
        );
        with_some(
            if strict {
                first
            } else {
                with_some(first, self.usual)
            },
            self.bundled,
        )
    }
}

/// The places in the order in which they are tried.
pub fn tool_candidates(places: &ToolPlaces, strict: bool) -> (list: Vec<String>)
    ensures
        views(list@) == places@.in_turn(strict),
{
    let mut list: Vec<String> = Vec::new();
    assert(views(list@) =~= seq![]);
    if let Some(p) = &places.preferred {
        let t = trim(p.as_str());
        if t.as_str().unicode_len() > 0 {
            push_unique(&mut list, t.as_str());
        }
    }
    push_some(&mut list, &places.from_env);
    push_some(&mut list, &places.workspace);
    push_some(&mut list, &places.configured);
    if !strict {
        push_some(&mut list, &places.usual);
    }
    push_some(&mut list, &places.bundled);
    list
}

/// The list with others, each unless it has it.
pub open spec fn with_all(list: Seq<Seq<char>>, more: Seq<Seq<char>>) -> Seq<Seq<char>>
    decreases more.len(),
{
    if more.len() == 0 {
        list
    } else {
        with_unique(with_all(list, more.drop_last()), more.last())
    }
}

/// The places for GStreamer in the order in which they are tried: behind the others those that
/// are common on the system, and its plain name if tools of the system are used.
pub fn gstreamer_candidates(
    places: &ToolPlaces,
    strict: bool,
    common: &Vec<String>,
    plain: &str,
    allow_system: bool,
) -> (list: Vec<String>)
    ensures
        ({
            let near = with_all(places@.in_turn(strict), views(common@));
            views(list@) == if allow_system {
                with_unique(near, plain@)
            } else {
                near
            }
        }),
{
    let mut list = tool_candidates(places, strict);
    let ghost first = views(list@);
    let ghost all = views(common@);
    let mut i: usize = 0;
    assert(all.take(0) =~= seq![]);
    while i < common.len()
        invariant
            i <= common.len(),
            all == views(common@),
            views(list@) == with_all(first, all.take(i as int)),
        decreases common.len() - i,
    {
        assert(all.take(i + 1).drop_last() =~= all.take(i as int));
        assert(all.take(i + 1).last() == common@[i as int]@);
        push_unique(&mut list, common[i].as_str());
        i += 1;
    }
    assert(all.take(i as int) =~= all);
    if allow_system {
        push_unique(&mut list, plain);
    }
    list
}

/// Whether a command is written as a path.
pub fn looks_like_path(candidate: &str) -> (yes: bool)
    ensures
        yes == (has_part(candidate@, "/"@) || has_part(candidate@, "\\"@) || ends_in(
            candidate@,
            ".exe"@,
        )),
{
    contains_text(candidate, "/") || contains_text(candidate, "\\") || ends_with(candidate, ".exe")
}

/// The first place, from `i` on, that answered with a version.
pub open spec fn first_answer(versions: Seq<Option<Seq<char>>>, i: int) -> int
    decreases versions.len() - i,
{
    if i >= versions.len() || versions[i] is Some {
        i
    } else {
        first_answer(versions, i + 1)
    }
}

/// What texts may be.
pub open spec fn answers(versions: Seq<Option<String>>) -> Seq<Option<Seq<char>>> {
    versions.map_values(|v: Option<String>| optional(v))
}

fn find_first_answer(versions: &Vec<Option<String>>) -> (at: usize)
    ensures
        at == first_answer(answers(versions@), 0),
        at <= versions.len(),
        at < versions.len() ==> versions@[at as int] is Some,
{
    let mut i: usize = 0;
    while i < versions.len()
        invariant
            i <= versions.len(),
            first_answer(answers(versions@), 0) == first_answer(answers(versions@), i as int),
        decreases versions.len() - i,
    {
        assert(answers(versions@)[i as int] == optional(versions@[i as int]));
        if versions[i].is_some() {
            return i;
        }
        i += 1;
    }
    i
}

impl MediaDependencyStatusView {
    /// With the first place of ffmpeg that answered, or the first of all where none did.
    pub open spec fn with_ffmpeg(
        self,
        candidates: Seq<Seq<char>>,
        versions: Seq<Option<Seq<char>>>,
    ) -> MediaDependencyStatusView {
        let at = first_answer(versions, 0);
        if at < versions.len() {
            MediaDependencyStatusView {
                ffmpeg_command: candidates[at],
                ffmpeg_available: true,
                ffmpeg_version: versions[at],
                ..self
            }
        } else if candidates.len() > 0 {
            MediaDependencyStatusView { ffmpeg_command: candidates[0], ..self }
        } else {
            self
        }
    }

    /// With the first place of ffprobe that answered, or the first of all where none did.
    pub open spec fn with_ffprobe(
        self,
        candidates: Seq<Seq<char>>,
        versions: Seq<Option<Seq<char>>>,
    ) -> MediaDependencyStatusView {
        let at = first_answer(versions, 0);
        if at < versions.len() {
            MediaDependencyStatusView {
                ffprobe_command: candidates[at],
                ffprobe_available: true,
                ffprobe_version: versions[at],
                ..self
            }
        } else if candidates.len() > 0 {
            MediaDependencyStatusView { ffprobe_command: candidates[0], ..self }
        } else {
            self
        }
    }
}

impl MediaDependencyStatus {
    /// Notes what the places of ffmpeg answered.
    pub fn note_ffmpeg(&mut self, candidates: &Vec<String>, versions: &Vec<Option<String>>)
        requires
            versions.len() == candidates.len(),
        ensures
            final(self)@ == old(self)@.with_ffmpeg(views(candidates@), answers(versions@)),
    {
        let at = find_first_answer(versions);
        if at < versions.len() {
            self.ffmpeg_command = owned(candidates[at].as_str());
            self.ffmpeg_available = true;
            self.ffmpeg_version = copy_text(&versions[at]);
            assert(answers(versions@)[at as int] == optional(versions@[at as int]));
        } else if candidates.len() > 0 {
            self.ffmpeg_command = owned(candidates[0].as_str());
        }
    }

    /// Notes what the places of ffprobe answered.
    pub fn note_ffprobe(&mut self, candidates: &Vec<String>, versions: &Vec<Option<String>>)
        requires
            versions.len() == candidates.len(),
        ensures
            final(self)@ == old(self)@.with_ffprobe(views(candidates@), answers(versions@)),
    {
        let at = find_first_answer(versions);
        if at < versions.len() {
            self.ffprobe_command = owned(candidates[at].as_str());
            self.ffprobe_available = true;
            self.ffprobe_version = copy_text(&versions[at]);
            assert(answers(versions@)[at as int] == optional(versions@[at as int]));
        } else if candidates.len() > 0 {
            self.ffprobe_command = owned(candidates[0].as_str());
        }
    }
}

/// The places for ffprobe in the order in which they are tried: the one that a setting names,
/// the one beside ffmpeg, and the one with the program.
pub fn ffprobe_candidates(
    from_env: &Option<String>,
    beside_ffmpeg: &Option<String>,
    bundled: &Option<String>,
) -> (list: Vec<String>)
    ensures
        views(list@) == with_some(
            with_some(with_some(seq![], optional(*from_env)), optional(*beside_ffmpeg)),
            optional(*bundled),
        ),
{
    let mut list: Vec<String> = Vec::new();
    assert(views(list@) =~= seq![]);
    push_some(&mut list, from_env);
    push_some(&mut list, beside_ffmpeg);
    push_some(&mut list, bundled);
    list
}

/// The name of ffprobe beside an ffmpeg, if the command names one.
pub open spec fn probe_name(ffmpeg_command: Seq<char>) -> Option<Seq<char>> {
    let l = lowered(ffmpeg_command);
    if ends_in(l, "ffmpeg.exe"@) {
        Some("ffprobe.exe"@)
    } else if ends_in(l, "ffmpeg"@) {
        Some("ffprobe"@)
    } else {
        None
    }
}

/// The command for the ffprobe beside an ffmpeg: the one in the same folder, or the name where the
/// command is a name alone. The plain name where the command is none of an ffmpeg. Where it stands
/// is said of paths of names alone, which are taken apart in the same way on all machines.
pub fn ffprobe_from_ffmpeg(ffmpeg_command: &str) -> (command: String)
    ensures
        match probe_name(ffmpeg_command@) {
            Some(name) => is_beside(ffmpeg_command@, name, command@),
            None => command@ == "ffprobe"@,
        },
{
    proof {
        lemma_probe_names_plain();
    }
    let l = to_ascii_lowercase(ffmpeg_command);
    if ends_with(l.as_str(), "ffmpeg.exe") {
        return with_file_name(ffmpeg_command, "ffprobe.exe");
    }
    if ends_with(l.as_str(), "ffmpeg") {
        return with_file_name(ffmpeg_command, "ffprobe");
    }
    owned("ffprobe")
}

proof fn lemma_probe_names_plain()
    ensures
        plain_name("ffprobe"@),
        plain_name("ffprobe.exe"@),
{
    reveal_strlit("ffprobe");
    reveal_strlit("ffprobe.exe");
    assert("ffprobe"@ =~= seq!['f', 'f', 'p', 'r', 'o', 'b', 'e']);
    assert("ffprobe.exe"@ =~= seq!['f', 'f', 'p', 'r', 'o', 'b', 'e', '.', 'e', 'x', 'e']);
}

/// Whether the tools are to be installed: where some are missing, it may be done, and it was not
/// tried before.
pub fn should_bootstrap(status: &MediaDependencyStatus, enabled: bool, attempted: bool) -> (yes: bool)
    ensures
        yes == (!status@.complete() && enabled && !attempted),
{
    !status.all_available() && enabled && !attempted
}

/// What was found after the tools were installed: what is found then, unless it failed and not
/// all of them are there.
pub fn after_bootstrap(
    status: MediaDependencyStatus,
    refreshed: MediaDependencyStatus,
    failed: bool,
) -> (kept: MediaDependencyStatus)
    ensures
        kept@ == if failed && !refreshed@.complete() {
            status@
        } else {
            refreshed@
        },
{
    if failed && !refreshed.all_available() {
        status
    } else {
        refreshed
    }
}

} // verus!
