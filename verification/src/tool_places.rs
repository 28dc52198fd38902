//! Where the programs for media are looked for, and how they are installed.
use crate::copying::views;
use crate::export_settings::push_all;
use crate::media_tools::HostPlatform;
use crate::text::{joined, joined3, owned};
use vstd::prelude::*;

verus! {

broadcast use crate::copying::group_views;

/// A place below some folder: the names that lead to it.
#[derive(Debug)]
pub struct Place {
    pub names: Vec<String>,
}

impl View for Place {
    type V = Seq<Seq<char>>;

    open spec fn view(&self) -> Seq<Seq<char>> {
        views(self.names@)
    }
}

pub(crate) fn place(names: &[&str]) -> (p: Place)
    ensures
        p@ == views(names@),
{
    reveal(views);
    let mut list: Vec<String> = Vec::new();
    push_all(&mut list, names);
    assert(views(list@) =~= views(names@));
    Place { names: list }
}

/// The name of a program's file.
pub open spec fn program_file(tool: Seq<char>, host: HostPlatform) -> Seq<char> {
    if host is Windows {
        tool + ".exe"@
    } else {
        tool
    }
}

/// The name of a program's file.
pub fn program_file_name(tool: &str, host: HostPlatform) -> (name: String)
    ensures
        name@ == program_file(tool@, host),
{
    match host {
        HostPlatform::Windows => joined(tool, ".exe"),
        _ => owned(tool),
    }
}

/// Where GStreamer commonly is on a system.
pub open spec fn common_gstreamer(host: HostPlatform) -> Seq<Seq<char>> {
    match host {
        HostPlatform::MacOS => seq![
            "/opt/homebrew/bin/gst-launch-1.0"@,
            "/usr/local/bin/gst-launch-1.0"@,
        ],
        HostPlatform::Linux => seq![
            "/usr/bin/gst-launch-1.0"@,
            "/usr/local/bin/gst-launch-1.0"@,
        ],
        _ => seq![],
    }
}

/// Where GStreamer commonly is on a system.
pub fn common_gstreamer_places(host: HostPlatform) -> (list: Vec<String>)
    ensures
        views(list@) == common_gstreamer(host),
{
    reveal(views);
    let mut list: Vec<String> = Vec::new();
    match host {
        HostPlatform::MacOS => {
            let names = ["/opt/homebrew/bin/gst-launch-1.0", "/usr/local/bin/gst-launch-1.0"];
            push_all(&mut list, &names);
            assert(views(list@) =~= common_gstreamer(host));
        },
        HostPlatform::Linux => {
            let names = ["/usr/bin/gst-launch-1.0", "/usr/local/bin/gst-launch-1.0"];
            push_all(&mut list, &names);
            assert(views(list@) =~= common_gstreamer(host));
        },
        _ => {
            assert(views(list@) =~= common_gstreamer(host));
        },
    }
    list
}

/// Where a tool may be below the folder of tools that is developed with: for the machine, for its
/// system, and then for the current version of each.
pub open spec fn in_workspace(
    os: Seq<char>,
    arch: Seq<char>,
    folder: Seq<char>,
    tool: Seq<char>,
) -> Seq<Seq<Seq<char>>> {
    let machine = os + "-"@ + arch;
    seq![
        seq![machine, folder, "bin"@, tool],
        seq![os, folder, "bin"@, tool],
        seq!["current"@, machine, folder, "bin"@, tool],
        seq!["current"@, os, folder, "bin"@, tool],
        seq!["current"@, folder, "bin"@, tool],
    ]
}

/// Where a tool may be below the folder of tools that is developed with.
pub fn workspace_places(os: &str, arch: &str, folder: &str, tool: &str) -> (list: Vec<Place>)
    ensures
        views(list@) == in_workspace(os@, arch@, folder@, tool@),
{
    reveal(views);
    let machine = joined3(os, "-", arch);
    let m = machine.as_str();
    let mut list: Vec<Place> = Vec::new();
    let a = [m, folder, "bin", tool];
    let b = [os, folder, "bin", tool];
    let c = ["current", m, folder, "bin", tool];
    let d = ["current", os, folder, "bin", tool];
    let e = ["current", folder, "bin", tool];
    assert(views(a@) =~= seq![machine@, folder@, "bin"@, tool@]);
    assert(views(b@) =~= seq![os@, folder@, "bin"@, tool@]);
    assert(views(c@) =~= seq!["current"@, machine@, folder@, "bin"@, tool@]);
    assert(views(d@) =~= seq!["current"@, os@, folder@, "bin"@, tool@]);
    assert(views(e@) =~= seq!["current"@, folder@, "bin"@, tool@]);
    list.push(place(&a));
    list.push(place(&b));
    list.push(place(&c));
    list.push(place(&d));
    list.push(place(&e));
    assert(views(list@) =~= in_workspace(os@, arch@, folder@, tool@));
    list
}

/// Where a tool may be below a home of tools.
pub open spec fn in_home(folder: Seq<char>, tool: Seq<char>) -> Seq<Seq<Seq<char>>> {
    seq![
        seq![folder, "bin"@, tool],
        seq![folder, "current"@, "bin"@, tool],
    ]
}

/// Where a tool may be below a home of tools.
pub fn home_places(folder: &str, tool: &str) -> (list: Vec<Place>)
    ensures
        views(list@) == in_home(folder@, tool@),
{
    reveal(views);
    let mut list: Vec<Place> = Vec::new();
    let a = [folder, "bin", tool];
    let b = [folder, "current", "bin", tool];
    assert(views(a@) =~= seq![folder@, "bin"@, tool@]);
    assert(views(b@) =~= seq![folder@, "current"@, "bin"@, tool@]);
    list.push(place(&a));
    list.push(place(&b));
    assert(views(list@) =~= in_home(folder@, tool@));
    list
}

/// Where a tool may be below the tools that came with the program.
pub open spec fn in_bundle(tool: Seq<char>) -> Seq<Seq<Seq<char>>> {
    seq![
        seq!["ffmpeg"@, "bin"@, tool],
        seq!["gstreamer"@, "bin"@, tool],
    ]
}

/// Where a tool may be below the tools that came with the program.
pub fn bundle_places(tool: &str) -> (list: Vec<Place>)
    ensures
        views(list@) == in_bundle(tool@),
{
    reveal(views);
    let mut list: Vec<Place> = Vec::new();
    let a = ["ffmpeg", "bin", tool];
    let b = ["gstreamer", "bin", tool];
    assert(views(a@) =~= seq!["ffmpeg"@, "bin"@, tool@]);
    assert(views(b@) =~= seq!["gstreamer"@, "bin"@, tool@]);
    list.push(place(&a));
    list.push(place(&b));
    assert(views(list@) =~= in_bundle(tool@));
    list
}

/// The folder below which the usual home of tools is: for data of programs, of the user's profile
/// or the user's own.
#[derive(Debug, Clone, Copy, PartialEq, Eq, Structural)]
pub enum HomeBase {
    AppData,
    Profile,
    Home,
}

/// The folder below which the usual home of tools is, if it is known, and the names that lead
/// there.
pub open spec fn usual_home(host: HostPlatform, app_data: bool, profile: bool, home: bool) -> Option<
    (HomeBase, Seq<Seq<char>>),
> {
    let hidden = seq![".anica"@, "tools"@];
    if host is Windows {
        if app_data {
            Some((HomeBase::AppData, seq!["Anica"@, "tools"@]))
        } else if profile {
            Some((HomeBase::Profile, hidden))
        } else {
            None
        }
    } else if home {
        Some((HomeBase::Home, hidden))
    } else {
        None
    }
}

/// The folder below which the usual home of tools is, and the names that lead there, by which of
/// the folders are known.
pub fn usual_tools_home(host: HostPlatform, app_data: bool, profile: bool, home: bool) -> (place:
    Option<(HomeBase, Place)>)
    ensures
        match (place, usual_home(host, app_data, profile, home)) {
            (Some(p), Some(q)) => p.0 == q.0 && p.1@ == q.1,
            (None, None) => true,
            _ => false,
        },
{
    reveal(views);
    let shown = ["Anica", "tools"];
    let hidden = [".anica", "tools"];
    assert(views(shown@) =~= seq!["Anica"@, "tools"@]);
    assert(views(hidden@) =~= seq![".anica"@, "tools"@]);
    if matches!(host, HostPlatform::Windows) {
        if app_data {
            Some((HomeBase::AppData, place(&shown)))
        } else if profile {
            Some((HomeBase::Profile, place(&hidden)))
        } else {
            None
        }
    } else if home {
        Some((HomeBase::Home, place(&hidden)))
    } else {
        None
    }
}

/// The file of the script that installs the tools.
pub open spec fn setup_script(host: HostPlatform) -> Option<Seq<char>> {
    match host {
        HostPlatform::MacOS | HostPlatform::Linux => Some("setup_media_tools.sh"@),
        HostPlatform::Windows => Some("setup_media_tools.ps1"@),
        HostPlatform::Other => None,
    }
}

/// The file of the script that installs the tools.
pub fn setup_script_name(host: HostPlatform) -> (name: Option<&'static str>)
    ensures
        match (name, setup_script(host)) {
            (Some(n), Some(m)) => n@ == m,
            (None, None) => true,
            _ => false,
        },
{
    match host {
        HostPlatform::MacOS | HostPlatform::Linux => Some("setup_media_tools.sh"),
        HostPlatform::Windows => Some("setup_media_tools.ps1"),
        HostPlatform::Other => None,
    }
}

/// The programs that can run the script that installs the tools, and what they are given.
pub open spec fn setup_commands(host: HostPlatform, script: Seq<char>, home: Seq<char>) -> (
    Seq<Seq<char>>,
    Seq<Seq<char>>,
) {
    match host {
        HostPlatform::MacOS | HostPlatform::Linux => (
            seq!["bash"@],
            seq![script, "--mode"@, "local-lgpl"@, "--yes"@],
        ),
        HostPlatform::Windows => (
            seq!["pwsh"@, "powershell"@],
            seq![
                "-NoProfile"@,
                "-ExecutionPolicy"@,
                "Bypass"@,
                "-File"@,
                script,
                "-Mode"@,
                "local-lgpl"@,
                "-InstallGStreamer"@,
                "-Yes"@,
                "-ToolsHome"@,
                home,
            ],
        ),
        HostPlatform::Other => (seq![], seq![]),
    }
}

/// The programs that can run the script that installs the tools, the one that is tried first in
/// front, and what they are given.
pub fn setup_command_args(host: HostPlatform, script: &str, home: &str) -> (command: (
    Vec<String>,
    Vec<String>,
))
    ensures
        views(command.0@) == setup_commands(host, script@, home@).0,
        views(command.1@) == setup_commands(host, script@, home@).1,
{
    reveal(views);
    let mut programs: Vec<String> = Vec::new();
    let mut args: Vec<String> = Vec::new();
    match host {
        HostPlatform::MacOS | HostPlatform::Linux => {
            push_all(&mut programs, &["bash"]);
            push_all(&mut args, &[script, "--mode", "local-lgpl", "--yes"]);
        },
        HostPlatform::Windows => {
            push_all(&mut programs, &["pwsh", "powershell"]);
            let list = [
                "-NoProfile",
                "-ExecutionPolicy",
                "Bypass",
                "-File",
                script,
                "-Mode",
                "local-lgpl",
                "-InstallGStreamer",
                "-Yes",
                "-ToolsHome",
                home,
            ];
            push_all(&mut args, &list);
        },
        HostPlatform::Other => {},
    }
    assert(views(programs@) =~= setup_commands(host, script@, home@).0);
    assert(views(args@) =~= setup_commands(host, script@, home@).1);
    (programs, args)
}

} // verus!
