//! What the environment is set to, so that the media programs that came with the program are used.
use crate::copying::views;
use crate::media_tools::HostPlatform;
use crate::text::{joined3, owned};
use crate::tool_places::{place, program_file, program_file_name, Place};
use vstd::prelude::*;

verus! {

broadcast use crate::copying::group_views;

/// What was found of FFmpeg in a folder: its program, the one that looks at files, and the folder
/// of its libraries.
#[derive(Debug, Clone, Copy, PartialEq, Eq, Structural)]
pub struct ToolFiles {
    pub program: bool,
    pub probe: bool,
    pub libraries: bool,
}

/// What was found below the folder of the programs that came with this one.
#[derive(Debug, Clone, Copy, PartialEq, Eq, Structural)]
pub struct RuntimeFiles {
    /// In the folder of FFmpeg's current version.
    pub current: ToolFiles,
    /// In the folder of FFmpeg itself.
    pub plain: ToolFiles,
    pub gstreamer: bool,
    pub gst_bin: bool,
    pub gst_launch: bool,
    pub gst_libraries: bool,
    pub gst_plugins: bool,
    pub gst_scanner: bool,
    pub gst_typelib: bool,
}

/// How a setting is made: only where there is none, in place of what there is, or in front of it.
#[derive(Debug, Clone, Copy, PartialEq, Eq, Structural)]
pub enum SettingWay {
    IfMissing,
    Instead,
    InFront,
}

/// What a setting says: a text, or a place below the folder of the programs.
#[derive(Debug)]
pub enum SettingValue {
    Text(String),
    Below(Place),
}

/// What a setting says.
pub ghost enum SettingValueView {
    Text(Seq<char>),
    Below(Seq<Seq<char>>),
}

/// A setting of the environment.
#[derive(Debug)]
pub struct Setting {
    pub name: &'static str,
    pub way: SettingWay,
    pub value: SettingValue,
}

/// A setting of the environment.
pub ghost struct SettingView {
    pub name: Seq<char>,
    pub way: SettingWay,
    pub value: SettingValueView,
}

impl View for Setting {
    type V = SettingView;

    open spec fn view(&self) -> SettingView {
        SettingView {
            name: self.name@,
            way: self.way,
            value: match self.value {
                SettingValue::Text(t) => SettingValueView::Text(t@),
                SettingValue::Below(p) => SettingValueView::Below(p@),
            },
        }
    }
}

/// A setting to a text where there is none.
pub open spec fn usually(name: Seq<char>, text: Seq<char>) -> SettingView {
    SettingView { name, way: SettingWay::IfMissing, value: SettingValueView::Text(text) }
}

/// A setting to a place.
pub open spec fn at_place(name: Seq<char>, names: Seq<Seq<char>>) -> SettingView {
    SettingView { name, way: SettingWay::Instead, value: SettingValueView::Below(names) }
}

/// A place in front of what is set.
pub open spec fn in_front(name: Seq<char>, names: Seq<Seq<char>>) -> SettingView {
    SettingView { name, way: SettingWay::InFront, value: SettingValueView::Below(names) }
}

/// The settings, or none of them.
pub open spec fn only_if(yes: bool, list: Seq<SettingView>) -> Seq<SettingView> {
    if yes {
        list
    } else {
        seq![]
    }
}

impl RuntimeFiles {
    /// What was found of the FFmpeg that is used: the current version where it has the program.
    pub open spec fn used(self) -> ToolFiles {
        if self.current.program {
            self.current
        } else {
            self.plain
        }
    }

    /// The folder of the FFmpeg that is used.
    pub open spec fn used_folder(self) -> Seq<Seq<char>> {
        if self.current.program {
            seq!["ffmpeg"@, "current"@]
        } else {
            seq!["ffmpeg"@]
        }
    }

    /// The settings for FFmpeg.
    pub open spec fn ffmpeg_settings(self, host: HostPlatform) -> Seq<SettingView> {
        let bin = self.used_folder().push("bin"@);
        let probe = self.used().probe;
        only_if(
            self.used().program,
            seq![at_place("ANICA_FFMPEG_PATH"@, bin.push(program_file("ffmpeg"@, host)))]
                + only_if(
                probe,
                seq![at_place("ANICA_FFPROBE_PATH"@, bin.push(program_file("ffprobe"@, host)))],
            ) + seq![in_front("PATH"@, bin)] + only_if(probe, seq![in_front("PATH"@, bin)]),
        )
    }

    /// The settings for GStreamer.
    pub open spec fn gstreamer_settings(self, host: HostPlatform) -> Seq<SettingView> {
        let bin = seq!["gstreamer"@, "bin"@];
        let plugins = seq!["gstreamer"@, "lib"@, "gstreamer-1.0"@];
        let scanner = seq![
            "gstreamer"@,
            "libexec"@,
            "gstreamer-1.0"@,
            "gst-plugin-scanner"@,
        ];
        only_if(self.gst_bin, seq![in_front("PATH"@, bin)]) + only_if(
            self.gst_launch,
            seq![
                at_place("ANICA_GSTREAMER_PATH"@, bin.push(program_file("gst-launch-1.0"@, host))),
            ],
        ) + only_if(
            self.gst_plugins,
            seq![
                at_place("GST_PLUGIN_PATH"@, plugins),
                at_place("GST_PLUGIN_PATH_1_0"@, plugins),
                at_place("GST_PLUGIN_SYSTEM_PATH_1_0"@, plugins),
                at_place("GST_PLUGIN_SYSTEM_PATH"@, plugins),
            ],
        ) + only_if(
            self.gst_scanner,
            seq![
                at_place("GST_PLUGIN_SCANNER"@, scanner),
                at_place("GST_PLUGIN_SCANNER_1_0"@, scanner),
            ],
        ) + only_if(
            self.gst_typelib,
            seq![in_front("GI_TYPELIB_PATH"@, seq!["gstreamer"@, "lib"@, "girepository-1.0"@])],
        ) + only_if(
            self.gstreamer,
            seq![
                at_place("GST_REGISTRY_1_0"@, seq!["gstreamer"@, "cache"@, "registry.bin"@]),
            ],
        )
    }

    /// The settings for the libraries of both; those of GStreamer stand in front.
    pub open spec fn library_settings(self, host: HostPlatform) -> Seq<SettingView> {
        let name = "DYLD_FALLBACK_LIBRARY_PATH"@;
        only_if(
            host is MacOS,
            only_if(
                self.used().libraries,
                seq![in_front(name, self.used_folder().push("lib"@))],
            ) + only_if(self.gst_libraries, seq![in_front(name, seq!["gstreamer"@, "lib"@])]),
        )
    }

    /// All settings, in the order in which they are made.
    pub open spec fn settings(self, host: HostPlatform) -> Seq<SettingView> {
        seq![
            usually("ANICA_MEDIA_RUNTIME_STRICT"@, "1"@),
            usually("ANICA_ALLOW_SYSTEM_MEDIA"@, "0"@),
            at_place("ANICA_TOOLS_HOME"@, seq![]),
        ] + self.ffmpeg_settings(host) + self.gstreamer_settings(host) + self.library_settings(host)
    }
}

fn push_setting(list: &mut Vec<Setting>, name: &'static str, way: SettingWay, names: &[&str])
    ensures
        views(final(list)@) == views(old(list)@).push(
            SettingView { name: name@, way, value: SettingValueView::Below(views(names@)) },
        ),
{
    list.push(Setting { name, way, value: SettingValue::Below(place(names)) });
}

fn push_usual(list: &mut Vec<Setting>, name: &'static str, text: &str)
    ensures
        views(final(list)@) == views(old(list)@).push(usually(name@, text@)),
{
    list.push(
        Setting { name, way: SettingWay::IfMissing, value: SettingValue::Text(owned(text)) },
    );
}

impl RuntimeFiles {
    fn find_used(&self) -> (files: ToolFiles)
        ensures
            files == self.used(),
    {
        if self.current.program {
            self.current
        } else {
            self.plain
        }
    }

    fn push_used(
        &self,
        list: &mut Vec<Setting>,
        name: &'static str,
        way: SettingWay,
        folder: &str,
        file: Option<&str>,
    )
        ensures
            views(final(list)@) == views(old(list)@).push(
                SettingView {
                    name: name@,
                    way,
                    value: SettingValueView::Below(
                        match file {
                            Some(f) => self.used_folder().push(folder@).push(f@),
                            None => self.used_folder().push(folder@),
                        },
                    ),
                },
            ),
    {
        reveal(views);
        match file {
            Some(f) => if self.current.program {
                let names = ["ffmpeg", "current", folder, f];
                assert(views(names@) =~= self.used_folder().push(folder@).push(f@));
                push_setting(list, name, way, &names);
            } else {
                let names = ["ffmpeg", folder, f];
                assert(views(names@) =~= self.used_folder().push(folder@).push(f@));
                push_setting(list, name, way, &names);
            },
            None => if self.current.program {
                let names = ["ffmpeg", "current", folder];
                assert(views(names@) =~= self.used_folder().push(folder@));
                push_setting(list, name, way, &names);
            } else {
                let names = ["ffmpeg", folder];
                assert(views(names@) =~= self.used_folder().push(folder@));
                push_setting(list, name, way, &names);
            },
        }
    }

    fn push_ffmpeg(&self, list: &mut Vec<Setting>, host: HostPlatform)
        ensures
            views(final(list)@) == views(old(list)@) + self.ffmpeg_settings(host),
    {
        let ghost before = views(list@);
        let files = self.find_used();
        if files.program {
            let ffmpeg = program_file_name("ffmpeg", host);
            let ffprobe = program_file_name("ffprobe", host);
            self.push_used(
                list,
                "ANICA_FFMPEG_PATH",
                SettingWay::Instead,
                "bin",
                Some(ffmpeg.as_str()),
            );
            if files.probe {
                self.push_used(
                    list,
                    "ANICA_FFPROBE_PATH",
                    SettingWay::Instead,
                    "bin",
                    Some(ffprobe.as_str()),
                );
            }
            self.push_used(list, "PATH", SettingWay::InFront, "bin", None);
            if files.probe {
                self.push_used(list, "PATH", SettingWay::InFront, "bin", None);
            }
        }
        assert(views(list@) =~= before + self.ffmpeg_settings(host));
    }

    fn push_plugins(&self, list: &mut Vec<Setting>)
        ensures
            ({
                let plugins = seq!["gstreamer"@, "lib"@, "gstreamer-1.0"@];
                let scanner = seq![
                    "gstreamer"@,
                    "libexec"@,
                    "gstreamer-1.0"@,
                    "gst-plugin-scanner"@,
                ];
                views(final(list)@) == views(old(list)@) + only_if(
                    self.gst_plugins,
                    seq![
                        at_place("GST_PLUGIN_PATH"@, plugins),
                        at_place("GST_PLUGIN_PATH_1_0"@, plugins),
                        at_place("GST_PLUGIN_SYSTEM_PATH_1_0"@, plugins),
                        at_place("GST_PLUGIN_SYSTEM_PATH"@, plugins),
                    ],
                ) + only_if(
                    self.gst_scanner,
                    seq![
                        at_place("GST_PLUGIN_SCANNER"@, scanner),
                        at_place("GST_PLUGIN_SCANNER_1_0"@, scanner),
                    ],
                )
            }),
    {
        let ghost before = views(list@);
        let plugins = ["gstreamer", "lib", "gstreamer-1.0"];
        let scanner = ["gstreamer", "libexec", "gstreamer-1.0", "gst-plugin-scanner"];
        let ghost p = seq!["gstreamer"@, "lib"@, "gstreamer-1.0"@];
        let ghost s = seq!["gstreamer"@, "libexec"@, "gstreamer-1.0"@, "gst-plugin-scanner"@];
        proof {
            reveal(views);
            assert(views(plugins@) =~= p);
            assert(views(scanner@) =~= s);
        }
        if self.gst_plugins {
            push_setting(list, "GST_PLUGIN_PATH", SettingWay::Instead, &plugins);
            push_setting(list, "GST_PLUGIN_PATH_1_0", SettingWay::Instead, &plugins);
            push_setting(list, "GST_PLUGIN_SYSTEM_PATH_1_0", SettingWay::Instead, &plugins);
            push_setting(list, "GST_PLUGIN_SYSTEM_PATH", SettingWay::Instead, &plugins);
        }
        let ghost middle = only_if(
            self.gst_plugins,
            seq![
                at_place("GST_PLUGIN_PATH"@, p),
                at_place("GST_PLUGIN_PATH_1_0"@, p),
                at_place("GST_PLUGIN_SYSTEM_PATH_1_0"@, p),
                at_place("GST_PLUGIN_SYSTEM_PATH"@, p),
            ],
        );
        assert(views(list@) =~= before + middle);
        if self.gst_scanner {
            push_setting(list, "GST_PLUGIN_SCANNER", SettingWay::Instead, &scanner);
            push_setting(list, "GST_PLUGIN_SCANNER_1_0", SettingWay::Instead, &scanner);
        }
        assert(views(list@) =~= before + middle + only_if(
            self.gst_scanner,
            seq![at_place("GST_PLUGIN_SCANNER"@, s), at_place("GST_PLUGIN_SCANNER_1_0"@, s)],
        ));
    }

    fn push_gstreamer(&self, list: &mut Vec<Setting>, host: HostPlatform)
        ensures
            views(final(list)@) == views(old(list)@) + self.gstreamer_settings(host),
    {
        let ghost before = views(list@);
        let launch = program_file_name("gst-launch-1.0", host);
        let bin = ["gstreamer", "bin"];
        let program = ["gstreamer", "bin", launch.as_str()];
        let typelib = ["gstreamer", "lib", "girepository-1.0"];
        let registry = ["gstreamer", "cache", "registry.bin"];
        proof {
            reveal(views);
            assert(views(bin@) =~= seq!["gstreamer"@, "bin"@]);
            assert(views(program@) =~= seq!["gstreamer"@, "bin"@].push(launch@));
            assert(views(typelib@) =~= seq!["gstreamer"@, "lib"@, "girepository-1.0"@]);
            assert(views(registry@) =~= seq!["gstreamer"@, "cache"@, "registry.bin"@]);
        }
        if self.gst_bin {
            push_setting(list, "PATH", SettingWay::InFront, &bin);
        }
        if self.gst_launch {
            push_setting(list, "ANICA_GSTREAMER_PATH", SettingWay::Instead, &program);
        }
        self.push_plugins(list);
        if self.gst_typelib {
            push_setting(list, "GI_TYPELIB_PATH", SettingWay::InFront, &typelib);
        }
        if self.gstreamer {
            push_setting(list, "GST_REGISTRY_1_0", SettingWay::Instead, &registry);
        }
        assert(views(list@) =~= before + self.gstreamer_settings(host));
    }

    fn push_libraries(&self, list: &mut Vec<Setting>, host: HostPlatform)
        ensures
            views(final(list)@) == views(old(list)@) + self.library_settings(host),
    {
        let ghost before = views(list@);
        if matches!(host, HostPlatform::MacOS) {
            if self.find_used().libraries {
                self.push_used(
                    list,
                    "DYLD_FALLBACK_LIBRARY_PATH",
                    SettingWay::InFront,
                    "lib",
                    None,
                );
            }
            if self.gst_libraries {
                let names = ["gstreamer", "lib"];
                proof {
                    reveal(views);
                    assert(views(names@) =~= seq!["gstreamer"@, "lib"@]);
                }
                push_setting(list, "DYLD_FALLBACK_LIBRARY_PATH", SettingWay::InFront, &names);
            }
        }
        assert(views(list@) =~= before + self.library_settings(host));
    }
}

/// The settings that point the environment at the programs that came with this one, in the order in
/// which they are made.
pub fn runtime_settings(found: &RuntimeFiles, host: HostPlatform) -> (list: Vec<Setting>)
    ensures
        views(list@) == found.settings(host),
{
    let mut list: Vec<Setting> = Vec::new();
    push_usual(&mut list, "ANICA_MEDIA_RUNTIME_STRICT", "1");
    push_usual(&mut list, "ANICA_ALLOW_SYSTEM_MEDIA", "0");
    let none: [&str; 0] = [];
    assert(views(none@) =~= seq![]);
    push_setting(&mut list, "ANICA_TOOLS_HOME", SettingWay::Instead, &none);
    assert(views(list@) =~= seq![
        usually("ANICA_MEDIA_RUNTIME_STRICT"@, "1"@),
        usually("ANICA_ALLOW_SYSTEM_MEDIA"@, "0"@),
        at_place("ANICA_TOOLS_HOME"@, seq![]),
    ]);
    found.push_ffmpeg(&mut list, host);
    found.push_gstreamer(&mut list, host);
    found.push_libraries(&mut list, host);
    list
}

/// A list of paths with another in front of it.
pub open spec fn with_front(path: Seq<char>, existing: Seq<char>) -> Seq<char> {
    if existing.len() > 0 {
        path + ":"@ + existing
    } else {
        path
    }
}

/// A list of paths with another in front of it. An empty list is none.
pub fn put_in_front(path: &str, existing: &str) -> (paths: String)
    ensures
        paths@ == with_front(path@, existing@),
{
    if existing.unicode_len() > 0 {
        joined3(path, ":", existing)
    } else {
        owned(path)
    }
}

} // verus!
