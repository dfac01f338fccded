//! The settings, and how a tag stands for one of them.

use vstd::prelude::*;

verus! {

/// What is cleaned of the system.
#[derive(Debug, Clone, Copy, PartialEq, Eq, Structural)]
pub struct MacosSettings {
    pub trash: bool,
    pub application_caches: bool,
    pub temporary_files: bool,
    pub logs: bool,
    pub crash_reports: bool,
    pub temporary_min_age_days: u64,
    pub logs_min_age_days: u64,
}

/// Which browsers are cleaned.
#[derive(Debug, Clone, Copy, PartialEq, Eq, Structural)]
pub struct BrowserSettings {
    pub safari: bool,
    pub chrome: bool,
    pub opera: bool,
    pub firefox: bool,
    pub chromium: bool,
    pub brave: bool,
    pub arc: bool,
}

/// What is cleaned of the development tools.
#[derive(Debug, Clone, Copy, PartialEq, Eq, Structural)]
pub struct DevelopmentSettings {
    pub xcode_derived_data: bool,
    pub xcode_source_packages: bool,
    pub unavailable_simulators: bool,
    pub cargo: bool,
    pub npm: bool,
    pub npx: bool,
    pub pnpm: bool,
    pub yarn: bool,
    pub pip: bool,
    pub uv: bool,
    pub gradle: bool,
    pub cocoapods: bool,
    pub xcode_source_packages_min_age_days: u64,
    pub gradle_min_age_days: u64,
}

/// What is cleaned of machine learning.
#[derive(Debug, Clone, Copy, PartialEq, Eq, Structural)]
pub struct AiMlSettings {
    pub huggingface: bool,
    pub torch: bool,
    pub whisper: bool,
    pub clip: bool,
    pub coreml: bool,
    pub codex_runtimes: bool,
    pub selenium: bool,
    pub openai_python: bool,
}

/// What is cleaned of Homebrew.
#[derive(Debug, Clone, Copy, PartialEq, Eq, Structural)]
pub struct HomebrewSettings {
    pub enabled: bool,
    pub autoremove: bool,
    pub old_versions: bool,
    pub cache: bool,
    pub temporary_builds: bool,
}

/// What is cleaned of Docker.
#[derive(Debug, Clone, Copy, PartialEq, Eq, Structural)]
pub struct DockerSettings {
    pub enabled: bool,
    pub build_cache: bool,
    pub unused_images: bool,
    pub stopped_containers: bool,
    pub unused_networks: bool,
}

/// What is cleaned of Podman.
#[derive(Debug, Clone, Copy, PartialEq, Eq, Structural)]
pub struct PodmanSettings {
    pub enabled: bool,
    pub cache: bool,
    pub stale_machines: bool,
    pub stale_machine_days: u64,
}

/// What is cleaned of mobile devices.
#[derive(Debug, Clone, Copy, PartialEq, Eq, Structural)]
pub struct MobileSettings {
    pub delete_all_local_backups: bool,
}

/// What follows on a cleanup.
#[derive(Debug, Clone, Copy, PartialEq, Eq, Structural)]
pub struct BehaviorSettings {
    pub rescan_after_cleanup: bool,
    pub show_reclaimed_space: bool,
    pub write_log: bool,
}

/// The settings of the cleaner.
#[derive(Debug, Clone, Copy, PartialEq, Eq, Structural)]
pub struct Settings {
    pub macos: MacosSettings,
    pub browsers: BrowserSettings,
    pub development: DevelopmentSettings,
    pub ai_ml: AiMlSettings,
    pub homebrew: HomebrewSettings,
    pub docker: DockerSettings,
    pub podman: PodmanSettings,
    pub mobile: MobileSettings,
    pub behavior: BehaviorSettings,
}

impl MacosSettings {
    /// The switch that a tag stands for, where it stands for one of these.
    pub open spec fn switch(self, tag: int) -> Option<bool> {
        if tag == 1 {
            Some(self.trash)
        } else if tag == 2 {
            Some(self.application_caches)
        } else if tag == 3 {
            Some(self.temporary_files)
        } else if tag == 4 {
            Some(self.logs)
        } else if tag == 5 {
            Some(self.crash_reports)
        } else {
            None
        }
    }

    /// The age in days that a tag stands for, where it stands for one of these.
    pub open spec fn age(self, tag: int) -> Option<u64> {
        if tag == 1001 {
            Some(self.temporary_min_age_days)
        } else if tag == 1002 {
            Some(self.logs_min_age_days)
        } else {
            None
        }
    }

    /// Reads the switch that `tag` stands for, where it stands for one of these.
    fn get_switch(&self, tag: isize) -> (value: Option<bool>)
        ensures
            value == self.switch(tag as int),
    {
        match tag {
            1 => Some(self.trash),
            2 => Some(self.application_caches),
            3 => Some(self.temporary_files),
            4 => Some(self.logs),
            5 => Some(self.crash_reports),
            _ => None,
        }
    }

    /// Reads the age that `tag` stands for, where it stands for one of these.
    fn get_age(&self, tag: isize) -> (days: Option<u64>)
        ensures
            days == self.age(tag as int),
    {
        match tag {
            1001 => Some(self.temporary_min_age_days),
            1002 => Some(self.logs_min_age_days),
            _ => None,
        }
    }

    /// Sets the switch that `tag` stands for, where it stands for one of these.
    fn set_switch(&mut self, tag: isize, value: bool)
        ensures
            forall|other: int|
                #![trigger final(self).switch(other)]
                final(self).switch(other) == replaced(old(self).switch(other), other == tag, value),
            forall|other: int|
                #![trigger final(self).age(other)]
                final(self).age(other) == old(self).age(other),
    {
        match tag {
            1 => {
                self.trash = value;
            },
            2 => {
                self.application_caches = value;
            },
            3 => {
                self.temporary_files = value;
            },
            4 => {
                self.logs = value;
            },
            5 => {
                self.crash_reports = value;
            },
            _ => {},
        }
    }

    /// Sets the age that `tag` stands for, where it stands for one of these.
    fn set_age(&mut self, tag: isize, days: u64)
        ensures
            forall|other: int|
                #![trigger final(self).age(other)]
                final(self).age(other) == replaced(old(self).age(other), other == tag, days),
            forall|other: int|
                #![trigger final(self).switch(other)]
                final(self).switch(other) == old(self).switch(other),
    {
        match tag {
            1001 => {
                self.temporary_min_age_days = days;
            },
            1002 => {
                self.logs_min_age_days = days;
            },
            _ => {},
        }
    }
}

impl BrowserSettings {
    /// The switch that a tag stands for, where it stands for one of these.
    pub open spec fn switch(self, tag: int) -> Option<bool> {
        if tag == 10 {
            Some(self.chrome)
        } else if tag == 11 {
            Some(self.opera)
        } else if tag == 12 {
            Some(self.firefox)
        } else if tag == 13 {
            Some(self.chromium)
        } else if tag == 14 {
            Some(self.brave)
        } else if tag == 15 {
            Some(self.arc)
        } else if tag == 16 {
            Some(self.safari)
        } else {
            None
        }
    }

    /// Reads the switch that `tag` stands for, where it stands for one of these.
    fn get_switch(&self, tag: isize) -> (value: Option<bool>)
        ensures
            value == self.switch(tag as int),
    {
        match tag {
            10 => Some(self.chrome),
            11 => Some(self.opera),
            12 => Some(self.firefox),
            13 => Some(self.chromium),
            14 => Some(self.brave),
            15 => Some(self.arc),
            16 => Some(self.safari),
            _ => None,
        }
    }

    /// Sets the switch that `tag` stands for, where it stands for one of these.
    fn set_switch(&mut self, tag: isize, value: bool)
        ensures
            forall|other: int|
                #![trigger final(self).switch(other)]
                final(self).switch(other) == replaced(old(self).switch(other), other == tag, value),
    {
        match tag {
            10 => {
                self.chrome = value;
            },
            11 => {
                self.opera = value;
            },
            12 => {
                self.firefox = value;
            },
            13 => {
                self.chromium = value;
            },
            14 => {
                self.brave = value;
            },
            15 => {
                self.arc = value;
            },
            16 => {
                self.safari = value;
            },
            _ => {},
        }
    }
}

impl DevelopmentSettings {
    /// The switch that a tag stands for, where it stands for one of these.
    pub open spec fn switch(self, tag: int) -> Option<bool> {
        if tag == 20 {
            Some(self.xcode_derived_data)
        } else if tag == 21 {
            Some(self.xcode_source_packages)
        } else if tag == 22 {
            Some(self.unavailable_simulators)
        } else if tag == 23 {
            Some(self.cargo)
        } else if tag == 24 {
            Some(self.npm)
        } else if tag == 25 {
            Some(self.npx)
        } else if tag == 26 {
            Some(self.pnpm)
        } else if tag == 27 {
            Some(self.yarn)
        } else if tag == 28 {
            Some(self.pip)
        } else if tag == 29 {
            Some(self.uv)
        } else if tag == 30 {
            Some(self.gradle)
        } else if tag == 31 {
            Some(self.cocoapods)
        } else {
            None
        }
    }

    /// The age in days that a tag stands for, where it stands for one of these.
    pub open spec fn age(self, tag: int) -> Option<u64> {
        if tag == 1003 {
            Some(self.xcode_source_packages_min_age_days)
        } else if tag == 1004 {
            Some(self.gradle_min_age_days)
        } else {
            None
        }
    }

    /// Reads the switch that `tag` stands for, where it stands for one of these.
    fn get_switch(&self, tag: isize) -> (value: Option<bool>)
        ensures
            value == self.switch(tag as int),
    {
        match tag {
            20 => Some(self.xcode_derived_data),
            21 => Some(self.xcode_source_packages),
            22 => Some(self.unavailable_simulators),
            23 => Some(self.cargo),
            24 => Some(self.npm),
            25 => Some(self.npx),
            26 => Some(self.pnpm),
            27 => Some(self.yarn),
            28 => Some(self.pip),
            29 => Some(self.uv),
            30 => Some(self.gradle),
            31 => Some(self.cocoapods),
            _ => None,
        }
    }

    /// Reads the age that `tag` stands for, where it stands for one of these.
    fn get_age(&self, tag: isize) -> (days: Option<u64>)
        ensures
            days == self.age(tag as int),
    {
        match tag {
            1003 => Some(self.xcode_source_packages_min_age_days),
            1004 => Some(self.gradle_min_age_days),
            _ => None,
        }
    }

    /// Sets the switch that `tag` stands for, where it stands for one of these.
    #[verifier::rlimit(60)]
    fn set_switch(&mut self, tag: isize, value: bool)
        ensures
            forall|other: int|
                #![trigger final(self).switch(other)]
                final(self).switch(other) == replaced(old(self).switch(other), other == tag, value),
            forall|other: int|
                #![trigger final(self).age(other)]
                final(self).age(other) == old(self).age(other),
    {
        match tag {
            20 => {
                self.xcode_derived_data = value;
            },
            21 => {
                self.xcode_source_packages = value;
            },
            22 => {
                self.unavailable_simulators = value;
            },
            23 => {
                self.cargo = value;
            },
            24 => {
                self.npm = value;
            },
            25 => {
                self.npx = value;
            },
            26 => {
                self.pnpm = value;
            },
            27 => {
                self.yarn = value;
            },
            28 => {
                self.pip = value;
            },
            29 => {
                self.uv = value;
            },
            30 => {
                self.gradle = value;
            },
            31 => {
                self.cocoapods = value;
            },
            _ => {},
        }
    }

    /// Sets the age that `tag` stands for, where it stands for one of these.
    fn set_age(&mut self, tag: isize, days: u64)
        ensures
            forall|other: int|
                #![trigger final(self).age(other)]
                final(self).age(other) == replaced(old(self).age(other), other == tag, days),
            forall|other: int|
                #![trigger final(self).switch(other)]
                final(self).switch(other) == old(self).switch(other),
    {
        match tag {
            1003 => {
                self.xcode_source_packages_min_age_days = days;
            },
            1004 => {
                self.gradle_min_age_days = days;
            },
            _ => {},
        }
    }
}

impl AiMlSettings {
    /// The switch that a tag stands for, where it stands for one of these.
    pub open spec fn switch(self, tag: int) -> Option<bool> {
        if tag == 40 {
            Some(self.huggingface)
        } else if tag == 41 {
            Some(self.torch)
        } else if tag == 42 {
            Some(self.whisper)
        } else if tag == 43 {
            Some(self.clip)
        } else if tag == 44 {
            Some(self.coreml)
        } else if tag == 45 {
            Some(self.codex_runtimes)
        } else if tag == 46 {
            Some(self.selenium)
        } else if tag == 47 {
            Some(self.openai_python)
        } else {
            None
        }
    }

    /// Reads the switch that `tag` stands for, where it stands for one of these.
    fn get_switch(&self, tag: isize) -> (value: Option<bool>)
        ensures
            value == self.switch(tag as int),
    {
        match tag {
            40 => Some(self.huggingface),
            41 => Some(self.torch),
            42 => Some(self.whisper),
            43 => Some(self.clip),
            44 => Some(self.coreml),
            45 => Some(self.codex_runtimes),
            46 => Some(self.selenium),
            47 => Some(self.openai_python),
            _ => None,
        }
    }

    /// Sets the switch that `tag` stands for, where it stands for one of these.
    fn set_switch(&mut self, tag: isize, value: bool)
        ensures
            forall|other: int|
                #![trigger final(self).switch(other)]
                final(self).switch(other) == replaced(old(self).switch(other), other == tag, value),
    {
        match tag {
            40 => {
                self.huggingface = value;
            },
            41 => {
                self.torch = value;
            },
            42 => {
                self.whisper = value;
            },
            43 => {
                self.clip = value;
            },
            44 => {
                self.coreml = value;
            },
            45 => {
                self.codex_runtimes = value;
            },
            46 => {
                self.selenium = value;
            },
            47 => {
                self.openai_python = value;
            },
            _ => {},
        }
    }
}

impl HomebrewSettings {
    /// The switch that a tag stands for, where it stands for one of these.
    pub open spec fn switch(self, tag: int) -> Option<bool> {
        if tag == 50 {
            Some(self.enabled)
        } else if tag == 51 {
            Some(self.autoremove)
        } else if tag == 52 {
            Some(self.old_versions)
        } else if tag == 53 {
            Some(self.cache)
        } else if tag == 54 {
            Some(self.temporary_builds)
        } else {
            None
        }
    }

    /// Reads the switch that `tag` stands for, where it stands for one of these.
    fn get_switch(&self, tag: isize) -> (value: Option<bool>)
        ensures
            value == self.switch(tag as int),
    {
        match tag {
            50 => Some(self.enabled),
            51 => Some(self.autoremove),
            52 => Some(self.old_versions),
            53 => Some(self.cache),
            54 => Some(self.temporary_builds),
            _ => None,
        }
    }

    /// Sets the switch that `tag` stands for, where it stands for one of these.
    fn set_switch(&mut self, tag: isize, value: bool)
        ensures
            forall|other: int|
                #![trigger final(self).switch(other)]
                final(self).switch(other) == replaced(old(self).switch(other), other == tag, value),
    {
        match tag {
            50 => {
                self.enabled = value;
            },
            51 => {
                self.autoremove = value;
            },
            52 => {
                self.old_versions = value;
            },
            53 => {
                self.cache = value;
            },
            54 => {
                self.temporary_builds = value;
            },
            _ => {},
        }
    }
}

impl DockerSettings {
    /// The switch that a tag stands for, where it stands for one of these.
    pub open spec fn switch(self, tag: int) -> Option<bool> {
        if tag == 60 {
            Some(self.enabled)
        } else if tag == 61 {
            Some(self.build_cache)
        } else if tag == 62 {
            Some(self.unused_images)
        } else if tag == 63 {
            Some(self.stopped_containers)
        } else if tag == 64 {
            Some(self.unused_networks)
        } else {
            None
        }
    }

    /// Reads the switch that `tag` stands for, where it stands for one of these.
    fn get_switch(&self, tag: isize) -> (value: Option<bool>)
        ensures
            value == self.switch(tag as int),
    {
        match tag {
            60 => Some(self.enabled),
            61 => Some(self.build_cache),
            62 => Some(self.unused_images),
            63 => Some(self.stopped_containers),
            64 => Some(self.unused_networks),
            _ => None,
        }
    }

    /// Sets the switch that `tag` stands for, where it stands for one of these.
    fn set_switch(&mut self, tag: isize, value: bool)
        ensures
            forall|other: int|
                #![trigger final(self).switch(other)]
                final(self).switch(other) == replaced(old(self).switch(other), other == tag, value),
    {
        match tag {
            60 => {
                self.enabled = value;
            },
            61 => {
                self.build_cache = value;
            },
            62 => {
                self.unused_images = value;
            },
            63 => {
                self.stopped_containers = value;
            },
            64 => {
                self.unused_networks = value;
            },
            _ => {},
        }
    }
}

impl PodmanSettings {
    /// The switch that a tag stands for, where it stands for one of these.
    pub open spec fn switch(self, tag: int) -> Option<bool> {
        if tag == 70 {
            Some(self.enabled)
        } else if tag == 71 {
            Some(self.cache)
        } else if tag == 72 {
            Some(self.stale_machines)
        } else {
            None
        }
    }

    /// The age in days that a tag stands for, where it stands for one of these.
    pub open spec fn age(self, tag: int) -> Option<u64> {
        if tag == 1005 {
            Some(self.stale_machine_days)
        } else {
            None
        }
    }

    /// Reads the switch that `tag` stands for, where it stands for one of these.
    fn get_switch(&self, tag: isize) -> (value: Option<bool>)
        ensures
            value == self.switch(tag as int),
    {
        match tag {
            70 => Some(self.enabled),
            71 => Some(self.cache),
            72 => Some(self.stale_machines),
            _ => None,
        }
    }

    /// Reads the age that `tag` stands for, where it stands for one of these.
    fn get_age(&self, tag: isize) -> (days: Option<u64>)
        ensures
            days == self.age(tag as int),
    {
        match tag {
            1005 => Some(self.stale_machine_days),
            _ => None,
        }
    }

    /// Sets the switch that `tag` stands for, where it stands for one of these.
    fn set_switch(&mut self, tag: isize, value: bool)
        ensures
            forall|other: int|
                #![trigger final(self).switch(other)]
                final(self).switch(other) == replaced(old(self).switch(other), other == tag, value),
            forall|other: int|
                #![trigger final(self).age(other)]
                final(self).age(other) == old(self).age(other),
    {
        match tag {
            70 => {
                self.enabled = value;
            },
            71 => {
                self.cache = value;
            },
            72 => {
                self.stale_machines = value;
            },
            _ => {},
        }
    }

    /// Sets the age that `tag` stands for, where it stands for one of these.
    fn set_age(&mut self, tag: isize, days: u64)
        ensures
            forall|other: int|
                #![trigger final(self).age(other)]
                final(self).age(other) == replaced(old(self).age(other), other == tag, days),
            forall|other: int|
                #![trigger final(self).switch(other)]
                final(self).switch(other) == old(self).switch(other),
    {
        match tag {
            1005 => {
                self.stale_machine_days = days;
            },
            _ => {},
        }
    }
}

impl MobileSettings {
    /// The switch that a tag stands for, where it stands for one of these.
    pub open spec fn switch(self, tag: int) -> Option<bool> {
        if tag == 80 {
            Some(self.delete_all_local_backups)
        } else {
            None
        }
    }

    /// Reads the switch that `tag` stands for, where it stands for one of these.
    fn get_switch(&self, tag: isize) -> (value: Option<bool>)
        ensures
            value == self.switch(tag as int),
    {
        match tag {
            80 => Some(self.delete_all_local_backups),
            _ => None,
        }
    }

    /// Sets the switch that `tag` stands for, where it stands for one of these.
    fn set_switch(&mut self, tag: isize, value: bool)
        ensures
            forall|other: int|
                #![trigger final(self).switch(other)]
                final(self).switch(other) == replaced(old(self).switch(other), other == tag, value),
    {
        match tag {
            80 => {
                self.delete_all_local_backups = value;
            },
            _ => {},
        }
    }
}

impl BehaviorSettings {
    /// The switch that a tag stands for, where it stands for one of these.
    pub open spec fn switch(self, tag: int) -> Option<bool> {
        if tag == 90 {
            Some(self.rescan_after_cleanup)
        } else if tag == 91 {
            Some(self.show_reclaimed_space)
        } else if tag == 92 {
            Some(self.write_log)
        } else {
            None
        }
    }

    /// Reads the switch that `tag` stands for, where it stands for one of these.
    fn get_switch(&self, tag: isize) -> (value: Option<bool>)
        ensures
            value == self.switch(tag as int),
    {
        match tag {
            90 => Some(self.rescan_after_cleanup),
            91 => Some(self.show_reclaimed_space),
            92 => Some(self.write_log),
            _ => None,
        }
    }

    /// Sets the switch that `tag` stands for, where it stands for one of these.
    fn set_switch(&mut self, tag: isize, value: bool)
        ensures
            forall|other: int|
                #![trigger final(self).switch(other)]
                final(self).switch(other) == replaced(old(self).switch(other), other == tag, value),
    {
        match tag {
            90 => {
                self.rescan_after_cleanup = value;
            },
            91 => {
                self.show_reclaimed_space = value;
            },
            92 => {
                self.write_log = value;
            },
            _ => {},
        }
    }
}

/// A value that is replaced where it is there and meant.
pub open spec fn replaced<T>(value: Option<T>, meant: bool, new: T) -> Option<T> {
    if value is Some && meant {
        Some(new)
    } else {
        value
    }
}

impl Settings {
    /// The switch that a tag stands for, where it stands for one.
    pub open spec fn switch(self, tag: int) -> Option<bool> {
        if tag <= 9 {
            self.macos.switch(tag)
        } else if tag <= 19 {
            self.browsers.switch(tag)
        } else if tag <= 39 {
            self.development.switch(tag)
        } else if tag <= 49 {
            self.ai_ml.switch(tag)
        } else if tag <= 59 {
            self.homebrew.switch(tag)
        } else if tag <= 69 {
            self.docker.switch(tag)
        } else if tag <= 79 {
            self.podman.switch(tag)
        } else if tag <= 89 {
            self.mobile.switch(tag)
        } else {
            self.behavior.switch(tag)
        }
    }

    /// The age in days that a tag stands for, where it stands for one.
    pub open spec fn age(self, tag: int) -> Option<u64> {
        if tag <= 1002 {
            self.macos.age(tag)
        } else if tag <= 1004 {
            self.development.age(tag)
        } else {
            self.podman.age(tag)
        }
    }
}

impl Settings {
    /// Reads the switch that `tag` stands for.
    pub fn get_bool_setting(&self, tag: isize) -> (value: Option<bool>)
        ensures
            value == self.switch(tag as int),
    {
        if tag <= 9 {
            self.macos.get_switch(tag)
        } else if tag <= 19 {
            self.browsers.get_switch(tag)
        } else if tag <= 39 {
            self.development.get_switch(tag)
        } else if tag <= 49 {
            self.ai_ml.get_switch(tag)
        } else if tag <= 59 {
            self.homebrew.get_switch(tag)
        } else if tag <= 69 {
            self.docker.get_switch(tag)
        } else if tag <= 79 {
            self.podman.get_switch(tag)
        } else if tag <= 89 {
            self.mobile.get_switch(tag)
        } else {
            self.behavior.get_switch(tag)
        }
    }

    /// Reads the age that `tag` stands for.
    pub fn get_age_setting(&self, tag: isize) -> (days: Option<u64>)
        ensures
            days == self.age(tag as int),
    {
        if tag <= 1002 {
            self.macos.get_age(tag)
        } else if tag <= 1004 {
            self.development.get_age(tag)
        } else {
            self.podman.get_age(tag)
        }
    }
}

/// Sets the switch that `tag` stands for. A tag that stands for none changes nothing.
pub fn set_bool_setting(settings: &mut Settings, tag: isize, value: bool)
    ensures
        forall|other: int|
            #![trigger final(settings).switch(other)]
            final(settings).switch(other) == replaced(
                old(settings).switch(other),
                other == tag,
                value,
            ),
        forall|other: int|
            #![trigger final(settings).age(other)]
            final(settings).age(other) == old(settings).age(other),
{
    if tag <= 9 {
        settings.macos.set_switch(tag, value);
    } else if tag <= 19 {
        settings.browsers.set_switch(tag, value);
    } else if tag <= 39 {
        settings.development.set_switch(tag, value);
    } else if tag <= 49 {
        settings.ai_ml.set_switch(tag, value);
    } else if tag <= 59 {
        settings.homebrew.set_switch(tag, value);
    } else if tag <= 69 {
        settings.docker.set_switch(tag, value);
    } else if tag <= 79 {
        settings.podman.set_switch(tag, value);
    } else if tag <= 89 {
        settings.mobile.set_switch(tag, value);
    } else {
        settings.behavior.set_switch(tag, value);
    }
}

/// The age that is meant by a number: none below zero.
pub open spec fn meant_age(value: isize) -> u64 {
    if value < 0 {
        0
    } else {
        value as u64
    }
}

/// Sets the age that `tag` stands for. A tag that stands for none changes nothing.
pub fn set_age_setting(settings: &mut Settings, tag: isize, value: isize)
    ensures
        forall|other: int|
            #![trigger final(settings).age(other)]
            final(settings).age(other) == replaced(
                old(settings).age(other),
                other == tag,
                meant_age(value),
            ),
        forall|other: int|
            #![trigger final(settings).switch(other)]
            final(settings).switch(other) == old(settings).switch(other),
{
    let days: u64 = if value < 0 {
        0
    } else {
        value as u64
    };
    if tag <= 1002 {
        settings.macos.set_age(tag, days);
    } else if tag <= 1004 {
        settings.development.set_age(tag, days);
    } else {
        settings.podman.set_age(tag, days);
    }
}

proof fn macos_are_their_tags(left: Settings, right: Settings)
    requires
        forall|tag: int| #[trigger] left.switch(tag) == right.switch(tag),
        forall|tag: int| #[trigger] left.age(tag) == right.age(tag),
    ensures
        left.macos == right.macos,
{
    assert(left.switch(1) == right.switch(1));
    assert(left.switch(2) == right.switch(2));
    assert(left.switch(3) == right.switch(3));
    assert(left.switch(4) == right.switch(4));
    assert(left.switch(5) == right.switch(5));
    assert(left.age(1001) == right.age(1001));
    assert(left.age(1002) == right.age(1002));
}

proof fn browsers_are_their_tags(left: Settings, right: Settings)
    requires
        forall|tag: int| #[trigger] left.switch(tag) == right.switch(tag),
    ensures
        left.browsers == right.browsers,
{
    assert(left.switch(10) == right.switch(10));
    assert(left.switch(11) == right.switch(11));
    assert(left.switch(12) == right.switch(12));
    assert(left.switch(13) == right.switch(13));
    assert(left.switch(14) == right.switch(14));
    assert(left.switch(15) == right.switch(15));
    assert(left.switch(16) == right.switch(16));
}

proof fn development_are_their_tags(left: Settings, right: Settings)
    requires
        forall|tag: int| #[trigger] left.switch(tag) == right.switch(tag),
        forall|tag: int| #[trigger] left.age(tag) == right.age(tag),
    ensures
        left.development == right.development,
{
    assert(left.switch(20) == right.switch(20));
    assert(left.switch(21) == right.switch(21));
    assert(left.switch(22) == right.switch(22));
    assert(left.switch(23) == right.switch(23));
    assert(left.switch(24) == right.switch(24));
    assert(left.switch(25) == right.switch(25));
    assert(left.switch(26) == right.switch(26));
    assert(left.switch(27) == right.switch(27));
    assert(left.switch(28) == right.switch(28));
    assert(left.switch(29) == right.switch(29));
    assert(left.switch(30) == right.switch(30));
    assert(left.switch(31) == right.switch(31));
    assert(left.age(1003) == right.age(1003));
    assert(left.age(1004) == right.age(1004));
}

proof fn ai_ml_are_their_tags(left: Settings, right: Settings)
    requires
        forall|tag: int| #[trigger] left.switch(tag) == right.switch(tag),
    ensures
        left.ai_ml == right.ai_ml,
{
    assert(left.switch(40) == right.switch(40));
    assert(left.switch(41) == right.switch(41));
    assert(left.switch(42) == right.switch(42));
    assert(left.switch(43) == right.switch(43));
    assert(left.switch(44) == right.switch(44));
    assert(left.switch(45) == right.switch(45));
    assert(left.switch(46) == right.switch(46));
    assert(left.switch(47) == right.switch(47));
}

proof fn homebrew_are_their_tags(left: Settings, right: Settings)
    requires
        forall|tag: int| #[trigger] left.switch(tag) == right.switch(tag),
    ensures
        left.homebrew == right.homebrew,
{
    assert(left.switch(50) == right.switch(50));
    assert(left.switch(51) == right.switch(51));
    assert(left.switch(52) == right.switch(52));
    assert(left.switch(53) == right.switch(53));
    assert(left.switch(54) == right.switch(54));
}

proof fn docker_are_their_tags(left: Settings, right: Settings)
    requires
        forall|tag: int| #[trigger] left.switch(tag) == right.switch(tag),
    ensures
        left.docker == right.docker,
{
    assert(left.switch(60) == right.switch(60));
    assert(left.switch(61) == right.switch(61));
    assert(left.switch(62) == right.switch(62));
    assert(left.switch(63) == right.switch(63));
    assert(left.switch(64) == right.switch(64));
}

proof fn podman_are_their_tags(left: Settings, right: Settings)
    requires
        forall|tag: int| #[trigger] left.switch(tag) == right.switch(tag),
        forall|tag: int| #[trigger] left.age(tag) == right.age(tag),
    ensures
        left.podman == right.podman,
{
    assert(left.switch(70) == right.switch(70));
    assert(left.switch(71) == right.switch(71));
    assert(left.switch(72) == right.switch(72));
    assert(left.age(1005) == right.age(1005));
}

proof fn mobile_are_their_tags(left: Settings, right: Settings)
    requires
        forall|tag: int| #[trigger] left.switch(tag) == right.switch(tag),
    ensures
        left.mobile == right.mobile,
{
    assert(left.switch(80) == right.switch(80));
}

proof fn behavior_are_their_tags(left: Settings, right: Settings)
    requires
        forall|tag: int| #[trigger] left.switch(tag) == right.switch(tag),
    ensures
        left.behavior == right.behavior,
{
    assert(left.switch(90) == right.switch(90));
    assert(left.switch(91) == right.switch(91));
    assert(left.switch(92) == right.switch(92));
}

/// Settings that agree in every switch and every age are the same.
pub proof fn settings_are_their_tags(left: Settings, right: Settings)
    requires
        forall|tag: int| #[trigger] left.switch(tag) == right.switch(tag),
        forall|tag: int| #[trigger] left.age(tag) == right.age(tag),
    ensures
        left == right,
{
    macos_are_their_tags(left, right);
    browsers_are_their_tags(left, right);
    development_are_their_tags(left, right);
    ai_ml_are_their_tags(left, right);
    homebrew_are_their_tags(left, right);
    docker_are_their_tags(left, right);
    podman_are_their_tags(left, right);
    mobile_are_their_tags(left, right);
    behavior_are_their_tags(left, right);
}

} // verus!
