//! What each switch and each age of the settings stands for, named by its field.

use super::screen::{
    ai_ml_rows, behavior_rows, browsers_rows, docker_rows, homebrew_rows, macos_rows, mobile_rows,
    podman_rows, protection_rows, row_elements, rows_elements, settings_rows, tools_rows,
    xcode_rows, Row,
};
use super::values::{
    meant_age, replaced, AiMlSettings, BehaviorSettings, BrowserSettings,
    DevelopmentSettings, DockerSettings, HomebrewSettings, MacosSettings, MobileSettings,
    PodmanSettings, Settings,
};
use crate::text::decimal;
use crate::windows::elements::{Frame, Ink, Seen};
use crate::windows::telling::{is_set, reads, stands_at};
use vstd::prelude::*;

verus! {

/// Whether setting the switch with a tag takes the settings from `before` to `after`.
pub open spec fn sets_switch(before: Settings, tag: isize, value: bool, after: Settings) -> bool {
    &&& forall|other: int|
        #![trigger after.switch(other)]
        after.switch(other) == replaced(before.switch(other), other == tag, value)
    &&& forall|other: int| #![trigger after.age(other)] after.age(other) == before.age(other)
}

/// Whether setting the age with a tag takes the settings from `before` to `after`.
pub open spec fn sets_age(before: Settings, tag: isize, value: isize, after: Settings) -> bool {
    &&& forall|other: int|
        #![trigger after.age(other)]
        after.age(other) == replaced(before.age(other), other == tag, meant_age(value))
    &&& forall|other: int|
        #![trigger after.switch(other)]
        after.switch(other) == before.switch(other)
}


/// The settings on a section stay where a tag names none of its switches.
proof fn macos_stays(before: Settings, tag: isize, value: bool, after: Settings)
    requires
        sets_switch(before, tag, value, after),
        !(1 <= tag <= 5),
    ensures
        after.macos == before.macos,
{
    assert(after.switch(1) == replaced(before.switch(1), false, value));
    assert(after.switch(2) == replaced(before.switch(2), false, value));
    assert(after.switch(3) == replaced(before.switch(3), false, value));
    assert(after.switch(4) == replaced(before.switch(4), false, value));
    assert(after.switch(5) == replaced(before.switch(5), false, value));
    assert(after.age(1001) == before.age(1001));
    assert(after.age(1002) == before.age(1002));
}

proof fn macos_changes(before: Settings, tag: isize, value: bool, after: Settings)
    requires
        sets_switch(before, tag, value, after),
    ensures
        after.macos.trash == (tag == 1 && value || tag != 1 && before.macos.trash),
        after.macos.application_caches == (tag == 2 && value || tag != 2 && before.macos.application_caches),
        after.macos.temporary_files == (tag == 3 && value || tag != 3 && before.macos.temporary_files),
        after.macos.logs == (tag == 4 && value || tag != 4 && before.macos.logs),
        after.macos.crash_reports == (tag == 5 && value || tag != 5 && before.macos.crash_reports),
        after.macos.temporary_min_age_days == before.macos.temporary_min_age_days,
        after.macos.logs_min_age_days == before.macos.logs_min_age_days,
{
    assert(after.macos.trash == (tag == 1 && value || tag != 1 && before.macos.trash)) by {
        assert(after.switch(1) == replaced(before.switch(1), 1 == tag, value));
    }
    assert(after.macos.application_caches == (tag == 2 && value || tag != 2 && before.macos.application_caches)) by {
        assert(after.switch(2) == replaced(before.switch(2), 2 == tag, value));
    }
    assert(after.macos.temporary_files == (tag == 3 && value || tag != 3 && before.macos.temporary_files)) by {
        assert(after.switch(3) == replaced(before.switch(3), 3 == tag, value));
    }
    assert(after.macos.logs == (tag == 4 && value || tag != 4 && before.macos.logs)) by {
        assert(after.switch(4) == replaced(before.switch(4), 4 == tag, value));
    }
    assert(after.macos.crash_reports == (tag == 5 && value || tag != 5 && before.macos.crash_reports)) by {
        assert(after.switch(5) == replaced(before.switch(5), 5 == tag, value));
    }
    assert(after.age(1001) == before.age(1001));
    assert(after.age(1002) == before.age(1002));
}

proof fn macos_switches_stay(before: Settings, tag: isize, value: isize, after: Settings)
    requires
        sets_age(before, tag, value, after),
    ensures
        tag == 1001 ==> after.macos == (MacosSettings { temporary_min_age_days: meant_age(value), ..before.macos }),
        tag == 1002 ==> after.macos == (MacosSettings { logs_min_age_days: meant_age(value), ..before.macos }),
        !(1001 <= tag <= 1002) ==> after.macos == before.macos,
{
    assert(after.switch(1) == before.switch(1));
    assert(after.switch(2) == before.switch(2));
    assert(after.switch(3) == before.switch(3));
    assert(after.switch(4) == before.switch(4));
    assert(after.switch(5) == before.switch(5));
    assert(after.age(1001) == replaced(before.age(1001), 1001 == tag, meant_age(value)));
    assert(after.age(1002) == replaced(before.age(1002), 1002 == tag, meant_age(value)));
}

/// The settings on a section stay where a tag names none of its switches.
proof fn browsers_stays(before: Settings, tag: isize, value: bool, after: Settings)
    requires
        sets_switch(before, tag, value, after),
        !(10 <= tag <= 16),
    ensures
        after.browsers == before.browsers,
{
    assert(after.switch(10) == replaced(before.switch(10), false, value));
    assert(after.switch(11) == replaced(before.switch(11), false, value));
    assert(after.switch(12) == replaced(before.switch(12), false, value));
    assert(after.switch(13) == replaced(before.switch(13), false, value));
    assert(after.switch(14) == replaced(before.switch(14), false, value));
    assert(after.switch(15) == replaced(before.switch(15), false, value));
    assert(after.switch(16) == replaced(before.switch(16), false, value));
}

proof fn browsers_changes(before: Settings, tag: isize, value: bool, after: Settings)
    requires
        sets_switch(before, tag, value, after),
    ensures
        after.browsers.chrome == (tag == 10 && value || tag != 10 && before.browsers.chrome),
        after.browsers.opera == (tag == 11 && value || tag != 11 && before.browsers.opera),
        after.browsers.firefox == (tag == 12 && value || tag != 12 && before.browsers.firefox),
        after.browsers.chromium == (tag == 13 && value || tag != 13 && before.browsers.chromium),
        after.browsers.brave == (tag == 14 && value || tag != 14 && before.browsers.brave),
        after.browsers.arc == (tag == 15 && value || tag != 15 && before.browsers.arc),
        after.browsers.safari == (tag == 16 && value || tag != 16 && before.browsers.safari),
{
    assert(after.browsers.chrome == (tag == 10 && value || tag != 10 && before.browsers.chrome)) by {
        assert(after.switch(10) == replaced(before.switch(10), 10 == tag, value));
    }
    assert(after.browsers.opera == (tag == 11 && value || tag != 11 && before.browsers.opera)) by {
        assert(after.switch(11) == replaced(before.switch(11), 11 == tag, value));
    }
    assert(after.browsers.firefox == (tag == 12 && value || tag != 12 && before.browsers.firefox)) by {
        assert(after.switch(12) == replaced(before.switch(12), 12 == tag, value));
    }
    assert(after.browsers.chromium == (tag == 13 && value || tag != 13 && before.browsers.chromium)) by {
        assert(after.switch(13) == replaced(before.switch(13), 13 == tag, value));
    }
    assert(after.browsers.brave == (tag == 14 && value || tag != 14 && before.browsers.brave)) by {
        assert(after.switch(14) == replaced(before.switch(14), 14 == tag, value));
    }
    assert(after.browsers.arc == (tag == 15 && value || tag != 15 && before.browsers.arc)) by {
        assert(after.switch(15) == replaced(before.switch(15), 15 == tag, value));
    }
    assert(after.browsers.safari == (tag == 16 && value || tag != 16 && before.browsers.safari)) by {
        assert(after.switch(16) == replaced(before.switch(16), 16 == tag, value));
    }
}

proof fn browsers_switches_stay(before: Settings, tag: isize, value: isize, after: Settings)
    requires
        sets_age(before, tag, value, after),
    ensures
        after.browsers == before.browsers,
{
    assert(after.switch(10) == before.switch(10));
    assert(after.switch(11) == before.switch(11));
    assert(after.switch(12) == before.switch(12));
    assert(after.switch(13) == before.switch(13));
    assert(after.switch(14) == before.switch(14));
    assert(after.switch(15) == before.switch(15));
    assert(after.switch(16) == before.switch(16));
}

/// The settings on a section stay where a tag names none of its switches.
proof fn development_stays(before: Settings, tag: isize, value: bool, after: Settings)
    requires
        sets_switch(before, tag, value, after),
        !(20 <= tag <= 31),
    ensures
        after.development == before.development,
{
    assert(after.switch(20) == replaced(before.switch(20), false, value));
    assert(after.switch(21) == replaced(before.switch(21), false, value));
    assert(after.switch(22) == replaced(before.switch(22), false, value));
    assert(after.switch(23) == replaced(before.switch(23), false, value));
    assert(after.switch(24) == replaced(before.switch(24), false, value));
    assert(after.switch(25) == replaced(before.switch(25), false, value));
    assert(after.switch(26) == replaced(before.switch(26), false, value));
    assert(after.switch(27) == replaced(before.switch(27), false, value));
    assert(after.switch(28) == replaced(before.switch(28), false, value));
    assert(after.switch(29) == replaced(before.switch(29), false, value));
    assert(after.switch(30) == replaced(before.switch(30), false, value));
    assert(after.switch(31) == replaced(before.switch(31), false, value));
    assert(after.age(1003) == before.age(1003));
    assert(after.age(1004) == before.age(1004));
}

proof fn development_changes(before: Settings, tag: isize, value: bool, after: Settings)
    requires
        sets_switch(before, tag, value, after),
    ensures
        after.development.xcode_derived_data == (tag == 20 && value || tag != 20 && before.development.xcode_derived_data),
        after.development.xcode_source_packages == (tag == 21 && value || tag != 21 && before.development.xcode_source_packages),
        after.development.unavailable_simulators == (tag == 22 && value || tag != 22 && before.development.unavailable_simulators),
        after.development.cargo == (tag == 23 && value || tag != 23 && before.development.cargo),
        after.development.npm == (tag == 24 && value || tag != 24 && before.development.npm),
        after.development.npx == (tag == 25 && value || tag != 25 && before.development.npx),
        after.development.pnpm == (tag == 26 && value || tag != 26 && before.development.pnpm),
        after.development.yarn == (tag == 27 && value || tag != 27 && before.development.yarn),
        after.development.pip == (tag == 28 && value || tag != 28 && before.development.pip),
        after.development.uv == (tag == 29 && value || tag != 29 && before.development.uv),
        after.development.gradle == (tag == 30 && value || tag != 30 && before.development.gradle),
        after.development.cocoapods == (tag == 31 && value || tag != 31 && before.development.cocoapods),
        after.development.xcode_source_packages_min_age_days == before.development.xcode_source_packages_min_age_days,
        after.development.gradle_min_age_days == before.development.gradle_min_age_days,
{
    assert(after.development.xcode_derived_data == (tag == 20 && value || tag != 20 && before.development.xcode_derived_data)) by {
        assert(after.switch(20) == replaced(before.switch(20), 20 == tag, value));
    }
    assert(after.development.xcode_source_packages == (tag == 21 && value || tag != 21 && before.development.xcode_source_packages)) by {
        assert(after.switch(21) == replaced(before.switch(21), 21 == tag, value));
    }
    assert(after.development.unavailable_simulators == (tag == 22 && value || tag != 22 && before.development.unavailable_simulators)) by {
        assert(after.switch(22) == replaced(before.switch(22), 22 == tag, value));
    }
    assert(after.development.cargo == (tag == 23 && value || tag != 23 && before.development.cargo)) by {
        assert(after.switch(23) == replaced(before.switch(23), 23 == tag, value));
    }
    assert(after.development.npm == (tag == 24 && value || tag != 24 && before.development.npm)) by {
        assert(after.switch(24) == replaced(before.switch(24), 24 == tag, value));
    }
    assert(after.development.npx == (tag == 25 && value || tag != 25 && before.development.npx)) by {
        assert(after.switch(25) == replaced(before.switch(25), 25 == tag, value));
    }
    assert(after.development.pnpm == (tag == 26 && value || tag != 26 && before.development.pnpm)) by {
        assert(after.switch(26) == replaced(before.switch(26), 26 == tag, value));
    }
    assert(after.development.yarn == (tag == 27 && value || tag != 27 && before.development.yarn)) by {
        assert(after.switch(27) == replaced(before.switch(27), 27 == tag, value));
    }
    assert(after.development.pip == (tag == 28 && value || tag != 28 && before.development.pip)) by {
        assert(after.switch(28) == replaced(before.switch(28), 28 == tag, value));
    }
    assert(after.development.uv == (tag == 29 && value || tag != 29 && before.development.uv)) by {
        assert(after.switch(29) == replaced(before.switch(29), 29 == tag, value));
    }
    assert(after.development.gradle == (tag == 30 && value || tag != 30 && before.development.gradle)) by {
        assert(after.switch(30) == replaced(before.switch(30), 30 == tag, value));
    }
    assert(after.development.cocoapods == (tag == 31 && value || tag != 31 && before.development.cocoapods)) by {
        assert(after.switch(31) == replaced(before.switch(31), 31 == tag, value));
    }
    assert(after.age(1003) == before.age(1003));
    assert(after.age(1004) == before.age(1004));
}

proof fn development_switches_stay(before: Settings, tag: isize, value: isize, after: Settings)
    requires
        sets_age(before, tag, value, after),
    ensures
        tag == 1003 ==> after.development == (DevelopmentSettings { xcode_source_packages_min_age_days: meant_age(value), ..before.development }),
        tag == 1004 ==> after.development == (DevelopmentSettings { gradle_min_age_days: meant_age(value), ..before.development }),
        !(1003 <= tag <= 1004) ==> after.development == before.development,
{
    assert(after.switch(20) == before.switch(20));
    assert(after.switch(21) == before.switch(21));
    assert(after.switch(22) == before.switch(22));
    assert(after.switch(23) == before.switch(23));
    assert(after.switch(24) == before.switch(24));
    assert(after.switch(25) == before.switch(25));
    assert(after.switch(26) == before.switch(26));
    assert(after.switch(27) == before.switch(27));
    assert(after.switch(28) == before.switch(28));
    assert(after.switch(29) == before.switch(29));
    assert(after.switch(30) == before.switch(30));
    assert(after.switch(31) == before.switch(31));
    assert(after.age(1003) == replaced(before.age(1003), 1003 == tag, meant_age(value)));
    assert(after.age(1004) == replaced(before.age(1004), 1004 == tag, meant_age(value)));
}

/// The settings on a section stay where a tag names none of its switches.
proof fn ai_ml_stays(before: Settings, tag: isize, value: bool, after: Settings)
    requires
        sets_switch(before, tag, value, after),
        !(40 <= tag <= 47),
    ensures
        after.ai_ml == before.ai_ml,
{
    assert(after.switch(40) == replaced(before.switch(40), false, value));
    assert(after.switch(41) == replaced(before.switch(41), false, value));
    assert(after.switch(42) == replaced(before.switch(42), false, value));
    assert(after.switch(43) == replaced(before.switch(43), false, value));
    assert(after.switch(44) == replaced(before.switch(44), false, value));
    assert(after.switch(45) == replaced(before.switch(45), false, value));
    assert(after.switch(46) == replaced(before.switch(46), false, value));
    assert(after.switch(47) == replaced(before.switch(47), false, value));
}

proof fn ai_ml_changes(before: Settings, tag: isize, value: bool, after: Settings)
    requires
        sets_switch(before, tag, value, after),
    ensures
        after.ai_ml.huggingface == (tag == 40 && value || tag != 40 && before.ai_ml.huggingface),
        after.ai_ml.torch == (tag == 41 && value || tag != 41 && before.ai_ml.torch),
        after.ai_ml.whisper == (tag == 42 && value || tag != 42 && before.ai_ml.whisper),
        after.ai_ml.clip == (tag == 43 && value || tag != 43 && before.ai_ml.clip),
        after.ai_ml.coreml == (tag == 44 && value || tag != 44 && before.ai_ml.coreml),
        after.ai_ml.codex_runtimes == (tag == 45 && value || tag != 45 && before.ai_ml.codex_runtimes),
        after.ai_ml.selenium == (tag == 46 && value || tag != 46 && before.ai_ml.selenium),
        after.ai_ml.openai_python == (tag == 47 && value || tag != 47 && before.ai_ml.openai_python),
{
    assert(after.ai_ml.huggingface == (tag == 40 && value || tag != 40 && before.ai_ml.huggingface)) by {
        assert(after.switch(40) == replaced(before.switch(40), 40 == tag, value));
    }
    assert(after.ai_ml.torch == (tag == 41 && value || tag != 41 && before.ai_ml.torch)) by {
        assert(after.switch(41) == replaced(before.switch(41), 41 == tag, value));
    }
    assert(after.ai_ml.whisper == (tag == 42 && value || tag != 42 && before.ai_ml.whisper)) by {
        assert(after.switch(42) == replaced(before.switch(42), 42 == tag, value));
    }
    assert(after.ai_ml.clip == (tag == 43 && value || tag != 43 && before.ai_ml.clip)) by {
        assert(after.switch(43) == replaced(before.switch(43), 43 == tag, value));
    }
    assert(after.ai_ml.coreml == (tag == 44 && value || tag != 44 && before.ai_ml.coreml)) by {
        assert(after.switch(44) == replaced(before.switch(44), 44 == tag, value));
    }
    assert(after.ai_ml.codex_runtimes == (tag == 45 && value || tag != 45 && before.ai_ml.codex_runtimes)) by {
        assert(after.switch(45) == replaced(before.switch(45), 45 == tag, value));
    }
    assert(after.ai_ml.selenium == (tag == 46 && value || tag != 46 && before.ai_ml.selenium)) by {
        assert(after.switch(46) == replaced(before.switch(46), 46 == tag, value));
    }
    assert(after.ai_ml.openai_python == (tag == 47 && value || tag != 47 && before.ai_ml.openai_python)) by {
        assert(after.switch(47) == replaced(before.switch(47), 47 == tag, value));
    }
}

proof fn ai_ml_switches_stay(before: Settings, tag: isize, value: isize, after: Settings)
    requires
        sets_age(before, tag, value, after),
    ensures
        after.ai_ml == before.ai_ml,
{
    assert(after.switch(40) == before.switch(40));
    assert(after.switch(41) == before.switch(41));
    assert(after.switch(42) == before.switch(42));
    assert(after.switch(43) == before.switch(43));
    assert(after.switch(44) == before.switch(44));
    assert(after.switch(45) == before.switch(45));
    assert(after.switch(46) == before.switch(46));
    assert(after.switch(47) == before.switch(47));
}

/// The settings on a section stay where a tag names none of its switches.
proof fn homebrew_stays(before: Settings, tag: isize, value: bool, after: Settings)
    requires
        sets_switch(before, tag, value, after),
        !(50 <= tag <= 54),
    ensures
        after.homebrew == before.homebrew,
{
    assert(after.switch(50) == replaced(before.switch(50), false, value));
    assert(after.switch(51) == replaced(before.switch(51), false, value));
    assert(after.switch(52) == replaced(before.switch(52), false, value));
    assert(after.switch(53) == replaced(before.switch(53), false, value));
    assert(after.switch(54) == replaced(before.switch(54), false, value));
}

proof fn homebrew_changes(before: Settings, tag: isize, value: bool, after: Settings)
    requires
        sets_switch(before, tag, value, after),
    ensures
        after.homebrew.enabled == (tag == 50 && value || tag != 50 && before.homebrew.enabled),
        after.homebrew.autoremove == (tag == 51 && value || tag != 51 && before.homebrew.autoremove),
        after.homebrew.old_versions == (tag == 52 && value || tag != 52 && before.homebrew.old_versions),
        after.homebrew.cache == (tag == 53 && value || tag != 53 && before.homebrew.cache),
        after.homebrew.temporary_builds == (tag == 54 && value || tag != 54 && before.homebrew.temporary_builds),
{
    assert(after.homebrew.enabled == (tag == 50 && value || tag != 50 && before.homebrew.enabled)) by {
        assert(after.switch(50) == replaced(before.switch(50), 50 == tag, value));
    }
    assert(after.homebrew.autoremove == (tag == 51 && value || tag != 51 && before.homebrew.autoremove)) by {
        assert(after.switch(51) == replaced(before.switch(51), 51 == tag, value));
    }
    assert(after.homebrew.old_versions == (tag == 52 && value || tag != 52 && before.homebrew.old_versions)) by {
        assert(after.switch(52) == replaced(before.switch(52), 52 == tag, value));
    }
    assert(after.homebrew.cache == (tag == 53 && value || tag != 53 && before.homebrew.cache)) by {
        assert(after.switch(53) == replaced(before.switch(53), 53 == tag, value));
    }
    assert(after.homebrew.temporary_builds == (tag == 54 && value || tag != 54 && before.homebrew.temporary_builds)) by {
        assert(after.switch(54) == replaced(before.switch(54), 54 == tag, value));
    }
}

proof fn homebrew_switches_stay(before: Settings, tag: isize, value: isize, after: Settings)
    requires
        sets_age(before, tag, value, after),
    ensures
        after.homebrew == before.homebrew,
{
    assert(after.switch(50) == before.switch(50));
    assert(after.switch(51) == before.switch(51));
    assert(after.switch(52) == before.switch(52));
    assert(after.switch(53) == before.switch(53));
    assert(after.switch(54) == before.switch(54));
}

/// The settings on a section stay where a tag names none of its switches.
proof fn docker_stays(before: Settings, tag: isize, value: bool, after: Settings)
    requires
        sets_switch(before, tag, value, after),
        !(60 <= tag <= 64),
    ensures
        after.docker == before.docker,
{
    assert(after.switch(60) == replaced(before.switch(60), false, value));
    assert(after.switch(61) == replaced(before.switch(61), false, value));
    assert(after.switch(62) == replaced(before.switch(62), false, value));
    assert(after.switch(63) == replaced(before.switch(63), false, value));
    assert(after.switch(64) == replaced(before.switch(64), false, value));
}

proof fn docker_changes(before: Settings, tag: isize, value: bool, after: Settings)
    requires
        sets_switch(before, tag, value, after),
    ensures
        after.docker.enabled == (tag == 60 && value || tag != 60 && before.docker.enabled),
        after.docker.build_cache == (tag == 61 && value || tag != 61 && before.docker.build_cache),
        after.docker.unused_images == (tag == 62 && value || tag != 62 && before.docker.unused_images),
        after.docker.stopped_containers == (tag == 63 && value || tag != 63 && before.docker.stopped_containers),
        after.docker.unused_networks == (tag == 64 && value || tag != 64 && before.docker.unused_networks),
{
    assert(after.docker.enabled == (tag == 60 && value || tag != 60 && before.docker.enabled)) by {
        assert(after.switch(60) == replaced(before.switch(60), 60 == tag, value));
    }
    assert(after.docker.build_cache == (tag == 61 && value || tag != 61 && before.docker.build_cache)) by {
        assert(after.switch(61) == replaced(before.switch(61), 61 == tag, value));
    }
    assert(after.docker.unused_images == (tag == 62 && value || tag != 62 && before.docker.unused_images)) by {
        assert(after.switch(62) == replaced(before.switch(62), 62 == tag, value));
    }
    assert(after.docker.stopped_containers == (tag == 63 && value || tag != 63 && before.docker.stopped_containers)) by {
        assert(after.switch(63) == replaced(before.switch(63), 63 == tag, value));
    }
    assert(after.docker.unused_networks == (tag == 64 && value || tag != 64 && before.docker.unused_networks)) by {
        assert(after.switch(64) == replaced(before.switch(64), 64 == tag, value));
    }
}

proof fn docker_switches_stay(before: Settings, tag: isize, value: isize, after: Settings)
    requires
        sets_age(before, tag, value, after),
    ensures
        after.docker == before.docker,
{
    assert(after.switch(60) == before.switch(60));
    assert(after.switch(61) == before.switch(61));
    assert(after.switch(62) == before.switch(62));
    assert(after.switch(63) == before.switch(63));
    assert(after.switch(64) == before.switch(64));
}

/// The settings on a section stay where a tag names none of its switches.
proof fn podman_stays(before: Settings, tag: isize, value: bool, after: Settings)
    requires
        sets_switch(before, tag, value, after),
        !(70 <= tag <= 72),
    ensures
        after.podman == before.podman,
{
    assert(after.switch(70) == replaced(before.switch(70), false, value));
    assert(after.switch(71) == replaced(before.switch(71), false, value));
    assert(after.switch(72) == replaced(before.switch(72), false, value));
    assert(after.age(1005) == before.age(1005));
}

proof fn podman_changes(before: Settings, tag: isize, value: bool, after: Settings)
    requires
        sets_switch(before, tag, value, after),
    ensures
        after.podman.enabled == (tag == 70 && value || tag != 70 && before.podman.enabled),
        after.podman.cache == (tag == 71 && value || tag != 71 && before.podman.cache),
        after.podman.stale_machines == (tag == 72 && value || tag != 72 && before.podman.stale_machines),
        after.podman.stale_machine_days == before.podman.stale_machine_days,
{
    assert(after.podman.enabled == (tag == 70 && value || tag != 70 && before.podman.enabled)) by {
        assert(after.switch(70) == replaced(before.switch(70), 70 == tag, value));
    }
    assert(after.podman.cache == (tag == 71 && value || tag != 71 && before.podman.cache)) by {
        assert(after.switch(71) == replaced(before.switch(71), 71 == tag, value));
    }
    assert(after.podman.stale_machines == (tag == 72 && value || tag != 72 && before.podman.stale_machines)) by {
        assert(after.switch(72) == replaced(before.switch(72), 72 == tag, value));
    }
    assert(after.age(1005) == before.age(1005));
}

proof fn podman_switches_stay(before: Settings, tag: isize, value: isize, after: Settings)
    requires
        sets_age(before, tag, value, after),
    ensures
        tag == 1005 ==> after.podman == (PodmanSettings { stale_machine_days: meant_age(value), ..before.podman }),
        !(1005 <= tag <= 1005) ==> after.podman == before.podman,
{
    assert(after.switch(70) == before.switch(70));
    assert(after.switch(71) == before.switch(71));
    assert(after.switch(72) == before.switch(72));
    assert(after.age(1005) == replaced(before.age(1005), 1005 == tag, meant_age(value)));
}

/// The settings on a section stay where a tag names none of its switches.
proof fn mobile_stays(before: Settings, tag: isize, value: bool, after: Settings)
    requires
        sets_switch(before, tag, value, after),
        !(80 <= tag <= 80),
    ensures
        after.mobile == before.mobile,
{
    assert(after.switch(80) == replaced(before.switch(80), false, value));
}

proof fn mobile_changes(before: Settings, tag: isize, value: bool, after: Settings)
    requires
        sets_switch(before, tag, value, after),
    ensures
        after.mobile.delete_all_local_backups == (tag == 80 && value || tag != 80 && before.mobile.delete_all_local_backups),
{
    assert(after.mobile.delete_all_local_backups == (tag == 80 && value || tag != 80 && before.mobile.delete_all_local_backups)) by {
        assert(after.switch(80) == replaced(before.switch(80), 80 == tag, value));
    }
}

proof fn mobile_switches_stay(before: Settings, tag: isize, value: isize, after: Settings)
    requires
        sets_age(before, tag, value, after),
    ensures
        after.mobile == before.mobile,
{
    assert(after.switch(80) == before.switch(80));
}

/// The settings on a section stay where a tag names none of its switches.
proof fn behavior_stays(before: Settings, tag: isize, value: bool, after: Settings)
    requires
        sets_switch(before, tag, value, after),
        !(90 <= tag <= 92),
    ensures
        after.behavior == before.behavior,
{
    assert(after.switch(90) == replaced(before.switch(90), false, value));
    assert(after.switch(91) == replaced(before.switch(91), false, value));
    assert(after.switch(92) == replaced(before.switch(92), false, value));
}

proof fn behavior_changes(before: Settings, tag: isize, value: bool, after: Settings)
    requires
        sets_switch(before, tag, value, after),
    ensures
        after.behavior.rescan_after_cleanup == (tag == 90 && value || tag != 90 && before.behavior.rescan_after_cleanup),
        after.behavior.show_reclaimed_space == (tag == 91 && value || tag != 91 && before.behavior.show_reclaimed_space),
        after.behavior.write_log == (tag == 92 && value || tag != 92 && before.behavior.write_log),
{
    assert(after.behavior.rescan_after_cleanup == (tag == 90 && value || tag != 90 && before.behavior.rescan_after_cleanup)) by {
        assert(after.switch(90) == replaced(before.switch(90), 90 == tag, value));
    }
    assert(after.behavior.show_reclaimed_space == (tag == 91 && value || tag != 91 && before.behavior.show_reclaimed_space)) by {
        assert(after.switch(91) == replaced(before.switch(91), 91 == tag, value));
    }
    assert(after.behavior.write_log == (tag == 92 && value || tag != 92 && before.behavior.write_log)) by {
        assert(after.switch(92) == replaced(before.switch(92), 92 == tag, value));
    }
}

proof fn behavior_switches_stay(before: Settings, tag: isize, value: isize, after: Settings)
    requires
        sets_age(before, tag, value, after),
    ensures
        after.behavior == before.behavior,
{
    assert(after.switch(90) == before.switch(90));
    assert(after.switch(91) == before.switch(91));
    assert(after.switch(92) == before.switch(92));
}

/// A tag of the switches on the system changes the field that it names and no other.
pub proof fn macos_switches_change_their_field(
    before: Settings,
    tag: isize,
    value: bool,
    after: Settings,
)
    requires
        sets_switch(before, tag, value, after),
    ensures
        tag == 1 ==> after == (Settings {
            macos: MacosSettings { trash: value, ..before.macos },
            ..before
        }),
        tag == 2 ==> after == (Settings {
            macos: MacosSettings { application_caches: value, ..before.macos },
            ..before
        }),
        tag == 3 ==> after == (Settings {
            macos: MacosSettings { temporary_files: value, ..before.macos },
            ..before
        }),
        tag == 4 ==> after == (Settings {
            macos: MacosSettings { logs: value, ..before.macos },
            ..before
        }),
        tag == 5 ==> after == (Settings {
            macos: MacosSettings { crash_reports: value, ..before.macos },
            ..before
        }),
{
    if 1 <= tag <= 5 {
        browsers_stays(before, tag, value, after);
        development_stays(before, tag, value, after);
        ai_ml_stays(before, tag, value, after);
        homebrew_stays(before, tag, value, after);
        docker_stays(before, tag, value, after);
        podman_stays(before, tag, value, after);
        mobile_stays(before, tag, value, after);
        behavior_stays(before, tag, value, after);
        macos_changes(before, tag, value, after);
    }
}

/// A tag of the switches on browsers changes the field that it names and no other.
pub proof fn browsers_switches_change_their_field(
    before: Settings,
    tag: isize,
    value: bool,
    after: Settings,
)
    requires
        sets_switch(before, tag, value, after),
    ensures
        tag == 10 ==> after == (Settings {
            browsers: BrowserSettings { chrome: value, ..before.browsers },
            ..before
        }),
        tag == 11 ==> after == (Settings {
            browsers: BrowserSettings { opera: value, ..before.browsers },
            ..before
        }),
        tag == 12 ==> after == (Settings {
            browsers: BrowserSettings { firefox: value, ..before.browsers },
            ..before
        }),
        tag == 13 ==> after == (Settings {
            browsers: BrowserSettings { chromium: value, ..before.browsers },
            ..before
        }),
        tag == 14 ==> after == (Settings {
            browsers: BrowserSettings { brave: value, ..before.browsers },
            ..before
        }),
        tag == 15 ==> after == (Settings {
            browsers: BrowserSettings { arc: value, ..before.browsers },
            ..before
        }),
        tag == 16 ==> after == (Settings {
            browsers: BrowserSettings { safari: value, ..before.browsers },
            ..before
        }),
{
    if 10 <= tag <= 16 {
        macos_stays(before, tag, value, after);
        development_stays(before, tag, value, after);
        ai_ml_stays(before, tag, value, after);
        homebrew_stays(before, tag, value, after);
        docker_stays(before, tag, value, after);
        podman_stays(before, tag, value, after);
        mobile_stays(before, tag, value, after);
        behavior_stays(before, tag, value, after);
        browsers_changes(before, tag, value, after);
    }
}

/// A tag of the switches on development tools changes the field that it names and no other.
pub proof fn development_switches_change_their_field(
    before: Settings,
    tag: isize,
    value: bool,
    after: Settings,
)
    requires
        sets_switch(before, tag, value, after),
    ensures
        tag == 20 ==> after == (Settings {
            development: DevelopmentSettings { xcode_derived_data: value, ..before.development },
            ..before
        }),
        tag == 21 ==> after == (Settings {
            development: DevelopmentSettings { xcode_source_packages: value, ..before.development },
            ..before
        }),
        tag == 22 ==> after == (Settings {
            development: DevelopmentSettings { unavailable_simulators: value, ..before.development },
            ..before
        }),
        tag == 23 ==> after == (Settings {
            development: DevelopmentSettings { cargo: value, ..before.development },
            ..before
        }),
        tag == 24 ==> after == (Settings {
            development: DevelopmentSettings { npm: value, ..before.development },
            ..before
        }),
        tag == 25 ==> after == (Settings {
            development: DevelopmentSettings { npx: value, ..before.development },
            ..before
        }),
        tag == 26 ==> after == (Settings {
            development: DevelopmentSettings { pnpm: value, ..before.development },
            ..before
        }),
        tag == 27 ==> after == (Settings {
            development: DevelopmentSettings { yarn: value, ..before.development },
            ..before
        }),
        tag == 28 ==> after == (Settings {
            development: DevelopmentSettings { pip: value, ..before.development },
            ..before
        }),
        tag == 29 ==> after == (Settings {
            development: DevelopmentSettings { uv: value, ..before.development },
            ..before
        }),
        tag == 30 ==> after == (Settings {
            development: DevelopmentSettings { gradle: value, ..before.development },
            ..before
        }),
        tag == 31 ==> after == (Settings {
            development: DevelopmentSettings { cocoapods: value, ..before.development },
            ..before
        }),
{
    if 20 <= tag <= 31 {
        macos_stays(before, tag, value, after);
        browsers_stays(before, tag, value, after);
        ai_ml_stays(before, tag, value, after);
        homebrew_stays(before, tag, value, after);
        docker_stays(before, tag, value, after);
        podman_stays(before, tag, value, after);
        mobile_stays(before, tag, value, after);
        behavior_stays(before, tag, value, after);
        development_changes(before, tag, value, after);
    }
}

/// A tag of the switches on machine learning changes the field that it names and no other.
pub proof fn ai_ml_switches_change_their_field(
    before: Settings,
    tag: isize,
    value: bool,
    after: Settings,
)
    requires
        sets_switch(before, tag, value, after),
    ensures
        tag == 40 ==> after == (Settings {
            ai_ml: AiMlSettings { huggingface: value, ..before.ai_ml },
            ..before
        }),
        tag == 41 ==> after == (Settings {
            ai_ml: AiMlSettings { torch: value, ..before.ai_ml },
            ..before
        }),
        tag == 42 ==> after == (Settings {
            ai_ml: AiMlSettings { whisper: value, ..before.ai_ml },
            ..before
        }),
        tag == 43 ==> after == (Settings {
            ai_ml: AiMlSettings { clip: value, ..before.ai_ml },
            ..before
        }),
        tag == 44 ==> after == (Settings {
            ai_ml: AiMlSettings { coreml: value, ..before.ai_ml },
            ..before
        }),
        tag == 45 ==> after == (Settings {
            ai_ml: AiMlSettings { codex_runtimes: value, ..before.ai_ml },
            ..before
        }),
        tag == 46 ==> after == (Settings {
            ai_ml: AiMlSettings { selenium: value, ..before.ai_ml },
            ..before
        }),
        tag == 47 ==> after == (Settings {
            ai_ml: AiMlSettings { openai_python: value, ..before.ai_ml },
            ..before
        }),
{
    if 40 <= tag <= 47 {
        macos_stays(before, tag, value, after);
        browsers_stays(before, tag, value, after);
        development_stays(before, tag, value, after);
        homebrew_stays(before, tag, value, after);
        docker_stays(before, tag, value, after);
        podman_stays(before, tag, value, after);
        mobile_stays(before, tag, value, after);
        behavior_stays(before, tag, value, after);
        ai_ml_changes(before, tag, value, after);
    }
}

/// A tag of the switches on Homebrew changes the field that it names and no other.
pub proof fn homebrew_switches_change_their_field(
    before: Settings,
    tag: isize,
    value: bool,
    after: Settings,
)
    requires
        sets_switch(before, tag, value, after),
    ensures
        tag == 50 ==> after == (Settings {
            homebrew: HomebrewSettings { enabled: value, ..before.homebrew },
            ..before
        }),
        tag == 51 ==> after == (Settings {
            homebrew: HomebrewSettings { autoremove: value, ..before.homebrew },
            ..before
        }),
        tag == 52 ==> after == (Settings {
            homebrew: HomebrewSettings { old_versions: value, ..before.homebrew },
            ..before
        }),
        tag == 53 ==> after == (Settings {
            homebrew: HomebrewSettings { cache: value, ..before.homebrew },
            ..before
        }),
        tag == 54 ==> after == (Settings {
            homebrew: HomebrewSettings { temporary_builds: value, ..before.homebrew },
            ..before
        }),
{
    if 50 <= tag <= 54 {
        macos_stays(before, tag, value, after);
        browsers_stays(before, tag, value, after);
        development_stays(before, tag, value, after);
        ai_ml_stays(before, tag, value, after);
        docker_stays(before, tag, value, after);
        podman_stays(before, tag, value, after);
        mobile_stays(before, tag, value, after);
        behavior_stays(before, tag, value, after);
        homebrew_changes(before, tag, value, after);
    }
}

/// A tag of the switches on Docker changes the field that it names and no other.
pub proof fn docker_switches_change_their_field(
    before: Settings,
    tag: isize,
    value: bool,
    after: Settings,
)
    requires
        sets_switch(before, tag, value, after),
    ensures
        tag == 60 ==> after == (Settings {
            docker: DockerSettings { enabled: value, ..before.docker },
            ..before
        }),
        tag == 61 ==> after == (Settings {
            docker: DockerSettings { build_cache: value, ..before.docker },
            ..before
        }),
        tag == 62 ==> after == (Settings {
            docker: DockerSettings { unused_images: value, ..before.docker },
            ..before
        }),
        tag == 63 ==> after == (Settings {
            docker: DockerSettings { stopped_containers: value, ..before.docker },
            ..before
        }),
        tag == 64 ==> after == (Settings {
            docker: DockerSettings { unused_networks: value, ..before.docker },
            ..before
        }),
{
    if 60 <= tag <= 64 {
        macos_stays(before, tag, value, after);
        browsers_stays(before, tag, value, after);
        development_stays(before, tag, value, after);
        ai_ml_stays(before, tag, value, after);
        homebrew_stays(before, tag, value, after);
        podman_stays(before, tag, value, after);
        mobile_stays(before, tag, value, after);
        behavior_stays(before, tag, value, after);
        docker_changes(before, tag, value, after);
    }
}

/// A tag of the switches on Podman changes the field that it names and no other.
pub proof fn podman_switches_change_their_field(
    before: Settings,
    tag: isize,
    value: bool,
    after: Settings,
)
    requires
        sets_switch(before, tag, value, after),
    ensures
        tag == 70 ==> after == (Settings {
            podman: PodmanSettings { enabled: value, ..before.podman },
            ..before
        }),
        tag == 71 ==> after == (Settings {
            podman: PodmanSettings { cache: value, ..before.podman },
            ..before
        }),
        tag == 72 ==> after == (Settings {
            podman: PodmanSettings { stale_machines: value, ..before.podman },
            ..before
        }),
{
    if 70 <= tag <= 72 {
        macos_stays(before, tag, value, after);
        browsers_stays(before, tag, value, after);
        development_stays(before, tag, value, after);
        ai_ml_stays(before, tag, value, after);
        homebrew_stays(before, tag, value, after);
        docker_stays(before, tag, value, after);
        mobile_stays(before, tag, value, after);
        behavior_stays(before, tag, value, after);
        podman_changes(before, tag, value, after);
    }
}

/// A tag of the switches on mobile devices changes the field that it names and no other.
pub proof fn mobile_switches_change_their_field(
    before: Settings,
    tag: isize,
    value: bool,
    after: Settings,
)
    requires
        sets_switch(before, tag, value, after),
    ensures
        tag == 80 ==> after == (Settings {
            mobile: MobileSettings { delete_all_local_backups: value },
            ..before
        }),
{
    if 80 <= tag <= 80 {
        macos_stays(before, tag, value, after);
        browsers_stays(before, tag, value, after);
        development_stays(before, tag, value, after);
        ai_ml_stays(before, tag, value, after);
        homebrew_stays(before, tag, value, after);
        docker_stays(before, tag, value, after);
        podman_stays(before, tag, value, after);
        behavior_stays(before, tag, value, after);
        mobile_changes(before, tag, value, after);
    }
}

/// A tag of the switches on what follows on a cleanup changes the field that it names and no other.
pub proof fn behavior_switches_change_their_field(
    before: Settings,
    tag: isize,
    value: bool,
    after: Settings,
)
    requires
        sets_switch(before, tag, value, after),
    ensures
        tag == 90 ==> after == (Settings {
            behavior: BehaviorSettings { rescan_after_cleanup: value, ..before.behavior },
            ..before
        }),
        tag == 91 ==> after == (Settings {
            behavior: BehaviorSettings { show_reclaimed_space: value, ..before.behavior },
            ..before
        }),
        tag == 92 ==> after == (Settings {
            behavior: BehaviorSettings { write_log: value, ..before.behavior },
            ..before
        }),
{
    if 90 <= tag <= 92 {
        macos_stays(before, tag, value, after);
        browsers_stays(before, tag, value, after);
        development_stays(before, tag, value, after);
        ai_ml_stays(before, tag, value, after);
        homebrew_stays(before, tag, value, after);
        docker_stays(before, tag, value, after);
        podman_stays(before, tag, value, after);
        mobile_stays(before, tag, value, after);
        behavior_changes(before, tag, value, after);
    }
}

/// A tag of an age changes the field that it names and no other, to the number of days, or to
/// none where the number is negative.
pub proof fn ages_change_their_field(before: Settings, tag: isize, value: isize, after: Settings)
    requires
        sets_age(before, tag, value, after),
    ensures
        tag == 1001 ==> after == (Settings {
            macos: MacosSettings { temporary_min_age_days: after.macos.temporary_min_age_days, ..before.macos },
            ..before
        }) && (value >= 0 ==> after.macos.temporary_min_age_days == value) && (value < 0 ==> after.macos.temporary_min_age_days == 0),
        tag == 1002 ==> after == (Settings {
            macos: MacosSettings { logs_min_age_days: after.macos.logs_min_age_days, ..before.macos },
            ..before
        }) && (value >= 0 ==> after.macos.logs_min_age_days == value) && (value < 0 ==> after.macos.logs_min_age_days == 0),
        tag == 1003 ==> after == (Settings {
            development: DevelopmentSettings { xcode_source_packages_min_age_days: after.development.xcode_source_packages_min_age_days, ..before.development },
            ..before
        }) && (value >= 0 ==> after.development.xcode_source_packages_min_age_days == value) && (value < 0 ==> after.development.xcode_source_packages_min_age_days == 0),
        tag == 1004 ==> after == (Settings {
            development: DevelopmentSettings { gradle_min_age_days: after.development.gradle_min_age_days, ..before.development },
            ..before
        }) && (value >= 0 ==> after.development.gradle_min_age_days == value) && (value < 0 ==> after.development.gradle_min_age_days == 0),
        tag == 1005 ==> after == (Settings {
            podman: PodmanSettings { stale_machine_days: after.podman.stale_machine_days, ..before.podman },
            ..before
        }) && (value >= 0 ==> after.podman.stale_machine_days == value) && (value < 0 ==> after.podman.stale_machine_days == 0),
{
    macos_switches_stay(before, tag, value, after);
    browsers_switches_stay(before, tag, value, after);
    development_switches_stay(before, tag, value, after);
    ai_ml_switches_stay(before, tag, value, after);
    homebrew_switches_stay(before, tag, value, after);
    docker_switches_stay(before, tag, value, after);
    podman_switches_stay(before, tag, value, after);
    mobile_switches_stay(before, tag, value, after);
    behavior_switches_stay(before, tag, value, after);
}

/// A tag that names no switch changes no switch.
pub proof fn unknown_switches_change_nothing(
    before: Settings,
    tag: isize,
    value: bool,
    after: Settings,
)
    requires
        sets_switch(before, tag, value, after),
        !(1 <= tag <= 5 || 10 <= tag <= 16 || 20 <= tag <= 31 || 40 <= tag <= 47 || 50 <= tag <= 54
            || 60 <= tag <= 64 || 70 <= tag <= 72 || tag == 80 || 90 <= tag <= 92),
    ensures
        after == before,
{
    macos_stays(before, tag, value, after);
    browsers_stays(before, tag, value, after);
    development_stays(before, tag, value, after);
    ai_ml_stays(before, tag, value, after);
    homebrew_stays(before, tag, value, after);
    docker_stays(before, tag, value, after);
    podman_stays(before, tag, value, after);
    mobile_stays(before, tag, value, after);
    behavior_stays(before, tag, value, after);
}

/// A tag that names no age changes no age.
pub proof fn unknown_ages_change_nothing(
    before: Settings,
    tag: isize,
    days: isize,
    after: Settings,
)
    requires
        sets_age(before, tag, days, after),
        !(1001 <= tag <= 1005),
    ensures
        after == before,
{
    macos_switches_stay(before, tag, days, after);
    browsers_switches_stay(before, tag, days, after);
    development_switches_stay(before, tag, days, after);
    ai_ml_switches_stay(before, tag, days, after);
    homebrew_switches_stay(before, tag, days, after);
    docker_switches_stay(before, tag, days, after);
    podman_switches_stay(before, tag, days, after);
    mobile_switches_stay(before, tag, days, after);
    behavior_switches_stay(before, tag, days, after);
}

/// A tag reads the field that it names.
pub proof fn tags_read_their_field(settings: Settings, tag: isize)
    ensures
        tag == 1 ==> settings.switch(tag as int) == Some(settings.macos.trash),
        tag == 2 ==> settings.switch(tag as int) == Some(settings.macos.application_caches),
        tag == 3 ==> settings.switch(tag as int) == Some(settings.macos.temporary_files),
        tag == 4 ==> settings.switch(tag as int) == Some(settings.macos.logs),
        tag == 5 ==> settings.switch(tag as int) == Some(settings.macos.crash_reports),
        tag == 10 ==> settings.switch(tag as int) == Some(settings.browsers.chrome),
        tag == 11 ==> settings.switch(tag as int) == Some(settings.browsers.opera),
        tag == 12 ==> settings.switch(tag as int) == Some(settings.browsers.firefox),
        tag == 13 ==> settings.switch(tag as int) == Some(settings.browsers.chromium),
        tag == 14 ==> settings.switch(tag as int) == Some(settings.browsers.brave),
        tag == 15 ==> settings.switch(tag as int) == Some(settings.browsers.arc),
        tag == 16 ==> settings.switch(tag as int) == Some(settings.browsers.safari),
        tag == 20 ==> settings.switch(tag as int) == Some(settings.development.xcode_derived_data),
        tag == 21 ==> settings.switch(tag as int) == Some(settings.development.xcode_source_packages),
        tag == 22 ==> settings.switch(tag as int) == Some(settings.development.unavailable_simulators),
        tag == 23 ==> settings.switch(tag as int) == Some(settings.development.cargo),
        tag == 24 ==> settings.switch(tag as int) == Some(settings.development.npm),
        tag == 25 ==> settings.switch(tag as int) == Some(settings.development.npx),
        tag == 26 ==> settings.switch(tag as int) == Some(settings.development.pnpm),
        tag == 27 ==> settings.switch(tag as int) == Some(settings.development.yarn),
        tag == 28 ==> settings.switch(tag as int) == Some(settings.development.pip),
        tag == 29 ==> settings.switch(tag as int) == Some(settings.development.uv),
        tag == 30 ==> settings.switch(tag as int) == Some(settings.development.gradle),
        tag == 31 ==> settings.switch(tag as int) == Some(settings.development.cocoapods),
        tag == 40 ==> settings.switch(tag as int) == Some(settings.ai_ml.huggingface),
        tag == 41 ==> settings.switch(tag as int) == Some(settings.ai_ml.torch),
        tag == 42 ==> settings.switch(tag as int) == Some(settings.ai_ml.whisper),
        tag == 43 ==> settings.switch(tag as int) == Some(settings.ai_ml.clip),
        tag == 44 ==> settings.switch(tag as int) == Some(settings.ai_ml.coreml),
        tag == 45 ==> settings.switch(tag as int) == Some(settings.ai_ml.codex_runtimes),
        tag == 46 ==> settings.switch(tag as int) == Some(settings.ai_ml.selenium),
        tag == 47 ==> settings.switch(tag as int) == Some(settings.ai_ml.openai_python),
        tag == 50 ==> settings.switch(tag as int) == Some(settings.homebrew.enabled),
        tag == 51 ==> settings.switch(tag as int) == Some(settings.homebrew.autoremove),
        tag == 52 ==> settings.switch(tag as int) == Some(settings.homebrew.old_versions),
        tag == 53 ==> settings.switch(tag as int) == Some(settings.homebrew.cache),
        tag == 54 ==> settings.switch(tag as int) == Some(settings.homebrew.temporary_builds),
        tag == 60 ==> settings.switch(tag as int) == Some(settings.docker.enabled),
        tag == 61 ==> settings.switch(tag as int) == Some(settings.docker.build_cache),
        tag == 62 ==> settings.switch(tag as int) == Some(settings.docker.unused_images),
        tag == 63 ==> settings.switch(tag as int) == Some(settings.docker.stopped_containers),
        tag == 64 ==> settings.switch(tag as int) == Some(settings.docker.unused_networks),
        tag == 70 ==> settings.switch(tag as int) == Some(settings.podman.enabled),
        tag == 71 ==> settings.switch(tag as int) == Some(settings.podman.cache),
        tag == 72 ==> settings.switch(tag as int) == Some(settings.podman.stale_machines),
        tag == 80 ==> settings.switch(tag as int) == Some(settings.mobile.delete_all_local_backups),
        tag == 90 ==> settings.switch(tag as int) == Some(settings.behavior.rescan_after_cleanup),
        tag == 91 ==> settings.switch(tag as int) == Some(settings.behavior.show_reclaimed_space),
        tag == 92 ==> settings.switch(tag as int) == Some(settings.behavior.write_log),
        tag == 1001 ==> settings.age(tag as int) == Some(settings.macos.temporary_min_age_days),
        tag == 1002 ==> settings.age(tag as int) == Some(settings.macos.logs_min_age_days),
        tag == 1003 ==> settings.age(tag as int) == Some(settings.development.xcode_source_packages_min_age_days),
        tag == 1004 ==> settings.age(tag as int) == Some(settings.development.gradle_min_age_days),
        tag == 1005 ==> settings.age(tag as int) == Some(settings.podman.stale_machine_days),
        !(1 <= tag <= 5 || 10 <= tag <= 16 || 20 <= tag <= 31 || 40 <= tag <= 47 || 50 <= tag <= 54
            || 60 <= tag <= 64 || 70 <= tag <= 72 || tag == 80 || 90 <= tag <= 92) ==> settings.switch(
            tag as int,
        ) is None,
        !(1001 <= tag <= 1005) ==> settings.age(tag as int) is None,
{
}

/// Whether the window has a box of this title with this tag at this place, marked or not, to
/// be changed or not.
pub open spec fn has_box(
    settings: Settings,
    title: Seq<char>,
    tag: isize,
    on: bool,
    enabled: bool,
    frame: Frame,
) -> bool {
    exists|i: int|
        0 <= i < rows_elements(settings, settings_rows()).len() && #[trigger] rows_elements(
            settings,
            settings_rows(),
        )[i] == (Seen::Checkbox { title, tag, on, enabled, frame })
}

/// Whether the window has a field with this tag at this place that shows a number of days, to
/// be changed or not.
pub open spec fn has_field(
    settings: Settings,
    tag: isize,
    days: u64,
    enabled: bool,
    frame: Frame,
) -> bool {
    exists|i: int|
        0 <= i < rows_elements(settings, settings_rows()).len() && #[trigger] rows_elements(
            settings,
            settings_rows(),
        )[i] == (Seen::Field { value: decimal(days as nat), tag, enabled, frame })
}

/// Whether the window has a text that reads so, at this place. One of at least twenty-four
/// points in height is a heading.
pub open spec fn has_text(settings: Settings, text: Seq<char>, frame: Frame) -> bool {
    exists|i: int|
        0 <= i < rows_elements(settings, settings_rows()).len() && reads(
            #[trigger] rows_elements(settings, settings_rows())[i],
            text,
        ) && stands_at(
            rows_elements(settings, settings_rows())[i],
            frame.x as int,
            frame.y as int,
            frame.width as int,
            frame.height as int,
        ) && (frame.height >= 24 ==> is_set(
            rows_elements(settings, settings_rows())[i],
            160,
            true,
            Ink::White,
        )) && (frame.height < 24 ==> is_set(
            rows_elements(settings, settings_rows())[i],
            125,
            false,
            Ink::Ice,
        ))
}

proof fn lemma_row_is_shown(settings: Settings, rows: Seq<Row>, at: int, part: int)
    requires
        0 <= at < rows.len(),
        0 <= part < row_elements(settings, rows[at]).len(),
    ensures
        exists|i: int|
            0 <= i < rows_elements(settings, rows).len() && #[trigger] rows_elements(
                settings,
                rows,
            )[i] == row_elements(settings, rows[at])[part],
    decreases rows.len(),
{
    let less = rows.drop_last();
    let before = rows_elements(settings, less);
    let last = row_elements(settings, rows.last());
    let all = rows_elements(settings, rows);
    assert(all == before + last);
    if at < rows.len() - 1 {
        assert(less[at] == rows[at]);
        lemma_row_is_shown(settings, less, at, part);
        let i = choose|i: int|
            0 <= i < before.len() && #[trigger] before[i] == row_elements(settings, less[at])[part];
        assert(all[i] == before[i]);
    } else {
        assert(all[before.len() + part] == last[part]);
    }
}

proof fn lemma_box_is_shown(
    settings: Settings,
    at: int,
    title: Seq<char>,
    tag: isize,
    on: bool,
    enabled: bool,
    frame: Frame,
)
    requires
        0 <= at < settings_rows().len(),
        row_elements(settings, settings_rows()[at]).len() == 1,
        row_elements(settings, settings_rows()[at])[0] == (Seen::Checkbox {
            title,
            tag,
            on,
            enabled,
            frame,
        }),
    ensures
        has_box(settings, title, tag, on, enabled, frame),
{
    lemma_row_is_shown(settings, settings_rows(), at, 0);
}

proof fn lemma_field_is_shown(
    settings: Settings,
    at: int,
    tag: isize,
    days: u64,
    enabled: bool,
    x: i64,
    y: i64,
)
    requires
        0 <= at < settings_rows().len(),
        0 <= x <= 1000,
        0 <= y <= 2000,
        settings_rows()[at] == (Row::Age { tag, x, y }),
        settings.age(tag as int) == Some(days),
        enabled == (tag != 1001 && tag != 1005),
    ensures
        has_field(
            settings,
            tag,
            days,
            enabled,
            (Frame { x: (x + 52) as i64, y, width: 55, height: 24 }),
        ),
        has_text(
            settings,
            "старше"@,
            (Frame { x, y: (y + 2) as i64, width: 50, height: 20 }),
        ),
        has_text(
            settings,
            "дней"@,
            (Frame { x: (x + 114) as i64, y: (y + 2) as i64, width: 40, height: 20 }),
        ),
{
    lemma_row_is_shown(settings, settings_rows(), at, 0);
    lemma_row_is_shown(settings, settings_rows(), at, 1);
    lemma_row_is_shown(settings, settings_rows(), at, 2);
}

proof fn lemma_text_is_shown(settings: Settings, at: int, text: &'static str, frame: Frame)
    requires
        0 <= at < settings_rows().len(),
        settings_rows()[at] == (Row::Text { text, frame }),
    ensures
        has_text(settings, text@, frame),
{
    lemma_row_is_shown(settings, settings_rows(), at, 0);
}

/// The boxes on the system show the fields that their titles name, but for those that
/// cannot be changed yet: they are off and say so.
pub proof fn macos_boxes_show_their_field(settings: Settings)
    ensures
        has_box(settings, "Корзина"@, 1, settings.macos.trash, true, (Frame { x: 30, y: 1618, width: 260, height: 24 })),
        has_box(settings, "Кэши приложений"@ + " · позже"@, 2, false, false, (Frame { x: 30, y: 1590, width: 260, height: 24 })),
        has_box(settings, "Временные файлы"@, 3, settings.macos.temporary_files, true, (Frame { x: 30, y: 1562, width: 260, height: 24 })),
        has_box(settings, "Логи"@, 4, settings.macos.logs, true, (Frame { x: 30, y: 1534, width: 260, height: 24 })),
        has_box(settings, "Crash Reports"@, 5, settings.macos.crash_reports, true, (Frame { x: 30, y: 1506, width: 260, height: 24 })),
        has_field(settings, 1001, settings.macos.temporary_min_age_days, false, (Frame { x: 382, y: 1562, width: 55, height: 24 })),
        has_text(settings, "старше"@, (Frame { x: 330, y: 1564, width: 50, height: 20 })),
        has_text(settings, "дней"@, (Frame { x: 444, y: 1564, width: 40, height: 20 })),
        has_field(settings, 1002, settings.macos.logs_min_age_days, true, (Frame { x: 382, y: 1534, width: 55, height: 24 })),
        has_text(settings, "старше"@, (Frame { x: 330, y: 1536, width: 50, height: 20 })),
        has_text(settings, "дней"@, (Frame { x: 444, y: 1536, width: 40, height: 20 })),
{
    assert(settings_rows()[1] == macos_rows()[1]);
    lemma_box_is_shown(settings, 1, "Корзина"@, 1, settings.macos.trash, true, (Frame { x: 30, y: 1618, width: 260, height: 24 }));
    assert(settings_rows()[2] == macos_rows()[2]);
    lemma_box_is_shown(settings, 2, "Кэши приложений"@ + " · позже"@, 2, false, false, (Frame { x: 30, y: 1590, width: 260, height: 24 }));
    assert(settings_rows()[3] == macos_rows()[3]);
    lemma_box_is_shown(settings, 3, "Временные файлы"@, 3, settings.macos.temporary_files, true, (Frame { x: 30, y: 1562, width: 260, height: 24 }));
    assert(settings_rows()[5] == macos_rows()[5]);
    lemma_box_is_shown(settings, 5, "Логи"@, 4, settings.macos.logs, true, (Frame { x: 30, y: 1534, width: 260, height: 24 }));
    assert(settings_rows()[7] == macos_rows()[7]);
    lemma_box_is_shown(settings, 7, "Crash Reports"@, 5, settings.macos.crash_reports, true, (Frame { x: 30, y: 1506, width: 260, height: 24 }));
    assert(settings_rows()[4] == macos_rows()[4]);
    lemma_field_is_shown(settings, 4, 1001, settings.macos.temporary_min_age_days, false, 330, 1562);
    assert(settings_rows()[6] == macos_rows()[6]);
    lemma_field_is_shown(settings, 6, 1002, settings.macos.logs_min_age_days, true, 330, 1534);
}

/// The boxes on browsers show the fields that their titles name.
#[verifier::rlimit(40)]
pub proof fn browsers_boxes_show_their_field(settings: Settings)
    ensures
        has_box(settings, "Chrome"@, 10, settings.browsers.chrome, true, (Frame { x: 240, y: 1432, width: 190, height: 24 })),
        has_box(settings, "Opera"@, 11, settings.browsers.opera, true, (Frame { x: 450, y: 1432, width: 190, height: 24 })),
        has_box(settings, "Firefox"@, 12, settings.browsers.firefox, true, (Frame { x: 30, y: 1404, width: 190, height: 24 })),
        has_box(settings, "Chromium"@, 13, settings.browsers.chromium, true, (Frame { x: 240, y: 1404, width: 190, height: 24 })),
        has_box(settings, "Brave"@, 14, settings.browsers.brave, true, (Frame { x: 450, y: 1404, width: 190, height: 24 })),
        has_box(settings, "Arc"@, 15, settings.browsers.arc, true, (Frame { x: 30, y: 1376, width: 190, height: 24 })),
        has_box(settings, "Safari"@, 16, settings.browsers.safari, true, (Frame { x: 30, y: 1432, width: 190, height: 24 })),
{
    assert(settings_rows()[10] == browsers_rows()[2]);
    lemma_box_is_shown(settings, 10, "Chrome"@, 10, settings.browsers.chrome, true, (Frame { x: 240, y: 1432, width: 190, height: 24 }));
    assert(settings_rows()[11] == browsers_rows()[3]);
    lemma_box_is_shown(settings, 11, "Opera"@, 11, settings.browsers.opera, true, (Frame { x: 450, y: 1432, width: 190, height: 24 }));
    assert(settings_rows()[12] == browsers_rows()[4]);
    lemma_box_is_shown(settings, 12, "Firefox"@, 12, settings.browsers.firefox, true, (Frame { x: 30, y: 1404, width: 190, height: 24 }));
    assert(settings_rows()[13] == browsers_rows()[5]);
    lemma_box_is_shown(settings, 13, "Chromium"@, 13, settings.browsers.chromium, true, (Frame { x: 240, y: 1404, width: 190, height: 24 }));
    assert(settings_rows()[14] == browsers_rows()[6]);
    lemma_box_is_shown(settings, 14, "Brave"@, 14, settings.browsers.brave, true, (Frame { x: 450, y: 1404, width: 190, height: 24 }));
    assert(settings_rows()[15] == browsers_rows()[7]);
    lemma_box_is_shown(settings, 15, "Arc"@, 15, settings.browsers.arc, true, (Frame { x: 30, y: 1376, width: 190, height: 24 }));
    assert(settings_rows()[9] == browsers_rows()[1]);
    lemma_box_is_shown(settings, 9, "Safari"@, 16, settings.browsers.safari, true, (Frame { x: 30, y: 1432, width: 190, height: 24 }));
}

/// The boxes on Xcode show the fields that their titles name.
pub proof fn xcode_boxes_show_their_field(settings: Settings)
    ensures
        has_box(settings, "Xcode DerivedData"@, 20, settings.development.xcode_derived_data, true, (Frame { x: 30, y: 1314, width: 280, height: 24 })),
        has_box(settings, "Xcode SourcePackages"@, 21, settings.development.xcode_source_packages, true, (Frame { x: 30, y: 1286, width: 280, height: 24 })),
        has_box(settings, "Недоступные Simulator"@, 22, settings.development.unavailable_simulators, true, (Frame { x: 30, y: 1258, width: 300, height: 24 })),
        has_field(settings, 1003, settings.development.xcode_source_packages_min_age_days, true, (Frame { x: 382, y: 1286, width: 55, height: 24 })),
        has_text(settings, "старше"@, (Frame { x: 330, y: 1288, width: 50, height: 20 })),
        has_text(settings, "дней"@, (Frame { x: 444, y: 1288, width: 40, height: 20 })),
{
    assert(settings_rows()[17] == xcode_rows()[1]);
    lemma_box_is_shown(settings, 17, "Xcode DerivedData"@, 20, settings.development.xcode_derived_data, true, (Frame { x: 30, y: 1314, width: 280, height: 24 }));
    assert(settings_rows()[18] == xcode_rows()[2]);
    lemma_box_is_shown(settings, 18, "Xcode SourcePackages"@, 21, settings.development.xcode_source_packages, true, (Frame { x: 30, y: 1286, width: 280, height: 24 }));
    assert(settings_rows()[20] == xcode_rows()[4]);
    lemma_box_is_shown(settings, 20, "Недоступные Simulator"@, 22, settings.development.unavailable_simulators, true, (Frame { x: 30, y: 1258, width: 300, height: 24 }));
    assert(settings_rows()[19] == xcode_rows()[3]);
    lemma_field_is_shown(settings, 19, 1003, settings.development.xcode_source_packages_min_age_days, true, 330, 1286);
}

/// The boxes on the other development tools show the fields that their titles name.
#[verifier::rlimit(40)]
pub proof fn tools_boxes_show_their_field(settings: Settings)
    ensures
        has_box(settings, "Cargo"@, 23, settings.development.cargo, true, (Frame { x: 30, y: 1226, width: 185, height: 24 })),
        has_box(settings, "npm"@, 24, settings.development.npm, true, (Frame { x: 240, y: 1226, width: 185, height: 24 })),
        has_box(settings, "npx"@, 25, settings.development.npx, true, (Frame { x: 450, y: 1226, width: 185, height: 24 })),
        has_box(settings, "pnpm"@, 26, settings.development.pnpm, true, (Frame { x: 30, y: 1198, width: 185, height: 24 })),
        has_box(settings, "Yarn"@, 27, settings.development.yarn, true, (Frame { x: 240, y: 1198, width: 185, height: 24 })),
        has_box(settings, "pip"@, 28, settings.development.pip, true, (Frame { x: 450, y: 1198, width: 185, height: 24 })),
        has_box(settings, "uv"@, 29, settings.development.uv, true, (Frame { x: 30, y: 1170, width: 185, height: 24 })),
        has_box(settings, "Gradle"@, 30, settings.development.gradle, true, (Frame { x: 240, y: 1170, width: 185, height: 24 })),
        has_box(settings, "CocoaPods"@, 31, settings.development.cocoapods, true, (Frame { x: 450, y: 1170, width: 185, height: 24 })),
        has_field(settings, 1004, settings.development.gradle_min_age_days, true, (Frame { x: 572, y: 1170, width: 55, height: 24 })),
        has_text(settings, "старше"@, (Frame { x: 520, y: 1172, width: 50, height: 20 })),
        has_text(settings, "дней"@, (Frame { x: 634, y: 1172, width: 40, height: 20 })),
{
    assert(settings_rows()[21] == tools_rows()[0]);
    lemma_box_is_shown(settings, 21, "Cargo"@, 23, settings.development.cargo, true, (Frame { x: 30, y: 1226, width: 185, height: 24 }));
    assert(settings_rows()[22] == tools_rows()[1]);
    lemma_box_is_shown(settings, 22, "npm"@, 24, settings.development.npm, true, (Frame { x: 240, y: 1226, width: 185, height: 24 }));
    assert(settings_rows()[23] == tools_rows()[2]);
    lemma_box_is_shown(settings, 23, "npx"@, 25, settings.development.npx, true, (Frame { x: 450, y: 1226, width: 185, height: 24 }));
    assert(settings_rows()[24] == tools_rows()[3]);
    lemma_box_is_shown(settings, 24, "pnpm"@, 26, settings.development.pnpm, true, (Frame { x: 30, y: 1198, width: 185, height: 24 }));
    assert(settings_rows()[25] == tools_rows()[4]);
    lemma_box_is_shown(settings, 25, "Yarn"@, 27, settings.development.yarn, true, (Frame { x: 240, y: 1198, width: 185, height: 24 }));
    assert(settings_rows()[26] == tools_rows()[5]);
    lemma_box_is_shown(settings, 26, "pip"@, 28, settings.development.pip, true, (Frame { x: 450, y: 1198, width: 185, height: 24 }));
    assert(settings_rows()[27] == tools_rows()[6]);
    lemma_box_is_shown(settings, 27, "uv"@, 29, settings.development.uv, true, (Frame { x: 30, y: 1170, width: 185, height: 24 }));
    assert(settings_rows()[28] == tools_rows()[7]);
    lemma_box_is_shown(settings, 28, "Gradle"@, 30, settings.development.gradle, true, (Frame { x: 240, y: 1170, width: 185, height: 24 }));
    assert(settings_rows()[29] == tools_rows()[8]);
    lemma_box_is_shown(settings, 29, "CocoaPods"@, 31, settings.development.cocoapods, true, (Frame { x: 450, y: 1170, width: 185, height: 24 }));
    assert(settings_rows()[30] == tools_rows()[9]);
    lemma_field_is_shown(settings, 30, 1004, settings.development.gradle_min_age_days, true, 520, 1170);
}

/// The boxes on machine learning show the fields that their titles name, but for those that
/// cannot be changed yet: they are off and say so.
#[verifier::rlimit(40)]
pub proof fn ai_ml_boxes_show_their_field(settings: Settings)
    ensures
        has_box(settings, "HuggingFace"@ + " · позже"@, 40, false, false, (Frame { x: 30, y: 1074, width: 190, height: 24 })),
        has_box(settings, "Torch"@ + " · позже"@, 41, false, false, (Frame { x: 240, y: 1074, width: 190, height: 24 })),
        has_box(settings, "Whisper"@ + " · позже"@, 42, false, false, (Frame { x: 450, y: 1074, width: 190, height: 24 })),
        has_box(settings, "CLIP"@ + " · позже"@, 43, false, false, (Frame { x: 30, y: 1046, width: 190, height: 24 })),
        has_box(settings, "CoreML"@, 44, settings.ai_ml.coreml, true, (Frame { x: 240, y: 1046, width: 190, height: 24 })),
        has_box(settings, "Codex runtimes"@ + " · позже"@, 45, false, false, (Frame { x: 450, y: 1046, width: 190, height: 24 })),
        has_box(settings, "Selenium"@ + " · позже"@, 46, false, false, (Frame { x: 30, y: 1018, width: 190, height: 24 })),
        has_box(settings, "OpenAI cache"@ + " · позже"@, 47, false, false, (Frame { x: 240, y: 1018, width: 190, height: 24 })),
{
    assert(settings_rows()[32] == ai_ml_rows()[1]);
    lemma_box_is_shown(settings, 32, "HuggingFace"@ + " · позже"@, 40, false, false, (Frame { x: 30, y: 1074, width: 190, height: 24 }));
    assert(settings_rows()[33] == ai_ml_rows()[2]);
    lemma_box_is_shown(settings, 33, "Torch"@ + " · позже"@, 41, false, false, (Frame { x: 240, y: 1074, width: 190, height: 24 }));
    assert(settings_rows()[34] == ai_ml_rows()[3]);
    lemma_box_is_shown(settings, 34, "Whisper"@ + " · позже"@, 42, false, false, (Frame { x: 450, y: 1074, width: 190, height: 24 }));
    assert(settings_rows()[35] == ai_ml_rows()[4]);
    lemma_box_is_shown(settings, 35, "CLIP"@ + " · позже"@, 43, false, false, (Frame { x: 30, y: 1046, width: 190, height: 24 }));
    assert(settings_rows()[36] == ai_ml_rows()[5]);
    lemma_box_is_shown(settings, 36, "CoreML"@, 44, settings.ai_ml.coreml, true, (Frame { x: 240, y: 1046, width: 190, height: 24 }));
    assert(settings_rows()[37] == ai_ml_rows()[6]);
    lemma_box_is_shown(settings, 37, "Codex runtimes"@ + " · позже"@, 45, false, false, (Frame { x: 450, y: 1046, width: 190, height: 24 }));
    assert(settings_rows()[38] == ai_ml_rows()[7]);
    lemma_box_is_shown(settings, 38, "Selenium"@ + " · позже"@, 46, false, false, (Frame { x: 30, y: 1018, width: 190, height: 24 }));
    assert(settings_rows()[39] == ai_ml_rows()[8]);
    lemma_box_is_shown(settings, 39, "OpenAI cache"@ + " · позже"@, 47, false, false, (Frame { x: 240, y: 1018, width: 190, height: 24 }));
}

/// The boxes on Homebrew show the fields that their titles name.
pub proof fn homebrew_boxes_show_their_field(settings: Settings)
    ensures
        has_box(settings, "Включить Homebrew"@, 50, settings.homebrew.enabled, true, (Frame { x: 30, y: 930, width: 360, height: 24 })),
        has_box(settings, "Неиспользуемые зависимости"@, 51, settings.homebrew.autoremove, true, (Frame { x: 30, y: 902, width: 360, height: 24 })),
        has_box(settings, "Старые версии"@, 52, settings.homebrew.old_versions, true, (Frame { x: 30, y: 874, width: 360, height: 24 })),
        has_box(settings, "Cache / Downloads"@, 53, settings.homebrew.cache, true, (Frame { x: 30, y: 846, width: 360, height: 24 })),
        has_box(settings, "Временные сборки"@, 54, settings.homebrew.temporary_builds, true, (Frame { x: 30, y: 818, width: 360, height: 24 })),
{
    assert(settings_rows()[41] == homebrew_rows()[1]);
    lemma_box_is_shown(settings, 41, "Включить Homebrew"@, 50, settings.homebrew.enabled, true, (Frame { x: 30, y: 930, width: 360, height: 24 }));
    assert(settings_rows()[42] == homebrew_rows()[2]);
    lemma_box_is_shown(settings, 42, "Неиспользуемые зависимости"@, 51, settings.homebrew.autoremove, true, (Frame { x: 30, y: 902, width: 360, height: 24 }));
    assert(settings_rows()[43] == homebrew_rows()[3]);
    lemma_box_is_shown(settings, 43, "Старые версии"@, 52, settings.homebrew.old_versions, true, (Frame { x: 30, y: 874, width: 360, height: 24 }));
    assert(settings_rows()[44] == homebrew_rows()[4]);
    lemma_box_is_shown(settings, 44, "Cache / Downloads"@, 53, settings.homebrew.cache, true, (Frame { x: 30, y: 846, width: 360, height: 24 }));
    assert(settings_rows()[45] == homebrew_rows()[5]);
    lemma_box_is_shown(settings, 45, "Временные сборки"@, 54, settings.homebrew.temporary_builds, true, (Frame { x: 30, y: 818, width: 360, height: 24 }));
}

/// The boxes on Docker show the fields that their titles name.
pub proof fn docker_boxes_show_their_field(settings: Settings)
    ensures
        has_box(settings, "Включить Docker"@, 60, settings.docker.enabled, true, (Frame { x: 30, y: 740, width: 360, height: 24 })),
        has_box(settings, "Build cache"@, 61, settings.docker.build_cache, true, (Frame { x: 30, y: 712, width: 360, height: 24 })),
        has_box(settings, "Неиспользуемые images"@, 62, settings.docker.unused_images, true, (Frame { x: 30, y: 684, width: 360, height: 24 })),
        has_box(settings, "Остановленные containers"@, 63, settings.docker.stopped_containers, true, (Frame { x: 30, y: 656, width: 360, height: 24 })),
        has_box(settings, "Неиспользуемые networks"@, 64, settings.docker.unused_networks, true, (Frame { x: 30, y: 628, width: 360, height: 24 })),
        has_box(settings, "Volumes — защищены всегда"@, 0, true, false, (Frame { x: 30, y: 600, width: 360, height: 24 })),
{
    assert(settings_rows()[47] == docker_rows()[1]);
    lemma_box_is_shown(settings, 47, "Включить Docker"@, 60, settings.docker.enabled, true, (Frame { x: 30, y: 740, width: 360, height: 24 }));
    assert(settings_rows()[48] == docker_rows()[2]);
    lemma_box_is_shown(settings, 48, "Build cache"@, 61, settings.docker.build_cache, true, (Frame { x: 30, y: 712, width: 360, height: 24 }));
    assert(settings_rows()[49] == docker_rows()[3]);
    lemma_box_is_shown(settings, 49, "Неиспользуемые images"@, 62, settings.docker.unused_images, true, (Frame { x: 30, y: 684, width: 360, height: 24 }));
    assert(settings_rows()[50] == docker_rows()[4]);
    lemma_box_is_shown(settings, 50, "Остановленные containers"@, 63, settings.docker.stopped_containers, true, (Frame { x: 30, y: 656, width: 360, height: 24 }));
    assert(settings_rows()[51] == docker_rows()[5]);
    lemma_box_is_shown(settings, 51, "Неиспользуемые networks"@, 64, settings.docker.unused_networks, true, (Frame { x: 30, y: 628, width: 360, height: 24 }));
    assert(settings_rows()[52] == docker_rows()[6]);
    lemma_box_is_shown(settings, 52, "Volumes — защищены всегда"@, 0, true, false, (Frame { x: 30, y: 600, width: 360, height: 24 }));
}

/// The boxes on Podman show the fields that their titles name, but for those that
/// cannot be changed yet: they are off and say so.
pub proof fn podman_boxes_show_their_field(settings: Settings)
    ensures
        has_box(settings, "Включить Podman"@ + " · позже"@, 70, false, false, (Frame { x: 30, y: 520, width: 300, height: 24 })),
        has_box(settings, "Cache"@ + " · позже"@, 71, false, false, (Frame { x: 30, y: 492, width: 300, height: 24 })),
        has_box(settings, "Неиспользуемые VM"@ + " · позже"@, 72, false, false, (Frame { x: 30, y: 464, width: 300, height: 24 })),
        has_field(settings, 1005, settings.podman.stale_machine_days, false, (Frame { x: 382, y: 464, width: 55, height: 24 })),
        has_text(settings, "старше"@, (Frame { x: 330, y: 466, width: 50, height: 20 })),
        has_text(settings, "дней"@, (Frame { x: 444, y: 466, width: 40, height: 20 })),
{
    assert(settings_rows()[54] == podman_rows()[1]);
    lemma_box_is_shown(settings, 54, "Включить Podman"@ + " · позже"@, 70, false, false, (Frame { x: 30, y: 520, width: 300, height: 24 }));
    assert(settings_rows()[55] == podman_rows()[2]);
    lemma_box_is_shown(settings, 55, "Cache"@ + " · позже"@, 71, false, false, (Frame { x: 30, y: 492, width: 300, height: 24 }));
    assert(settings_rows()[56] == podman_rows()[3]);
    lemma_box_is_shown(settings, 56, "Неиспользуемые VM"@ + " · позже"@, 72, false, false, (Frame { x: 30, y: 464, width: 300, height: 24 }));
    assert(settings_rows()[57] == podman_rows()[4]);
    lemma_field_is_shown(settings, 57, 1005, settings.podman.stale_machine_days, false, 330, 464);
}

/// The boxes on mobile devices show the fields that their titles name.
pub proof fn mobile_boxes_show_their_field(settings: Settings)
    ensures
        has_box(settings, "Удалять все локальные резервные копии"@, 80, settings.mobile.delete_all_local_backups, true, (Frame { x: 30, y: 384, width: 430, height: 24 })),
{
    assert(settings_rows()[59] == mobile_rows()[1]);
    lemma_box_is_shown(settings, 59, "Удалять все локальные резервные копии"@, 80, settings.mobile.delete_all_local_backups, true, (Frame { x: 30, y: 384, width: 430, height: 24 }));
}

/// The boxes on what follows on a cleanup show the fields that their titles name, but for those that
/// cannot be changed yet: they are off and say so.
pub proof fn behavior_boxes_show_their_field(settings: Settings)
    ensures
        has_box(settings, "Повторно проверить диск"@ + " · позже"@, 90, false, false, (Frame { x: 30, y: 304, width: 350, height: 24 })),
        has_box(settings, "Показывать освобождённое место"@, 91, settings.behavior.show_reclaimed_space, true, (Frame { x: 30, y: 276, width: 390, height: 24 })),
        has_box(settings, "Вести журнал"@ + " · позже"@, 92, false, false, (Frame { x: 30, y: 248, width: 350, height: 24 })),
{
    assert(settings_rows()[61] == behavior_rows()[1]);
    lemma_box_is_shown(settings, 61, "Повторно проверить диск"@ + " · позже"@, 90, false, false, (Frame { x: 30, y: 304, width: 350, height: 24 }));
    assert(settings_rows()[62] == behavior_rows()[2]);
    lemma_box_is_shown(settings, 62, "Показывать освобождённое место"@, 91, settings.behavior.show_reclaimed_space, true, (Frame { x: 30, y: 276, width: 390, height: 24 }));
    assert(settings_rows()[63] == behavior_rows()[3]);
    lemma_box_is_shown(settings, 63, "Вести журнал"@ + " · позже"@, 92, false, false, (Frame { x: 30, y: 248, width: 350, height: 24 }));
}

/// The window has a heading over each section, and below them all what is never cleaned.
pub proof fn sections_are_headed(settings: Settings)
    ensures
        has_text(settings, "macOS"@, (Frame { x: 24, y: 1650, width: 250, height: 26 })),
        has_text(settings, "Браузеры"@, (Frame { x: 24, y: 1464, width: 250, height: 26 })),
        has_text(settings, "Разработка"@, (Frame { x: 24, y: 1346, width: 250, height: 26 })),
        has_text(settings, "AI / ML"@, (Frame { x: 24, y: 1106, width: 250, height: 26 })),
        has_text(settings, "Homebrew"@, (Frame { x: 24, y: 962, width: 250, height: 26 })),
        has_text(settings, "Docker"@, (Frame { x: 24, y: 772, width: 250, height: 26 })),
        has_text(settings, "Podman"@, (Frame { x: 24, y: 552, width: 250, height: 26 })),
        has_text(settings, "iPhone / iPad"@, (Frame { x: 24, y: 416, width: 250, height: 26 })),
        has_text(settings, "После очистки"@, (Frame { x: 24, y: 336, width: 250, height: 26 })),
        has_text(settings, "Всегда защищено"@, (Frame { x: 24, y: 196, width: 250, height: 26 })),
        has_text(settings, "Downloads · Documents · GIT · Desktop · Pictures · Movies · Music"@, (Frame { x: 30, y: 166, width: 640, height: 22 })),
        has_text(settings, "iCloud · Mail · Messages · Telegram · WhatsApp · Docker volumes"@, (Frame { x: 30, y: 142, width: 640, height: 22 })),
        settings_rows().len() == 67,
{
    assert(settings_rows()[0] == macos_rows()[0]);
    lemma_text_is_shown(settings, 0, "macOS", (Frame { x: 24, y: 1650, width: 250, height: 26 }));
    assert(settings_rows()[8] == browsers_rows()[0]);
    lemma_text_is_shown(settings, 8, "Браузеры", (Frame { x: 24, y: 1464, width: 250, height: 26 }));
    assert(settings_rows()[16] == xcode_rows()[0]);
    lemma_text_is_shown(settings, 16, "Разработка", (Frame { x: 24, y: 1346, width: 250, height: 26 }));
    assert(settings_rows()[31] == ai_ml_rows()[0]);
    lemma_text_is_shown(settings, 31, "AI / ML", (Frame { x: 24, y: 1106, width: 250, height: 26 }));
    assert(settings_rows()[40] == homebrew_rows()[0]);
    lemma_text_is_shown(settings, 40, "Homebrew", (Frame { x: 24, y: 962, width: 250, height: 26 }));
    assert(settings_rows()[46] == docker_rows()[0]);
    lemma_text_is_shown(settings, 46, "Docker", (Frame { x: 24, y: 772, width: 250, height: 26 }));
    assert(settings_rows()[53] == podman_rows()[0]);
    lemma_text_is_shown(settings, 53, "Podman", (Frame { x: 24, y: 552, width: 250, height: 26 }));
    assert(settings_rows()[58] == mobile_rows()[0]);
    lemma_text_is_shown(settings, 58, "iPhone / iPad", (Frame { x: 24, y: 416, width: 250, height: 26 }));
    assert(settings_rows()[60] == behavior_rows()[0]);
    lemma_text_is_shown(settings, 60, "После очистки", (Frame { x: 24, y: 336, width: 250, height: 26 }));
    assert(settings_rows()[64] == protection_rows()[0]);
    lemma_text_is_shown(settings, 64, "Всегда защищено", (Frame { x: 24, y: 196, width: 250, height: 26 }));
    assert(settings_rows()[65] == protection_rows()[1]);
    lemma_text_is_shown(settings, 65, "Downloads · Documents · GIT · Desktop · Pictures · Movies · Music", (Frame { x: 30, y: 166, width: 640, height: 22 }));
    assert(settings_rows()[66] == protection_rows()[2]);
    lemma_text_is_shown(settings, 66, "iCloud · Mail · Messages · Telegram · WhatsApp · Docker volumes", (Frame { x: 30, y: 142, width: 640, height: 22 }));
}

} // verus!
