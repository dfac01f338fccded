//! The settings and their window.

use yeti3_cleaner::settings::screen::show_settings_window;
use yeti3_cleaner::settings::values::{
    set_age_setting, set_bool_setting, AiMlSettings, BehaviorSettings, BrowserSettings,
    DevelopmentSettings, DockerSettings, HomebrewSettings, MacosSettings, MobileSettings,
    PodmanSettings, Settings,
};
use yeti3_cleaner::windows::elements::{Element, Frame, Ink, Press, Wording};

fn all_off() -> Settings {
    Settings {
        macos: MacosSettings {
            trash: false,
            application_caches: false,
            temporary_files: false,
            logs: false,
            crash_reports: false,
            temporary_min_age_days: 1,
            logs_min_age_days: 2,
        },
        browsers: BrowserSettings {
            safari: false,
            chrome: false,
            opera: false,
            firefox: false,
            chromium: false,
            brave: false,
            arc: false,
        },
        development: DevelopmentSettings {
            xcode_derived_data: false,
            xcode_source_packages: false,
            unavailable_simulators: false,
            cargo: false,
            npm: false,
            npx: false,
            pnpm: false,
            yarn: false,
            pip: false,
            uv: false,
            gradle: false,
            cocoapods: false,
            xcode_source_packages_min_age_days: 3,
            gradle_min_age_days: 4,
        },
        ai_ml: AiMlSettings {
            huggingface: false,
            torch: false,
            whisper: false,
            clip: false,
            coreml: false,
            codex_runtimes: false,
            selenium: false,
            openai_python: false,
        },
        homebrew: HomebrewSettings {
            enabled: false,
            autoremove: false,
            old_versions: false,
            cache: false,
            temporary_builds: false,
        },
        docker: DockerSettings {
            enabled: false,
            build_cache: false,
            unused_images: false,
            stopped_containers: false,
            unused_networks: false,
        },
        podman: PodmanSettings {
            enabled: false,
            cache: false,
            stale_machines: false,
            stale_machine_days: 5,
        },
        mobile: MobileSettings { delete_all_local_backups: false },
        behavior: BehaviorSettings {
            rescan_after_cleanup: false,
            show_reclaimed_space: false,
            write_log: false,
        },
    }
}

fn tags() -> Vec<isize> {
    (1..=5)
        .chain(10..=16)
        .chain(20..=31)
        .chain(40..=47)
        .chain(50..=54)
        .chain(60..=64)
        .chain(70..=72)
        .chain(80..=80)
        .chain(90..=92)
        .collect()
}

const LATER: [isize; 13] = [2, 40, 41, 42, 43, 45, 46, 47, 70, 71, 72, 90, 92];

#[test]
fn each_tag_sets_its_switch() {
    let picks: [(isize, fn(&Settings) -> bool); 14] = [
        (1, |s| s.macos.trash),
        (2, |s| s.macos.application_caches),
        (5, |s| s.macos.crash_reports),
        (16, |s| s.browsers.safari),
        (10, |s| s.browsers.chrome),
        (15, |s| s.browsers.arc),
        (20, |s| s.development.xcode_derived_data),
        (31, |s| s.development.cocoapods),
        (44, |s| s.ai_ml.coreml),
        (53, |s| s.homebrew.cache),
        (64, |s| s.docker.unused_networks),
        (72, |s| s.podman.stale_machines),
        (80, |s| s.mobile.delete_all_local_backups),
        (91, |s| s.behavior.show_reclaimed_space),
    ];
    for (tag, pick) in picks {
        let mut settings = all_off();
        set_bool_setting(&mut settings, tag, true);
        assert!(pick(&settings), "{tag}");
        set_bool_setting(&mut settings, tag, false);
        assert_eq!(settings, all_off());
    }
}

#[test]
fn a_switch_changes_nothing_else() {
    for tag in tags() {
        let mut settings = all_off();
        set_bool_setting(&mut settings, tag, true);
        for other in tags() {
            assert_eq!(settings.get_bool_setting(other), Some(other == tag));
        }
        for age in 1001..=1005 {
            assert_eq!(settings.get_age_setting(age), Some((age - 1000) as u64));
        }
    }
    for unknown in [isize::MIN, -1, 0, 6, 9, 17, 32, 48, 55, 65, 73, 81, 93, 1001, isize::MAX] {
        let mut settings = all_off();
        set_bool_setting(&mut settings, unknown, true);
        assert_eq!(settings, all_off());
        assert_eq!(settings.get_bool_setting(unknown), None);
    }
}

#[test]
fn ages_are_set_and_never_negative() {
    let mut settings = all_off();
    set_age_setting(&mut settings, 1001, 10);
    set_age_setting(&mut settings, 1002, -7);
    set_age_setting(&mut settings, 1003, 30);
    set_age_setting(&mut settings, 1004, 40);
    set_age_setting(&mut settings, 1005, isize::MIN);
    assert_eq!(settings.macos.temporary_min_age_days, 10);
    assert_eq!(settings.macos.logs_min_age_days, 0);
    assert_eq!(settings.development.xcode_source_packages_min_age_days, 30);
    assert_eq!(settings.development.gradle_min_age_days, 40);
    assert_eq!(settings.podman.stale_machine_days, 0);
    let before = settings;
    for unknown in [0, 1, 1000, 1006] {
        set_age_setting(&mut settings, unknown, 99);
        assert_eq!(settings, before);
        assert_eq!(settings.get_age_setting(unknown), None);
    }
}

#[test]
fn every_switch_has_one_box() {
    let mut settings = all_off();
    for tag in tags() {
        set_bool_setting(&mut settings, tag, true);
    }
    let window = show_settings_window(&settings);
    let mut shown = Vec::new();
    for element in &window.rows {
        if let Element::Checkbox { title, tag, on, enabled, .. } = element {
            if *tag == 0 {
                assert_eq!(title, "Volumes — защищены всегда");
                assert!(*on && !*enabled);
            } else {
                let later = LATER.contains(tag);
                assert_eq!(title.ends_with(" · позже"), later, "{tag}");
                assert_eq!((*on, *enabled), (!later, !later), "{tag}");
                shown.push(*tag);
            }
        }
    }
    shown.sort();
    assert_eq!(shown, tags());
    for element in show_settings_window(&all_off()).rows {
        if let Element::Checkbox { tag, on, .. } = element {
            assert_eq!(on, tag == 0);
        }
    }
}

#[test]
fn ages_stand_in_their_fields() {
    let window = show_settings_window(&all_off());
    let fields: Vec<(&str, isize, bool, Frame)> = window
        .rows
        .iter()
        .filter_map(|element| match element {
            Element::Field { value, tag, enabled, frame } => {
                Some((value.as_str(), *tag, *enabled, *frame))
            }
            _ => None,
        })
        .collect();
    let place = |x, y| Frame { x, y, width: 55, height: 24 };
    assert_eq!(
        fields,
        vec![
            ("1", 1001, false, place(382, 1562)),
            ("2", 1002, true, place(382, 1534)),
            ("3", 1003, true, place(382, 1286)),
            ("4", 1004, true, place(572, 1170)),
            ("5", 1005, false, place(382, 464)),
        ]
    );
}

#[test]
fn rows_stand_in_their_places() {
    let window = show_settings_window(&all_off());
    assert_eq!(window.window.title, "Настройки YETI³ Cleaner");
    assert_eq!((window.window.width, window.window.height), (720, 760));
    assert_eq!(window.scroll, Frame { x: 0, y: 48, width: 720, height: 712 });
    assert_eq!(window.page, Frame { x: 0, y: 0, width: 700, height: 1700 });
    assert_eq!(window.window.elements.len(), 2);
    assert_eq!(
        window.window.elements[0],
        Element::Button {
            title: String::from("По умолчанию"),
            frame: Frame { x: 18, y: 8, width: 130, height: 34 },
            press: Press::ResetDefaults,
        }
    );
    let mut headings = Vec::new();
    let mut boxes = Vec::new();
    for element in &window.rows {
        match element {
            Element::Label { text: Wording::Words { text }, frame, style } if frame.height == 26 => {
                assert!(style.bold && style.size == 160 && style.ink == Ink::White);
                headings.push((text.as_str(), frame.y));
            }
            Element::Label { style, .. } => {
                assert!(!style.bold && style.size == 125 && style.ink == Ink::Ice);
            }
            Element::Checkbox { tag, frame, .. } => boxes.push((*tag, frame.x, frame.y)),
            _ => {}
        }
    }
    assert_eq!(
        headings,
        vec![
            ("macOS", 1650),
            ("Браузеры", 1464),
            ("Разработка", 1346),
            ("AI / ML", 1106),
            ("Homebrew", 962),
            ("Docker", 772),
            ("Podman", 552),
            ("iPhone / iPad", 416),
            ("После очистки", 336),
            ("Всегда защищено", 196),
        ]
    );
    for expected in [
        (1, 30, 1618),
        (5, 30, 1506),
        (16, 30, 1432),
        (10, 240, 1432),
        (11, 450, 1432),
        (15, 30, 1376),
        (31, 450, 1170),
        (47, 240, 1018),
        (54, 30, 818),
        (0, 30, 600),
        (72, 30, 464),
        (92, 30, 248),
    ] {
        assert!(boxes.contains(&expected), "{expected:?}");
    }
}
