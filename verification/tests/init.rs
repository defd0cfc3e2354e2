use aura::init::{
    gui_command, is_candidate_block_device, model_source, must_restart_gui, xorg_wait, FsType, MediumSearch,
    MountAction, MountEvent, SocketWait,
};

#[test]
fn candidate_block_devices() {
    assert!(is_candidate_block_device("sr0"));
    assert!(is_candidate_block_device("sda1"));
    assert!(is_candidate_block_device("vdb"));
    assert!(!is_candidate_block_device("loop0"));
    assert!(!is_candidate_block_device("nvme0n1"));
}

#[test]
fn model_source_prefers_live_medium() {
    assert_eq!(model_source(true, true, true).as_deref(), Some("/run/live/medium/.ollama"));
    assert_eq!(model_source(false, true, true).as_deref(), Some("/media/iso/.ollama"));
    assert_eq!(model_source(false, false, true), None);
    assert_eq!(model_source(false, true, false), None);
}

#[test]
fn gui_command_choice() {
    let (p, a) = gui_command(true);
    assert_eq!(p, "runuser");
    assert_eq!(a, vec!["-u", "aura", "--", "/usr/bin/aura-gui"]);
    let (p, a) = gui_command(false);
    assert_eq!(p, "/usr/bin/aura-gui");
    assert!(a.is_empty());
}

#[test]
fn restart_only_the_gui() {
    assert!(must_restart_gui(1234, 1234));
    assert!(!must_restart_gui(1235, 1234));
    assert!(!must_restart_gui(0, 0));
    assert!(!must_restart_gui(-1, 1234));
}

#[test]
fn xorg_wait_rounds() {
    assert_eq!(xorg_wait(0, true), SocketWait::Ready);
    assert_eq!(xorg_wait(0, false), SocketWait::Retry);
    assert_eq!(xorg_wait(28, false), SocketWait::Retry);
    assert_eq!(xorg_wait(29, false), SocketWait::GiveUp);
}

fn describe(a: &MountAction) -> String {
    match a {
        MountAction::CheckLabel => "check".into(),
        MountAction::Mount { device, fs } => format!("mount {} {:?}", device, fs),
        MountAction::Sleep(ms) => format!("sleep {}", ms),
        MountAction::ListDevices => "list".into(),
        MountAction::CheckModels => "models".into(),
        MountAction::Unmount => "unmount".into(),
        MountAction::Done(m) => format!("done {}", m),
    }
}

#[test]
fn label_found_iso_fails_vfat_works() {
    let (mut s, a) = MediumSearch::start();
    assert_eq!(describe(&a), "check");
    let a = s.next(MountEvent::LabelPresent(true));
    assert_eq!(describe(&a), "mount /dev/disk/by-label/AURAOS Iso9660");
    let a = s.next(MountEvent::Mounted(false));
    assert_eq!(describe(&a), "mount /dev/disk/by-label/AURAOS Vfat");
    let a = s.next(MountEvent::Mounted(true));
    assert_eq!(describe(&a), "done true");
    let a = s.next(MountEvent::Slept);
    assert_eq!(describe(&a), "done true");
}

#[test]
fn ten_label_rounds_then_fallback_scan() {
    let (mut s, mut a) = MediumSearch::start();
    let mut checks = 0;
    while describe(&a) != "list" {
        a = match describe(&a).as_str() {
            "check" => {
                checks += 1;
                s.next(MountEvent::LabelPresent(false))
            }
            "sleep 500" => s.next(MountEvent::Slept),
            other => panic!("unexpected {}", other),
        };
    }
    assert_eq!(checks, 10);
    let a = s.next(MountEvent::Devices(vec!["loop0".into(), "sda".into(), "nvme0n1".into(), "sr0".into()]));
    assert_eq!(describe(&a), "mount /dev/sda Iso9660");
    let a = s.next(MountEvent::Mounted(true));
    assert_eq!(describe(&a), "models");
    let a = s.next(MountEvent::ModelsPresent(false));
    assert_eq!(describe(&a), "unmount");
    let a = s.next(MountEvent::Unmounted);
    assert_eq!(describe(&a), "mount /dev/sr0 Iso9660");
    let a = s.next(MountEvent::Mounted(false));
    assert_eq!(describe(&a), "mount /dev/sr0 Vfat");
    let a = s.next(MountEvent::Mounted(true));
    assert_eq!(describe(&a), "models");
    let a = s.next(MountEvent::ModelsPresent(true));
    assert_eq!(describe(&a), "done true");
    assert!(matches!(a, MountAction::Done(true)));
    let _ = FsType::Vfat;
}

#[test]
fn fallback_without_models_ends_unmounted() {
    let (mut s, _) = MediumSearch::start();
    for _ in 0..10 {
        s.next(MountEvent::LabelPresent(false));
        s.next(MountEvent::Slept);
    }
    let a = s.next(MountEvent::Devices(vec!["vda".into()]));
    assert_eq!(describe(&a), "mount /dev/vda Iso9660");
    let a = s.next(MountEvent::Mounted(false));
    assert_eq!(describe(&a), "mount /dev/vda Vfat");
    let a = s.next(MountEvent::Mounted(false));
    assert_eq!(describe(&a), "done false");
    let (mut e, _) = MediumSearch::start();
    for _ in 0..10 {
        e.next(MountEvent::LabelPresent(false));
        e.next(MountEvent::Slept);
    }
    assert_eq!(describe(&e.next(MountEvent::Devices(vec![]))), "done false");
}
