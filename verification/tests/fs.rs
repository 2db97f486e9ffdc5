use finit::fs::{fismnt, fs_init, fs_init_t, fs_mount, fs_mount_t, hasopt, ismnt, MountEntry};

fn entry(dir: &str, opts: &str) -> MountEntry {
    MountEntry { mnt_dir: dir.to_string(), mnt_opts: opts.to_string() }
}

fn table() -> Vec<MountEntry> {
    vec![
        entry("/", "rw,relatime"),
        entry("/proc", "rw,nosuid,nodev,noexec,relatime"),
        entry("/dev", "rw,nosuid,size=10240k,mode=755"),
        entry("/proc", "ro"),
    ]
}

#[test]
fn hasopt_fields() {
    assert!(hasopt("rw,nosuid,nodev", "rw"));
    assert!(hasopt("rw,nosuid,nodev", "nosuid"));
    assert!(hasopt("rw,nosuid,nodev", "nodev"));
    assert!(!hasopt("rw,nosuid,nodev", "ro"));
    assert!(!hasopt("rw,nosuid,nodev", "nosu"));
    assert!(!hasopt("rw,nosuid,nodev", "rw,nosuid"));
    assert!(hasopt("", ""));
    assert!(hasopt("a,,b", ""));
    assert!(!hasopt("a,b", ""));
    assert!(hasopt("mode=755", "mode=755"));
    assert!(hasopt("é,ü", "ü"));
}

#[test]
fn ismnt_first_entry_decides() {
    let t = table();
    assert_eq!(ismnt(Some(&t), "/proc", ""), 1);
    assert_eq!(ismnt(Some(&t), "/proc", "noexec"), 1);
    // only the first entry on /proc is looked at
    assert_eq!(ismnt(Some(&t), "/proc", "ro"), 0);
    assert_eq!(ismnt(Some(&t), "/dev", "mode=755"), 1);
    assert_eq!(ismnt(Some(&t), "/sys", ""), 0);
    assert_eq!(ismnt(None, "/proc", ""), 0);
    assert_eq!(ismnt(Some(&Vec::new()), "/", ""), 0);
}

#[test]
fn fismnt_cases() {
    let t = table();
    assert_eq!(fismnt(Some(&t), "/"), 1);
    assert_eq!(fismnt(Some(&t), "/dev"), 1);
    assert_eq!(fismnt(Some(&t), "/sys"), 0);
    assert_eq!(fismnt(Some(&t), "/de"), 0);
    assert_eq!(fismnt(None, "/"), 0);
}

#[test]
fn fs_init_steps() {
    // before /proc is mounted the table cannot be read
    match fs_init(0, None) {
        fs_init_t::Mount(fs) => {
            assert_eq!(fs.spec, "proc");
            assert_eq!(fs.file, "/proc");
            assert_eq!(fs.fstype, "proc");
        }
        _ => panic!("proc must be mounted"),
    }
    let t = vec![entry("/proc", "rw")];
    match fs_init(1, Some(&t)) {
        fs_init_t::Mount(fs) => {
            assert_eq!(fs.spec, "devtmpfs");
            assert_eq!(fs.file, "/dev");
            assert_eq!(fs.fstype, "devtmpfs");
        }
        _ => panic!("devtmpfs must be mounted"),
    }
    match fs_init(2, Some(&t)) {
        fs_init_t::Mount(fs) => {
            assert_eq!(fs.spec, "sysfs");
            assert_eq!(fs.file, "/sys");
            assert_eq!(fs.fstype, "sysfs");
        }
        _ => panic!("sysfs must be mounted"),
    }
    assert!(matches!(fs_init(0, Some(&t)), fs_init_t::Skip));
    assert!(matches!(fs_init(3, Some(&t)), fs_init_t::Done));
}

#[test]
fn fs_init_in_container_mounts_nothing() {
    let t = vec![entry("/proc", "rw"), entry("/dev", "rw"), entry("/sys", "ro")];
    for step in 0..3 {
        assert!(matches!(fs_init(step, Some(&t)), fs_init_t::Skip));
    }
    assert!(matches!(fs_init(3, Some(&t)), fs_init_t::Done));
}

#[test]
fn fs_mount_outcomes() {
    assert!(matches!(fs_mount("proc", 0, 0), fs_mount_t::Mounted));
    assert!(matches!(fs_mount("proc", -1, libc::EBUSY), fs_mount_t::Mounted));
    assert!(matches!(fs_mount("proc", -1, libc::EPERM), fs_mount_t::Failed("MS_MOVE")));
    assert!(matches!(fs_mount("", -1, libc::ENOENT), fs_mount_t::Failed("mounting")));
}

#[test]
fn hasopt_of_joined_lists() {
    let (a, b) = ("rw,nosuid", "noexec,,mode=755");
    let ab = format!("{},{}", a, b);
    let ba = format!("{},{}", b, a);
    for opt in ["rw", "nosuid", "noexec", "", "mode=755", "ro", "rw,nosuid"] {
        assert_eq!(hasopt(&ab, opt), hasopt(a, opt) || hasopt(b, opt));
        assert_eq!(hasopt(&ab, opt), hasopt(&ba, opt));
    }
}
