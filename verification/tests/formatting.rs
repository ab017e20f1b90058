use minisftp::config::{AuthMethod, ConnectConfig};
use minisftp::error::Error;
use minisftp::sftp::{build_listing, FileEntry, ProgressInfo};
use minisftp::state::ConnectionState;
use minisftp::utils::{
    fmt_comma, fmt_size, format_mtime, mtime_str, permission_str, resolve_local_path,
    resolve_path, u64_to_dec, TimeParts,
};

#[test]
fn permission_bits_render_like_ls() {
    assert_eq!(permission_str(0o040755), "drwxr-xr-x");
    assert_eq!(permission_str(0o100644), "-rw-r--r--");
    assert_eq!(permission_str(0o120777), "lrwxrwxrwx");
    assert_eq!(permission_str(0o140000), "s---------");
    assert_eq!(permission_str(0o010111), "p--x--x--x");
    assert_eq!(permission_str(0o060660), "brw-rw----");
    assert_eq!(permission_str(0o020620), "crw--w----");
}

#[test]
fn directory_mode_starts_with_d() {
    // Any mode whose type bits are 0o040000 renders with a leading 'd'.
    for mode in [0o040000u32, 0o040755, 0o040111, 0o040777] {
        let s = permission_str(mode);
        assert!(s.starts_with('d'), "mode {:o} gave {}", mode, s);
    }
}

#[test]
fn entry_permission_placeholders_without_metadata() {
    let bare = FileEntry::from_attrs("f".to_string(), None, None, None, None, None);
    assert_eq!(bare.permission_str(), "----------");
    let dir = FileEntry::from_attrs("d".to_string(), None, Some(0o040700), None, None, None);
    assert_eq!(dir.permission_str(), "drwx------");
    let mut plain = FileEntry::from_attrs("f".to_string(), None, None, None, None, None);
    plain.is_dir = true;
    assert_eq!(plain.permission_str(), "d?????????");
}

#[test]
fn sizes_render_with_one_decimal() {
    assert_eq!(fmt_size(0), "0B");
    assert_eq!(fmt_size(980), "980B");
    assert_eq!(fmt_size(1023), "1023B");
    assert_eq!(fmt_size(1024), "1.0KB");
    assert_eq!(fmt_size(1536), "1.5KB");
    assert_eq!(fmt_size(1126), "1.1KB");
    assert_eq!(fmt_size(2 * 1024 * 1024), "2.0MB");
    assert_eq!(fmt_size(1024 * 1024 * 1024), "1.0GB");
    assert_eq!(fmt_size(1610612736), "1.5GB");
}

#[test]
fn size_rounding_is_ties_to_even() {
    // 1280 B is exactly 1.25 KB: the tenth below is even, so it stays.
    assert_eq!(fmt_size(1280), "1.2KB");
    // 1792 B is exactly 1.75 KB: the tenth below is odd, so it rounds up.
    assert_eq!(fmt_size(1792), "1.8KB");
}

#[test]
fn comma_grouping() {
    assert_eq!(fmt_comma(0), "0");
    assert_eq!(fmt_comma(999), "999");
    assert_eq!(fmt_comma(1000), "1,000");
    assert_eq!(fmt_comma(1234567), "1,234,567");
    assert_eq!(fmt_comma(18446744073709551615), "18,446,744,073,709,551,615");
}

#[test]
fn decimal_rendering() {
    assert_eq!(u64_to_dec(0), "0");
    assert_eq!(u64_to_dec(7), "7");
    assert_eq!(u64_to_dec(1048576), "1048576");
    assert_eq!(u64_to_dec(18446744073709551615), "18446744073709551615");
}

#[test]
fn civil_time_renders_in_ls_style() {
    let p = TimeParts { year: 2025, month: 6, day: 22, hour: 15, minute: 30 };
    assert_eq!(format_mtime(&p, true), "Jun 22 15:30");
    assert_eq!(format_mtime(&p, false), "Jun 22  2025");
    let early = TimeParts { year: 1999, month: 12, day: 2, hour: 3, minute: 4 };
    assert_eq!(format_mtime(&early, true), "Dec  2 03:04");
    assert_eq!(format_mtime(&early, false), "Dec  2  1999");
}

#[test]
fn timestamps_render_through_the_local_clock() {
    // 2023-11-14T22:13:20 UTC: every time zone keeps it in November, and
    // the rendered date is always 12 characters.
    let s = mtime_str(1700000000);
    assert_eq!(s.chars().count(), 12);
    assert!(s.starts_with("Nov"));
    // Well over 180 days old by now, so the year form is used.
    assert!(s.ends_with("2023"));
    // An absent mtime renders as a question mark through FileEntry.
    let e = FileEntry::from_attrs("f".to_string(), None, None, None, None, None);
    assert_eq!(e.mtime_str(), "?");
}

#[test]
fn timestamps_outside_the_datetime_range_render_as_question_marks() {
    // The last representable second renders; one past it does not.
    assert_ne!(mtime_str(8210266876799), "?");
    assert_eq!(mtime_str(8210266876800), "?");
    // The cast to signed seconds wraps: the largest values reach back to
    // the first representable instant.
    assert_ne!(mtime_str(18446735739108322816), "?");
    assert_eq!(mtime_str(18446735739108322815), "?");
    assert_eq!(mtime_str(u64::MAX / 2), "?");
}

#[test]
fn remote_paths_resolve_against_the_current_directory() {
    assert_eq!(resolve_path("/home/u", "docs"), "/home/u/docs");
    assert_eq!(resolve_path("/", "x"), "/x");
    assert_eq!(resolve_path("/a/b", ".."), "/a");
    assert_eq!(resolve_path("/a", ".."), "/");
    assert_eq!(resolve_path("/", ".."), "/");
    assert_eq!(resolve_path("/a/b", "."), "/a/b");
    assert_eq!(resolve_path("/a", "/abs/p"), "/abs/p");
}

#[test]
fn local_paths_resolve_with_the_platform_rules() {
    assert_eq!(resolve_local_path("/cur", "/abs"), "/abs");
    assert_eq!(resolve_local_path("/cur", "rel"), "/cur/rel");
}

#[test]
fn error_messages_open_with_their_kind() {
    assert_eq!(Error::Protocol("boom".to_string()).message(), "Protocol error: boom");
    assert_eq!(Error::Auth("no".to_string()).message(), "Auth failed: no");
    assert_eq!(Error::Sftp("odd".to_string()).message(), "SFTP error: odd");
    let e = Error::InvalidTransition {
        from: ConnectionState::Idle,
        to: ConnectionState::SftpReady,
    };
    assert_eq!(e.message(), "Invalid state transition: Idle -> SftpReady");
    let io = Error::from(std::io::Error::new(std::io::ErrorKind::NotFound, "gone"));
    assert_eq!(io.message(), "IO error: gone");
}

#[test]
fn addr_joins_host_and_port() {
    let c = ConnectConfig {
        host: "192.168.1.100".to_string(),
        port: 2222,
        username: "admin".to_string(),
        auth: AuthMethod::Password("secret".to_string()),
    };
    assert_eq!(c.addr(), "192.168.1.100:2222");
}

#[test]
fn progress_derived_quantities() {
    let p = ProgressInfo { transferred: 5000, total: 200000, elapsed_ms: 0 };
    assert_eq!(p.percent(), 2);
    assert_eq!(p.speed(), 0);
    assert_eq!(p.eta_secs(), None);

    let p = ProgressInfo { transferred: 65536, total: 200000, elapsed_ms: 1000 };
    assert_eq!(p.percent(), 32);
    assert_eq!(p.speed(), 65536);
    assert_eq!(p.eta_secs(), Some((200000 - 65536) / 65536));

    let done = ProgressInfo { transferred: 200000, total: 200000, elapsed_ms: 4000 };
    assert_eq!(done.percent(), 100);

    let empty = ProgressInfo { transferred: 0, total: 0, elapsed_ms: 10 };
    assert_eq!(empty.percent(), 0);
}

fn entry(name: &str, is_dir: bool) -> FileEntry {
    let permissions = if is_dir { Some(0o040755) } else { Some(0o100644) };
    FileEntry::from_attrs(name.to_string(), Some(10), permissions, None, None, Some(1))
}

#[test]
fn listings_drop_dot_entries_and_sort_directories_first() {
    let raw = vec![
        entry("zeta", false),
        entry(".", true),
        entry("beta", true),
        entry("..", true),
        entry("alpha", false),
        entry("gamma", true),
    ];
    let out = build_listing(raw);
    let names: Vec<&str> = out.iter().map(|e| e.name.as_str()).collect();
    assert_eq!(names, vec!["beta", "gamma", "alpha", "zeta"]);
    assert!(out[0].is_dir && out[1].is_dir);
    assert!(!out[2].is_dir && !out[3].is_dir);
}

#[test]
fn listing_names_ascend_strictly_within_a_class() {
    let raw = vec![entry("b", false), entry("a", false), entry("c", false), entry("ab", false)];
    let out = build_listing(raw);
    let names: Vec<&str> = out.iter().map(|e| e.name.as_str()).collect();
    assert_eq!(names, vec!["a", "ab", "b", "c"]);
    for w in names.windows(2) {
        assert!(w[0] < w[1]);
    }
}

#[test]
fn from_attrs_classifies_by_mode_bits() {
    let d = FileEntry::from_attrs("x".to_string(), None, Some(0o040000), None, None, None);
    assert!(d.is_dir);
    assert_eq!(d.size, 0);
    let f = FileEntry::from_attrs("y".to_string(), Some(5), Some(0o100644), Some(1), Some(2), Some(3));
    assert!(!f.is_dir);
    assert_eq!(f.size, 5);
    assert_eq!((f.uid, f.gid, f.mtime), (Some(1), Some(2), Some(3)));
}
