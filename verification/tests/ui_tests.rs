use duster::ui::{format_duration, format_number, format_path, format_size, hundredths, tenths};

fn by_floating_point(bytes: u64) -> String {
    const KB: u64 = 1024;
    const MB: u64 = KB * 1024;
    const GB: u64 = MB * 1024;
    const TB: u64 = GB * 1024;
    if bytes >= TB {
        format!("{:.1} TB", bytes as f64 / TB as f64)
    } else if bytes >= GB {
        format!("{:.1} GB", bytes as f64 / GB as f64)
    } else if bytes >= MB {
        format!("{:.1} MB", bytes as f64 / MB as f64)
    } else if bytes >= KB {
        format!("{:.1} KB", bytes as f64 / KB as f64)
    } else {
        format!("{} B", bytes)
    }
}

#[test]
fn test_format_size() {
    assert_eq!(format_size(500), "500 B");
    assert_eq!(format_size(1024), "1.0 KB");
    assert_eq!(format_size(1536), "1.5 KB");
    assert_eq!(format_size(1048576), "1.0 MB");
    assert_eq!(format_size(1073741824), "1.0 GB");
}

#[test]
fn test_format_number() {
    assert_eq!(format_number(1000), "1,000");
    assert_eq!(format_number(1000000), "1,000,000");
    assert_eq!(format_number(42), "42");
}

#[test]
fn sizes_read_as_floating_point_writes_them() {
    let mut samples: Vec<u64> = vec![
        0,
        1,
        1023,
        1024,
        1025,
        1075,
        1076,
        1077,
        1126,
        1127,
        1128,
        1178,
        1179,
        1180,
        1048575,
        1048576,
        1099511627775,
        1099511627776,
        u64::MAX,
        u64::MAX - 1,
        u64::MAX - 1024,
        u64::MAX - 2048,
    ];
    for shift in 10..64u32 {
        let base = 1u64 << shift;
        for delta in [0u64, 1, 2, 3, 51, 52, 102, 103, 153, 154, 511, 512, 513] {
            samples.push(base.wrapping_add(delta));
            samples.push(base.wrapping_sub(delta));
            samples.push((base / 20).wrapping_mul(3).wrapping_add(delta));
            samples.push((base / 20).wrapping_mul(17).wrapping_sub(delta));
        }
    }
    let mut seed: u64 = 0x9e3779b97f4a7c15;
    for _ in 0..20000 {
        seed ^= seed << 13;
        seed ^= seed >> 7;
        seed ^= seed << 17;
        samples.push(seed);
        samples.push(seed >> (seed % 60));
    }
    for bytes in samples {
        assert_eq!(format_size(bytes), by_floating_point(bytes), "size of {} bytes", bytes);
    }
}

#[test]
fn two_decimal_places_read_as_floating_point_writes_them() {
    let mut seed: u64 = 0x2545f4914f6cdd1d;
    for _ in 0..20000 {
        seed ^= seed << 13;
        seed ^= seed >> 7;
        seed ^= seed << 17;
        for bytes in [seed, seed >> (seed % 60), (seed >> 40) * 1024 / 200] {
            for unit in [1024u64, 1024 * 1024, 1024 * 1024 * 1024] {
                let h = hundredths(bytes, unit);
                let text = format!("{}.{:02}", h / 100, h % 100);
                assert_eq!(text, format!("{:.2}", bytes as f64 / unit as f64), "{} / {}", bytes, unit);
                let t = tenths(bytes, unit);
                let text = format!("{}.{}", t / 10, t % 10);
                assert_eq!(text, format!("{:.1}", bytes as f64 / unit as f64), "{} / {}", bytes, unit);
            }
        }
    }
}

#[test]
fn counts_have_commas_between_thousands() {
    assert_eq!(format_number(0), "0");
    assert_eq!(format_number(999), "999");
    assert_eq!(format_number(12345), "12,345");
    assert_eq!(format_number(123456), "123,456");
    assert_eq!(format_number(u64::MAX), "18,446,744,073,709,551,615");
}

#[test]
fn durations_use_the_largest_two_units() {
    assert_eq!(format_duration(0), "0s");
    assert_eq!(format_duration(59), "59s");
    assert_eq!(format_duration(60), "1m 0s");
    assert_eq!(format_duration(125), "2m 5s");
    assert_eq!(format_duration(3599), "59m 59s");
    assert_eq!(format_duration(3600), "1h 0m");
    assert_eq!(format_duration(7384), "2h 3m");
}

#[test]
fn paths_in_the_home_directory_are_written_from_the_tilde() {
    assert_eq!(format_path("/home/u/code/app", Some("/home/u")), "~/code/app");
    assert_eq!(format_path("/home/u", Some("/home/u")), "~/");
    assert_eq!(format_path("/home/user2/x", Some("/home/u")), "/home/user2/x");
    assert_eq!(format_path("/tmp/x", Some("/home/u")), "/tmp/x");
    assert_eq!(format_path("/home/u/x", None), "/home/u/x");
    assert_eq!(format_path("/home/u//x/./y/", Some("/home/u/")), "~/x/y");
    for (path, home) in [
        ("/home/u/a/b.txt", "/home/u"),
        ("/home/u/a", "/home"),
        ("/a", "/"),
        ("/srv/data", "/home/u"),
        ("rel/x", "rel"),
    ] {
        let expected = match std::path::Path::new(path).strip_prefix(home) {
            Ok(relative) => format!("~/{}", relative.display()),
            Err(_) => path.to_string(),
        };
        assert_eq!(format_path(path, Some(home)), expected, "{:?} from {:?}", path, home);
    }
}
