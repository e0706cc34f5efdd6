use anatro_rs::domain::kvfs::{fnv1a_64_hex, join, KvFs, KvFsRecord};

#[test]
fn fnv1a_known_values() {
    assert_eq!(fnv1a_64_hex(""), "CBF29CE484222325");
    assert_eq!(fnv1a_64_hex("a"), "AF63DC4C8601EC8C");
    assert_eq!(fnv1a_64_hex("episode01.mkv"), "F6CDFE2E86990EB1");
    assert_eq!(fnv1a_64_hex("é"), "0AC21707B7181E01");
}

#[test]
fn fnv1a_key_is_sixteen_upper_hex_digits() {
    for name in ["", "x", "Show - S01E01.mkv", "日本語.mp4"] {
        let k = fnv1a_64_hex(name);
        assert_eq!(k.len(), 16);
        assert!(k.chars().all(|c| c.is_ascii_digit() || ('A'..='F').contains(&c)));
        assert_eq!(u64::from_str_radix(&k, 16).unwrap(), {
            let mut h: u64 = 0xcbf29ce484222325;
            for b in name.as_bytes() {
                h ^= *b as u64;
                h = h.wrapping_mul(0x100000001b3);
            }
            h
        });
    }
}

#[test]
fn same_name_same_key() {
    assert_eq!(fnv1a_64_hex("ep1.mkv"), fnv1a_64_hex("ep1.mkv"));
    assert_ne!(fnv1a_64_hex("ep1.mkv"), fnv1a_64_hex("ep2.mkv"));
}

#[test]
fn paths_join_like_path_join() {
    assert_eq!(join("/cache", "AB"), "/cache/AB");
    assert_eq!(join("/cache/", "AB"), "/cache/AB");
    assert_eq!(join("", "AB"), "AB");
    assert_eq!(join("/cache", "/abs"), "/abs");
    let fs = KvFs::from_dir("/home/u/.config/anatro-rs/cache".to_string());
    assert_eq!(fs.tmp_path("0123456789ABCDEF"), "/home/u/.config/anatro-rs/cache/0123456789ABCDEF.tmp");
    assert_eq!(fs.final_path("0123456789ABCDEF"), "/home/u/.config/anatro-rs/cache/0123456789ABCDEF");
    assert_eq!(fs.dir(), "/home/u/.config/anatro-rs/cache");
}

fn rec(a: Option<&str>, b: Option<&str>, c: Option<&str>, d: Option<&str>) -> KvFsRecord {
    KvFsRecord {
        intro_start: a.map(|s| s.to_string()),
        outro_start: b.map(|s| s.to_string()),
        intro_duration: c.map(|s| s.to_string()),
        outro_duration: d.map(|s| s.to_string()),
    }
}

fn fields(r: &KvFsRecord) -> [Option<String>; 4] {
    [r.intro_start.clone(), r.outro_start.clone(), r.intro_duration.clone(), r.outro_duration.clone()]
}

#[test]
fn record_encoding_uses_tabs_and_dashes() {
    let r = rec(Some("12.500000"), None, Some("90.000000"), None);
    assert_eq!(r.encode(), "12.500000\t-\t90.000000\t-\n");
}

#[test]
fn record_roundtrip() {
    let cases = [
        rec(Some("12.500000"), Some("1300.250000"), Some("90.000000"), Some("90.000000")),
        rec(None, None, None, None),
        rec(Some("1.000000"), None, None, Some("3.000000")),
    ];
    for r in cases.iter() {
        let back = KvFsRecord::decode(&r.encode()).expect("record reads back");
        assert_eq!(fields(&back), fields(r));
    }
}

#[test]
fn record_schema_mismatch() {
    assert!(KvFsRecord::decode("1.0\t2.0\t3.0").is_none());
    assert!(KvFsRecord::decode("1\t2\t3\t4\t5\n").is_none());
    assert!(KvFsRecord::decode("").is_none());
}

#[test]
fn record_decode_trims_trailing_whitespace() {
    let r = KvFsRecord::decode("-\t5.5\t-\t7.25  \r\n").unwrap();
    assert_eq!(fields(&r), [None, Some("5.5".to_string()), None, Some("7.25".to_string())]);
}
