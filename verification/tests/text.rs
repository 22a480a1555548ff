use kopiur_controller::clock::{later, Moment};
use kopiur_controller::error::Error;
use kopiur_controller::naming::{
    capped_name, fnv1a, normalized_repository_ref, pinned_repo_key, repo_label, RepositoryKind,
    RepositoryRef,
};
use kopiur_controller::strmap::{lookup, StringMap};
use kopiur_controller::text::{
    byte_len, char_is_space, decimal_text, hex_text, is_before, join, parse_i128, same, same_opt,
    signed_decimal_text, split, split_nonempty, starts_with, str_or_empty, strip_suffix,
    take_chars, trim, trim_end_matches,
};

#[test]
fn white_space_is_what_the_language_says() {
    for u in 0..=0x10ffffu32 {
        if let Some(c) = char::from_u32(u) {
            assert_eq!(char_is_space(c), c.is_whitespace(), "{u:x}");
        }
    }
}

#[test]
fn strings_are_ordered_by_their_bytes() {
    let words = ["", "a", "aa", "ab", "b", "z", "ä", "€", "\u{1f600}", "Z"];
    for a in words {
        for b in words {
            assert_eq!(is_before(a, b), a < b, "{a} {b}");
            assert_eq!(same(a, b), a == b);
            assert_eq!(same_opt(Some(a), Some(b)), a == b);
        }
        assert!(!same_opt(Some(a), None));
    }
    assert!(same_opt(None, None));
}

#[test]
fn pieces_are_those_between_the_separators() {
    for s in ["", "/", "a", "/a/b/", "a//b", "ä/ö"] {
        assert_eq!(split(s, '/'), s.split('/').collect::<Vec<_>>(), "{s}");
        assert_eq!(
            split_nonempty(s, '/'),
            s.split('/').filter(|p| !p.is_empty()).collect::<Vec<_>>(),
            "{s}"
        );
    }
    assert_eq!(join(&vec!["a".to_string(), "b".to_string()], ", "), "a, b");
    assert_eq!(join(&vec![], ", "), "");
}

#[test]
fn ends_are_cut() {
    for s in ["", "  ", " a b ", "\u{2003}x\n", "--", "a--", "-a-"] {
        assert_eq!(trim(s), s.trim());
        assert_eq!(trim_end_matches(s, '-'), s.trim_end_matches('-'));
    }
    assert_eq!(take_chars("aäb", 2), "aä");
    assert_eq!(take_chars("ab", 9), "ab");
    assert_eq!(byte_len("aä"), 3);
    assert!(starts_with("abc", "ab"));
    assert!(!starts_with("a", "ab"));
    assert_eq!(strip_suffix("10Gi", "Gi"), Some("10"));
    assert_eq!(strip_suffix("10Mi", "Gi"), None);
    assert_eq!(str_or_empty(&None), "");
}

#[test]
fn numbers_survive_their_text() {
    for n in [0u64, 9, 10, 1234567890, u64::MAX] {
        assert_eq!(decimal_text(n), n.to_string());
        assert_eq!(parse_i128(&decimal_text(n)), Some(n as i128));
        assert_eq!(hex_text(n, 16), format!("{n:016x}"));
    }
    for n in [i64::MIN, -1, 0, i64::MAX] {
        assert_eq!(signed_decimal_text(n), n.to_string());
    }
    for s in ["", "-", "+", "+7", "-7", "1_0", " 1", "170141183460469231731687303715884105728"] {
        assert_eq!(parse_i128(s), s.parse::<i128>().ok(), "{s}");
    }
}

#[test]
fn instants_are_read_and_written() {
    let m = Moment::parse_rfc3339("2026-05-28T22:26:40.25+02:00").unwrap();
    assert_eq!((m.secs, m.nanos), (1_780_000_000, 250_000_000));
    assert_eq!(m.to_rfc3339(), "2026-05-28T20:26:40.250+00:00");
    assert_eq!(m.to_rfc3339_zulu(), "2026-05-28T20:26:40Z");
    assert!(Moment::parse_rfc3339("2026-05-28").is_none());
    assert!(m.is_valid());
    assert!(!Moment { secs: i64::MAX, nanos: 0 }.is_valid());
    let later_one = Moment { secs: 1_780_000_090, nanos: 0 };
    assert_eq!(later_one.age_of(m), 89);
    assert_eq!(m.age_of(later_one), 0);
    assert!(later_one.has_reached(m));
    assert!(!m.has_reached(later_one));
    assert_eq!(later(Some(m), Some(later_one)), Some(later_one));
    assert_eq!(later(None, Some(m)), Some(m));
}

#[test]
fn a_leap_second_counts_once_it_is_over() {
    let at = |secs: i64, nanos: u32| Moment { secs, nanos };
    let leap = 1_000_000_000;
    for (now, since, age) in [
        (at(10_859, leap), at(10_799, leap), 61),
        (at(10_800, 0), at(10_799, leap), 1),
        (at(10_859, leap), at(10_800, 0), 60),
        (at(86_400, 0), at(86_399, leap), 0),
        (at(97_200, 0), at(10_799, leap), 86_401),
        (at(97_199, leap + 500_000_000), at(10_800, 0), 86_399),
    ] {
        assert!(now.is_valid() && since.is_valid());
        assert_eq!(now.age_of(since), age, "{now:?} {since:?}");
    }
}

#[test]
fn a_map_keeps_the_last_entry() {
    let mut m = StringMap::new();
    m.insert("k", "1");
    m.insert("k", "2");
    assert_eq!(m.get("k").map(String::as_str), Some("2"));
    assert_eq!(lookup(Some(&m), "x"), None);
    assert_eq!(lookup(None, "k"), None);
}

#[test]
fn hashes_and_keys_are_exact() {
    assert_eq!(fnv1a(""), 0xcbf2_9ce4_8422_2325);
    assert_eq!(fnv1a("a"), 0xaf63_dc4c_8601_ec8c);
    let r = RepositoryRef {
        kind: RepositoryKind::Repository,
        name: "nas".to_string(),
        namespace: None,
    };
    let n = normalized_repository_ref(&r, "backups");
    assert_eq!(pinned_repo_key(&n), "repository:backups/nas");
    let c = RepositoryRef {
        kind: RepositoryKind::ClusterRepository,
        ..r
    };
    assert_eq!(pinned_repo_key(&c), "clusterrepository:nas");
    assert_eq!(normalized_repository_ref(&c, "backups"), c);
    assert!(c.resolves_to("apps", RepositoryKind::ClusterRepository, "nas", None));
    assert_eq!(repo_label(&n), repo_label(&n.copy()));
    assert_eq!(capped_name(&"x".repeat(64)).len(), 63);
}

#[test]
fn errors_carry_their_text() {
    for e in [
        Error::Validation("t".to_string()),
        Error::MissingDependency("t".to_string()),
        Error::Invariant("t".to_string()),
        Error::Kube {
            code: Some(500),
            message: "t".to_string(),
        },
    ] {
        assert_eq!(e.message(), "t");
    }
}
