use bottomless_harness::names::{
    connection_addr, db_listener_key, fresh_s3_dir_name, parsed_address, s3_dir_name, s3_endpoint,
    s3_listener_key, stall_listener_key, with_slash, InvalidAddress,
};
use bottomless_harness::outside::IdSource;
use bottomless_harness::text::{decimal_text, integer_text, join2};

#[test]
fn decimals_match_the_standard_rendering() {
    for n in [0u64, 1, 9, 10, 11, 99, 100, 1990, 65535, u64::MAX - 1, u64::MAX] {
        assert_eq!(decimal_text(n), n.to_string());
    }
    for n in [0i64, 7, -1, -9, -10, 2000, i64::MIN, i64::MIN + 1, i64::MAX] {
        assert_eq!(integer_text(n), n.to_string());
    }
    assert_eq!(join2("s3s-", "x"), "s3s-x");
}

#[test]
fn listener_keys_have_their_prefixes() {
    assert_eq!(s3_listener_key("backup_restore"), "s3-backup_restore");
    assert_eq!(db_listener_key("backup_restore"), "db-backup_restore");
    assert_eq!(stall_listener_key("s3_read_timeout"), "stall-s3_read_timeout");
    assert_eq!(s3_listener_key(""), "s3-");
}

#[test]
fn keys_of_different_servers_differ() {
    let names = ["", "a", "-", "3-", "tall-x"];
    for a in names {
        for b in names {
            assert_ne!(s3_listener_key(a), db_listener_key(b));
            assert_ne!(s3_listener_key(a), stall_listener_key(b));
            assert_ne!(db_listener_key(a), stall_listener_key(b));
            assert_eq!(s3_listener_key(a) == s3_listener_key(b), a == b);
        }
    }
}

#[test]
fn endpoints() {
    assert_eq!(s3_endpoint(9000), "http://127.0.0.1:9000");
    assert_eq!(s3_endpoint(0), "http://127.0.0.1:0");
    assert_eq!(with_slash(&s3_endpoint(9000)), "http://127.0.0.1:9000/");
}

#[test]
fn connection_addresses_are_urls() {
    assert_eq!(connection_addr(8080), Ok("http://localhost:8080/".to_string()));
    // the default port of the scheme is not written
    assert_eq!(connection_addr(80), Ok("http://localhost/".to_string()));
    assert_eq!(connection_addr(65535), Ok("http://localhost:65535/".to_string()));
}

#[test]
fn an_address_that_does_not_parse_is_invalid() {
    let parsed = url::Url::parse("localhost without a scheme").map(String::from);
    assert_eq!(parsed_address(parsed), Err(InvalidAddress));
    let parsed = url::Url::parse("http://localhost:1").map(String::from);
    assert_eq!(parsed_address(parsed), Ok("http://localhost:1/".to_string()));
}

#[test]
fn s3_directories() {
    assert_eq!(
        s3_dir_name("testreplicationresumes"),
        "s3s-testreplicationresumes"
    );
    assert_ne!(s3_dir_name("a"), s3_dir_name("ab"));
    let mut source = IdSource::new();
    let a = fresh_s3_dir_name(&mut source);
    let b = fresh_s3_dir_name(&mut source);
    assert_ne!(a, b);
    for name in [a, b] {
        let id = name.strip_prefix("s3s-").unwrap();
        let chars: Vec<char> = id.chars().collect();
        assert_eq!(chars.len(), 32);
        assert!(chars
            .iter()
            .all(|c| c.is_ascii_digit() || ('a'..='f').contains(c)));
        assert_eq!(chars[12], '7');
        assert!(['8', '9', 'a', 'b'].contains(&chars[16]));
        let uuid = uuid::Uuid::parse_str(id).unwrap();
        assert_eq!(uuid.get_version_num(), 7);
    }
}

#[test]
fn fresh_directories_are_new() {
    let mut source = IdSource::new();
    let names: Vec<String> = (0..2000).map(|_| fresh_s3_dir_name(&mut source)).collect();
    // the ids of a process are ordered by their creation
    assert!(names.windows(2).all(|pair| pair[0] < pair[1]));
}
