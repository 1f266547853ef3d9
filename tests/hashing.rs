use asset_hasher::hex::to_hex8;
use asset_hasher::naming::{fingerprint, fingerprinted_name, get_file_path, is_fingerprinted};
use asset_hasher::xxhash::xx_hash32;

#[test]
fn digest_of_empty_input() {
    assert_eq!(xx_hash32(b""), 0x02cc5d05);
}

#[test]
fn digest_of_short_inputs() {
    assert_eq!(xx_hash32(b"a"), 0x550d7456);
    assert_eq!(xx_hash32(b"abc"), 0x32d153ff);
    assert_eq!(xx_hash32(b"console.log(1)"), 0x937555a4);
}

#[test]
fn digest_of_inputs_with_whole_stripes() {
    assert_eq!(xx_hash32(b"Nobody inspects the spammish repetition"), 0xe2293b2f);
    assert_eq!(xx_hash32(b"body { color: red; }\n"), 0xae35baac);
}

#[test]
fn digest_is_deterministic() {
    let data = b"console.log(1)".to_vec();
    let copy = data.clone();
    assert_eq!(xx_hash32(&data), xx_hash32(&copy));
}

#[test]
fn digest_depends_on_byte_order() {
    assert_ne!(xx_hash32(b"ab"), xx_hash32(b"ba"));
}

#[test]
fn hex_is_fixed_width_lowercase() {
    assert_eq!(to_hex8(0), "00000000");
    assert_eq!(to_hex8(0x02cc5d05), "02cc5d05");
    assert_eq!(to_hex8(0xdeadbeef), "deadbeef");
    assert_eq!(to_hex8(u32::MAX), "ffffffff");
}

#[test]
fn root_relative_reference_goes_under_base() {
    assert_eq!(get_file_path("/app.js", "site"), "site/app.js");
    assert_eq!(get_file_path("//css/main.css", "site/"), "site/css/main.css");
    assert_eq!(get_file_path("/app.js", ""), "app.js");
    assert_eq!(get_file_path("/", "site"), "site/");
}

#[test]
fn relative_reference_is_kept() {
    assert_eq!(get_file_path("app.js", "site"), "app.js");
    assert_eq!(get_file_path("js/app.js", "/var/www"), "js/app.js");
    assert_eq!(get_file_path("", "site"), "");
}

#[test]
fn fingerprinted_name_embeds_digest() {
    assert_eq!(fingerprinted_name("app.js", 0x937555a4), Some("app_937555a4.js".to_string()));
    assert_eq!(fingerprinted_name("site/css/main.css", 0xab), Some("main_000000ab.css".to_string()));
    assert_eq!(fingerprinted_name("lib.min.js", 1), Some("lib.min_00000001.js".to_string()));
    assert_eq!(fingerprinted_name("a/.b.c", 1), Some(".b_00000001.c".to_string()));
    assert_eq!(fingerprinted_name("trailing.", 1), Some("trailing_00000001.".to_string()));
}

#[test]
fn fingerprinted_name_needs_stem_and_extension() {
    assert_eq!(fingerprinted_name("Makefile", 1), None);
    assert_eq!(fingerprinted_name("site/.htaccess", 1), None);
    assert_eq!(fingerprinted_name("..", 1), None);
    assert_eq!(fingerprinted_name("site/", 1), None);
    assert_eq!(fingerprinted_name("v1.2/app", 1), None);
}

#[test]
fn fingerprint_of_content() {
    assert_eq!(fingerprint("/srv/app.js", b"console.log(1)"), Some("app_937555a4.js".to_string()));
    assert_eq!(fingerprint("style.css", b""), Some("style_02cc5d05.css".to_string()));
}

#[test]
fn equal_content_gives_equal_name() {
    let first = fingerprint("app.js", b"console.log(1)");
    let second = fingerprint("app.js", b"console.log(1)");
    assert_eq!(first, second);
    assert_ne!(first, fingerprint("app.js", b"console.log(2)"));
}

#[test]
fn fingerprinted_name_is_recognised_on_a_second_pass() {
    let first = fingerprint("app.js", b"console.log(1)").unwrap();
    let again = get_file_path(&first, "site");
    assert_eq!(again, first);
    assert!(is_fingerprinted(&again, xx_hash32(b"console.log(1)")));
}

#[test]
fn recognition_needs_the_digest_of_the_content() {
    assert!(is_fingerprinted("site/app_937555a4.js", 0x937555a4));
    assert!(!is_fingerprinted("site/app_937555a4.js", 0x937555a5));
    assert!(!is_fingerprinted("app.js", 0x937555a4));
    assert!(!is_fingerprinted("937555a4.js", 0x937555a4));
    assert!(is_fingerprinted("_937555a4.js", 0x937555a4));
    assert!(!is_fingerprinted("app_937555a4", 0x937555a4));
}
