use drop_app::codec::{parse_bounded, split_char};
use drop_app::download_logic::{chunk_data_valid, chunk_matches};
use drop_app::paths::join_path;
use drop_app::remote::get_cache_path;
use drop_app::text::{find, join_space, same_text, starts_with, text_order, trim};

#[test]
fn digests_are_compared_as_two_lowercase_hex_digits_per_byte() {
    assert!(chunk_matches(&vec![0x00, 0x0f, 0xab, 0xff], &"000fabff".to_string()));
    assert!(!chunk_matches(&vec![0x00, 0x0f, 0xab, 0xff], &"000FABFF".to_string()));
    assert!(chunk_matches(&vec![], &String::new()));
}

#[test]
fn md5_digest_of_known_input() {
    assert!(chunk_data_valid(b"hello", "5d41402abc4b2a76b9719d911017c592"));
    assert!(chunk_data_valid(b"", "d41d8cd98f00b204e9800998ecf8427e"));
    assert!(!chunk_data_valid(b"", "5d41402abc4b2a76b9719d911017c592"));
}

#[test]
fn cache_path_is_the_md5_of_the_key_under_the_base() {
    assert_eq!(get_cache_path("/cache", "user"), "/cache/ee11cbb19052e40b07aac0ca060c23ee");
    assert_eq!(get_cache_path("/cache/", "library"), "/cache/d521f765a49c72507257a2620612ee96");
}

#[test]
fn split_char_keeps_empty_pieces() {
    assert_eq!(split_char("a,b,,c", ','), vec!["a", "b", "", "c"]);
    assert_eq!(split_char("", ','), vec![""]);
    assert_eq!(split_char("handshake/id/token", '/'), vec!["handshake", "id", "token"]);
}

#[test]
fn parse_bounded_follows_str_parse() {
    assert_eq!(parse_bounded("123", 1000), Some(123));
    assert_eq!(parse_bounded("+7", 1000), Some(7));
    assert_eq!(parse_bounded("", 1000), None);
    assert_eq!(parse_bounded("+", 1000), None);
    assert_eq!(parse_bounded("-1", 1000), None);
    assert_eq!(parse_bounded("12a", 1000), None);
    assert_eq!(parse_bounded("1001", 1000), None);
    assert_eq!(parse_bounded("1000", 1000), Some(1000));
    assert_eq!(parse_bounded("18446744073709551615", u64::MAX), Some(u64::MAX));
}

#[test]
fn join_path_behaves_like_path_join() {
    assert_eq!(join_path("/games", "celeste"), "/games/celeste");
    assert_eq!(join_path("/games/", "celeste"), "/games/celeste");
    assert_eq!(join_path("/games", "/abs/path"), "/abs/path");
    assert_eq!(join_path("", "rel"), "rel");
}

#[test]
fn text_helpers() {
    assert_eq!(drop_app::text::concat("ab", "cd"), "abcd");
    assert!(starts_with("/store/x", "/store"));
    assert!(!starts_with("/st", "/store"));
    assert!(same_text("Drop", "Drop"));
    assert!(!same_text("Drop", "drop"));
    assert_eq!(trim("  \t hi there \n"), "hi there");
    assert_eq!(trim("   "), "");
    assert_eq!(find("GAMEID=x umu-run y umu-run", "umu-run", 0), Some(9));
    assert_eq!(find("GAMEID=x umu-run y umu-run", "umu-run", 10), Some(19));
    assert_eq!(find("abc", "d", 0), None);
    assert_eq!(join_space(&vec!["a".to_string(), "b c".to_string()]), "a b c");
    assert_eq!(join_space(&Vec::new()), "");
}

#[test]
fn text_order_is_lexicographic() {
    assert_eq!(text_order("abc", "abd"), -1);
    assert_eq!(text_order("abd", "abc"), 1);
    assert_eq!(text_order("ab", "abc"), -1);
    assert_eq!(text_order("abc", "ab"), 1);
    assert_eq!(text_order("", ""), 0);
    assert_eq!(text_order("same", "same"), 0);
}
