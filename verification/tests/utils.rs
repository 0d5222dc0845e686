use mx_scraper::utils;
use sha2::{Digest, Sha256};

#[test]
fn utils_batch_a_list() {
    let items = (0..10).collect::<Vec<_>>();
    let sub_sizes = utils::batch_a_list_of(&items, 3)
        .iter()
        .map(|v| v.len())
        .collect::<Vec<_>>();
    assert_eq!(sub_sizes, vec![3, 3, 3, 1]);
}

#[test]
fn utils_resume_text() {
    let abc = "aaaaaaaaaa^^^^^^^bbbbbbbbb";
    assert_eq!(
        "aaaaaaaaaa^ .. ^bbbbbbbbb",
        utils::resume_text(abc, Some(21))
    );
    assert_eq!("aa .. b", utils::resume_text(abc, Some(3)));
    assert_eq!("a .. ", utils::resume_text(abc, Some(1)));
    assert_eq!("a .. ", utils::resume_text(abc, Some(0)));
    assert_eq!("aaaaaaaaaa^^^^^^^bbbbbbbbb", utils::resume_text(abc, None));
    assert_eq!(
        "aaaaaaaaaa^^^^^^^bbbbbbbbb",
        utils::resume_text(abc, Some(100000))
    );
    assert_eq!(
        "サイン .. こす",
        utils::resume_text("サインこす aaaaaaa草🗿aabbbこす", Some(5))
    );
}

#[test]
fn utils_decode_escaped_unicode_properly() {
    let title = "\\u30d1\\u30f3%tsu";
    let decoded = utils::decode_escaped_unicode_characters(&title);
    assert_eq!(decoded, "パン%tsu");
}

#[test]
fn utils_sanitize_folder_name() {
    let cleaned = utils::sanitize_string_as_path(
        "  folder:\"*?*.name~/ \\u3084\\u3070\\u3044\\u30BF\\u30A4\\u30C8\\u30EB '' ",
        Some("mx_1234".to_string()),
    );

    assert_eq!(
        cleaned,
        "folder_name_ やばいタイトル _ (mx_1234)"
    );
}

#[test]
fn fingerprint_matches_sha256_of_term_and_plugin() {
    let expected = format!("mx_{}", hex::encode(Sha256::digest("abcp")));
    assert_eq!(utils::compute_query_signature("abc", "p"), expected);
    assert_eq!(
        utils::compute_query_signature("abc", "p"),
        "mx_7c3810d196413f42bc3ffdcf6cba23c3568a5f5c99bd9b779610888c03399257"
    );
}

#[test]
fn fingerprint_is_the_same_on_every_call() {
    let first = utils::compute_query_signature("http://a", "mock");
    let second = utils::compute_query_signature("http://a", "mock");
    assert_eq!(first, second);
    assert_eq!(
        first,
        "mx_e6c0200ef3f6f4f068635de51fdc5104c0e83be249c967c3dadb40a3df341f1d"
    );
    assert_eq!(first.len(), 67);
}

#[test]
fn fingerprint_depends_on_the_concatenation_only() {
    assert_eq!(
        utils::compute_query_signature("ab", "cp"),
        utils::compute_query_signature("abc", "p")
    );
    assert_ne!(
        utils::compute_query_signature("abc", "p"),
        utils::compute_query_signature("abc", "q")
    );
}

#[test]
fn shorten_keeps_what_fits() {
    assert_eq!(utils::unicode_safe_shorten("hello", 5), "hello");
    assert_eq!(utils::unicode_safe_shorten("hello", 100), "hello");
    assert_eq!(utils::unicode_safe_shorten("", 0), "");
}

#[test]
fn shorten_marks_a_cut_with_two_dots() {
    assert_eq!(utils::unicode_safe_shorten("hello", 3), "hel..");
    assert_eq!(utils::unicode_safe_shorten("hello", 0), "..");
}

#[test]
fn shorten_never_splits_a_character() {
    // each of these characters takes three bytes
    assert_eq!(utils::unicode_safe_shorten("やばい", 3), "や..");
    assert_eq!(utils::unicode_safe_shorten("やばい", 4), "や..");
    assert_eq!(utils::unicode_safe_shorten("やばい", 5), "や..");
    assert_eq!(utils::unicode_safe_shorten("やばい", 6), "やば..");
    assert_eq!(utils::unicode_safe_shorten("やばい", 2), "..");
    assert_eq!(utils::unicode_safe_shorten("やばい", 9), "やばい");
    // a character of four bytes after one of one byte
    assert_eq!(utils::unicode_safe_shorten("a🗿b", 4), "a..");
    assert_eq!(utils::unicode_safe_shorten("a🗿b", 5), "a🗿..");
}

#[test]
fn sanitize_replaces_each_run_by_one_underscore() {
    assert_eq!(utils::sanitize_string("a/b"), "a_b");
    assert_eq!(utils::sanitize_string("a//::b"), "a_b");
    assert_eq!(utils::sanitize_string("/a/"), "_a_");
    assert_eq!(utils::sanitize_string("plain"), "plain");
    assert_eq!(utils::sanitize_string(""), "");
    assert_eq!(utils::sanitize_string("..."), "_");
}

#[test]
fn sanitize_leaves_no_forbidden_character() {
    let forbidden = "\\/:\"'*?<>.&%={}|~+";
    let input = format!("x{}y{}z", forbidden, forbidden);
    let clean = utils::sanitize_string(&input.replace('\\', "/"));
    for c in forbidden.chars() {
        assert!(!clean.contains(c), "{c:?} is left in {clean:?}");
    }
    assert_eq!(clean, "x_y_z");
    for c in forbidden.chars() {
        if c == '\\' {
            continue;
        }
        let one = utils::sanitize_string(&format!("a{c}b"));
        assert_eq!(one, "a_b");
    }
}

#[test]
fn sanitize_collapses_white_space() {
    assert_eq!(utils::sanitize_string("a \t\n  b"), "a b");
    assert_eq!(utils::sanitize_string("  a  "), " a ");
}

#[test]
fn sanitize_decodes_escapes_first() {
    assert_eq!(utils::sanitize_string("\\u0041\\u002fB"), "A_B");
}

#[test]
fn undecodable_text_is_told_apart() {
    assert_eq!(
        utils::try_decode_escaped_unicode_characters("fine"),
        Some("fine".to_string())
    );
    assert_eq!(
        utils::try_decode_escaped_unicode_characters("quoted \"text\""),
        Some("quoted \"text\"".to_string())
    );
    assert_eq!(utils::try_decode_escaped_unicode_characters("bad \\q"), None);
    assert_eq!(
        utils::try_decode_escaped_unicode_characters("control \u{1} character"),
        None
    );
    assert_eq!(
        utils::try_decode_escaped_unicode_characters("\\u30d1"),
        Some("パ".to_string())
    );
}

#[test]
fn undecodable_text_is_kept_as_written() {
    // a backslash that starts no escape
    assert_eq!(
        utils::decode_escaped_unicode_characters("a\\q  b\tc"),
        "a\\q b c"
    );
    assert_eq!(utils::sanitize_string("a\\q"), "a_q");
    assert_eq!(utils::sanitize_string("bad \\q: \\u0041"), "bad _q_ _u0041");
    assert_eq!(
        utils::sanitize_string_as_path(" x\\y ", Some("id".to_string())),
        "x_y (id)"
    );
    // a control character, which no string literal may hold
    assert_eq!(utils::sanitize_string("a\u{1}/b"), "a\u{1}_b");
}

#[test]
fn path_with_id_is_labelled() {
    assert_eq!(
        utils::sanitize_string_as_path(" a/b ", Some("id".to_string())),
        "a_b (id)"
    );
}

#[test]
fn path_with_id_is_cut_at_70_bytes() {
    let long = "x".repeat(100);
    let path = utils::sanitize_string_as_path(&long, Some("mx_12".to_string()));
    assert_eq!(path, format!("{}.. (mx_12)", "x".repeat(70)));
}

#[test]
fn path_without_id_is_the_trimmed_sanitized_text() {
    assert_eq!(utils::sanitize_string_as_path("  a:b  ", None), "a_b");
    let long = "x".repeat(300);
    assert_eq!(utils::sanitize_string_as_path(&long, None), long);
}

#[test]
fn path_over_the_limit_gets_a_digest_label() {
    let long = "x".repeat(300);
    let path = utils::sanitize_string_as_path_within(&long, None, 256);
    assert_eq!(path, format!("{}.. (long_0d4e2)", "x".repeat(70)));
    assert!(path.len() <= 256);
    assert!(path.len() <= 85);
    let short = utils::sanitize_string_as_path_within("short", None, 256);
    assert_eq!(short, "short");
}

#[test]
fn filename_is_the_decoded_last_segment() {
    assert_eq!(
        utils::extract_filename("http://host/a/b/page%201.jpg"),
        Some("page 1.jpg".to_string())
    );
    assert_eq!(
        utils::extract_filename("http://host"),
        Some("".to_string())
    );
    assert_eq!(utils::extract_filename("http://host/%FF"), None);
}

#[test]
fn filename_of_a_url_without_segments() {
    assert_eq!(utils::try_extract_filename("data:text/plain,hi"), None);
    assert_eq!(utils::try_extract_filename("not a url"), None);
    assert_eq!(
        utils::try_extract_filename("http://host/x.png"),
        Some(Some("x.png".to_string()))
    );
    assert!(!utils::has_path_segments("mailto:a@b.c"));
    assert!(utils::has_path_segments("https://host/a"));
}

#[test]
fn batches_of_an_empty_list() {
    let items: Vec<u8> = vec![];
    assert!(utils::batch_a_list_of(&items, 3).is_empty());
}

#[test]
fn batches_keep_order_and_content() {
    let items = vec!["a", "b", "c", "d", "e"];
    let batches = utils::batch_a_list_of(&items, 2);
    assert_eq!(batches, vec![vec!["a", "b"], vec!["c", "d"], vec!["e"]]);
    let total: usize = batches.iter().map(|b| b.len()).sum();
    assert_eq!(total, items.len());
    assert!(batches.iter().all(|b| b.len() <= 2));
    let exact = utils::batch_a_list_of(&items, 5);
    assert_eq!(exact, vec![items.clone()]);
    let large = utils::batch_a_list_of(&items, 50);
    assert_eq!(large, vec![items.clone()]);
    let ones = utils::batch_a_list_of(&items, 1);
    assert_eq!(ones.len(), 5);
}

#[test]
fn resume_text_default_limit_is_50() {
    let text = "a".repeat(51);
    assert_eq!(
        utils::resume_text(&text, None),
        format!("{} .. {}", "a".repeat(25), "a".repeat(25))
    );
    let text = "a".repeat(50);
    assert_eq!(utils::resume_text(&text, None), text);
}

#[test]
fn set_if_empty_takes_the_placeholder_for_empty_values() {
    assert_eq!(
        utils::set_if_empty(String::new(), "placeholder".to_string()),
        "placeholder"
    );
    assert_eq!(
        utils::set_if_empty("value".to_string(), "placeholder".to_string()),
        "value"
    );
}

#[test]
fn path_limit_counts_the_sanitized_text() {
    // 300 characters that sanitize to one underscore
    let slashes = "/".repeat(300);
    assert_eq!(utils::sanitize_string_as_path_within(&slashes, None, 256), "_");
    // 100 characters of three bytes each
    let wide = "や".repeat(100);
    let path = utils::sanitize_string_as_path_within(&wide, None, 256);
    assert!(path.len() <= 256);
    assert!(path.starts_with(&"や".repeat(23)));
    assert!(path.contains(".. (long_"));
    assert_eq!(path.len(), 69 + 2 + 2 + 10 + 1);
}
