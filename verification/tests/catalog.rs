use mangatan::ocr::catalog::{
    chapter_reference, get_cache_key, local_url, parse_i32, segment_after, select_chapter,
    split_on, CatalogError, ChapterNode,
};

fn chapter(id: i32, thousandths: i64) -> ChapterNode {
    ChapterNode { id, chapter_number: thousandths * 1_000 }
}

#[test]
fn cache_key_is_the_path() {
    assert_eq!(
        get_cache_key("http://example.com:8080/api/v1/manga/12/chapter/3/page/0?x=1#top"),
        "/api/v1/manga/12/chapter/3/page/0"
    );
    assert_eq!(get_cache_key("https://example.com"), "/");
}

#[test]
fn cache_key_of_a_relative_address_stops_at_the_query() {
    assert_eq!(get_cache_key("/api/v1/manga/12/chapter/3?x=1?y=2"), "/api/v1/manga/12/chapter/3");
    assert_eq!(get_cache_key("api/v1/manga"), "api/v1/manga");
    assert_eq!(get_cache_key("?only=query"), "");
    assert_eq!(get_cache_key(""), "");
}

#[test]
fn pages_are_fetched_from_the_local_server() {
    assert_eq!(
        local_url("https://example.com:8443/api/v1/manga/1/chapter/2/page/3?w=1"),
        "http://127.0.0.1:4567/api/v1/manga/1/chapter/2/page/3?w=1"
    );
    assert_eq!(local_url("/api/v1/manga/1"), "/api/v1/manga/1");
}

#[test]
fn text_is_split_at_every_separator() {
    assert_eq!(split_on("a/b//c", '/'), vec!["a", "b", "", "c"]);
    assert_eq!(split_on("/a/", '/'), vec!["", "a", ""]);
    assert_eq!(split_on("", '/'), vec![""]);
    assert_eq!(split_on("abc", '/'), vec!["abc"]);
}

#[test]
fn segment_after_the_first_match() {
    let parts: Vec<String> = ["", "manga", "7", "manga", "8"].iter().map(|s| s.to_string()).collect();
    assert_eq!(segment_after(&parts, "manga"), Some("7".to_string()));
    assert_eq!(segment_after(&parts, "8"), None);
    assert_eq!(segment_after(&parts, "chapter"), None);
}

#[test]
fn address_names_manga_and_chapter() {
    let named = chapter_reference("http://localhost:4567/api/v1/manga/12/chapter/3.5/page/0").unwrap();
    assert_eq!(named.manga_id, 12);
    assert_eq!(named.chapter_number, "3.5");
    let named = chapter_reference("/manga/-4/chapter/x").unwrap();
    assert_eq!(named.manga_id, -4);
    assert_eq!(named.chapter_number, "x");
}

#[test]
fn address_without_manga_or_chapter_is_refused() {
    assert_eq!(
        chapter_reference("http://h/api/chapter/3").unwrap_err(),
        CatalogError::MissingMangaId
    );
    assert_eq!(chapter_reference("http://h/api/manga").unwrap_err(), CatalogError::MissingMangaId);
    assert_eq!(
        chapter_reference("http://h/manga/3/page/1").unwrap_err(),
        CatalogError::MissingChapterNumber
    );
    assert_eq!(
        chapter_reference("http://h/manga/twelve/chapter/1").unwrap_err(),
        CatalogError::BadMangaId
    );
    assert_eq!(
        chapter_reference("http://h/manga/99999999999/chapter/1").unwrap_err(),
        CatalogError::BadMangaId
    );
}

#[test]
fn chapter_is_found_by_its_number() {
    let chapters = vec![chapter(10, 1_000), chapter(11, 2_000), chapter(12, 2_500)];
    assert_eq!(select_chapter(&chapters, 2_000_000), Some(11));
    assert_eq!(select_chapter(&chapters, 2_500_000), Some(12));
    assert_eq!(select_chapter(&chapters, 3_000_000), None);
}

#[test]
fn zero_indexed_list_shifts_by_one() {
    let chapters = vec![chapter(10, 0), chapter(11, 1_000), chapter(12, 2_000)];
    assert_eq!(select_chapter(&chapters, 1_000_000), Some(10));
    assert_eq!(select_chapter(&chapters, 3_000_000), Some(12));
    assert_eq!(select_chapter(&chapters, 4_000_000), None);
}

#[test]
fn chapter_numbers_match_within_a_thousandth() {
    let chapters = vec![ChapterNode { id: 1, chapter_number: 5_000_999 }];
    assert_eq!(select_chapter(&chapters, 5_000_000), Some(1));
    let chapters = vec![ChapterNode { id: 1, chapter_number: 5_001_000 }];
    assert_eq!(select_chapter(&chapters, 5_000_000), None);
    let chapters = vec![ChapterNode { id: 1, chapter_number: 4_999_001 }];
    assert_eq!(select_chapter(&chapters, 5_000_000), Some(1));
    let chapters = vec![ChapterNode { id: 1, chapter_number: 4_999_000 }];
    assert_eq!(select_chapter(&chapters, 5_000_000), None);
}

#[test]
fn first_matching_chapter_wins() {
    let chapters = vec![chapter(7, 3_000), chapter(8, 3_000)];
    assert_eq!(select_chapter(&chapters, 3_000_000), Some(7));
    assert_eq!(select_chapter(&Vec::new(), 3_000_000), None);
    let chapters = vec![chapter(1, 0)];
    assert_eq!(select_chapter(&chapters, i64::MIN), None);
}

#[test]
fn integers_are_read_in_decimal() {
    assert_eq!(parse_i32("0"), Some(0));
    assert_eq!(parse_i32("12"), Some(12));
    assert_eq!(parse_i32("+12"), Some(12));
    assert_eq!(parse_i32("-12"), Some(-12));
    assert_eq!(parse_i32("007"), Some(7));
    assert_eq!(parse_i32("-0"), Some(0));
    assert_eq!(parse_i32("2147483647"), Some(i32::MAX));
    assert_eq!(parse_i32("-2147483648"), Some(i32::MIN));
    assert_eq!(parse_i32("000000000000000000000000000000012"), Some(12));
}

#[test]
fn other_texts_are_no_integers() {
    for text in [
        "", "+", "-", "+-1", "--1", "1-", "1+1", " 1", "1 ", "1.0", "0x10", "1e3", "١٢", "１２",
        "2147483648", "-2147483649", "99999999999999999999999999", "-99999999999999999999999999",
        "12a", "a12", "1_000",
    ] {
        assert_eq!(parse_i32(text), None, "{}", text);
    }
}

#[test]
fn integers_are_read_as_the_standard_library_reads_them() {
    let samples = [
        "0", "-1", "+1", "42", "-42", "2147483647", "2147483648", "-2147483648", "-2147483649",
        "", "-", "+", "4 2", "٤٢", "00", "+00", "-00", "9", "10", "1000000000", "3000000000",
        "21474836470", "x", "-x", "+x1", "1x", "12345678901234567890",
    ];
    for text in samples {
        assert_eq!(parse_i32(text), text.parse::<i32>().ok(), "{}", text);
    }
    for value in [-1000, -1, 0, 1, 7, 99, 100, 65535, i32::MAX, i32::MIN, i32::MAX - 1, i32::MIN + 1] {
        assert_eq!(parse_i32(&value.to_string()), Some(value));
    }
}
