use aur_search::search::{escape_query, search_url, By, BASE_URL};
use percent_encoding::{percent_decode_str, utf8_percent_encode, AsciiSet, CONTROLS};

fn escape_set() -> &'static AsciiSet {
    let fragment = CONTROLS.add(b' ').add(b'"').add(b'<').add(b'>').add(b'`');
    Box::leak(Box::new(fragment.add(b'#').add(b'%').add(b'&').add(b'+').add(b'=')))
}

const TERMS: [&str; 14] = [
    "",
    "git",
    "linux kernel",
    "a<b>c\"d`e",
    "naïve café",
    "日本語 パッケージ",
    "tab\there",
    "100%",
    "a&b",
    "c++",
    "x=y#z",
    "%26%2",
    "\u{80}\u{7ff}\u{800}\u{ffff}\u{10000}\u{10ffff}",
    "  ",
];

#[test]
fn keyword_of_each_field() {
    assert_eq!(By::Name.as_str(), "name");
    assert_eq!(By::NameDesc.as_str(), "name-desc");
    assert_eq!(By::Maintainer.as_str(), "maintainer");
    assert_eq!(By::Depends.as_str(), "depends");
    assert_eq!(By::MakeDepends.as_str(), "makedepends");
    assert_eq!(By::OptDepends.as_str(), "optdepends");
    assert_eq!(By::CheckDepends.as_str(), "checkdepends");
}

#[test]
fn url_of_a_plain_term() {
    assert_eq!(
        search_url(By::NameDesc, "git"),
        "https://aur.archlinux.org/rpc?v=5&type=search&arg=git&by=name-desc"
    );
}

#[test]
fn url_of_the_empty_term() {
    assert_eq!(
        search_url(By::Name, ""),
        "https://aur.archlinux.org/rpc?v=5&type=search&arg=&by=name"
    );
}

#[test]
fn url_names_the_field() {
    for by in [
        By::Name,
        By::NameDesc,
        By::Maintainer,
        By::Depends,
        By::MakeDepends,
        By::OptDepends,
        By::CheckDepends,
    ] {
        assert_eq!(search_url(by, "x"), format!("{}x&by={}", BASE_URL, by.as_str()));
    }
}

#[test]
fn escapes_are_upper_case_hexadecimal() {
    assert_eq!(escape_query("foo <bar>"), "foo%20%3Cbar%3E");
    assert_eq!(escape_query("\"`"), "%22%60");
    assert_eq!(escape_query("\u{0}\t\n\u{1f}\u{7f}"), "%00%09%0A%1F%7F");
    assert_eq!(escape_query("é"), "%C3%A9");
    assert_eq!(escape_query("日本"), "%E6%97%A5%E6%9C%AC");
    assert_eq!(escape_query("\u{1F600}"), "%F0%9F%98%80");
}

#[test]
fn other_characters_stand_as_they_are() {
    let kept = "!$'()*,-./0123456789:;?@ABCXYZ[\\]^_abcxyz{|}~";
    assert_eq!(escape_query(kept), kept);
}

#[test]
fn characters_that_end_or_alter_the_parameter_are_escaped() {
    assert_eq!(escape_query("#%&+="), "%23%25%26%2B%3D");
    assert_eq!(escape_query("100%"), "100%25");
    assert_eq!(escape_query("c++"), "c%2B%2B");
    assert_eq!(escape_query("%26"), "%2526");
}

#[test]
fn term_with_an_ampersand_is_one_parameter() {
    assert_eq!(
        search_url(By::NameDesc, "a&b"),
        "https://aur.archlinux.org/rpc?v=5&type=search&arg=a%26b&by=name-desc"
    );
    for term in TERMS {
        let url = search_url(By::NameDesc, term);
        let query = url.split_once('?').unwrap().1;
        let parameters: Vec<&str> = query.split('&').collect();
        assert_eq!(parameters.len(), 4);
        assert_eq!(parameters[2], format!("arg={}", escape_query(term)));
        assert_eq!(parameters[3], "by=name-desc");
        assert!(!url.contains('#'));
        assert!(!url.contains('+'));
        assert!(!url.contains(' '));
    }
}

#[test]
fn escaped_term_reads_back_as_the_term() {
    for term in TERMS {
        let escaped = escape_query(term);
        let read: Vec<u8> = percent_decode_str(&escaped.replace('+', " ")).collect();
        assert_eq!(read, term.as_bytes());
    }
    for byte in 0u8..128 {
        let text = (byte as char).to_string();
        let escaped = escape_query(&text);
        let read: Vec<u8> = percent_decode_str(&escaped.replace('+', " ")).collect();
        assert_eq!(read, vec![byte]);
    }
}

#[test]
fn every_ascii_character_is_written_as_the_escape_set_says() {
    let set = escape_set();
    for byte in 0u8..128 {
        let text = (byte as char).to_string();
        assert_eq!(escape_query(&text), utf8_percent_encode(&text, set).to_string());
    }
}

#[test]
fn mixed_terms_are_written_as_the_escape_set_says() {
    let set = escape_set();
    for term in TERMS {
        assert_eq!(escape_query(term), utf8_percent_encode(term, set).to_string());
        assert_eq!(
            search_url(By::Depends, term),
            format!("{}{}&by=depends", BASE_URL, utf8_percent_encode(term, set))
        );
    }
}
