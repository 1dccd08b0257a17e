use fast_down::prefetch::{
    find_param, hex_digit, last_segment, parse_ext_value, parse_total, parse_u64, percent_decode,
    prefetch, raw_name, ProbeError, ProbeResponse,
};

fn chars(s: &str) -> Vec<char> {
    s.chars().collect()
}

fn ranged(total: &str) -> ProbeResponse {
    ProbeResponse {
        status: 206,
        final_url: "https://cdn.example.com/files/blob.bin".to_string(),
        url_path: "/files/blob.bin".to_string(),
        content_range: Some(format!("bytes 0-0/{total}")),
        content_length: Some(1),
        etag: Some("\"abc\"".to_string()),
        last_modified: Some("Wed, 01 Jan 2025 00:00:00 GMT".to_string()),
        ..Default::default()
    }
}

#[test]
fn ranged_answer_means_fast_download() {
    let info = prefetch(&ranged("10485760")).unwrap();
    assert!(info.fast_download);
    assert_eq!(info.size, 10_485_760);
    assert_eq!(info.final_url, "https://cdn.example.com/files/blob.bin");
    assert_eq!(info.raw_name, "blob.bin");
    assert_eq!(info.file_id.etag, Some("\"abc\"".to_string()));
    assert_eq!(
        info.file_id.last_modified,
        Some("Wed, 01 Jan 2025 00:00:00 GMT".to_string())
    );
}

#[test]
fn plain_answer_means_single_stream() {
    let resp = ProbeResponse {
        status: 200,
        content_length: Some(1_234_567),
        url_path: "/".to_string(),
        ..Default::default()
    };
    let info = prefetch(&resp).unwrap();
    assert!(!info.fast_download);
    assert_eq!(info.size, 1_234_567);
    assert_eq!(info.raw_name, "index");
    assert_eq!(info.file_id.etag, None);
    let resp = ProbeResponse { status: 200, ..Default::default() };
    let info = prefetch(&resp).unwrap();
    assert!(!info.fast_download);
    assert_eq!(info.size, 0);
}

#[test]
fn other_answers_are_errors() {
    for status in [100, 204, 301, 404, 416, 500, 503] {
        let resp = ProbeResponse { status, ..ranged("10") };
        assert_eq!(prefetch(&resp), Err(ProbeError::Status(status)));
    }
}

#[test]
fn ranged_answer_needs_a_coherent_content_range() {
    let resp = ProbeResponse { content_range: None, ..ranged("10") };
    assert_eq!(prefetch(&resp), Err(ProbeError::BadContentRange));
    for bad in ["bytes 0-0/*", "bytes 0-1/10", "bytes 1-1/10", "0-0/10", "bytes 0-0/", "bytes 0-0/1x", "bytes 0-0/ 10", "Bytes 0-0/10", "bytes 0-0/18446744073709551616"] {
        let resp = ProbeResponse { content_range: Some(bad.to_string()), ..ranged("10") };
        assert_eq!(prefetch(&resp), Err(ProbeError::BadContentRange));
    }
    assert_eq!(parse_total("bytes 0-0/0"), Some(0));
    assert_eq!(parse_total("bytes 0-0/18446744073709551615"), Some(u64::MAX));
    assert_eq!(parse_total("bytes 0-0/007"), Some(7));
}

#[test]
fn numbers() {
    assert_eq!(parse_u64(&chars("0")), Some(0));
    assert_eq!(parse_u64(&chars("1234567890123")), Some(1_234_567_890_123));
    assert_eq!(parse_u64(&chars("18446744073709551615")), Some(u64::MAX));
    assert_eq!(parse_u64(&chars("18446744073709551616")), None);
    assert_eq!(parse_u64(&chars("99999999999999999999")), None);
    assert_eq!(parse_u64(&chars("")), None);
    assert_eq!(parse_u64(&chars("+1")), None);
    assert_eq!(parse_u64(&chars("1 ")), None);
}

#[test]
fn name_comes_from_disposition_then_path() {
    let name = |disposition: Option<&str>, path: &str| {
        let mut resp = ranged("10");
        resp.content_disposition = disposition.map(|d| d.to_string());
        resp.url_path = path.to_string();
        raw_name(&resp)
    };
    let path = "/files/blob.bin";
    assert_eq!(
        name(Some("attachment; filename*=UTF-8''na%C3%AFve.txt; filename=\"naive.txt\""), path),
        "naïve.txt"
    );
    assert_eq!(
        name(Some("attachment; filename=\"naive.txt\"; filename*=utf-8'en'%e2%82%ac%20rates"), path),
        "€ rates"
    );
    assert_eq!(name(Some("attachment; filename=\"a b.txt\""), path), "a b.txt");
    assert_eq!(name(Some("attachment;FileName = plain.bin "), path), "plain.bin");
    assert_eq!(name(Some("attachment; filename=\"\""), path), "blob.bin");
    assert_eq!(name(Some("inline"), path), "blob.bin");
    assert_eq!(name(Some(""), path), "blob.bin");
    assert_eq!(name(None, path), "blob.bin");
    assert_eq!(name(None, "/a/b/"), "b");
    assert_eq!(name(None, "///"), "index");
    assert_eq!(name(None, ""), "index");
}

#[test]
fn a_bad_extended_name_falls_back() {
    let name = |disposition: &str| {
        let mut resp = ranged("10");
        resp.content_disposition = Some(disposition.to_string());
        raw_name(&resp)
    };
    assert_eq!(name("attachment; filename*=ISO-8859-1''na%EFve.txt; filename=x.txt"), "x.txt");
    assert_eq!(name("attachment; filename*=UTF-8''na%EFve.txt; filename=x.txt"), "x.txt");
    assert_eq!(name("attachment; filename*=UTF-8''bad%2; filename=x.txt"), "x.txt");
    assert_eq!(name("attachment; filename*=UTF-8''bad%zz; filename=x.txt"), "x.txt");
    assert_eq!(name("attachment; filename*=UTF-8''naïve; filename=x.txt"), "x.txt");
    assert_eq!(name("attachment; filename*=UTF-8'only-one; filename=x.txt"), "x.txt");
    assert_eq!(name("attachment; filename*=UTF-8''; filename=x.txt"), "x.txt");
    assert_eq!(name("attachment; filename*=UTF-8''ok.bin"), "ok.bin");
}

#[test]
fn parameters_and_percent_encoding() {
    let chars = |s: &str| s.chars().collect::<Vec<char>>();
    assert_eq!(find_param("a; b=1; B=2", "b"), Some(chars("1")));
    assert_eq!(find_param("a; b = \"x=y\" ", "B"), Some(chars("x=y")));
    assert_eq!(find_param("a; b", "b"), None);
    assert_eq!(find_param("", "b"), None);
    assert_eq!(percent_decode(&chars("a%20b%2F%2f")), Some(b"a b//".to_vec()));
    assert_eq!(percent_decode(&chars("")), Some(vec![]));
    assert_eq!(percent_decode(&chars("%ff%00")), Some(vec![255, 0]));
    assert_eq!(percent_decode(&chars("%")), None);
    assert_eq!(percent_decode(&chars("%1")), None);
    assert_eq!(percent_decode(&chars("%g0")), None);
    assert_eq!(percent_decode(&chars("é")), None);
    assert_eq!(parse_ext_value(&chars("UTF-8''%E6%97%A5%E6%9C%AC")), Some("日本".to_string()));
    assert_eq!(parse_ext_value(&chars("utf-8'ja'x")), Some("x".to_string()));
    assert_eq!(parse_ext_value(&chars("utf-8''%C3")), None);
    assert_eq!(parse_ext_value(&chars("latin1''x")), None);
    assert_eq!(parse_ext_value(&chars("x")), None);
    assert_eq!(hex_digit('0'), Some(0));
    assert_eq!(hex_digit('9'), Some(9));
    assert_eq!(hex_digit('a'), Some(10));
    assert_eq!(hex_digit('F'), Some(15));
    assert_eq!(hex_digit('g'), None);
}

#[test]
fn last_segments() {
    assert_eq!(last_segment("/a/b/c.txt"), Some("c.txt".to_string()));
    assert_eq!(last_segment("c.txt"), Some("c.txt".to_string()));
    assert_eq!(last_segment("/a//"), Some("a".to_string()));
    assert_eq!(last_segment("/"), None);
    assert_eq!(last_segment(""), None);
}
