use std::io::Write;

use cached_asset_proxy::assets::{
    asset_file_request, assetmap_sources, decode_asset_list, definition_fetch_error,
    definition_request, extract_asset, render_assetmap, Asset, AssetInfo, FetchStage,
    ListDecoding, Method,
};
use cached_asset_proxy::cache::{asset, asset_cache_key, main_cache_key, main_with_assetmap};
use cached_asset_proxy::config::{
    default_assets_url, default_host, default_origin, default_port, default_redis_host,
    default_redis_port, Settings,
};
use cached_asset_proxy::errors::{asset_error, error_reply, not_found};
use cached_asset_proxy::handlers::{asset_lookup, assetmap_lookup, Lookup};
use cached_asset_proxy::text::{chars_of, decimal_string, replace_chars, split_chars};
use cached_asset_proxy::{AppError, Config};

fn zip_of(files: &[(&str, &[u8])]) -> Vec<u8> {
    let mut writer = zip::ZipWriter::new(std::io::Cursor::new(Vec::new()));
    for (name, data) in files {
        let options = zip::write::FileOptions::default()
            .compression_method(zip::CompressionMethod::Stored);
        writer.start_file(*name, options).unwrap();
        writer.write_all(data).unwrap();
    }
    writer.finish().unwrap().into_inner()
}

fn no_settings() -> Settings {
    Settings {
        host: None,
        port: None,
        allow_origins: None,
        assets_url: None,
        redis_host: None,
        redis_port: None,
    }
}

fn config_with_assets_url(url: &str) -> Config {
    let mut settings = no_settings();
    settings.assets_url = Some(url.to_string());
    Config::from_settings(settings)
}

fn replace_via_chars(s: &str, pat: &str, to: &str) -> String {
    let out = replace_chars(&chars_of(s), &chars_of(pat), &chars_of(to));
    out.into_iter().collect()
}

#[test]
fn test_set_get_main_with_assetmap() {
    let data_val = "{\"hello\":\"world\",\"test\":\"case\"}";
    let key = main_cache_key("123445", 1);
    assert_eq!(key, format!("main::{}:{}", String::from("123445"), 1));
    let value_res = main_with_assetmap(Some(data_val.to_string()));
    let value = value_res.unwrap();
    assert_eq!(value, data_val)
}

#[test]
fn main_key_has_documented_shape() {
    assert_eq!(main_cache_key("abc", 0), "main::abc:0");
    assert_eq!(main_cache_key("", 18446744073709551615), "main:::18446744073709551615");
}

#[test]
fn asset_key_has_documented_shape() {
    assert_eq!(asset_cache_key("abc", 42, "img/a.png"), "asset::abc:42:img/a.png");
}

#[test]
fn distinct_requests_get_distinct_keys() {
    assert_ne!(main_cache_key("a", 12), main_cache_key("a1", 2));
    assert_ne!(main_cache_key("a", 1), asset_cache_key("a", 1, ""));
}

#[test]
fn asset_keys_collide_when_the_address_holds_a_colon() {
    assert_eq!(asset_cache_key("a:1", 2, "f"), asset_cache_key("a", 1, "2:f"));
}

#[test]
fn cache_miss_when_nothing_cached() {
    assert_eq!(main_with_assetmap(None), Err(AppError::CacheMiss));
    assert_eq!(asset(None), Err(AppError::CacheMiss));
}

#[test]
fn empty_cached_asset_is_a_miss() {
    assert_eq!(asset(Some(Vec::new())), Err(AppError::CacheMiss));
    assert_eq!(asset(Some(vec![1, 2, 3])), Ok(vec![1, 2, 3]));
}

#[test]
fn error_texts() {
    assert_eq!(AppError::CacheMiss.message(), "Failed to fetch asset from cache");
    assert_eq!(AppError::AssetNotFound.message(), "Asset not found");
    assert_eq!(AppError::FailedToGetAsset.message(), "Failed to fetch asset");
    assert_eq!(AppError::Serde("x".to_string()).message(), "Failed to decode response");
    assert_eq!(AppError::Client("x".to_string()).message(), "Failed to make request");
    assert_eq!(AppError::Asset("x".to_string()).message(), "Failed to fetch asset");
}

#[test]
fn missing_asset_replies_not_found() {
    let reply = error_reply(&not_found());
    assert_eq!(reply.code, -4);
    assert_eq!(reply.status_code, 404);
    assert_eq!(reply.message, "Asset not found");
}

#[test]
fn other_errors_reply_internal_error() {
    for err in [
        AppError::CacheMiss,
        AppError::FailedToGetAsset,
        AppError::Serde("bad".to_string()),
        AppError::Client("down".to_string()),
        asset_error("broken".to_string()),
    ] {
        let reply = error_reply(&err);
        assert_eq!(reply.code, -5);
        assert_eq!(reply.status_code, 500);
        assert_eq!(reply.message, err.message());
    }
}

#[test]
fn asset_error_keeps_its_text() {
    assert_eq!(asset_error("oops".to_string()), AppError::Asset("oops".to_string()));
}

#[test]
fn defaults() {
    assert_eq!(default_host(), "0.0.0.0");
    assert_eq!(default_port(), 3000);
    assert_eq!(default_origin(), "https://example.com");
    assert_eq!(default_assets_url(), "http://localhost:5000");
    assert_eq!(default_redis_host(), "http://localhost");
    assert_eq!(default_redis_port(), 6379);
}

#[test]
fn absent_settings_take_defaults() {
    let config = Config::from_settings(no_settings());
    assert_eq!(config.host, "0.0.0.0");
    assert_eq!(config.port, 3000);
    assert_eq!(config.allow_origins, "https://example.com");
    assert_eq!(config.assets_url, "http://localhost:5000");
    assert_eq!(config.redis_host, "http://localhost");
    assert_eq!(config.redis_port, 6379);
}

#[test]
fn supplied_settings_are_kept() {
    let config = Config::from_settings(Settings {
        host: Some("127.0.0.1".to_string()),
        port: Some(8080),
        allow_origins: Some("https://a.io,https://b.io".to_string()),
        assets_url: Some("http://assets:1".to_string()),
        redis_host: Some("redis://cache".to_string()),
        redis_port: Some(7000),
    });
    assert_eq!(config.host, "127.0.0.1");
    assert_eq!(config.port, 8080);
    assert_eq!(config.assets_url, "http://assets:1");
    assert_eq!(config.redis_host, "redis://cache");
    assert_eq!(config.redis_port, 7000);
    assert_eq!(config.origins(), vec!["https://a.io", "https://b.io"]);
    assert_eq!(config.bind_address(), "127.0.0.1:8080");
}

#[test]
fn origins_split_like_str_split() {
    for text in ["", ",", "a", "a,,b", ",a,", "x,y,z"] {
        let mut settings = no_settings();
        settings.allow_origins = Some(text.to_string());
        let config = Config::from_settings(settings);
        let expected: Vec<String> = text.split(',').map(|s| s.to_string()).collect();
        assert_eq!(config.origins(), expected);
        assert_eq!(config.origins().join(","), text);
    }
}

#[test]
fn default_bind_address() {
    assert_eq!(Config::from_settings(no_settings()).bind_address(), "0.0.0.0:3000");
}

#[test]
fn decimal_rendering() {
    for n in [0u64, 7, 10, 99, 100, 1234567890, u64::MAX] {
        assert_eq!(decimal_string(n), n.to_string());
    }
}

#[test]
fn replacement_agrees_with_str_replace() {
    let cases = [
        ("hello world", "o", "0"),
        ("aaaa", "aa", "b"),
        ("aaa", "aa", "b"),
        ("abc", "", "-"),
        ("", "", "x"),
        ("", "a", "x"),
        ("abcabc", "abc", ""),
        ("ünïcödé ü", "ü", "u"),
        ("no match", "zzz", "y"),
        ("ab", "abc", "y"),
    ];
    for (s, pat, to) in cases {
        assert_eq!(replace_via_chars(s, pat, to), s.replace(pat, to));
    }
}

#[test]
fn split_keeps_empty_pieces() {
    assert_eq!(split_chars(&chars_of("a,,b,"), ','), vec!["a", "", "b", ""]);
}

#[test]
fn render_substitutes_every_key() {
    let mut asset = Asset::new();
    asset.insert("$logo".to_string(), AssetInfo { path: "img/logo.png".to_string() });
    asset.insert("$bg".to_string(), AssetInfo { path: "img/bg.jpg".to_string() });
    let main = "{\"logo\": \"$logo\", \"bg\": \"$bg\", \"again\": \"$logo\"}";
    assert_eq!(
        render_assetmap(main, &asset),
        "{\"logo\": \"img/logo.png\", \"bg\": \"img/bg.jpg\", \"again\": \"img/logo.png\"}"
    );
}

#[test]
fn render_applies_keys_in_order() {
    let mut asset = Asset::new();
    asset.insert("a".to_string(), AssetInfo { path: "b".to_string() });
    asset.insert("b".to_string(), AssetInfo { path: "c".to_string() });
    assert_eq!(render_assetmap("ab", &asset), "cc");
}

#[test]
fn render_without_keys_present_is_identity() {
    let mut asset = Asset::new();
    asset.insert("zz".to_string(), AssetInfo { path: "q".to_string() });
    assert_eq!(render_assetmap("hello", &asset), "hello");
    assert_eq!(render_assetmap("hello", &Asset::new()), "hello");
}

#[test]
fn insert_replaces_an_existing_key() {
    let mut asset = Asset::new();
    asset.insert("k".to_string(), AssetInfo { path: "one".to_string() });
    asset.insert("j".to_string(), AssetInfo { path: "two".to_string() });
    asset.insert("k".to_string(), AssetInfo { path: "three".to_string() });
    assert_eq!(asset.len(), 2);
    assert_eq!(asset.entries()[0].0, "k");
    assert_eq!(asset.entries()[0].1.path, "three");
    assert_eq!(asset.entries()[1].1.path, "two");
}

#[test]
fn definition_request_shape() {
    let config = config_with_assets_url("http://assets:5000");
    let request = definition_request(&config, "123e4567-e89b-12d3-a456-426614174000", 2);
    assert_eq!(request.method, Method::Get);
    assert_eq!(
        request.url,
        "http://assets:5000/getAssetDefinition/123e4567-e89b-12d3-a456-426614174000"
    );
    assert_eq!(request.query, vec![("version".to_string(), "2".to_string())]);
    assert!(request.form.is_empty());
    assert_eq!(request.content_type, None);
}

#[test]
fn asset_file_request_shape() {
    let config = config_with_assets_url("http://assets:5000");
    let request = asset_file_request(&config, "id1", 7, "img/a.png");
    assert_eq!(request.method, Method::Post);
    assert_eq!(request.url, "http://assets:5000/getAsset?version=7");
    assert!(request.query.is_empty());
    assert_eq!(
        request.form,
        vec![
            ("asset_id".to_string(), "id1".to_string()),
            ("version".to_string(), "7".to_string()),
            ("files".to_string(), "img/a.png".to_string()),
        ]
    );
    assert_eq!(
        request.content_type,
        Some("application/x-www-form-urlencoded".to_string())
    );
}

#[test]
fn cached_answers_are_served() {
    let config = Config::from_settings(no_settings());
    match assetmap_lookup(&config, "x", 1, Ok("doc".to_string())) {
        Lookup::Serve(text) => assert_eq!(text, "doc"),
        Lookup::Fetch(_) => panic!("expected a cached answer"),
    }
    match asset_lookup(&config, "x", 1, "f", Ok(vec![9])) {
        Lookup::Serve(bytes) => assert_eq!(bytes, vec![9]),
        Lookup::Fetch(_) => panic!("expected a cached answer"),
    }
}

#[test]
fn misses_fetch_from_the_asset_service() {
    let config = Config::from_settings(no_settings());
    match assetmap_lookup(&config, "x", 1, Err(AppError::CacheMiss)) {
        Lookup::Fetch(request) => {
            assert_eq!(request.url, "http://localhost:5000/getAssetDefinition/x")
        }
        Lookup::Serve(_) => panic!("expected a fetch"),
    }
    match asset_lookup(&config, "x", 3, "f", Err(AppError::CacheMiss)) {
        Lookup::Fetch(request) => {
            assert_eq!(request.url, "http://localhost:5000/getAsset?version=3");
            assert_eq!(request.form[2].1, "f");
        }
        Lookup::Serve(_) => panic!("expected a fetch"),
    }
}

#[test]
fn extracts_a_stored_file() {
    let archive = zip_of(&[("img/a.png", b"PNGDATA"), ("other.txt", b"x")]);
    assert_eq!(extract_asset(archive, "img/a.png"), Ok(b"PNGDATA".to_vec()));
}

#[test]
fn missing_file_is_not_found() {
    let archive = zip_of(&[("other.txt", b"x")]);
    assert_eq!(extract_asset(archive, "img/a.png"), Err(AppError::AssetNotFound));
}

#[test]
fn unreadable_archive_is_not_found() {
    assert_eq!(extract_asset(b"not a zip".to_vec(), "a"), Err(AppError::AssetNotFound));
}

#[test]
fn reads_the_assetmap_sources() {
    let archive = zip_of(&[
        ("asset_config/main.json", "{\"uid\": \"$a\"}".as_bytes()),
        ("asset_config/main.assets", b"{\"$a\": {\"AssetPath\": \"p/a\"}}"),
    ]);
    let sources = assetmap_sources(archive).unwrap();
    assert_eq!(sources.main_document, "{\"uid\": \"$a\"}");
    assert_eq!(sources.asset_list, b"{\"$a\": {\"AssetPath\": \"p/a\"}}".to_vec());
    assert_eq!(sources.asset_list_error, None);
}

#[test]
fn test_assetmap_scenario() {
    let archive = zip_of(&[
        ("asset_config/main.json", "{\"uid\": 10001,\"name\": \"$name\"}".as_bytes()),
        (
            "asset_config/main.assets",
            b"{\"$name\": {\"AssetPath\": \"Asset Config\", \"Other\": 1}}",
        ),
    ]);
    let sources = assetmap_sources(archive).unwrap();
    let parsed: std::collections::HashMap<String, serde_json::Value> =
        serde_json::from_slice(&sources.asset_list).unwrap();
    let mut asset = Asset::new();
    for (key, info) in parsed {
        let path = info["AssetPath"].as_str().unwrap().to_string();
        asset.insert(key, AssetInfo { path });
    }
    assert_eq!(
        render_assetmap(&sources.main_document, &asset),
        "{\"uid\": 10001,\"name\": \"Asset Config\"}"
    );
}

#[test]
fn assetmap_sources_errors_are_archive_errors() {
    assert!(matches!(assetmap_sources(b"junk".to_vec()), Err(AppError::Asset(_))));
    let no_main = zip_of(&[("asset_config/main.assets", b"{}")]);
    assert!(matches!(assetmap_sources(no_main), Err(AppError::Asset(_))));
    let no_list = zip_of(&[("asset_config/main.json", b"{}")]);
    assert!(matches!(assetmap_sources(no_list), Err(AppError::Asset(_))));
}

#[test]
fn main_document_must_be_utf8() {
    let archive = zip_of(&[
        ("asset_config/main.json", &[0xff, 0xfe]),
        ("asset_config/main.assets", b"{}"),
    ]);
    match assetmap_sources(archive) {
        Err(err) => assert_eq!(err, AppError::Asset("stream did not contain valid UTF-8".to_string())),
        Ok(_) => panic!("expected a decoding failure"),
    }
}

fn zip_with_aes_field_unencrypted(name: &str, data: &[u8]) -> Vec<u8> {
    let extra: [u8; 11] = [0x01, 0x99, 0x07, 0x00, 0x02, 0x00, 0x41, 0x45, 0x03, 0x00, 0x00];
    hand_made_zip(name, data, 0, &extra)
}

fn hand_made_zip(name: &str, data: &[u8], flags: u16, extra: &[u8]) -> Vec<u8> {
    fn u16le(out: &mut Vec<u8>, v: u16) {
        out.extend_from_slice(&v.to_le_bytes());
    }
    fn u32le(out: &mut Vec<u8>, v: u32) {
        out.extend_from_slice(&v.to_le_bytes());
    }
    let mut out = Vec::new();
    u32le(&mut out, 0x04034b50);
    for v in [20u16, flags, 0, 0, 0] {
        u16le(&mut out, v);
    }
    u32le(&mut out, 0);
    u32le(&mut out, data.len() as u32);
    u32le(&mut out, data.len() as u32);
    u16le(&mut out, name.len() as u16);
    u16le(&mut out, 0);
    out.extend_from_slice(name.as_bytes());
    out.extend_from_slice(data);
    let central_start = out.len() as u32;
    u32le(&mut out, 0x02014b50);
    for v in [20u16, 20, flags, 0, 0, 0] {
        u16le(&mut out, v);
    }
    u32le(&mut out, 0);
    u32le(&mut out, data.len() as u32);
    u32le(&mut out, data.len() as u32);
    u16le(&mut out, name.len() as u16);
    u16le(&mut out, extra.len() as u16);
    for v in [0u16, 0, 0] {
        u16le(&mut out, v);
    }
    u32le(&mut out, 0);
    u32le(&mut out, 0);
    out.extend_from_slice(name.as_bytes());
    out.extend_from_slice(extra);
    let central_size = out.len() as u32 - central_start;
    u32le(&mut out, 0x06054b50);
    for v in [0u16, 0, 1, 1] {
        u16le(&mut out, v);
    }
    u32le(&mut out, central_size);
    u32le(&mut out, central_start);
    u16le(&mut out, 0);
    out
}

#[test]
fn unencrypted_entry_with_aes_data_is_not_found() {
    let archive = zip_with_aes_field_unencrypted("img/a.png", b"PNGDATA");
    let mut opened = zip::ZipArchive::new(std::io::Cursor::new(archive.clone())).unwrap();
    assert_eq!(opened.len(), 1);
    assert!(matches!(opened.by_name_decrypt("img/a.png", b""), Ok(Err(_))));
    drop(opened);
    assert_eq!(extract_asset(archive, "img/a.png"), Err(AppError::AssetNotFound));
}

#[test]
fn missing_main_document_carries_the_zip_text() {
    let no_main = zip_of(&[("asset_config/main.assets", b"{}")]);
    match assetmap_sources(no_main) {
        Err(err) => assert_eq!(err, AppError::Asset("specified file not found in archive".to_string())),
        Ok(_) => panic!("expected a lookup failure"),
    }
}

fn decoding_of(bytes: &[u8]) -> ListDecoding {
    match serde_json::from_slice::<std::collections::HashMap<String, serde_json::Value>>(bytes) {
        Ok(parsed) => {
            let mut asset = Asset::new();
            for (key, info) in parsed {
                let path = info["AssetPath"].as_str().unwrap_or("").to_string();
                asset.insert(key, AssetInfo { path });
            }
            ListDecoding::Decoded(asset)
        }
        Err(err) if err.is_eof() => ListDecoding::Incomplete(err.to_string()),
        Err(err) => ListDecoding::Malformed(err.to_string()),
    }
}

fn corrupt_list_archive(list: &[u8]) -> Vec<u8> {
    let mut archive = zip_of(&[
        ("asset_config/main.json", b"{}"),
        ("asset_config/main.assets", list),
    ]);
    let at = archive
        .windows(list.len())
        .rposition(|w| w == list)
        .unwrap();
    archive[at + list.len() - 1] ^= 0x01;
    archive
}

#[test]
fn definition_fetch_errors_by_stage() {
    assert_eq!(definition_fetch_error(FetchStage::Send), AppError::FailedToGetAsset);
    assert_eq!(definition_fetch_error(FetchStage::Body), AppError::AssetNotFound);
}

#[test]
fn complete_list_decoding_errors_are_reported() {
    let incomplete = decode_asset_list(None, ListDecoding::Incomplete("eof".to_string()));
    assert!(matches!(incomplete, Err(AppError::Serde(t)) if t == "eof"));
    let malformed = decode_asset_list(None, ListDecoding::Malformed("syntax".to_string()));
    assert!(matches!(malformed, Err(AppError::Serde(t)) if t == "syntax"));
    let decoded = decode_asset_list(None, ListDecoding::Decoded(Asset::new())).unwrap();
    assert_eq!(decoded.len(), 0);
}

#[test]
fn failed_list_read_reports_the_read_error_unless_malformed_first() {
    let failure = Some("read failed".to_string());
    let after_valid = decode_asset_list(failure.clone(), ListDecoding::Decoded(Asset::new()));
    assert!(matches!(after_valid, Err(AppError::Serde(t)) if t == "read failed"));
    let after_short = decode_asset_list(failure.clone(), ListDecoding::Incomplete("eof".to_string()));
    assert!(matches!(after_short, Err(AppError::Serde(t)) if t == "read failed"));
    let malformed = decode_asset_list(failure, ListDecoding::Malformed("syntax".to_string()));
    assert!(matches!(malformed, Err(AppError::Serde(t)) if t == "syntax"));
}

#[test]
fn corrupt_list_keeps_the_bytes_read() {
    let list: &[u8] = b"{\"$a\": {\"AssetPath\": \"p/a\"}}  ";
    let sources = assetmap_sources(corrupt_list_archive(list)).unwrap();
    assert!(sources.asset_list_error.is_some());
    let mut expected = list.to_vec();
    let last = expected.len() - 1;
    expected[last] ^= 0x01;
    assert_eq!(sources.asset_list, expected);
}

#[test]
fn corrupt_malformed_list_reports_the_json_error() {
    let list: &[u8] = b"{\"$a\" 1}  ";
    let sources = assetmap_sources(corrupt_list_archive(list)).unwrap();
    let read_error = sources.asset_list_error.clone();
    assert!(read_error.is_some());
    let decoding = decoding_of(&sources.asset_list);
    match decode_asset_list(read_error.clone(), decoding) {
        Err(AppError::Serde(text)) => {
            assert_ne!(Some(text.clone()), read_error);
            assert!(text.contains("line 1"));
        }
        other => panic!("unexpected {:?}", other.map(|a| a.len())),
    }
}

#[test]
fn encrypted_entry_is_refused_with_the_password_text() {
    let archive = hand_made_zip("asset_config/main.json", b"0123456789abcdef", 1, &[]);
    let expected = "unsupported Zip archive: Password required to decrypt file".to_string();
    match assetmap_sources(archive.clone()) {
        Err(err) => assert_eq!(err, AppError::Asset(expected)),
        Ok(_) => panic!("expected a lookup failure"),
    }
    assert_eq!(extract_asset(archive, "asset_config/main.json"), Err(AppError::AssetNotFound));
}
