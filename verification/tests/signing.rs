use base64::Engine;
use hmac::Mac;
use solis_metrics::clock::{http_date, RFC2822_FIRST_MS, RFC2822_LAST_MS};
use solis_metrics::config::Solis;
use solis_metrics::json::{detail_request_body, list_request_body};
use solis_metrics::sign::{sign, sign_at, sign_now, signing_string};

fn credential() -> Solis {
    Solis {
        api: "https://www.soliscloud.com:13333".to_string(),
        key: "1300386381676644416".to_string(),
        secret: "s3cret".to_string(),
    }
}

#[test]
fn the_list_body_is_page_one_of_ten() {
    assert_eq!(list_request_body(), b"{\"pageNo\":1,\"pageSize\":10}".to_vec());
    let mut object = serde_json::Map::new();
    object.insert("pageNo".to_string(), serde_json::Value::from(1));
    object.insert("pageSize".to_string(), serde_json::Value::from(10));
    assert_eq!(list_request_body(), serde_json::to_vec(&serde_json::Value::Object(object)).unwrap());
}

#[test]
fn the_detail_body_holds_the_id_as_a_json_string() {
    assert_eq!(
        detail_request_body("1308675217944611083"),
        b"{\"id\":\"1308675217944611083\"}".to_vec()
    );
    assert_eq!(detail_request_body("a\"b\\c\n"), b"{\"id\":\"a\\\"b\\\\c\\n\"}".to_vec());
    for id in ["", "1308675217944611083", "a\"b\\c\n\u{1}\u{00e9}\u{2103}"] {
        let mut object = serde_json::Map::new();
        object.insert("id".to_string(), serde_json::Value::from(id));
        assert_eq!(
            detail_request_body(id),
            serde_json::to_vec(&serde_json::Value::Object(object)).unwrap()
        );
    }
}

#[test]
fn the_signing_string_has_five_lines() {
    assert_eq!(
        signing_string("kxdxk7rbAsrzSIWgEwhH4w==", "Thu, 5 Oct 2023 15:00:00 +0000", "/v1/api/inverterList"),
        "POST\nkxdxk7rbAsrzSIWgEwhH4w==\napplication/json\nThu, 5 Oct 2023 15:00:00 +0000\n/v1/api/inverterList"
    );
}

#[test]
fn a_request_is_signed_over_its_own_body() {
    let body = list_request_body();
    let request = sign(
        &credential(),
        "/v1/api/inverterList",
        body.clone(),
        "Thu, 05 Oct 2023 15:00:00 +0000",
    );
    assert_eq!(request.body, body);
    assert_eq!(request.url, "https://www.soliscloud.com:13333/v1/api/inverterList");
    assert_eq!(request.content_type, "application/json;charset=utf-8");
    assert_eq!(request.date, "Thu, 05 Oct 2023 15:00:00 +0000");
    assert_eq!(request.content_md5, "kxdxk7rbAsrzSIWgEwhH4w==");
    assert_eq!(
        request.authorization,
        "API 1300386381676644416:KnMgfjeoQSZj0xTFqsvdc7dgX3s="
    );
}

#[test]
fn the_digest_is_the_base64_of_the_md5() {
    let request = sign(&credential(), "/", Vec::new(), "");
    assert_eq!(request.content_md5, "1B2M2Y8AsgTpgAmY7PhCfg==");
    let request = sign(&credential(), "/", detail_request_body("1308675217944611083"), "");
    assert_eq!(request.content_md5, "b2A5qclZv/iANYXqdzBgeQ==");
}

#[test]
fn the_signature_is_the_hmac_of_the_signing_string() {
    let config = credential();
    let body = detail_request_body("1308675217944611083");
    let date = "Sat, 1 Jan 2022 00:00:00 +0000";
    let path = "/v1/api/inverterDetail";
    let request = sign(&config, path, body.clone(), date);
    let digest = base64::engine::general_purpose::STANDARD.encode(md5::compute(&body).0);
    let text = format!("POST\n{digest}\napplication/json\n{date}\n{path}");
    let mut mac = hmac::Hmac::<sha1::Sha1>::new_from_slice(config.secret.as_bytes()).unwrap();
    mac.update(text.as_bytes());
    let signature = base64::engine::general_purpose::STANDARD.encode(mac.finalize().into_bytes());
    assert_eq!(request.content_md5, digest);
    assert_eq!(request.authorization, format!("API {}:{signature}", config.key));
    let other = sign(&config, path, body, "Sat, 1 Jan 2022 00:00:01 +0000");
    assert_ne!(other.authorization, request.authorization);
}

#[test]
fn a_date_is_written_as_rfc_2822() {
    assert_eq!(http_date(0), Some("Thu, 1 Jan 1970 00:00:00 +0000".to_string()));
    assert_eq!(http_date(1696518000000), Some("Thu, 5 Oct 2023 15:00:00 +0000".to_string()));
    assert_eq!(http_date(1696518000999), Some("Thu, 5 Oct 2023 15:00:00 +0000".to_string()));
    assert_eq!(
        http_date(1696518000000),
        Some(chrono::DateTime::from_timestamp_millis(1696518000000).unwrap().to_rfc2822())
    );
}

#[test]
fn a_date_needs_a_year_of_four_digits() {
    assert_eq!(RFC2822_FIRST_MS, -62_167_219_200_000);
    assert_eq!(RFC2822_LAST_MS, 253_402_300_799_999);
    assert_eq!(http_date(RFC2822_FIRST_MS), Some("Sat, 1 Jan 0000 00:00:00 +0000".to_string()));
    assert_eq!(http_date(RFC2822_LAST_MS), Some("Fri, 31 Dec 9999 23:59:59 +0000".to_string()));
    assert_eq!(http_date(RFC2822_FIRST_MS - 1), None);
    assert_eq!(http_date(RFC2822_LAST_MS + 1), None);
    assert_eq!(http_date(i64::MIN), None);
    assert_eq!(http_date(i64::MAX), None);
}

#[test]
fn a_request_is_dated_at_the_instant_given() {
    let request = sign_at(&credential(), "/v1/api/inverterList", list_request_body(), 1696518000000)
        .unwrap();
    assert_eq!(request.date, "Thu, 5 Oct 2023 15:00:00 +0000");
    assert_eq!(
        request,
        sign(
            &credential(),
            "/v1/api/inverterList",
            list_request_body(),
            "Thu, 5 Oct 2023 15:00:00 +0000"
        )
    );
    assert_eq!(sign_at(&credential(), "/", Vec::new(), i64::MAX), None);
}

#[test]
fn a_request_is_dated_by_the_clock() {
    let before = chrono::Utc::now().timestamp();
    let request = sign_now(&credential(), "/v1/api/inverterList", list_request_body()).unwrap();
    let after = chrono::Utc::now().timestamp();
    let date = chrono::DateTime::parse_from_rfc2822(&request.date).unwrap().timestamp();
    assert!(before <= date && date <= after);
    assert_eq!(
        request,
        sign(&credential(), "/v1/api/inverterList", list_request_body(), &request.date)
    );
}
