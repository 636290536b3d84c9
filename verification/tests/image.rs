use llm_wrapper::json::Json;
use llm_wrapper::transform::canonical::{CanonicalContentBlock, CanonicalImageSource};
use llm_wrapper::transform::image::{
    accept_image, assert_allowed_image_type, assert_allowed_scheme, assert_not_private_ip, assert_size_limit,
    check_image_url, check_url_parts, next_image, put_image, ImageError,
};
use llm_wrapper::transform::{request_to_canonical, Protocol};

#[test]
fn test_allowed_schemes() {
    assert!(check_image_url("https://example.com/img.png").is_ok());
    assert!(check_image_url("http://example.com/img.png").is_ok());
    assert!(check_image_url("file:///local.png").is_err());
    assert!(check_image_url("ftp://server/img.png").is_err());
}

#[test]
fn test_private_ip_rejected() {
    assert!(check_image_url("http://127.0.0.1/img.png").is_err());
    assert!(check_image_url("http://192.168.1.1/img.png").is_err());
    assert!(check_image_url("http://10.0.0.1/img.png").is_err());
    assert!(check_image_url("http://169.254.1.1/img.png").is_err());
    assert!(check_image_url("http://93.184.216.34/img.png").is_ok());
    assert!(check_image_url("http://example.com/img.png").is_ok());
}

#[test]
fn test_allowed_image_types() {
    assert!(assert_allowed_image_type("image/jpeg").is_ok());
    assert!(assert_allowed_image_type("image/png").is_ok());
    assert!(assert_allowed_image_type("image/gif").is_ok());
    assert!(assert_allowed_image_type("image/webp").is_ok());
    assert!(assert_allowed_image_type("image/svg+xml").is_err());
    assert!(assert_allowed_image_type("text/html").is_err());
}

#[test]
fn test_size_limit() {
    let small = b"small";
    assert!(assert_size_limit(small, 1024).is_ok());

    let large: Vec<u8> = vec![0u8; 21 * 1024 * 1024];
    assert!(assert_size_limit(&large, 20 * 1024 * 1024).is_err());
}

#[test]
fn refusals_say_why() {
    assert_eq!(check_image_url("no url"), Err(ImageError::InvalidUrl));
    assert_eq!(
        check_image_url("ftp://h/x").unwrap_err().message(),
        "Unsupported URL scheme: ftp (only http/https allowed)"
    );
    assert_eq!(
        check_image_url("http://127.1/x").unwrap_err().message(),
        "Refusing to download image from private IP: 127.0.0.1"
    );
    assert_eq!(
        assert_allowed_image_type("image/tiff").unwrap_err().message(),
        "Unsupported image type: image/tiff (allowed: jpeg, png, gif, webp)"
    );
    assert_eq!(
        assert_allowed_image_type("text/html").unwrap_err().message(),
        "Not an image: content_type=text/html"
    );
    assert_eq!(
        assert_size_limit(b"abc", 2).unwrap_err().message(),
        "Image exceeds size limit: 3 bytes (max 2 bytes)"
    );
    assert_eq!(check_url_parts(&None), Err(ImageError::InvalidUrl));
}

#[test]
fn private_ranges_are_exact() {
    let private = |h: &str| assert_not_private_ip(Some(h)).is_err();
    assert!(private("127.255.255.255"));
    assert!(private("10.200.0.1"));
    assert!(private("172.16.0.1") && private("172.31.255.255"));
    assert!(!private("172.15.0.1") && !private("172.32.0.1"));
    assert!(private("192.168.0.0") && !private("192.167.0.0"));
    assert!(private("169.254.0.1") && !private("169.253.0.1"));
    assert!(!private("8.8.8.8"));
    assert!(!private("010.0.0.1") && !private("10.0.0.256") && !private("10.0.0"));
    assert!(assert_not_private_ip(None).is_ok());
    assert!(assert_allowed_scheme("https").is_ok());
    assert!(assert_allowed_scheme("HTTPS").is_err());
}

#[test]
fn ipv6_addresses_are_told_apart() {
    let url = |host: &str| check_image_url(&format!("http://{}/img.png", host));
    assert_eq!(
        url("[::1]").unwrap_err().message(),
        "Refusing to download image from private IP: ::1"
    );
    assert!(url("[0:0:0:0:0:0:0:1]").is_err());
    assert!(url("[fc00::1]").is_err() && url("[FDFF::]").is_err());
    assert!(url("[fe80::1]").is_err() && url("[febf:1::]").is_err());
    assert!(url("[fec0::1]").is_ok() && url("[fb00::1]").is_ok());
    assert!(url("[::ffff:127.0.0.1]").is_err() && url("[::ffff:10.1.2.3]").is_err());
    assert!(url("[::ffff:172.16.0.1]").is_err() && url("[::ffff:172.32.0.1]").is_ok());
    assert!(url("[::ffff:192.168.0.1]").is_err() && url("[::ffff:169.254.0.1]").is_err());
    assert!(url("[::ffff:8.8.8.8]").is_ok());
    assert!(url("[2001:db8::1]").is_ok() && url("[fc::1]").is_ok());
    assert!(assert_not_private_ip(Some("[::1]")).is_err());
    assert!(assert_not_private_ip(Some("[::ffff:127.0.0.1]")).is_err());
    assert!(assert_not_private_ip(Some("::1")).is_ok());
}

#[test]
fn accepted_images_are_encoded() {
    assert_eq!(
        accept_image("image/png", b"Man"),
        Ok(("TWFu".to_string(), "image/png".to_string()))
    );
    assert_eq!(
        accept_image("image/gif", b"M"),
        Ok(("TQ==".to_string(), "image/gif".to_string()))
    );
    assert!(accept_image("text/html", b"M").is_err());
}

#[test]
fn remote_images_are_replaced_one_by_one() {
    let body = Json::parse(
        r#"{"model": "m", "messages": [
            {"role": "user", "content": [
                {"type": "text", "text": "look"},
                {"type": "image_url", "image_url": {"url": "https://a/1.png"}},
                {"type": "image_url", "image_url": {"url": "data:image/png;base64,AAAA"}}
            ]},
            {"role": "user", "content": [{"type": "image_url", "image_url": {"url": "https://a/2.png"}}]}
        ]}"#,
    )
    .unwrap();
    let mut q = request_to_canonical(Protocol::ChatCompletions, &body).unwrap();
    let (slot, url) = next_image(&q).unwrap();
    assert_eq!((slot.message, slot.block, url.as_str()), (0, 1, "https://a/1.png"));
    put_image(&mut q, slot, "image/png".to_string(), "QUJD".to_string());
    assert_eq!(
        q.messages[0].content[1],
        CanonicalContentBlock::Image {
            source: CanonicalImageSource::Base64 {
                media_type: "image/png".to_string(),
                data: "QUJD".to_string()
            }
        }
    );
    let (slot, url) = next_image(&q).unwrap();
    assert_eq!((slot.message, slot.block, url.as_str()), (1, 0, "https://a/2.png"));
    put_image(&mut q, slot, "image/png".to_string(), "QUJD".to_string());
    assert!(next_image(&q).is_none());
}
