use rss_autodl::magnet::extract_hash_from_magnet_link;

#[test]
fn test_valid_magnet() {
    let magnet = "magnet:?xt=urn:btih:ABC123XYZ4567890EXAMPLEHASH&dn=SomeFile";
    let hash = extract_hash_from_magnet_link(magnet).unwrap();
    assert_eq!(hash, "ABC123XYZ4567890EXAMPLEHASH");
}

#[test]
fn test_valid_magnet_no_extra_params() {
    let magnet = "magnet:?xt=urn:btih:DEADBEEF1234567890";
    let hash = extract_hash_from_magnet_link(magnet).unwrap();
    assert_eq!(hash, "DEADBEEF1234567890");
}

#[test]
fn test_missing_btih_prefix() {
    let magnet = "magnet:?xt=urn:sha1:XYZ123&dn=SomeFile";
    let result = extract_hash_from_magnet_link(magnet);
    assert!(result.is_err());
}

#[test]
fn test_empty_string() {
    let magnet = "";
    let result = extract_hash_from_magnet_link(magnet);
    assert!(result.is_err());
}

#[test]
fn hash_error_message() {
    assert_eq!(extract_hash_from_magnet_link("magnet:?xt=urn:x"), Err("Error extracting hash"));
}

#[test]
fn hash_stops_at_second_marker() {
    let magnet = "magnet:?xt=urn:btih:AAAbtih:BBB&dn=x";
    assert_eq!(extract_hash_from_magnet_link(magnet), Ok("AAA"));
}

#[test]
fn hash_may_be_empty() {
    assert_eq!(extract_hash_from_magnet_link("btih:&x"), Ok(""));
    assert_eq!(extract_hash_from_magnet_link("xbtih:"), Ok(""));
}

#[test]
fn hash_after_first_marker_only() {
    let magnet = "urn:btih:ÄBC&tr=udp://btih:zzz";
    assert_eq!(extract_hash_from_magnet_link(magnet), Ok("ÄBC"));
}
