use camera_merger::decode_dev_number;
use camera_merger::support::dev_path_decodable;

#[test]
fn decodes_trailing_device_number() {
    assert_eq!(decode_dev_number("/dev/video0"), Some(0));
    assert_eq!(decode_dev_number("/dev/video12"), Some(12));
    assert_eq!(decode_dev_number("video007"), Some(7));
}

#[test]
fn no_number_after_last_non_digit() {
    assert_eq!(decode_dev_number("/dev/video"), None);
    assert_eq!(decode_dev_number("cam1a"), None);
}

#[test]
fn all_digits_or_empty_give_none() {
    assert_eq!(decode_dev_number("123"), None);
    assert_eq!(decode_dev_number(""), None);
}

#[test]
fn number_must_fit_i32() {
    assert_eq!(decode_dev_number("cam2147483647"), Some(i32::MAX));
    assert_eq!(decode_dev_number("cam2147483648"), None);
    assert_eq!(decode_dev_number("cam99999999999999999999999"), None);
}

#[test]
fn round_trip_of_formatted_number() {
    for n in [0i32, 5, 42, 1000, 65535, i32::MAX] {
        let path = format!("/dev/video{}", n);
        assert_eq!(decode_dev_number(&path), Some(n));
    }
}

#[test]
fn decodable_paths() {
    assert!(dev_path_decodable("/dev/video0"));
    assert!(dev_path_decodable("123"));
    assert!(dev_path_decodable(""));
    assert!(dev_path_decodable("caméra"));
    assert!(!dev_path_decodable("camé5"));
}
