use camera_merger::CameraConfig;

fn config(names: &[&str]) -> CameraConfig {
    CameraConfig {
        device: names.iter().map(|s| s.to_string()).collect(),
    }
}

#[test]
fn add_cameras_appends_in_order() {
    let mut c = config(&["/dev/video0"]);
    c.add_cameras(vec!["/dev/video2".to_string(), "/dev/video1".to_string()]);
    assert_eq!(c.device, vec!["/dev/video0", "/dev/video2", "/dev/video1"]);
}

#[test]
fn remove_cameras_drops_every_copy() {
    let mut c = config(&["a0", "b1", "a0", "c2"]);
    c.remove_cameras("a0".to_string());
    assert_eq!(c.device, vec!["b1", "c2"]);
    c.remove_cameras("zz".to_string());
    assert_eq!(c.device, vec!["b1", "c2"]);
}

#[test]
fn remove_undoes_add_of_new_camera() {
    let mut c = config(&["/dev/video0", "/dev/video1"]);
    c.add_cameras(vec!["/dev/video9".to_string()]);
    c.remove_cameras("/dev/video9".to_string());
    assert_eq!(c.device, vec!["/dev/video0", "/dev/video1"]);
}

#[test]
fn device_list_reads_numbers_or_zero() {
    let c = config(&["/dev/video3", "camera", "/dev/video10", "77"]);
    assert_eq!(c.get_video_device_list().unwrap(), vec![3, 0, 10, 0]);
}

#[test]
fn device_paths_checked_before_decoding() {
    assert!(config(&["/dev/video0", "x"]).device_paths_decodable());
    assert!(!config(&["/dev/video0", "vidé1"]).device_paths_decodable());
}
