use wayper::files::{command_line, img_list_from_scan, is_image_file, substitute_image, PathScan};
use wayper::socket::SocketError;

#[test]
fn image_files_by_extension() {
    assert!(is_image_file(&"/w/a.png".to_string()));
    assert!(is_image_file(&"/w/b.JPG".to_string()));
    assert!(!is_image_file(&"/w/notes.txt".to_string()));
    assert!(!is_image_file(&"/w".to_string()));
}

#[test]
fn directory_list_keeps_only_images() {
    let entries = vec!["/w".to_string(), "/w/a.png".to_string(), "/w/x.txt".to_string(), "/w/b.jpeg".to_string()];
    let mut list = img_list_from_scan(&"/w".to_string(), PathScan::Dir(entries));
    list.sort();
    assert_eq!(list, vec!["/w/a.png".to_string(), "/w/b.jpeg".to_string()]);
    assert_eq!(img_list_from_scan(&"/w/a.png".to_string(), PathScan::File), vec!["/w/a.png".to_string()]);
    assert!(img_list_from_scan(&"/nowhere".to_string(), PathScan::Missing).is_empty());
}

#[test]
fn command_substitutes_image() {
    let argv = command_line(&"matugen image {image}".to_string(), &"/w/a b.png".to_string());
    assert_eq!(argv, vec!["matugen".to_string(), "image".to_string(), "/w/a b.png".to_string()]);
    let quoted = command_line(&"sh -c 'echo hi' {image}x".to_string(), &"/w/a.png".to_string());
    assert_eq!(quoted, vec!["sh".to_string(), "-c".to_string(), "echo hi".to_string(), "{image}x".to_string()]);
    let words = vec!["{image}".to_string(), "a".to_string()];
    assert_eq!(substitute_image(&words, &"/p".to_string()), vec!["/p".to_string(), "a".to_string()]);
}

#[test]
fn error_messages() {
    assert_eq!(SocketError::NoProfile("school".to_string()).message(), "Profile \"school\" is not defined.");
    assert_eq!(
        SocketError::UnindentifiedOutput { output_name: "X".to_string() }.message(),
        "Unidentified output provided: X"
    );
}
