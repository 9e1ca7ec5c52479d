use msy::transport::{
    dir_marker_key, list_prefix, object_key, relative_key, ssh_command_args, stored_dir_marker_key, stored_key,
};

#[test]
fn ssh_args_minimal() {
    let args = ssh_command_args("host.example", "", 22, &[]);
    assert_eq!(args, vec!["host.example", "sy", "--server"]);
}

#[test]
fn ssh_args_full() {
    let keys = vec!["/k/id_a".to_string(), "/k/id_b".to_string()];
    let args = ssh_command_args("h", "alice", 2222, &keys);
    assert_eq!(
        args,
        vec!["h", "-l", "alice", "-p", "2222", "-i", "/k/id_a", "-i", "/k/id_b", "sy", "--server"]
    );
}

#[test]
fn ssh_port_is_decimal() {
    let args = ssh_command_args("h", "", 0, &[]);
    assert_eq!(args, vec!["h", "-p", "0", "sy", "--server"]);
    let args = ssh_command_args("h", "", 65535, &[]);
    assert_eq!(args[2], "65535");
}

#[test]
fn object_keys_under_prefix() {
    assert_eq!(object_key("", "/a/b.txt"), "a/b.txt");
    assert_eq!(object_key("", "a"), "a");
    assert_eq!(object_key("backups", "/a/b.txt"), "backups/a/b.txt");
    assert_eq!(object_key("backups//", "//x"), "backups/x");
    assert_eq!(object_key("p", ""), "p/");
}

#[test]
fn relative_keys_drop_prefix() {
    assert_eq!(relative_key("", "/kept/as/is"), "/kept/as/is");
    assert_eq!(relative_key("backups", "backups/a/b.txt"), "a/b.txt");
    assert_eq!(relative_key("backups", "other/x"), "other/x");
    assert_eq!(relative_key("backups", "/other"), "other");
    assert_eq!(relative_key("back", "backups/x"), "ups/x");
}

#[test]
fn key_round_trip_example() {
    let key = object_key("root/", "/dir/file");
    assert_eq!(relative_key("root", &key), "dir/file");
}

#[test]
fn dir_marker_ends_in_slash() {
    assert_eq!(dir_marker_key("a/b".to_string()), "a/b/");
    assert_eq!(dir_marker_key("a/b/".to_string()), "a/b/");
    assert_eq!(dir_marker_key(String::new()), "/");
}

#[test]
fn multipart_from_five_megabytes() {
    assert!(!msy::transport::uses_multipart(5 * 1024 * 1024 - 1));
    assert!(msy::transport::uses_multipart(5 * 1024 * 1024));
    assert_eq!(msy::transport::MULTIPART_THRESHOLD, 5 * 1024 * 1024);
}

#[test]
fn stored_keys_are_store_paths() {
    assert_eq!(stored_key("backups", "/a/b.txt"), "backups/a/b.txt");
    assert_eq!(stored_key("", "a//b/"), "a/b");
    // The store's path type drops the marker's trailing slash.
    assert_eq!(stored_dir_marker_key("p", "/d"), "p/d");
    assert_eq!(
        stored_key("p", "x y"),
        object_store::path::Path::from("p/x y").as_ref()
    );
    assert_eq!(list_prefix(""), None);
    assert_eq!(list_prefix("pre//fix/"), Some("pre/fix".to_string()));
}
