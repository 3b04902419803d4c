use libsql_plugin::path::to_wasi_guest_path;

#[test]
fn a_drive_letter_and_backslashes_go() {
    assert_eq!(to_wasi_guest_path("C:\\dev\\gm/.gm/gm.db"), "/dev/gm/.gm/gm.db");
    assert_eq!(to_wasi_guest_path("D:rel\\x"), "/rel/x");
    assert_eq!(to_wasi_guest_path("C:"), "/");
}

#[test]
fn a_relative_path_is_rooted() {
    assert_eq!(to_wasi_guest_path("rel/x.db"), "/rel/x.db");
    assert_eq!(to_wasi_guest_path("x"), "/x");
    assert_eq!(to_wasi_guest_path("\\x"), "/x");
    assert_eq!(to_wasi_guest_path("\u{e9}:x"), "/\u{e9}:x");
}

#[test]
fn some_paths_stay_as_they_are() {
    assert_eq!(to_wasi_guest_path(""), "");
    assert_eq!(to_wasi_guest_path(":memory:"), ":memory:");
    assert_eq!(to_wasi_guest_path("/a\\b"), "/a\\b");
}

#[test]
fn a_rewritten_path_stays_as_it_is() {
    for path in ["C:\\a\\b", "a:b:c", "::", "x\\", ":memory", ""] {
        let once = to_wasi_guest_path(path);
        assert_eq!(to_wasi_guest_path(&once), once);
    }
}
