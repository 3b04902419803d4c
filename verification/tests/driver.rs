use libsql_plugin::driver;

#[test]
fn the_codes_are_those_of_sqlite() {
    assert_eq!(driver::SQLITE_OK, libsql_ffi::SQLITE_OK);
    assert_eq!(driver::SQLITE_ROW, libsql_ffi::SQLITE_ROW);
    assert_eq!(driver::SQLITE_DONE, libsql_ffi::SQLITE_DONE);
    assert_eq!(driver::SQLITE_INTEGER, libsql_ffi::SQLITE_INTEGER);
    assert_eq!(driver::SQLITE_FLOAT, libsql_ffi::SQLITE_FLOAT);
    assert_eq!(driver::SQLITE_TEXT, libsql_ffi::SQLITE_TEXT);
    assert_eq!(driver::SQLITE_BLOB, libsql_ffi::SQLITE_BLOB);
    assert_eq!(driver::SQLITE_NULL, libsql_ffi::SQLITE_NULL);
    assert_eq!(
        driver::OPEN_FLAGS,
        libsql_ffi::SQLITE_OPEN_READWRITE | libsql_ffi::SQLITE_OPEN_CREATE
    );
    assert_eq!(
        driver::DESERIALIZE_OPTIONS,
        (libsql_ffi::SQLITE_DESERIALIZE_FREEONCLOSE | libsql_ffi::SQLITE_DESERIALIZE_RESIZEABLE)
            as u32
    );
    assert_eq!(
        driver::DESERIALIZE_FREEONCLOSE,
        libsql_ffi::SQLITE_DESERIALIZE_FREEONCLOSE as u32
    );
    assert_eq!(
        driver::DESERIALIZE_RESIZEABLE,
        libsql_ffi::SQLITE_DESERIALIZE_RESIZEABLE as u32
    );
}
