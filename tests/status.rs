use multiselect::status::{fmt_files_to_strings, marshal_status_in_files, File};

#[test]
fn turns_status_into_files() {
    let status = String::from(" M src/main.rs\n?? wow");
    let files = marshal_status_in_files(status);

    assert_eq!(
        vec![
            File {
                status: String::from(" M"),
                path: String::from("src/main.rs"),
                is_selected: false,
            },
            File {
                status: String::from("??"),
                path: String::from("wow"),
                is_selected: false,
            },
        ],
        files
    )
}

#[test]
fn files_to_strings() {
    let files = vec![
        File {
            status: String::from("??"),
            path: String::from("/hello"),
            is_selected: true,
        },
        File {
            status: String::from(" M"),
            path: String::from("/is-it-me-you're-looking-for"),
            is_selected: false,
        },
    ];

    assert_eq!(
        fmt_files_to_strings(files),
        vec![
            String::from("[*] ?? /hello"),
            String::from("[ ]  M /is-it-me-you're-looking-for")
        ]
    )
}

#[test]
fn status_with_crlf_and_trailing_newline() {
    let files = marshal_status_in_files(String::from("A  a.txt\r\n D b.txt\n"));
    assert_eq!(files.len(), 2);
    assert_eq!(files[0].status, "A ");
    assert_eq!(files[0].path, "a.txt");
    assert_eq!(files[1].status, " D");
    assert_eq!(files[1].path, "b.txt");
}

#[test]
fn empty_status_has_no_files() {
    assert!(marshal_status_in_files(String::new()).is_empty());
}

#[test]
fn empty_line_in_status_gives_empty_entry() {
    let files = marshal_status_in_files(String::from("?? x\n\n?? y"));
    assert_eq!(files.len(), 3);
    assert_eq!(files[1].status, "");
    assert_eq!(files[1].path, "");
    assert_eq!(files[2].path, "y");
}

#[test]
fn status_split_at_byte_offsets() {
    let files = marshal_status_in_files(String::from("é x\nab\na€xy"));
    assert_eq!(files.len(), 3);
    assert_eq!(files[0].status, "é");
    assert_eq!(files[0].path, "x");
    assert_eq!(files[1].status, "ab");
    assert_eq!(files[1].path, "");
    assert_eq!(files[2].status, "a");
    assert_eq!(files[2].path, "xy");
}
