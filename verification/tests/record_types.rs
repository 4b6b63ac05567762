use stacktest::record::ChangeType;
use stacktest::record::File;
use stacktest::record::FileMode;
use stacktest::record::RecordState;
use stacktest::record::Section;
use stacktest::record::SectionChangedLine;
use stacktest::record::SelectedContents;

fn changed_line(is_toggled: bool, change_type: ChangeType, line: &str) -> SectionChangedLine {
    SectionChangedLine {
        is_toggled,
        change_type,
        line: line.to_string(),
    }
}

#[test]
fn test_absent_file_mode_is_zero() {
    assert_eq!(FileMode::absent(), FileMode(0));
}

#[test]
fn test_file_mode_display_is_octal() {
    assert_eq!(FileMode(0).mode_string(), "0");
    assert_eq!(FileMode(0o100644).mode_string(), "100644");
    assert_eq!(FileMode(0o755).mode_string(), "755");
}

#[test]
fn test_file_mode_conversions() {
    assert_eq!(FileMode::from(0o100644), FileMode(0o100644));
    assert_eq!(usize::from(FileMode(0o100755)), 0o100755);
    assert_eq!(FileMode::try_from(0o100644u32), Ok(FileMode(0o100644)));
    assert_eq!(u32::try_from(FileMode(0o100644)), Ok(0o100644u32));
    assert_eq!(FileMode::try_from(0o100644i32), Ok(FileMode(0o100644)));
    assert_eq!(i32::try_from(FileMode(0o100644)), Ok(0o100644i32));
    assert!(FileMode::try_from(-1i32).is_err());
}

#[test]
fn test_is_editable() {
    let unchanged = Section::Unchanged {
        lines: vec!["line\n".to_string()],
    };
    let changed = Section::Changed {
        lines: vec![changed_line(true, ChangeType::Added, "line\n")],
    };
    let file_mode = Section::FileMode {
        is_toggled: false,
        before: FileMode(0o100644),
        after: FileMode(0o100755),
    };
    let binary = Section::Binary {
        is_toggled: false,
        old_description: None,
        new_description: Some("binary".to_string()),
    };
    assert!(!unchanged.is_editable());
    assert!(changed.is_editable());
    assert!(file_mode.is_editable());
    assert!(binary.is_editable());
}

#[test]
fn test_get_file_mode_prefers_toggled_section() {
    let file = File {
        path: "foo.txt".to_string(),
        file_mode: Some(FileMode(0o100644)),
        sections: vec![Section::FileMode {
            is_toggled: true,
            before: FileMode(0o100644),
            after: FileMode(0o100755),
        }],
    };
    assert_eq!(file.get_file_mode(), Some(FileMode(0o100755)));
}

#[test]
fn test_get_file_mode_ignores_untoggled_section() {
    let file = File {
        path: "foo.txt".to_string(),
        file_mode: Some(FileMode(0o100644)),
        sections: vec![Section::FileMode {
            is_toggled: false,
            before: FileMode(0o100644),
            after: FileMode(0o100755),
        }],
    };
    assert_eq!(file.get_file_mode(), Some(FileMode(0o100644)));
}

#[test]
fn test_get_selected_contents_empty_file_is_unchanged() {
    let file = File {
        path: "foo.txt".to_string(),
        file_mode: None,
        sections: vec![],
    };
    let (selected, unselected) = file.get_selected_contents();
    assert_eq!(selected, SelectedContents::Unchanged);
    assert_eq!(unselected, SelectedContents::Unchanged);
}

#[test]
fn test_get_selected_contents_splits_changed_lines() {
    let file = File {
        path: "foo.txt".to_string(),
        file_mode: None,
        sections: vec![
            Section::Unchanged {
                lines: vec!["context\n".to_string()],
            },
            Section::Changed {
                lines: vec![
                    changed_line(true, ChangeType::Removed, "old line\n"),
                    changed_line(true, ChangeType::Added, "new line\n"),
                    changed_line(false, ChangeType::Added, "unpicked line\n"),
                ],
            },
        ],
    };
    let (selected, unselected) = file.get_selected_contents();
    assert_eq!(
        selected,
        SelectedContents::Present {
            contents: "context\nnew line\n".to_string(),
        }
    );
    assert_eq!(
        unselected,
        SelectedContents::Present {
            contents: "context\nold line\nunpicked line\n".to_string(),
        }
    );
}

#[test]
fn test_get_selected_contents_toggled_deletion_is_absent() {
    let file = File {
        path: "foo.txt".to_string(),
        file_mode: Some(FileMode(0o100644)),
        sections: vec![Section::FileMode {
            is_toggled: true,
            before: FileMode(0o100644),
            after: FileMode::absent(),
        }],
    };
    let (selected, unselected) = file.get_selected_contents();
    assert_eq!(selected, SelectedContents::Absent);
    assert_eq!(unselected, SelectedContents::Unchanged);
}

#[test]
fn test_get_selected_contents_untoggled_creation_is_absent() {
    let file = File {
        path: "foo.txt".to_string(),
        file_mode: None,
        sections: vec![Section::FileMode {
            is_toggled: false,
            before: FileMode::absent(),
            after: FileMode(0o100644),
        }],
    };
    let (selected, unselected) = file.get_selected_contents();
    assert_eq!(selected, SelectedContents::Unchanged);
    assert_eq!(unselected, SelectedContents::Absent);
}

#[test]
fn test_get_selected_contents_binary_section() {
    let file = File {
        path: "foo.bin".to_string(),
        file_mode: None,
        sections: vec![Section::Binary {
            is_toggled: true,
            old_description: Some("old hash".to_string()),
            new_description: Some("new hash".to_string()),
        }],
    };
    let (selected, unselected) = file.get_selected_contents();
    assert_eq!(
        selected,
        SelectedContents::Binary {
            old_description: Some("old hash".to_string()),
            new_description: Some("new hash".to_string()),
        }
    );
    assert_eq!(unselected, SelectedContents::Unchanged);
}

#[test]
fn test_push_str_transitions() {
    let mut contents = SelectedContents::Unchanged;
    contents.push_str("first\n");
    assert_eq!(
        contents,
        SelectedContents::Present {
            contents: "first\n".to_string(),
        }
    );
    contents.push_str("second\n");
    assert_eq!(
        contents,
        SelectedContents::Present {
            contents: "first\nsecond\n".to_string(),
        }
    );

    let mut binary = SelectedContents::Binary {
        old_description: None,
        new_description: None,
    };
    binary.push_str("ignored");
    assert_eq!(
        binary,
        SelectedContents::Binary {
            old_description: None,
            new_description: None,
        }
    );
}

#[test]
fn test_record_state_default_is_empty() {
    let state = RecordState::default();
    assert!(state.files.is_empty());
}
