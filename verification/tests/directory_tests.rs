use ccometixline::segment::{
    collect_all_segments, DirectorySegment, InputData, SegmentId, SegmentVariant, Workspace,
};

#[test]
fn drive_root_forms() {
    assert_eq!(DirectorySegment::extract_directory_name("D:"), "D:\\");
    assert_eq!(DirectorySegment::extract_directory_name("D:\\"), "D:\\");
    assert_eq!(DirectorySegment::extract_directory_name("D:/"), "D:\\");
}

#[test]
fn root_placeholder() {
    assert_eq!(DirectorySegment::extract_directory_name("/"), "root");
    assert_eq!(DirectorySegment::extract_directory_name(""), "root");
    assert_eq!(DirectorySegment::extract_directory_name("///"), "root");
}

#[test]
fn basename_extraction() {
    assert_eq!(
        DirectorySegment::extract_directory_name("/home/user/project"),
        "project"
    );
    assert_eq!(
        DirectorySegment::extract_directory_name("C:\\Users\\me\\project"),
        "project"
    );
    assert_eq!(
        DirectorySegment::extract_directory_name("mixed/path\\project"),
        "project"
    );
}

#[test]
fn no_separator_keeps_whole_path() {
    assert_eq!(DirectorySegment::extract_directory_name("abc"), "abc");
    assert_eq!(DirectorySegment::extract_directory_name("ab:"), "ab:");
}

#[test]
fn trailing_separators_ignored() {
    assert_eq!(
        DirectorySegment::extract_directory_name("/home/user/project///"),
        DirectorySegment::extract_directory_name("/home/user/project")
    );
    assert_eq!(
        DirectorySegment::extract_directory_name("a\\b\\"),
        DirectorySegment::extract_directory_name("a\\b")
    );
    assert_eq!(
        DirectorySegment::extract_directory_name("/home/user/project/"),
        "project"
    );
}

#[test]
fn collect_short_name_scenario() {
    let raw = "{\"workspace\":{\"current_dir\":\"/home/alice/dev/myproj\"}}";
    let decoded: serde_json::Value = serde_json::from_str(raw).unwrap();
    let dir = decoded["workspace"]["current_dir"].as_str().unwrap().to_string();
    let input = InputData {
        workspace: Workspace { current_dir: dir },
    };
    let seg = DirectorySegment::new();
    let data = seg.collect(&input).unwrap();
    assert_eq!(data.primary, "myproj");
    assert_eq!(data.secondary, "");
    assert_eq!(data.metadata.len(), 1);
    assert_eq!(data.metadata[0].0, "full_path");
    assert_eq!(data.metadata[0].1, "/home/alice/dev/myproj");
}

#[test]
fn collect_full_path_mode() {
    let input = InputData {
        workspace: Workspace {
            current_dir: "/home/alice/dev/myproj".to_string(),
        },
    };
    let seg = DirectorySegment::new().with_full_path(true);
    let data = seg.collect(&input).unwrap();
    assert_eq!(data.primary, "/home/alice/dev/myproj");
    assert_eq!(data.metadata[0].1, "/home/alice/dev/myproj");
}

#[test]
fn default_is_short_name_mode() {
    let input = InputData {
        workspace: Workspace {
            current_dir: "/a/b".to_string(),
        },
    };
    let data = DirectorySegment::default().collect(&input).unwrap();
    assert_eq!(data.primary, "b");
}

#[test]
fn segment_id_is_directory() {
    assert_eq!(DirectorySegment::new().id(), SegmentId::Directory);
}

#[test]
fn collector_keeps_order_and_tags() {
    let segs = vec![
        SegmentVariant::Directory(DirectorySegment::new()),
        SegmentVariant::Directory(DirectorySegment::new().with_full_path(true)),
    ];
    let input = InputData {
        workspace: Workspace {
            current_dir: "/a/b".to_string(),
        },
    };
    let out = collect_all_segments(&segs, &input);
    assert_eq!(out.len(), 2);
    assert_eq!(out[0].0, SegmentId::Directory);
    assert_eq!(out[0].1.primary, "b");
    assert_eq!(out[1].1.primary, "/a/b");
    assert_eq!(out[0].1.secondary, "");
}
