use rusthydrus::file::{parse_sidecar_txt, sidecar_lines, sidecar_tags, sidecars_present};
use rusthydrus::sharedtypes::TagType;

#[test]
fn lines_split_like_bufread() {
    let lines = sidecar_lines(b"a\r\nb\n\nc");
    assert_eq!(lines, vec![b"a".to_vec(), b"b".to_vec(), b"".to_vec(), b"c".to_vec()]);
    assert_eq!(sidecar_lines(b"x\n"), vec![b"x".to_vec()]);
    assert!(sidecar_lines(b"").is_empty());
    assert_eq!(sidecar_lines(b"y\r"), vec![b"y\r".to_vec()]);
}

#[test]
fn sidecar_txt_tags() {
    let tags = parse_sidecar_txt(b"blue sky\nred\xff\ngreen\n");
    assert_eq!(tags.len(), 2);
    assert_eq!(tags[0].tag, "blue sky");
    assert_eq!(tags[1].tag, "green");
    assert_eq!(tags[0].namespace.name, "SYSTEM_Sidecar_TXT");
    assert_eq!(
        tags[0].namespace.description,
        Some("Information from a sidecar file. TXT Import".to_string())
    );
    assert!(matches!(tags[0].tag_type, TagType::Normal));
    assert!(tags[0].relates_to.is_none());
}

#[test]
fn sidecar_tags_skip_unreadable() {
    let tags = sidecar_tags(vec![None, Some("one".to_string()), None]);
    assert_eq!(tags.len(), 1);
    assert_eq!(tags[0].tag, "one");
}

#[test]
fn sidecar_candidates_kept_in_order() {
    assert_eq!(
        sidecars_present("/x/file.png", true, true),
        vec!["/x/file.png.txt".to_string(), "/x/file.png.json".to_string()]
    );
    assert_eq!(sidecars_present("f", false, true), vec!["f.json".to_string()]);
    assert!(sidecars_present("f", false, false).is_empty());
}
