use rusthydrus::migrate::{parents_rows_v2_to_v3, tags_rows_v2_to_v3, column_step, jobs_rows_v2_to_v3, table_state_step, v5_extension_ids, ColumnStep, TableStep};

#[test]
fn table_steps() {
    assert_eq!(table_state_step(true, true), TableStep::KeepBoth);
    assert_eq!(table_state_step(true, false), TableStep::AlreadyMoved);
    assert_eq!(table_state_step(false, true), TableStep::Rename);
    assert_eq!(table_state_step(false, false), TableStep::Missing);
}

#[test]
fn column_steps() {
    assert_eq!(column_step(5, 5, 7, true, false), ColumnStep::Migrate { rename: true });
    assert_eq!(column_step(5, 5, 7, true, true), ColumnStep::Migrate { rename: false });
    assert_eq!(column_step(7, 5, 7, true, false), ColumnStep::Done);
    assert_eq!(column_step(7, 5, 7, true, true), ColumnStep::Inconsistent);
    assert_eq!(column_step(6, 5, 7, true, false), ColumnStep::Inconsistent);
}

#[test]
fn job_rows_numbered() {
    let rows = vec![
        (1, 2, "s".to_string(), "p".to_string(), "c".to_string()),
        (3, 4, "t".to_string(), "q".to_string(), "d".to_string()),
    ];
    let m = "{\"jobtype\":\"Params\",\"recreation\":null}".to_string();
    let out = jobs_rows_v2_to_v3(&rows, &m);
    assert_eq!(out[1], (1, 3, 4, m.clone(), "t".to_string(), "q".to_string(), "d".to_string()));
    assert_eq!(out[0].0, 0);
}

#[test]
fn extension_ids_first_seen() {
    let exts: Vec<String> = ["png", "jpg", "png", "gif", "jpg"].iter().map(|s| s.to_string()).collect();
    let (ids, table) = v5_extension_ids(&exts);
    assert_eq!(ids, vec![0, 1, 0, 2, 1]);
    assert_eq!(table, vec!["png".to_string(), "jpg".to_string(), "gif".to_string()]);
}

#[test]
fn tag_and_parent_rows_dedup() {
    let tags = vec![(1, "a".to_string(), 0), (2, "b".to_string(), 1), (1, "a".to_string(), 0)];
    assert_eq!(tags_rows_v2_to_v3(&tags), vec![(1, "a".to_string(), 0), (2, "b".to_string(), 1)]);
    let parents = vec![(1, 2), (1, 2), (3, 4)];
    assert_eq!(parents_rows_v2_to_v3(&parents), vec![(1, 2), (3, 4)]);
}
