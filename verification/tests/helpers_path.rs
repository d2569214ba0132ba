use rusthydrus::helpers::getfinpath;

#[test]
fn folder_from_hash() {
    assert_eq!(getfinpath(&"/files".to_string(), &"abcdef0123".to_string()), "/files/ab/cd/ef");
}
