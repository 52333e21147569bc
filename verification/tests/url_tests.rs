use update_check::edge;
use update_check::mongodb;

#[test]
fn test_get_url() {
    assert_eq!(
        edge::get_url("repodata/repomd.xml"),
        "https://packages.microsoft.com/yumrepos/edge/repodata/repomd.xml"
    );
    assert_eq!(
        edge::get_url("test/path"),
        "https://packages.microsoft.com/yumrepos/edge/test/path"
    );
}

#[test]
fn tests_test_get_url() {
    assert_eq!(
        mongodb::get_url("repodata/repomd.xml"),
        "https://repo.mongodb.org/yum/redhat/8/mongodb-org/8.0/x86_64/repodata/repomd.xml"
    );
    assert_eq!(
        mongodb::get_url("test/path"),
        "https://repo.mongodb.org/yum/redhat/8/mongodb-org/8.0/x86_64/test/path"
    );
}
