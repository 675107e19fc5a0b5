use cetka::hook::{setup_clsact, ClsactSetup, EEXIST};

#[test]
fn success_is_added() {
    assert_eq!(setup_clsact(Ok(())), ClsactSetup::Added);
}

#[test]
fn already_present_is_no_failure() {
    assert_eq!(EEXIST, 17);
    assert_eq!(setup_clsact(Err(Some(17))), ClsactSetup::AlreadyPresent);
}

#[test]
fn other_errors_fail() {
    assert_eq!(setup_clsact(Err(Some(1))), ClsactSetup::Failed(Some(1)));
    assert_eq!(setup_clsact(Err(Some(19))), ClsactSetup::Failed(Some(19)));
    assert_eq!(setup_clsact(Err(Some(-17))), ClsactSetup::Failed(Some(-17)));
    assert_eq!(setup_clsact(Err(Some(0))), ClsactSetup::Failed(Some(0)));
    assert_eq!(setup_clsact(Err(None)), ClsactSetup::Failed(None));
}
