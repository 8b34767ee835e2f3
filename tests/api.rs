use xray_panel::api::ApiResponse;

#[test]
fn success_wraps_data() {
    let r = ApiResponse::success(7u32);
    assert!(r.success);
    assert_eq!(r.msg, "Success");
    assert_eq!(r.obj, Some(7));
}

#[test]
fn success_with_msg_keeps_message() {
    let r = ApiResponse::success_with_msg(vec![1, 2], "done");
    assert!(r.success);
    assert_eq!(r.msg, "done");
    assert_eq!(r.obj, Some(vec![1, 2]));
}

#[test]
fn success_no_data_has_no_object() {
    let r = ApiResponse::success_no_data("Config updated");
    assert!(r.success);
    assert_eq!(r.msg, "Config updated");
    assert!(r.obj.is_none());
}
