use rat_quickdb::bridge_requests::{finish_request, plan_request, BridgeOperation, PyDbResponse, RequestPlan};
use rat_quickdb::error::{query_error, QuickDbError};

fn answer(plan: RequestPlan) -> PyDbResponse {
    match plan {
        RequestPlan::Answer(a) => a,
        other => panic!("unexpected {:?}", other),
    }
}

#[test]
fn requests_run_when_their_inputs_are_there() {
    assert!(matches!(plan_request("r1".to_string(), "add_database", true, false, false, false), RequestPlan::Run(BridgeOperation::AddDatabase)));
    assert!(matches!(plan_request("r1".to_string(), "create", false, true, false, false), RequestPlan::Run(BridgeOperation::Create)));
    assert!(matches!(plan_request("r1".to_string(), "find_by_id", false, false, true, false), RequestPlan::Run(BridgeOperation::FindById)));
    assert!(matches!(plan_request("r1".to_string(), "find", false, false, false, true), RequestPlan::Run(BridgeOperation::Find)));
}

#[test]
fn requests_without_inputs_are_answered_at_once() {
    let a = answer(plan_request("r2".to_string(), "create", true, false, true, true));
    assert_eq!(a.request_id, "r2");
    assert!(!a.success);
    assert_eq!(a.data, "");
    assert_eq!(a.error.as_deref(), Some("缺少数据"));
    assert_eq!(answer(plan_request("r".to_string(), "add_database", false, true, true, true)).error.as_deref(), Some("缺少数据库配置"));
    assert_eq!(answer(plan_request("r".to_string(), "find_by_id", true, true, false, true)).error.as_deref(), Some("缺少ID"));
    assert_eq!(answer(plan_request("r".to_string(), "find", true, true, true, false)).error.as_deref(), Some("缺少查询条件"));
    assert_eq!(answer(plan_request("r".to_string(), "drop", true, true, true, true)).error.as_deref(), Some("不支持的操作: drop"));
}

#[test]
fn outcomes_become_answers() {
    let added = finish_request("r3".to_string(), BridgeOperation::AddDatabase, "main", Ok(None));
    assert!(added.success);
    assert_eq!(added.data, r#"{"message":"数据库 'main' 添加成功","success":true}"#);
    assert_eq!(added.error, None);
    let found = finish_request("r4".to_string(), BridgeOperation::FindById, "main", Ok(None));
    assert_eq!(found.data, "null");
    let listed = finish_request("r5".to_string(), BridgeOperation::Find, "main", Ok(Some("[1]".to_string())));
    assert_eq!(listed.data, "[1]");
    let failed = finish_request("r6".to_string(), BridgeOperation::Create, "main", Err("boom".to_string()));
    assert!(!failed.success);
    assert_eq!(failed.error.as_deref(), Some("创建失败: boom"));
    let failed = finish_request("r7".to_string(), BridgeOperation::AddDatabase, "main", Err("x".to_string()));
    assert_eq!(failed.error.as_deref(), Some("添加数据库失败: x"));
}

#[test]
fn query_errors_keep_their_message() {
    match query_error("no rows") {
        QuickDbError::QueryError { message } => assert_eq!(message, "no rows"),
        other => panic!("unexpected {:?}", other),
    }
}
