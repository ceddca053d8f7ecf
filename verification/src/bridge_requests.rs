//! What the request queue of the embedding bridge decides about each
//! request: which operation runs, which request is answered at once for
//! a missing input or an unknown operation, and the answer that an
//! operation's outcome gives.

use vstd::prelude::*;
use crate::models::str_eq;
use crate::render::{json_text, push_json};
use crate::types::{DataValue, Value};

verus! {

/// An operation the request queue runs.
#[derive(Clone, Copy, Debug, PartialEq, Eq, Structural)]
pub enum BridgeOperation {
    AddDatabase,
    Create,
    FindById,
    Find,
}

/// The answer to a request: its id, whether it succeeded, the data it
/// gives back (JSON text) and, on failure, the error text.
#[derive(Debug)]
pub struct PyDbResponse {
    pub request_id: String,
    pub success: bool,
    pub data: String,
    pub error: Option<String>,
}

/// The model of an answer.
pub struct ResponseView {
    pub request_id: Seq<char>,
    pub success: bool,
    pub data: Seq<char>,
    pub error: Option<Seq<char>>,
}

impl View for PyDbResponse {
    type V = ResponseView;

    open spec fn view(&self) -> ResponseView {
        ResponseView {
            request_id: self.request_id@,
            success: self.success,
            data: self.data@,
            error: match self.error {
                Some(e) => Some(e@),
                None => None,
            },
        }
    }
}

/// What happens to a request: its operation runs, or it is answered at
/// once.
#[derive(Debug)]
pub enum RequestPlan {
    Run(BridgeOperation),
    Answer(PyDbResponse),
}

/// A failed answer with the given error text.
pub open spec fn failure(request_id: Seq<char>, error: Seq<char>) -> ResponseView {
    ResponseView { request_id, success: false, data: Seq::empty(), error: Some(error) }
}

/// The plan for a request: `add_database`, `create`, `find_by_id` and
/// `find` run when the request carries a database configuration, data,
/// an id and conditions respectively, and are answered with the missing
/// input otherwise; any other operation is answered as unsupported.
pub open spec fn request_plan(
    request_id: Seq<char>,
    operation: Seq<char>,
    has_database_config: bool,
    has_data: bool,
    has_id: bool,
    has_conditions: bool,
) -> Result<BridgeOperation, ResponseView> {
    if operation == "add_database"@ {
        if has_database_config { Ok(BridgeOperation::AddDatabase) } else { Err(failure(request_id, "缺少数据库配置"@)) }
    } else if operation == "create"@ {
        if has_data { Ok(BridgeOperation::Create) } else { Err(failure(request_id, "缺少数据"@)) }
    } else if operation == "find_by_id"@ {
        if has_id { Ok(BridgeOperation::FindById) } else { Err(failure(request_id, "缺少ID"@)) }
    } else if operation == "find"@ {
        if has_conditions { Ok(BridgeOperation::Find) } else { Err(failure(request_id, "缺少查询条件"@)) }
    } else {
        Err(failure(request_id, "不支持的操作: "@ + operation))
    }
}

fn failed(request_id: String, error: String) -> (r: PyDbResponse)
    ensures
        r@ == failure(request_id@, error@),
{
    PyDbResponse { request_id, success: false, data: String::new(), error: Some(error) }
}

/// The plan for a request (see `request_plan`).
pub fn plan_request(
    request_id: String,
    operation: &str,
    has_database_config: bool,
    has_data: bool,
    has_id: bool,
    has_conditions: bool,
) -> (r: RequestPlan)
    ensures
        match (r, request_plan(request_id@, operation@, has_database_config, has_data, has_id, has_conditions)) {
            (RequestPlan::Run(op), Ok(want)) => op == want,
            (RequestPlan::Answer(a), Err(want)) => a@ == want,
            _ => false,
        },
{
    if str_eq(operation, "add_database") {
        if has_database_config { RequestPlan::Run(BridgeOperation::AddDatabase) } else {
            RequestPlan::Answer(failed(request_id, "缺少数据库配置".to_owned()))
        }
    } else if str_eq(operation, "create") {
        if has_data { RequestPlan::Run(BridgeOperation::Create) } else {
            RequestPlan::Answer(failed(request_id, "缺少数据".to_owned()))
        }
    } else if str_eq(operation, "find_by_id") {
        if has_id { RequestPlan::Run(BridgeOperation::FindById) } else {
            RequestPlan::Answer(failed(request_id, "缺少ID".to_owned()))
        }
    } else if str_eq(operation, "find") {
        if has_conditions { RequestPlan::Run(BridgeOperation::Find) } else {
            RequestPlan::Answer(failed(request_id, "缺少查询条件".to_owned()))
        }
    } else {
        let mut e = String::new();
        e.append("不支持的操作: ");
        e.append(operation);
        assert(e@ =~= "不支持的操作: "@ + operation@);
        RequestPlan::Answer(failed(request_id, e))
    }
}

/// The JSON an added database is reported with.
pub open spec fn database_added(alias: Seq<char>) -> Value {
    Value::Object(
        seq![("message"@, Value::Str("数据库 '"@ + alias + "' 添加成功"@)), ("success"@, Value::Bool(true))],
    )
}

/// The prefix of an operation's error text.
pub open spec fn failure_prefix(op: BridgeOperation) -> Seq<char> {
    match op {
        BridgeOperation::AddDatabase => "添加数据库失败: "@,
        BridgeOperation::Create => "创建失败: "@,
        BridgeOperation::FindById => "查询失败: "@,
        BridgeOperation::Find => "查询失败: "@,
    }
}

/// The answer an operation's outcome gives: on failure its error text
/// after the operation's prefix; on success, for an added database the
/// JSON report of its alias, for a lookup by id that found nothing
/// `null`, and otherwise the data the operation gave back.
pub open spec fn outcome_response(
    request_id: Seq<char>,
    op: BridgeOperation,
    database_alias: Seq<char>,
    outcome: Result<Option<Seq<char>>, Seq<char>>,
) -> ResponseView {
    match outcome {
        Err(e) => failure(request_id, failure_prefix(op) + e),
        Ok(data) => ResponseView {
            request_id,
            success: true,
            data: match op {
                BridgeOperation::AddDatabase => json_text(database_added(database_alias)),
                _ => match data {
                    Some(d) => d,
                    None => "null"@,
                },
            },
            error: None,
        },
    }
}

/// The model of an operation's outcome.
pub open spec fn outcome_view(outcome: Result<Option<String>, String>) -> Result<Option<Seq<char>>, Seq<char>> {
    match outcome {
        Ok(Some(d)) => Ok(Some(d@)),
        Ok(None) => Ok(None),
        Err(e) => Err(e@),
    }
}

/// The answer an operation's outcome gives (see `outcome_response`).
pub fn finish_request(
    request_id: String,
    op: BridgeOperation,
    database_alias: &str,
    outcome: Result<Option<String>, String>,
) -> (r: PyDbResponse)
    ensures
        r@ == outcome_response(request_id@, op, database_alias@, outcome_view(outcome)),
{
    match outcome {
        Err(e) => {
            let mut t = String::new();
            match op {
                BridgeOperation::AddDatabase => t.append("添加数据库失败: "),
                BridgeOperation::Create => t.append("创建失败: "),
                BridgeOperation::FindById => t.append("查询失败: "),
                BridgeOperation::Find => t.append("查询失败: "),
            }
            t.append(e.as_str());
            assert(t@ =~= failure_prefix(op) + e@);
            failed(request_id, t)
        }
        Ok(data) => {
            let text = match op {
                BridgeOperation::AddDatabase => {
                    let mut m = String::new();
                    m.append("数据库 '");
                    m.append(database_alias);
                    m.append("' 添加成功");
                    let ghost mm = m@;
                    assert(mm =~= "数据库 '"@ + database_alias@ + "' 添加成功"@);
                    let mut es: Vec<(String, DataValue)> = Vec::new();
                    es.push(("message".to_owned(), DataValue::String(m)));
                    assert(es@[0].0@ == "message"@ && es@[0].1@ == Value::Str(mm));
                    es.push(("success".to_owned(), DataValue::Bool(true)));
                    assert(es@[1].0@ == "success"@ && es@[1].1@ == Value::Bool(true));
                    assert(es@[0].0@ == "message"@ && es@[0].1@ == Value::Str(mm));
                    let report = DataValue::Object(es);
                    assert(report@->Object_0.len() == 2);
                    assert(report@->Object_0[0] == ("message"@, Value::Str(mm)));
                    assert(report@->Object_0[1] == ("success"@, Value::Bool(true)));
                    assert(report@->Object_0 =~= database_added(database_alias@)->Object_0);
                    let mut out = String::new();
                    push_json(&mut out, &report);
                    assert(out@ =~= json_text(database_added(database_alias@)));
                    out
                }
                _ => match data {
                    Some(d) => d,
                    None => "null".to_owned(),
                },
            };
            PyDbResponse { request_id, success: true, data: text, error: None }
        }
    }
}

} // verus!
