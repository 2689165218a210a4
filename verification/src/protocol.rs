//! The request/response engine: decoding a request from a JSON value,
//! dispatch by method name, tool-argument validation, and the exact text
//! of every emitted response line.
//!
//! A request with an `id` gets exactly one response; a request without one
//! is a notification and gets none, whatever happened inside. An emitted
//! response carries either a result or an error, never both. Error codes
//! come from a fixed enumeration.

use vstd::prelude::*;
use crate::json::{Json, Jv, jm, jget, obj_get_m, count_key, obj_get};
use crate::ser::{ser, to_json_string};
use crate::parse::spec_parse;
use crate::parse::parse_json;
use crate::chars::{str_to_chars, chars_to_string, chars_eq_str};

verus! {

broadcast use vstd::std_specs::vec::group_vec_axioms;

/// The fixed error codes of the protocol.
#[derive(Clone, Copy, PartialEq, Eq, Structural, Debug)]
pub enum ErrCode {
    /// Unknown protocol method, or unknown tool name.
    MethodNotFound,
    /// Missing or malformed parameters or tool arguments.
    InvalidParams,
    /// The mail operation itself failed.
    OperationFailed,
}

/// The code number, as the wire shows it.
pub open spec fn code_chars(c: ErrCode) -> Seq<char> {
    match c {
        ErrCode::MethodNotFound => ("-32601")@,
        ErrCode::InvalidParams => ("-32602")@,
        ErrCode::OperationFailed => ("-32000")@,
    }
}

/// A decoded request.
pub struct Request {
    pub method: Vec<char>,
    pub params: Option<Json>,
    pub id: Option<Json>,
}

/// The model of a decoded request.
pub struct ReqM {
    pub method: Seq<char>,
    pub params: Option<Jv>,
    pub id: Option<Jv>,
}

/// The model of an optional value.
pub open spec fn opt_jm(o: Option<Json>) -> Option<Jv> {
    match o {
        Some(j) => Some(jm(j)),
        None => None,
    }
}

/// An optional member: an absent member and a null member both count as
/// absent.
pub open spec fn opt_field_m(fs: Seq<(Seq<char>, Jv)>, k: Seq<char>) -> Option<Jv> {
    match obj_get_m(fs, k) {
        None => None,
        Some(v) => if v is Null {
            None
        } else {
            Some(v)
        },
    }
}

/// The request a JSON value decodes to, if any: an object whose `jsonrpc`
/// and `method` members appear exactly once and are strings, whose
/// `params` and `id` members appear at most once; every other member is
/// ignored. A duplicate of a named member refuses the whole request.
pub open spec fn decode_req_m(m: Jv) -> Option<ReqM> {
    match m {
        Jv::Obj(fs) => {
            if count_key(fs, ("jsonrpc")@) == 1 && count_key(fs, ("method")@) == 1 && count_key(
                fs,
                ("params")@,
            ) <= 1 && count_key(fs, ("id")@) <= 1 && (obj_get_m(fs, ("jsonrpc")@) matches Some(
                Jv::Str(_),
            )) && (obj_get_m(fs, ("method")@) matches Some(Jv::Str(_))) {
                Some(
                    ReqM {
                        method: obj_get_m(fs, ("method")@)->0->Str_0,
                        params: opt_field_m(fs, ("params")@),
                        id: opt_field_m(fs, ("id")@),
                    },
                )
            } else {
                None
            }
        },
        _ => None,
    }
}

/// A planned mail send.
pub struct MailM {
    pub to: Seq<char>,
    pub subject: Seq<char>,
    pub body: Seq<char>,
    pub attachment_path: Option<Seq<char>>,
}

/// What dispatch decides: an immediate result, an immediate failure, or a
/// mail send that the transport must carry out.
pub enum DispM {
    Result(Jv),
    Fail(ErrCode, Seq<char>),
    Send(MailM),
}

/// The member `k` of `m`, when it is a string.
pub open spec fn str_member_m(m: Jv, k: Seq<char>) -> Option<Seq<char>> {
    match jget(m, k) {
        Some(Jv::Str(s)) => Some(s),
        _ => None,
    }
}

/// The result of `initialize`: fixed server metadata and capabilities.
pub open spec fn init_result_m() -> Jv {
    Jv::Obj(
        seq![
            (("capabilities")@, Jv::Obj(seq![(("tools")@, Jv::Obj(Seq::empty()))])),
            (("protocolVersion")@, Jv::Str(("0.1.0")@)),
            (
                ("serverInfo")@,
                Jv::Obj(
                    seq![
                        (("name")@, Jv::Str(("gmail-mcp-server")@)),
                        (("version")@, Jv::Str(("0.1.0")@)),
                    ],
                ),
            ),
        ],
    )
}

/// One property of the tool's input schema.
pub open spec fn schema_prop_m(desc: Seq<char>) -> Jv {
    Jv::Obj(seq![(("description")@, Jv::Str(desc)), (("type")@, Jv::Str(("string")@))])
}

/// The single tool descriptor of the catalog.
pub open spec fn tool_descriptor_m() -> Jv {
    Jv::Obj(
        seq![
            (
                ("description")@,
                Jv::Str(("Send an email with an optional attachment via Gmail")@),
            ),
            (
                ("inputSchema")@,
                Jv::Obj(
                    seq![
                        (
                            ("properties")@,
                            Jv::Obj(
                                seq![
                                    (
                                        ("attachment_path")@,
                                        schema_prop_m(
                                            ("Absolute path to an attachment file (optional)")@,
                                        ),
                                    ),
                                    (("body")@, schema_prop_m(("Email body content")@)),
                                    (("subject")@, schema_prop_m(("Email subject")@)),
                                    (("to")@, schema_prop_m(("Recipient email address")@)),
                                ],
                            ),
                        ),
                        (("required")@, Jv::Arr(seq![Jv::Str(("to")@)])),
                        (("type")@, Jv::Str(("object")@)),
                    ],
                ),
            ),
            (("name")@, Jv::Str(("send_email")@)),
        ],
    )
}

/// The result of the tool-listing method.
pub open spec fn tools_list_m() -> Jv {
    Jv::Obj(seq![(("tools")@, Jv::Arr(seq![tool_descriptor_m()]))])
}

/// What a tool call decides, given its parameters: which error comes on
/// which missing piece, which defaults fill absent arguments, and when a
/// send is planned.
pub open spec fn tool_call_m(params: Option<Jv>) -> DispM {
    match params {
        None => DispM::Fail(ErrCode::InvalidParams, ("Missing params")@),
        Some(p) => match str_member_m(p, ("name")@) {
            None => DispM::Fail(ErrCode::InvalidParams, ("Missing tool name")@),
            Some(name) => {
                if name != ("send_email")@ {
                    DispM::Fail(ErrCode::MethodNotFound, ("Unknown tool: ")@ + name)
                } else {
                    match jget(p, ("arguments")@) {
                        None => DispM::Fail(ErrCode::InvalidParams, ("Missing arguments")@),
                        Some(args) => match str_member_m(args, ("to")@) {
                            None => DispM::Fail(ErrCode::InvalidParams, ("Missing 'to'")@),
                            Some(to) => DispM::Send(
                                MailM {
                                    to,
                                    subject: match str_member_m(args, ("subject")@) {
                                        Some(x) => x,
                                        None => ("(No Subject)")@,
                                    },
                                    body: match str_member_m(args, ("body")@) {
                                        Some(x) => x,
                                        None => Seq::empty(),
                                    },
                                    attachment_path: str_member_m(args, ("attachment_path")@),
                                },
                            ),
                        },
                    }
                }
            },
        },
    }
}

/// Dispatch by method name.
pub open spec fn dispatch_m(method: Seq<char>, params: Option<Jv>) -> DispM {
    if method == ("initialize")@ {
        DispM::Result(init_result_m())
    } else if method == ("notifications/initialized")@ {
        DispM::Result(Jv::Str(("OK")@))
    } else if method == ("tools/list")@ {
        DispM::Result(tools_list_m())
    } else if method == ("tools/call")@ {
        tool_call_m(params)
    } else {
        DispM::Fail(ErrCode::MethodNotFound, ("Method not found")@)
    }
}

/// The error member of an error response.
pub open spec fn error_body_m(code: ErrCode, msg: Seq<char>) -> Jv {
    Jv::Obj(
        seq![
            (("code")@, Jv::Num(code_chars(code))),
            (("message")@, Jv::Str(msg)),
            (("data")@, Jv::Null),
        ],
    )
}

/// A response that carries a result; its error member is null.
pub open spec fn result_response_m(id: Jv, res: Jv) -> Jv {
    Jv::Obj(
        seq![
            (("jsonrpc")@, Jv::Str(("2.0")@)),
            (("id")@, id),
            (("result")@, res),
            (("error")@, Jv::Null),
        ],
    )
}

/// A response that carries an error; its result member is null.
pub open spec fn error_response_m(id: Jv, code: ErrCode, msg: Seq<char>) -> Jv {
    Jv::Obj(
        seq![
            (("jsonrpc")@, Jv::Str(("2.0")@)),
            (("id")@, id),
            (("result")@, Jv::Null),
            (("error")@, error_body_m(code, msg)),
        ],
    )
}

/// What one input line leads to.
pub enum ActionM {
    /// The line did not decode to a request; nothing is emitted.
    Invalid,
    /// A notification: handled, nothing is emitted.
    NoReply,
    /// Exactly this line is emitted.
    Reply(Seq<char>),
    /// The transport must send this mail; a reply follows its outcome when
    /// an id is present.
    Send(MailM, Option<Jv>),
}

/// The action a decoded request leads to.
pub open spec fn req_action_m(rm: ReqM) -> ActionM {
    match dispatch_m(rm.method, rm.params) {
        DispM::Send(mm) => ActionM::Send(mm, rm.id),
        DispM::Result(res) => match rm.id {
            None => ActionM::NoReply,
            Some(i) => ActionM::Reply(ser(result_response_m(i, res))),
        },
        DispM::Fail(c, msg) => match rm.id {
            None => ActionM::NoReply,
            Some(i) => ActionM::Reply(ser(error_response_m(i, c, msg))),
        },
    }
}

/// The action one raw input line leads to.
pub open spec fn line_action_m(s: Seq<char>) -> ActionM {
    match spec_parse(s) {
        None => ActionM::Invalid,
        Some(m) => match decode_req_m(m) {
            None => ActionM::Invalid,
            Some(rm) => req_action_m(rm),
        },
    }
}

/// A planned mail send, with plain values for the transport.
pub struct EmailRequest {
    pub to: String,
    pub subject: String,
    pub body: String,
    pub attachment_path: Option<String>,
}

/// The model of a planned send.
pub open spec fn mail_m_of(e: EmailRequest) -> MailM {
    MailM {
        to: e.to@,
        subject: e.subject@,
        body: e.body@,
        attachment_path: match e.attachment_path {
            Some(p) => Some(p@),
            None => None,
        },
    }
}

/// What one input line leads to, as executable data.
pub enum RequestAction {
    Invalid,
    NoReply,
    Reply(String),
    Send(EmailRequest, Option<Json>),
}

/// The model of an action.
pub open spec fn action_m_of(a: RequestAction) -> ActionM {
    match a {
        RequestAction::Invalid => ActionM::Invalid,
        RequestAction::NoReply => ActionM::NoReply,
        RequestAction::Reply(s) => ActionM::Reply(s@),
        RequestAction::Send(e, id) => ActionM::Send(mail_m_of(e), opt_jm(id)),
    }
}

/// A failure to be wrapped into an error response.
pub struct RpcFailure {
    pub code: ErrCode,
    pub message: Vec<char>,
}

/// What dispatch decides, as executable data.
pub enum Dispatch {
    Result(Json),
    Fail(RpcFailure),
    Send(EmailRequest),
}

/// The model of a dispatch decision.
pub open spec fn disp_m_of(d: Dispatch) -> DispM {
    match d {
        Dispatch::Result(j) => DispM::Result(jm(j)),
        Dispatch::Fail(f) => DispM::Fail(f.code, f.message@),
        Dispatch::Send(e) => DispM::Send(mail_m_of(e)),
    }
}

/// Decode a request from a JSON value, as `decode_req_m` states.
pub fn decode_request(j: Json) -> (r: Option<Request>)
    ensures
        match r {
            Some(rq) => decode_req_m(jm(j)) == Some(
                ReqM { method: rq.method@, params: opt_jm(rq.params), id: opt_jm(rq.id) },
            ),
            None => decode_req_m(jm(j)) is None,
        },
{
    match j {
        Json::Obj(mut fields) => {
            let ghost full: Seq<(Seq<char>, Jv)> = jm(j)->Obj_0;
            let ghost fields0: Seq<(Vec<char>, Json)> = fields@;
            let mut v_jsonrpc: Option<Json> = None;
            let mut v_method: Option<Json> = None;
            let mut v_params: Option<Json> = None;
            let mut v_id: Option<Json> = None;
            proof {
                assert(jm(j) == Jv::Obj(full));
                assert(full.subrange(0, full.len() as int) =~= full);
                assert(fields0.subrange(0, fields0.len() as int) =~= fields0);
            }
            while fields.len() > 0
                invariant
                    jm(j) == Jv::Obj(full),
                    full.len() == fields0.len(),
                    fields@ == fields0.subrange(0, fields@.len() as int),
                    fields@.len() <= fields0.len(),
                    forall|t: int|
                        0 <= t < fields0.len() ==> full[t] == (fields0[t].0@, jm(fields0[t].1)),
                    count_key(full, ("jsonrpc")@) == count_key(
                        full.subrange(0, fields@.len() as int),
                        ("jsonrpc")@,
                    ) + if v_jsonrpc is Some {
                        1nat
                    } else {
                        0nat
                    },
                    count_key(full, ("method")@) == count_key(
                        full.subrange(0, fields@.len() as int),
                        ("method")@,
                    ) + if v_method is Some {
                        1nat
                    } else {
                        0nat
                    },
                    count_key(full, ("params")@) == count_key(
                        full.subrange(0, fields@.len() as int),
                        ("params")@,
                    ) + if v_params is Some {
                        1nat
                    } else {
                        0nat
                    },
                    count_key(full, ("id")@) == count_key(
                        full.subrange(0, fields@.len() as int),
                        ("id")@,
                    ) + if v_id is Some {
                        1nat
                    } else {
                        0nat
                    },
                    match v_jsonrpc {
                        Some(v) => obj_get_m(full, ("jsonrpc")@) == Some(jm(v)),
                        None => obj_get_m(full, ("jsonrpc")@) == obj_get_m(
                            full.subrange(0, fields@.len() as int),
                            ("jsonrpc")@,
                        ),
                    },
                    match v_method {
                        Some(v) => obj_get_m(full, ("method")@) == Some(jm(v)),
                        None => obj_get_m(full, ("method")@) == obj_get_m(
                            full.subrange(0, fields@.len() as int),
                            ("method")@,
                        ),
                    },
                    match v_params {
                        Some(v) => obj_get_m(full, ("params")@) == Some(jm(v)),
                        None => obj_get_m(full, ("params")@) == obj_get_m(
                            full.subrange(0, fields@.len() as int),
                            ("params")@,
                        ),
                    },
                    match v_id {
                        Some(v) => obj_get_m(full, ("id")@) == Some(jm(v)),
                        None => obj_get_m(full, ("id")@) == obj_get_m(
                            full.subrange(0, fields@.len() as int),
                            ("id")@,
                        ),
                    },
                decreases fields@.len(),
            {
                let ghost i = fields@.len() as int;
                let ghost pre = full.subrange(0, i);
                proof {
                    broadcast use vstd::string::group_string_axioms;

                    reveal_strlit("jsonrpc");
                    reveal_strlit("method");
                    reveal_strlit("params");
                    reveal_strlit("id");
                    assert(("jsonrpc")@.len() == 7);
                    assert(("method")@.len() == 6);
                    assert(("params")@.len() == 6);
                    assert(("id")@.len() == 2);
                    assert(("method")@[0] == 'm' && ("params")@[0] == 'p');
                    assert(("jsonrpc")@ != ("method")@);
                    assert(("jsonrpc")@ != ("params")@);
                    assert(("jsonrpc")@ != ("id")@);
                    assert(("method")@ != ("params")@);
                    assert(("method")@ != ("id")@);
                    assert(("params")@ != ("id")@);
                    assert(pre.len() == i);
                    assert(pre.last() == full[i - 1]);
                    assert(pre.drop_last() =~= full.subrange(0, i - 1));
                    assert(fields0.subrange(0, i).last() == fields0[i - 1]);
                    assert(fields0.subrange(0, i).drop_last() =~= fields0.subrange(0, i - 1));
                }
                let pair = fields.pop().unwrap();
                let (k, v) = pair;
                proof {
                    assert((k@, jm(v)) == full[i - 1]);
                    assert(fields@ =~= fields0.subrange(0, i - 1));
                }
                if chars_eq_str(&k, "jsonrpc") {
                    if v_jsonrpc.is_some() {
                        proof {
                            assert(count_key(full, ("jsonrpc")@) >= 2);
                        }
                        return None;
                    }
                    v_jsonrpc = Some(v);
                } else if chars_eq_str(&k, "method") {
                    if v_method.is_some() {
                        proof {
                            assert(count_key(full, ("method")@) >= 2);
                        }
                        return None;
                    }
                    v_method = Some(v);
                } else if chars_eq_str(&k, "params") {
                    if v_params.is_some() {
                        proof {
                            assert(count_key(full, ("params")@) >= 2);
                        }
                        return None;
                    }
                    v_params = Some(v);
                } else if chars_eq_str(&k, "id") {
                    if v_id.is_some() {
                        proof {
                            assert(count_key(full, ("id")@) >= 2);
                        }
                        return None;
                    }
                    v_id = Some(v);
                }
            }
            proof {
                assert(full.subrange(0, 0) =~= Seq::<(Seq<char>, Jv)>::empty());
            }
            let jr = match v_jsonrpc {
                Some(v) => v,
                None => {
                    return None;
                },
            };
            match jr {
                Json::Str(_) => {},
                _ => {
                    return None;
                },
            }
            let mv = match v_method {
                Some(v) => v,
                None => {
                    return None;
                },
            };
            let method: Vec<char> = match mv {
                Json::Str(s) => s,
                _ => {
                    return None;
                },
            };
            let params: Option<Json> = match v_params {
                Some(Json::Null) => None,
                other => other,
            };
            let id: Option<Json> = match v_id {
                Some(Json::Null) => None,
                other => other,
            };
            Some(Request { method, params, id })
        },
        _ => None,
    }
}

/// A string value, copied out of a JSON string member.
fn get_str_member(j: &Json, k: &str) -> (r: Option<String>)
    ensures
        match r {
            Some(s) => str_member_m(jm(*j), k@) == Some(s@),
            None => str_member_m(jm(*j), k@) is None,
        },
{
    match obj_get(j, k) {
        Some(v) => match v {
            Json::Str(s) => Some(chars_to_string(s)),
            _ => None,
        },
        None => None,
    }
}

/// The result of `initialize`, as `init_result_m` states.
pub fn init_result() -> (r: Json)
    ensures
        jm(r) == init_result_m(),
{
    let mut caps: Vec<(Vec<char>, Json)> = Vec::new();
    let tools_empty: Vec<(Vec<char>, Json)> = Vec::new();
    caps.push((str_to_chars("tools"), Json::Obj(tools_empty)));
    let ghost capsv = caps@;
    let mut server: Vec<(Vec<char>, Json)> = Vec::new();
    server.push((str_to_chars("name"), Json::Str(str_to_chars("gmail-mcp-server"))));
    server.push((str_to_chars("version"), Json::Str(str_to_chars("0.1.0"))));
    let ghost serverv = server@;
    let mut top: Vec<(Vec<char>, Json)> = Vec::new();
    top.push((str_to_chars("capabilities"), Json::Obj(caps)));
    top.push((str_to_chars("protocolVersion"), Json::Str(str_to_chars("0.1.0"))));
    top.push((str_to_chars("serverInfo"), Json::Obj(server)));
    let r = Json::Obj(top);
    proof {
        let g = jm(r)->Obj_0;
        assert(g.len() == 3);
        assert(g[0] == (top@[0].0@, jm(top@[0].1)));
        assert(g[1] == (top@[1].0@, jm(top@[1].1)));
        assert(g[2] == (top@[2].0@, jm(top@[2].1)));
        let gc = jm(top@[0].1)->Obj_0;
        assert(gc.len() == 1);
        assert(gc[0] == (capsv[0].0@, jm(capsv[0].1)));
        assert(jm(capsv[0].1)->Obj_0 =~= Seq::<(Seq<char>, Jv)>::empty());
        assert(jm(capsv[0].1) =~~= Jv::Obj(Seq::empty()));
        assert(gc =~= init_result_m()->Obj_0[0].1->Obj_0);
        assert(jm(top@[0].1) =~~= init_result_m()->Obj_0[0].1);
        let gs = jm(top@[2].1)->Obj_0;
        assert(gs.len() == 2);
        assert(gs[0] == (serverv[0].0@, jm(serverv[0].1)));
        assert(gs[1] == (serverv[1].0@, jm(serverv[1].1)));
        assert(gs =~= init_result_m()->Obj_0[2].1->Obj_0);
        assert(jm(top@[2].1) =~~= init_result_m()->Obj_0[2].1);
        assert(g =~= init_result_m()->Obj_0);
        assert(jm(r) =~~= init_result_m());
    }
    r
}

/// One schema property, as `schema_prop_m` states.
fn schema_prop(desc: &str) -> (r: Json)
    ensures
        jm(r) == schema_prop_m(desc@),
{
    let mut p: Vec<(Vec<char>, Json)> = Vec::new();
    p.push((str_to_chars("description"), Json::Str(str_to_chars(desc))));
    p.push((str_to_chars("type"), Json::Str(str_to_chars("string"))));
    let r = Json::Obj(p);
    proof {
        let g = jm(r)->Obj_0;
        assert(g.len() == 2);
        assert(g[0] == (p@[0].0@, jm(p@[0].1)));
        assert(g[1] == (p@[1].0@, jm(p@[1].1)));
        assert(g =~= schema_prop_m(desc@)->Obj_0);
        assert(jm(r) =~~= schema_prop_m(desc@));
    }
    r
}

/// The result of the tool-listing method, as `tools_list_m` states.
pub fn tools_list_result() -> (r: Json)
    ensures
        jm(r) == tools_list_m(),
{
    let mut props: Vec<(Vec<char>, Json)> = Vec::new();
    props.push(
        (
            str_to_chars("attachment_path"),
            schema_prop("Absolute path to an attachment file (optional)"),
        ),
    );
    props.push((str_to_chars("body"), schema_prop("Email body content")));
    props.push((str_to_chars("subject"), schema_prop("Email subject")));
    props.push((str_to_chars("to"), schema_prop("Recipient email address")));
    let ghost propsv = props@;
    let mut required: Vec<Json> = Vec::new();
    required.push(Json::Str(str_to_chars("to")));
    let ghost requiredv = required@;
    let mut schema: Vec<(Vec<char>, Json)> = Vec::new();
    schema.push((str_to_chars("properties"), Json::Obj(props)));
    schema.push((str_to_chars("required"), Json::Arr(required)));
    schema.push((str_to_chars("type"), Json::Str(str_to_chars("object"))));
    let ghost schemav = schema@;
    let mut desc: Vec<(Vec<char>, Json)> = Vec::new();
    desc.push(
        (
            str_to_chars("description"),
            Json::Str(str_to_chars("Send an email with an optional attachment via Gmail")),
        ),
    );
    desc.push((str_to_chars("inputSchema"), Json::Obj(schema)));
    desc.push((str_to_chars("name"), Json::Str(str_to_chars("send_email"))));
    let ghost descv = desc@;
    let mut tools: Vec<Json> = Vec::new();
    tools.push(Json::Obj(desc));
    let ghost toolsv = tools@;
    let mut top: Vec<(Vec<char>, Json)> = Vec::new();
    top.push((str_to_chars("tools"), Json::Arr(tools)));
    let r = Json::Obj(top);
    proof {
        let dm = tool_descriptor_m();
        // properties object
        let gp = jm(schemav[0].1)->Obj_0;
        assert(gp.len() == 4);
        assert(gp[0] == (propsv[0].0@, jm(propsv[0].1)));
        assert(gp[1] == (propsv[1].0@, jm(propsv[1].1)));
        assert(gp[2] == (propsv[2].0@, jm(propsv[2].1)));
        assert(gp[3] == (propsv[3].0@, jm(propsv[3].1)));
        assert(gp =~= dm->Obj_0[1].1->Obj_0[0].1->Obj_0);
        assert(jm(schemav[0].1) =~~= dm->Obj_0[1].1->Obj_0[0].1);
        // required array
        let gr = jm(schemav[1].1)->Arr_0;
        assert(gr.len() == 1);
        assert(gr[0] == jm(requiredv[0]));
        assert(gr =~= dm->Obj_0[1].1->Obj_0[1].1->Arr_0);
        assert(jm(schemav[1].1) =~~= dm->Obj_0[1].1->Obj_0[1].1);
        // input schema object
        let gs = jm(descv[1].1)->Obj_0;
        assert(gs.len() == 3);
        assert(gs[0] == (schemav[0].0@, jm(schemav[0].1)));
        assert(gs[1] == (schemav[1].0@, jm(schemav[1].1)));
        assert(gs[2] == (schemav[2].0@, jm(schemav[2].1)));
        assert(gs =~= dm->Obj_0[1].1->Obj_0);
        assert(jm(descv[1].1) =~~= dm->Obj_0[1].1);
        // descriptor object
        let gd = jm(toolsv[0])->Obj_0;
        assert(gd.len() == 3);
        assert(gd[0] == (descv[0].0@, jm(descv[0].1)));
        assert(gd[1] == (descv[1].0@, jm(descv[1].1)));
        assert(gd[2] == (descv[2].0@, jm(descv[2].1)));
        assert(gd =~= dm->Obj_0);
        assert(jm(toolsv[0]) =~~= dm);
        // tools array
        let ga = jm(top@[0].1)->Arr_0;
        assert(ga.len() == 1);
        assert(ga[0] == jm(toolsv[0]));
        assert(ga =~= tools_list_m()->Obj_0[0].1->Arr_0);
        assert(jm(top@[0].1) =~~= tools_list_m()->Obj_0[0].1);
        // top object
        let g = jm(r)->Obj_0;
        assert(g.len() == 1);
        assert(g[0] == (top@[0].0@, jm(top@[0].1)));
        assert(g =~= tools_list_m()->Obj_0);
        assert(jm(r) =~~= tools_list_m());
    }
    r
}

/// The error member of an error response, as `error_body_m` states.
fn error_body(code: ErrCode, message: Vec<char>) -> (r: Json)
    ensures
        jm(r) == error_body_m(code, message@),
{
    let code_text: &str = match code {
        ErrCode::MethodNotFound => "-32601",
        ErrCode::InvalidParams => "-32602",
        ErrCode::OperationFailed => "-32000",
    };
    let ghost msgv = message@;
    let mut fs: Vec<(Vec<char>, Json)> = Vec::new();
    fs.push((str_to_chars("code"), Json::Num(str_to_chars(code_text))));
    fs.push((str_to_chars("message"), Json::Str(message)));
    fs.push((str_to_chars("data"), Json::Null));
    let r = Json::Obj(fs);
    proof {
        assert(code_text@ == code_chars(code));
        let g = jm(r)->Obj_0;
        assert(g.len() == 3);
        assert(g[0] == (fs@[0].0@, jm(fs@[0].1)));
        assert(g[1] == (fs@[1].0@, jm(fs@[1].1)));
        assert(g[2] == (fs@[2].0@, jm(fs@[2].1)));
        assert(g =~= error_body_m(code, msgv)->Obj_0);
        assert(jm(r) =~~= error_body_m(code, msgv));
    }
    r
}

/// A result response, as `result_response_m` states.
fn result_response(id: Json, res: Json) -> (r: Json)
    ensures
        jm(r) == result_response_m(jm(id), jm(res)),
{
    let ghost idm = jm(id);
    let ghost resm = jm(res);
    let mut fs: Vec<(Vec<char>, Json)> = Vec::new();
    fs.push((str_to_chars("jsonrpc"), Json::Str(str_to_chars("2.0"))));
    fs.push((str_to_chars("id"), id));
    fs.push((str_to_chars("result"), res));
    fs.push((str_to_chars("error"), Json::Null));
    let r = Json::Obj(fs);
    proof {
        let g = jm(r)->Obj_0;
        assert(g.len() == 4);
        assert(g[0] == (fs@[0].0@, jm(fs@[0].1)));
        assert(g[1] == (fs@[1].0@, jm(fs@[1].1)));
        assert(g[2] == (fs@[2].0@, jm(fs@[2].1)));
        assert(g[3] == (fs@[3].0@, jm(fs@[3].1)));
        assert(g =~= result_response_m(idm, resm)->Obj_0);
        assert(jm(r) =~~= result_response_m(idm, resm));
    }
    r
}

/// An error response, as `error_response_m` states.
fn error_response(id: Json, code: ErrCode, message: Vec<char>) -> (r: Json)
    ensures
        jm(r) == error_response_m(jm(id), code, message@),
{
    let ghost idm = jm(id);
    let ghost msgv = message@;
    let body = error_body(code, message);
    let mut fs: Vec<(Vec<char>, Json)> = Vec::new();
    fs.push((str_to_chars("jsonrpc"), Json::Str(str_to_chars("2.0"))));
    fs.push((str_to_chars("id"), id));
    fs.push((str_to_chars("result"), Json::Null));
    fs.push((str_to_chars("error"), body));
    let r = Json::Obj(fs);
    proof {
        let g = jm(r)->Obj_0;
        assert(g.len() == 4);
        assert(g[0] == (fs@[0].0@, jm(fs@[0].1)));
        assert(g[1] == (fs@[1].0@, jm(fs@[1].1)));
        assert(g[2] == (fs@[2].0@, jm(fs@[2].1)));
        assert(g[3] == (fs@[3].0@, jm(fs@[3].1)));
        assert(g =~= error_response_m(idm, code, msgv)->Obj_0);
        assert(jm(r) =~~= error_response_m(idm, code, msgv));
    }
    r
}

/// Validate a tool call and plan the send, as `tool_call_m` states.
pub fn handle_tool_call(params: Option<Json>) -> (r: Dispatch)
    ensures
        disp_m_of(r) == tool_call_m(opt_jm(params)),
{
    let p = match params {
        None => {
            return Dispatch::Fail(
                RpcFailure {
                    code: ErrCode::InvalidParams,
                    message: str_to_chars("Missing params"),
                },
            );
        },
        Some(p) => p,
    };
    let name: String = match get_str_member(&p, "name") {
        None => {
            return Dispatch::Fail(
                RpcFailure {
                    code: ErrCode::InvalidParams,
                    message: str_to_chars("Missing tool name"),
                },
            );
        },
        Some(n) => n,
    };
    let name_chars = str_to_chars(name.as_str());
    if !chars_eq_str(&name_chars, "send_email") {
        let mut msg = str_to_chars("Unknown tool: ");
        msg.extend_from_slice(name_chars.as_slice());
        proof {
            assert(msg@ =~= ("Unknown tool: ")@ + name@);
        }
        return Dispatch::Fail(RpcFailure { code: ErrCode::MethodNotFound, message: msg });
    }
    let args = match obj_get(&p, "arguments") {
        None => {
            return Dispatch::Fail(
                RpcFailure {
                    code: ErrCode::InvalidParams,
                    message: str_to_chars("Missing arguments"),
                },
            );
        },
        Some(a) => a,
    };
    let to: String = match get_str_member(args, "to") {
        None => {
            return Dispatch::Fail(
                RpcFailure { code: ErrCode::InvalidParams, message: str_to_chars("Missing 'to'") },
            );
        },
        Some(t) => t,
    };
    let subject: String = match get_str_member(args, "subject") {
        Some(s) => s,
        None => {
            let v = str_to_chars("(No Subject)");
            chars_to_string(&v)
        },
    };
    let body: String = match get_str_member(args, "body") {
        Some(s) => s,
        None => String::new(),
    };
    let attachment_path: Option<String> = get_str_member(args, "attachment_path");
    Dispatch::Send(EmailRequest { to, subject, body, attachment_path })
}

/// Dispatch a request by method name, as `dispatch_m` states.
pub fn dispatch(method: &Vec<char>, params: Option<Json>) -> (r: Dispatch)
    ensures
        disp_m_of(r) == dispatch_m(method@, opt_jm(params)),
{
    if chars_eq_str(method, "initialize") {
        Dispatch::Result(init_result())
    } else if chars_eq_str(method, "notifications/initialized") {
        Dispatch::Result(Json::Str(str_to_chars("OK")))
    } else if chars_eq_str(method, "tools/list") {
        Dispatch::Result(tools_list_result())
    } else if chars_eq_str(method, "tools/call") {
        handle_tool_call(params)
    } else {
        Dispatch::Fail(
            RpcFailure { code: ErrCode::MethodNotFound, message: str_to_chars("Method not found") },
        )
    }
}

/// Handle one decoded request: dispatch it, and either produce the one
/// response line its id asks for, stay silent for a notification, or hand
/// the planned send out, as `req_action_m` states.
pub fn handle_request(req: Request) -> (r: RequestAction)
    ensures
        action_m_of(r) == req_action_m(
            ReqM { method: req.method@, params: opt_jm(req.params), id: opt_jm(req.id) },
        ),
{
    let Request { method, params, id } = req;
    let d = dispatch(&method, params);
    match d {
        Dispatch::Send(e) => RequestAction::Send(e, id),
        Dispatch::Result(res) => match id {
            None => RequestAction::NoReply,
            Some(i) => {
                let resp = result_response(i, res);
                RequestAction::Reply(to_json_string(&resp))
            },
        },
        Dispatch::Fail(f) => match id {
            None => RequestAction::NoReply,
            Some(i) => {
                let resp = error_response(i, f.code, f.message);
                RequestAction::Reply(to_json_string(&resp))
            },
        },
    }
}

/// Handle one raw input line, as `line_action_m` states: a line that does
/// not decode to a request is `Invalid` and produces no output.
pub fn process_line(line: &str) -> (r: RequestAction)
    ensures
        action_m_of(r) == line_action_m(line@),
{
    let cs = str_to_chars(line);
    match parse_json(&cs) {
        None => RequestAction::Invalid,
        Some(j) => match decode_request(j) {
            None => RequestAction::Invalid,
            Some(rq) => handle_request(rq),
        },
    }
}

/// What the transport reports back for a planned send.
pub enum SendOutcome {
    /// Delivered; the provider's message identifier.
    Sent(String),
    /// The transport could not be set up; the reason.
    InitFailed(String),
    /// The attachment file could not be read.
    AttachmentUnreadable,
    /// Delivery itself failed; the reason.
    SendFailed(String),
}

/// The model of a transport outcome.
pub enum OutcomeM {
    Sent(Seq<char>),
    InitFailed(Seq<char>),
    AttachmentUnreadable,
    SendFailed(Seq<char>),
}

/// The model of a `SendOutcome`.
pub open spec fn outcome_m_of(o: SendOutcome) -> OutcomeM {
    match o {
        SendOutcome::Sent(s) => OutcomeM::Sent(s@),
        SendOutcome::InitFailed(s) => OutcomeM::InitFailed(s@),
        SendOutcome::AttachmentUnreadable => OutcomeM::AttachmentUnreadable,
        SendOutcome::SendFailed(s) => OutcomeM::SendFailed(s@),
    }
}

/// The result value reported for a delivered mail.
pub open spec fn send_success_m(msgid: Seq<char>) -> Jv {
    Jv::Obj(
        seq![
            (
                ("content")@,
                Jv::Arr(
                    seq![
                        Jv::Obj(
                            seq![
                                (
                                    ("text")@,
                                    Jv::Str(("Email sent successfully. Message ID: ")@ + msgid),
                                ),
                                (("type")@, Jv::Str(("text")@)),
                            ],
                        ),
                    ],
                ),
            ),
        ],
    )
}

/// The error message reported for a failed send, variant by variant.
pub open spec fn outcome_msg_m(o: OutcomeM) -> Seq<char> {
    match o {
        OutcomeM::Sent(_) => Seq::empty(),
        OutcomeM::InitFailed(e) => ("Failed to init Gmail client: ")@ + e,
        OutcomeM::AttachmentUnreadable => (
            "Failed to send email: Failed to read attachment file"
        )@,
        OutcomeM::SendFailed(e) => ("Failed to send email: ")@ + e,
    }
}

/// The reply a transport outcome leads to: none for a notification, the
/// success text for a delivered mail, an operation-failure error else.
pub open spec fn mail_reply_m(id: Option<Jv>, oc: OutcomeM) -> Option<Seq<char>> {
    match id {
        None => None,
        Some(i) => Some(
            match oc {
                OutcomeM::Sent(msgid) => ser(result_response_m(i, send_success_m(msgid))),
                _ => ser(error_response_m(i, ErrCode::OperationFailed, outcome_msg_m(oc))),
            },
        ),
    }
}

/// Wrap a transport outcome into the response line it owes, as
/// `mail_reply_m` states.
pub fn mail_reply(id: Option<Json>, outcome: &SendOutcome) -> (r: Option<String>)
    ensures
        match r {
            Some(s) => mail_reply_m(opt_jm(id), outcome_m_of(*outcome)) == Some(s@),
            None => mail_reply_m(opt_jm(id), outcome_m_of(*outcome)) is None,
        },
{
    let i = match id {
        None => {
            return None;
        },
        Some(i) => i,
    };
    match outcome {
        SendOutcome::Sent(msgid) => {
            let mut text = str_to_chars("Email sent successfully. Message ID: ");
            let mid = str_to_chars(msgid.as_str());
            text.extend_from_slice(mid.as_slice());
            proof {
                assert(text@ =~= ("Email sent successfully. Message ID: ")@ + msgid@);
            }
            let mut item: Vec<(Vec<char>, Json)> = Vec::new();
            item.push((str_to_chars("text"), Json::Str(text)));
            item.push((str_to_chars("type"), Json::Str(str_to_chars("text"))));
            let ghost itemv = item@;
            let mut arr: Vec<Json> = Vec::new();
            arr.push(Json::Obj(item));
            let ghost arrv = arr@;
            let mut top: Vec<(Vec<char>, Json)> = Vec::new();
            top.push((str_to_chars("content"), Json::Arr(arr)));
            let payload = Json::Obj(top);
            proof {
                let sm = send_success_m(msgid@);
                let gi = jm(arrv[0])->Obj_0;
                assert(gi.len() == 2);
                assert(gi[0] == (itemv[0].0@, jm(itemv[0].1)));
                assert(gi[1] == (itemv[1].0@, jm(itemv[1].1)));
                assert(gi =~= sm->Obj_0[0].1->Arr_0[0]->Obj_0);
                assert(jm(arrv[0]) =~~= sm->Obj_0[0].1->Arr_0[0]);
                let ga = jm(top@[0].1)->Arr_0;
                assert(ga.len() == 1);
                assert(ga[0] == jm(arrv[0]));
                assert(ga =~= sm->Obj_0[0].1->Arr_0);
                assert(jm(top@[0].1) =~~= sm->Obj_0[0].1);
                let g = jm(payload)->Obj_0;
                assert(g.len() == 1);
                assert(g[0] == (top@[0].0@, jm(top@[0].1)));
                assert(g =~= sm->Obj_0);
                assert(jm(payload) =~~= sm);
            }
            let resp = result_response(i, payload);
            Some(to_json_string(&resp))
        },
        SendOutcome::InitFailed(e) => {
            let mut msg = str_to_chars("Failed to init Gmail client: ");
            let ev = str_to_chars(e.as_str());
            msg.extend_from_slice(ev.as_slice());
            proof {
                assert(msg@ =~= ("Failed to init Gmail client: ")@ + e@);
            }
            let resp = error_response(i, ErrCode::OperationFailed, msg);
            Some(to_json_string(&resp))
        },
        SendOutcome::AttachmentUnreadable => {
            let msg = str_to_chars("Failed to send email: Failed to read attachment file");
            let resp = error_response(i, ErrCode::OperationFailed, msg);
            Some(to_json_string(&resp))
        },
        SendOutcome::SendFailed(e) => {
            let mut msg = str_to_chars("Failed to send email: ");
            let ev = str_to_chars(e.as_str());
            msg.extend_from_slice(ev.as_slice());
            proof {
                assert(msg@ =~= ("Failed to send email: ")@ + e@);
            }
            let resp = error_response(i, ErrCode::OperationFailed, msg);
            Some(to_json_string(&resp))
        },
    }
}

} // verus!
