//! The protocol's standing guarantees, proved over the models that the
//! executable functions are verified against.

use vstd::prelude::*;
use crate::json::{Jv, obj_get_m};
use crate::ser::ser;
use crate::parse::spec_parse;
use crate::protocol::{
    ReqM, DispM, ActionM, ErrCode, OutcomeM, decode_req_m, dispatch_m, tool_call_m, str_member_m,
    line_action_m, mail_reply_m, result_response_m, error_response_m, error_body_m, init_result_m,
    send_success_m,
};
use crate::json::jget;

verus! {

/// A call — a decoded request with an id whose dispatch does not go to the
/// transport — leads to exactly one response line: the serialization of
/// the one response object its outcome asks for.
pub proof fn lemma_call_one_reply(s: Seq<char>, rm: ReqM)
    requires
        spec_parse(s) matches Some(m) && decode_req_m(m) == Some(rm),
        rm.id is Some,
    ensures
        match dispatch_m(rm.method, rm.params) {
            DispM::Result(res) => line_action_m(s) == ActionM::Reply(
                ser(result_response_m(rm.id->0, res)),
            ),
            DispM::Fail(c, msg) => line_action_m(s) == ActionM::Reply(
                ser(error_response_m(rm.id->0, c, msg)),
            ),
            DispM::Send(mm) => line_action_m(s) == ActionM::Send(mm, rm.id) && (
            forall|oc: OutcomeM| #[trigger] mail_reply_m(rm.id, oc) is Some),
        },
{
}

/// Every emitted response object echoes the request's id as its `id`
/// member.
pub proof fn lemma_response_echoes_id(id: Jv, res: Jv, c: ErrCode, msg: Seq<char>)
    ensures
        obj_get_m(result_response_m(id, res)->Obj_0, ("id")@) == Some(id),
        obj_get_m(error_response_m(id, c, msg)->Obj_0, ("id")@) == Some(id),
{
    reveal_with_fuel(obj_get_m, 5);
    reveal_strlit("jsonrpc");
    reveal_strlit("id");
    reveal_strlit("result");
    reveal_strlit("error");
    assert(("id")@.len() == 2 && ("result")@.len() == 6 && ("error")@.len() == 5
        && ("jsonrpc")@.len() == 7);
    assert(obj_get_m(result_response_m(id, res)->Obj_0, ("id")@) == Some(id));
    assert(obj_get_m(error_response_m(id, c, msg)->Obj_0, ("id")@) == Some(id));
}

/// A notification — a decoded request without an id — never leads to an
/// emitted line: immediately handled requests stay silent, and a planned
/// send gets no reply whatever the transport reports.
pub proof fn lemma_notification_silent(s: Seq<char>, rm: ReqM)
    requires
        spec_parse(s) matches Some(m) && decode_req_m(m) == Some(rm),
        rm.id is None,
    ensures
        line_action_m(s) is NoReply || line_action_m(s) is Send,
        line_action_m(s) matches ActionM::Send(_, idm) ==> idm is None,
        forall|oc: OutcomeM| #[trigger] mail_reply_m(None, oc) is None,
{
}

/// In every emitted response object, `result` and `error` are mutually
/// exclusive: a result response carries a null `error` member, an error
/// response carries a null `result` member and a non-null `error` member.
pub proof fn lemma_result_error_exclusive(id: Jv, res: Jv, c: ErrCode, msg: Seq<char>)
    ensures
        obj_get_m(result_response_m(id, res)->Obj_0, ("error")@) == Some(Jv::Null),
        obj_get_m(result_response_m(id, res)->Obj_0, ("result")@) == Some(res),
        obj_get_m(error_response_m(id, c, msg)->Obj_0, ("result")@) == Some(Jv::Null),
        obj_get_m(error_response_m(id, c, msg)->Obj_0, ("error")@) == Some(error_body_m(c, msg)),
        !(error_body_m(c, msg) is Null),
{
    reveal_with_fuel(obj_get_m, 5);
    reveal_strlit("jsonrpc");
    reveal_strlit("id");
    reveal_strlit("result");
    reveal_strlit("error");
    assert(("id")@.len() == 2 && ("result")@.len() == 6 && ("error")@.len() == 5
        && ("jsonrpc")@.len() == 7);
}

/// Every value that dispatch reports as a result is non-null, so a result
/// response's `result` member is never null.
pub proof fn lemma_result_nonnull(method: Seq<char>, params: Option<Jv>)
    ensures
        dispatch_m(method, params) matches DispM::Result(res) ==> !(res is Null),
        forall|msgid: Seq<char>| !(#[trigger] send_success_m(msgid) is Null),
{
}

/// A line that does not decode to a request leads to no output at all; in
/// particular it cannot disturb the reply owed to the next line.
pub proof fn lemma_malformed_silent(s: Seq<char>)
    requires
        spec_parse(s) is None || decode_req_m(spec_parse(s)->0) is None,
    ensures
        line_action_m(s) == ActionM::Invalid,
{
}

/// `initialize` is stateless: whatever the parameters of two calls, both
/// yield the same result value, so the serialized server info and
/// capabilities are byte-identical.
pub proof fn lemma_initialize_idempotent(p1: Option<Jv>, p2: Option<Jv>)
    ensures
        dispatch_m(("initialize")@, p1) == dispatch_m(("initialize")@, p2),
        dispatch_m(("initialize")@, p1) == DispM::Result(init_result_m()),
{
}

/// A method outside the fixed set fails with the method-not-found code
/// and its fixed message.
pub proof fn lemma_unknown_method(method: Seq<char>, params: Option<Jv>)
    requires
        method != ("initialize")@,
        method != ("notifications/initialized")@,
        method != ("tools/list")@,
        method != ("tools/call")@,
    ensures
        dispatch_m(method, params) == DispM::Fail(ErrCode::MethodNotFound, ("Method not found")@),
{
}

/// The tool-call errors: missing parameters fail with the invalid-params
/// code; an unknown tool name fails with the method-not-found code and
/// carries the offending name in the message.
pub proof fn lemma_tool_call_errors(params: Option<Jv>, name: Seq<char>)
    ensures
        tool_call_m(None) == DispM::Fail(ErrCode::InvalidParams, ("Missing params")@),
        params matches Some(p) && str_member_m(p, ("name")@) == Some(name) && name != (
        "send_email")@ ==> tool_call_m(params) == DispM::Fail(
            ErrCode::MethodNotFound,
            ("Unknown tool: ")@ + name,
        ),
{
}

/// The send-email arguments: a missing `to` fails with the invalid-params
/// code naming `to`; with `to` present a send is planned, `subject` and
/// `body` falling back to their documented defaults when absent.
pub proof fn lemma_send_email_args(p: Jv, args: Jv)
    requires
        str_member_m(p, ("name")@) == Some(("send_email")@),
        jget(p, ("arguments")@) == Some(args),
    ensures
        str_member_m(args, ("to")@) is None ==> tool_call_m(Some(p)) == DispM::Fail(
            ErrCode::InvalidParams,
            ("Missing 'to'")@,
        ),
        str_member_m(args, ("to")@) matches Some(to) ==> (tool_call_m(Some(p))
            matches DispM::Send(mm) && mm.to == to && mm.subject == (match str_member_m(
            args,
            ("subject")@,
        ) {
            Some(x) => x,
            None => ("(No Subject)")@,
        }) && mm.body == (match str_member_m(args, ("body")@) {
            Some(x) => x,
            None => Seq::<char>::empty(),
        }) && mm.attachment_path == str_member_m(args, ("attachment_path")@)),
{
}

} // verus!
