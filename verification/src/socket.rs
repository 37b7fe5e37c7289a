//! The daemon's line protocol: one JSON request per connection, answered by
//! one JSON line. The application does the socket I/O and the parsing of
//! incoming JSON; the decisions and the JSON written are made here.

use vstd::prelude::*;
use vstd::seq_lib::lemma_concat_associative;
use vstd::string::*;

use crate::error::{err_view, error_text, Error, ErrorView};
use crate::protocol::{
    auth_request_text, auth_response_text, AuthRequest, AuthResponse, DaemonResponse,
    ErrorResponse,
};
use crate::text::{
    decimal, digit_char, hex_char, json_char, json_escape, json_member, json_members, json_object,
    json_string, lemma_decimal_unique, lemma_json_string_plain, lemma_json_string_unique, lemma_signed_decimal_unique, lemma_strip_prefix, signed_decimal,
};
use crate::traits::RequestHandler;

verus! {

/// The JSON of an error reply carrying `message`.
pub open spec fn error_reply_text(message: Seq<char>) -> Seq<char> {
    "{\"error\":"@ + json_string(message) + "}"@
}

/// The JSON line the daemon writes for the outcome of handling a request.
pub open spec fn outcome_text(outcome: Result<AuthResponse, ErrorView>) -> Seq<char> {
    match outcome {
        Ok(resp) => auth_response_text(resp),
        Err(e) => error_reply_text(error_text(e)),
    }
}

/// The JSON text of a reply as the client reads it.
pub open spec fn daemon_response_text(d: DaemonResponse) -> Seq<char> {
    match d {
        DaemonResponse::Token(auth) => auth_response_text(auth),
        DaemonResponse::Failure(err) => error_reply_text(err.error@),
    }
}

/// What a client makes of the daemon's reply line, given how it parsed.
pub open spec fn reply_result(line: Seq<char>, parsed: Result<DaemonResponse, Seq<char>>) -> Result<
    AuthResponse,
    ErrorView,
> {
    match parsed {
        Ok(DaemonResponse::Token(auth)) => Ok(auth),
        Ok(DaemonResponse::Failure(err)) => Err(ErrorView::Daemon(err.error@)),
        Err(m) => Err(ErrorView::Config("invalid response from daemon: "@ + m + ": "@ + line)),
    }
}

/// The view of a parse outcome whose failure is described by a text.
pub open spec fn parse_view<T>(p: Result<T, String>) -> Result<T, Seq<char>> {
    match p {
        Ok(v) => Ok(v),
        Err(m) => Err(m@),
    }
}

/// Text without a line break.
pub open spec fn is_one_line(s: Seq<char>) -> bool {
    forall|i: int| 0 <= i < s.len() ==> #[trigger] s[i] != '\n'
}

fn error_reply(message: String) -> (s: String)
    ensures
        s@ == error_reply_text(message@),
{
    ErrorResponse { error: message }.to_json()
}

/// The reply line (without its line break) for the outcome of handling a
/// request: the token reply, or an error reply carrying the error's text.
pub fn reply_line(outcome: Result<AuthResponse, Error>) -> (s: String)
    ensures
        s@ == outcome_text(err_view(outcome)),
        is_one_line(s@),
{
    let ghost o = err_view(outcome);
    let text = match outcome {
        Ok(resp) => resp.to_json(),
        Err(e) => error_reply(e.message()),
    };
    proof {
        lemma_outcome_one_line(o);
    }
    text
}

/// The daemon's answer to one connection: nothing for an empty line; for a
/// line that does not parse, an error reply naming the parse failure; else
/// the handler's token, or its error, as one JSON line.
pub fn reply_for_line<H: RequestHandler>(
    handler: &H,
    line: &str,
    request: Result<AuthRequest, String>,
) -> (reply: Option<String>)
    ensures
        line@.len() == 0 ==> reply is None,
        line@.len() != 0 ==> reply is Some,
        line@.len() != 0 && request is Err ==> (reply matches Some(s) && s@ == error_reply_text(
            "invalid request: "@ + request->Err_0@,
        )),
        line@.len() != 0 && request is Ok ==> (reply matches Some(s) && exists|
            o: Result<AuthResponse, ErrorView>,
        | #[trigger] handler.handle_outcome(request->Ok_0, o) && s@ == outcome_text(o)),
        reply matches Some(s) ==> is_one_line(s@),
{
    if line.is_empty() {
        return None;
    }
    match request {
        Ok(req) => {
            let outcome = handler.handle(&req);
            let ghost o = err_view(outcome);
            let text = reply_line(outcome);
            assert(handler.handle_outcome(req, o));
            Some(text)
        },
        Err(m) => {
            let mut message = String::from_str("invalid request: ");
            message.append(m.as_str());
            let text = error_reply(message);
            proof {
                lemma_error_reply_one_line(message@);
            }
            Some(text)
        },
    }
}

/// A client's reading of the daemon's reply line: the token, the daemon's
/// error, or a configuration error when the line is not a reply.
pub fn interpret_reply(line: &str, parsed: Result<DaemonResponse, String>) -> (res: Result<
    AuthResponse,
    Error,
>)
    ensures
        err_view(res) == reply_result(line@, parse_view(parsed)),
{
    match parsed {
        Ok(DaemonResponse::Token(auth)) => Ok(auth),
        Ok(DaemonResponse::Failure(err)) => Err(Error::Daemon(err.error)),
        Err(m) => {
            let mut message = String::from_str("invalid response from daemon: ");
            message.append(m.as_str());
            message.append(": ");
            message.append(line);
            Err(Error::Config(message))
        },
    }
}

// ── One line per message ───────────────────────────────────────────────

proof fn lemma_concat_one_line(a: Seq<char>, b: Seq<char>)
    requires
        is_one_line(a),
        is_one_line(b),
    ensures
        is_one_line(a + b),
{
    assert forall|i: int| 0 <= i < (a + b).len() implies #[trigger] (a + b)[i] != '\n' by {
        if i < a.len() {
            assert((a + b)[i] == a[i]);
        } else {
            assert((a + b)[i] == b[i - a.len()]);
        }
    }
}

proof fn lemma_hex_not_newline(d: int)
    requires
        0 <= d < 16,
    ensures
        hex_char(d) != '\n',
{
}

/// Escaped JSON string contents never hold a raw line break.
pub proof fn lemma_json_string_one_line(s: Seq<char>)
    ensures
        is_one_line(json_string(s)),
    decreases s.len(),
{
    lemma_json_escape_one_line(s);
    lemma_concat_one_line(seq!['"'], json_escape(s));
    lemma_concat_one_line(seq!['"'] + json_escape(s), seq!['"']);
}

proof fn lemma_json_escape_one_line(s: Seq<char>)
    ensures
        is_one_line(json_escape(s)),
    decreases s.len(),
{
    if s.len() > 0 {
        lemma_json_escape_one_line(s.drop_last());
        let c = s.last();
        if (c as u32) < 0x20 {
            lemma_hex_not_newline(((c as u32) / 16) as int);
            lemma_hex_not_newline(((c as u32) % 16) as int);
        }
        assert(is_one_line(json_char(c)));
        lemma_concat_one_line(json_escape(s.drop_last()), json_char(c));
    }
}

proof fn lemma_decimal_one_line(n: nat)
    ensures
        is_one_line(decimal(n)),
    decreases n,
{
    if n >= 10 {
        lemma_decimal_one_line(n / 10);
        lemma_concat_one_line(decimal(n / 10), seq![digit_char((n % 10) as int)]);
        assert(decimal(n) =~= decimal(n / 10) + seq![digit_char((n % 10) as int)]);
    }
}

proof fn lemma_signed_decimal_one_line(n: int)
    ensures
        is_one_line(signed_decimal(n)),
{
    if n < 0 {
        lemma_decimal_one_line((-n) as nat);
        lemma_concat_one_line(seq!['-'], decimal((-n) as nat));
    } else {
        lemma_decimal_one_line(n as nat);
    }
}

proof fn lemma_error_reply_one_line(message: Seq<char>)
    ensures
        is_one_line(error_reply_text(message)),
{
    reveal_strlit("{\"error\":");
    reveal_strlit("}");
    lemma_json_string_one_line(message);
    lemma_concat_one_line("{\"error\":"@, json_string(message));
    lemma_concat_one_line("{\"error\":"@ + json_string(message), "}"@);
}

/// Every reply the daemon writes is a single line (so the client's one
/// `read_line` gets all of it).
pub proof fn lemma_outcome_one_line(outcome: Result<AuthResponse, ErrorView>)
    ensures
        is_one_line(outcome_text(outcome)),
{
    match outcome {
        Ok(resp) => {
            reveal_strlit("{\"token\":");
            reveal_strlit(",\"expires_at\":");
            reveal_strlit("}");
            lemma_json_string_one_line(resp.token@);
            lemma_signed_decimal_one_line(resp.expires_at as int);
            let a = "{\"token\":"@;
            let b = json_string(resp.token@);
            let c = ",\"expires_at\":"@;
            let d = signed_decimal(resp.expires_at as int);
            let e = "}"@;
            lemma_concat_one_line(a, b);
            lemma_concat_one_line(a + b, c);
            lemma_concat_one_line(a + b + c, d);
            lemma_concat_one_line(a + b + c + d, e);
        },
        Err(err) => {
            lemma_error_reply_one_line(error_text(err));
        },
    }
}

/// Every request a client writes is a single line (so the daemon's one
/// `read_line` gets all of it).
pub proof fn lemma_request_one_line(req: AuthRequest)
    ensures
        is_one_line(auth_request_text(req)),
{
    reveal_strlit("{\"sub\":");
    reveal_strlit(",\"aud\":");
    reveal_strlit(",\"expiry_secs\":");
    reveal_strlit("}");
    lemma_json_string_one_line(req.sub@);
    lemma_json_string_one_line(req.aud@);
    lemma_decimal_one_line(req.expiry_secs as nat);
    let a = "{\"sub\":"@;
    let b = json_string(req.sub@);
    let c = ",\"aud\":"@;
    let d = json_string(req.aud@);
    let e = ",\"expiry_secs\":"@;
    let f = decimal(req.expiry_secs as nat);
    let g = "}"@;
    lemma_concat_one_line(a, b);
    lemma_concat_one_line(a + b, c);
    lemma_concat_one_line(a + b + c, d);
    lemma_concat_one_line(a + b + c + d, e);
    lemma_concat_one_line(a + b + c + d + e, f);
    lemma_concat_one_line(a + b + c + d + e + f, g);
}


// ── Lines read one way only ────────────────────────────────────────────

/// A request line is the JSON object with all three members the daemon
/// requires, `sub`, `aud` and `expiry_secs`, each carrying the request's own
/// field, whatever the request (empty texts and zero included).
pub proof fn lemma_request_carries_every_member(r: AuthRequest)
    ensures
        auth_request_text(r) == json_object(
            seq![
                ("sub"@, json_string(r.sub@)),
                ("aud"@, json_string(r.aud@)),
                ("expiry_secs"@, decimal(r.expiry_secs as nat)),
            ],
        ),
{
    reveal_strlit("sub");
    reveal_strlit("aud");
    reveal_strlit("expiry_secs");
    reveal_strlit("{\"sub\":");
    reveal_strlit(",\"aud\":");
    reveal_strlit(",\"expiry_secs\":");
    reveal_strlit("}");
    lemma_json_string_plain("sub"@);
    lemma_json_string_plain("aud"@);
    lemma_json_string_plain("expiry_secs"@);
    let m0 = ("sub"@, json_string(r.sub@));
    let m1 = ("aud"@, json_string(r.aud@));
    let m2 = ("expiry_secs"@, decimal(r.expiry_secs as nat));
    let ms = seq![m0, m1, m2];
    assert(ms.drop_first() =~= seq![m1, m2]);
    assert(seq![m1, m2].drop_first() =~= seq![m2]);
    assert(json_members(seq![m2]) == json_member(m2.0, m2.1));
    assert(json_members(seq![m1, m2]) == json_member(m1.0, m1.1) + seq![','] + json_members(seq![m2]));
    assert(json_members(ms) == json_member(m0.0, m0.1) + seq![','] + json_members(seq![m1, m2]));
    assert(auth_request_text(r) =~= json_object(ms));
}

/// A token reply is the JSON object with the members `token` and `expires_at`
/// carrying the answer's token and expiry; an error reply is the JSON object
/// whose one member `error` carries the message.
pub proof fn lemma_replies_carry_every_member(a: AuthResponse, m: Seq<char>)
    ensures
        auth_response_text(a) == json_object(
            seq![("token"@, json_string(a.token@)), ("expires_at"@, signed_decimal(a.expires_at as int))],
        ),
        error_reply_text(m) == json_object(seq![("error"@, json_string(m))]),
{
    reveal_strlit("token");
    reveal_strlit("expires_at");
    reveal_strlit("error");
    reveal_strlit("{\"token\":");
    reveal_strlit(",\"expires_at\":");
    reveal_strlit("{\"error\":");
    reveal_strlit("}");
    lemma_json_string_plain("token"@);
    lemma_json_string_plain("expires_at"@);
    lemma_json_string_plain("error"@);
    let mt = ("token"@, json_string(a.token@));
    let me = ("expires_at"@, signed_decimal(a.expires_at as int));
    assert(seq![mt, me].drop_first() =~= seq![me]);
    assert(json_members(seq![me]) == json_member(me.0, me.1));
    assert(json_members(seq![mt, me]) == json_member(mt.0, mt.1) + seq![','] + json_members(seq![me]));
    assert(auth_response_text(a) =~= json_object(seq![mt, me]));
    let mr = ("error"@, json_string(m));
    assert(json_members(seq![mr]) == json_member(mr.0, mr.1));
    assert(error_reply_text(m) =~= json_object(seq![mr]));
}

/// A request line determines the request: the daemon cannot read a client's
/// line as any other request.
pub proof fn lemma_request_text_unambiguous(r1: AuthRequest, r2: AuthRequest)
    requires
        auth_request_text(r1) == auth_request_text(r2),
    ensures
        r1.sub@ == r2.sub@,
        r1.aud@ == r2.aud@,
        r1.expiry_secs == r2.expiry_secs,
{
    reveal_strlit("{\"sub\":");
    reveal_strlit(",\"aud\":");
    reveal_strlit(",\"expiry_secs\":");
    reveal_strlit("}");
    let p1 = "{\"sub\":"@;
    let p2 = ",\"aud\":"@;
    let p3 = ",\"expiry_secs\":"@;
    let p4 = "}"@;
    let after_aud = |r: AuthRequest| p3 + (decimal(r.expiry_secs as nat) + p4);
    let after_sub = |r: AuthRequest| p2 + (json_string(r.aud@) + after_aud(r));
    assert forall|r: AuthRequest| #[trigger] auth_request_text(r) == p1 + (json_string(r.sub@) + after_sub(r)) by {
        let j1 = json_string(r.sub@);
        let j2 = json_string(r.aud@);
        let d = decimal(r.expiry_secs as nat);
        lemma_concat_associative(p1 + j1 + p2 + j2 + p3, d, p4);
        lemma_concat_associative(p1 + j1 + p2 + j2, p3, d + p4);
        lemma_concat_associative(p1 + j1 + p2, j2, after_aud(r));
        lemma_concat_associative(p1 + j1, p2, j2 + after_aud(r));
        lemma_concat_associative(p1, j1, after_sub(r));
    }
    assert(auth_request_text(r1) == p1 + (json_string(r1.sub@) + after_sub(r1)));
    assert(auth_request_text(r2) == p1 + (json_string(r2.sub@) + after_sub(r2)));
    lemma_strip_prefix(p1, json_string(r1.sub@) + after_sub(r1), json_string(r2.sub@) + after_sub(r2));
    lemma_json_string_unique(r1.sub@, r2.sub@, after_sub(r1), after_sub(r2));
    lemma_strip_prefix(p2, json_string(r1.aud@) + after_aud(r1), json_string(r2.aud@) + after_aud(r2));
    lemma_json_string_unique(r1.aud@, r2.aud@, after_aud(r1), after_aud(r2));
    lemma_strip_prefix(
        p3,
        decimal(r1.expiry_secs as nat) + p4,
        decimal(r2.expiry_secs as nat) + p4,
    );
    lemma_decimal_unique(r1.expiry_secs as nat, r2.expiry_secs as nat, p4, p4);
}

proof fn lemma_reply_shapes()
    ensures
        forall|a: AuthResponse| #[trigger] auth_response_text(a) == "{\"token\":"@ + (json_string(a.token@) + (",\"expires_at\":"@ + (signed_decimal(a.expires_at as int) + "}"@))),
        forall|m: Seq<char>| #[trigger] error_reply_text(m) == "{\"error\":"@ + (json_string(m) + "}"@),
{
    let pt = "{\"token\":"@;
    let pe = ",\"expires_at\":"@;
    let pr = "{\"error\":"@;
    let close = "}"@;
    assert forall|a: AuthResponse| #[trigger] auth_response_text(a) == pt + (json_string(a.token@) + (pe + (signed_decimal(a.expires_at as int) + close))) by {
        let j = json_string(a.token@);
        let d = signed_decimal(a.expires_at as int);
        lemma_concat_associative(pt + j + pe, d, close);
        lemma_concat_associative(pt + j, pe, d + close);
        lemma_concat_associative(pt, j, pe + (d + close));
    }
    assert forall|m: Seq<char>| #[trigger] error_reply_text(m) == pr + (json_string(m) + close) by {
        lemma_concat_associative(pr, json_string(m), close);
    }
}

/// A token reply is never an error reply.
pub proof fn lemma_token_reply_not_error_reply(a: AuthResponse, m: Seq<char>)
    ensures
        auth_response_text(a) != error_reply_text(m),
{
    reveal_strlit("{\"token\":");
    reveal_strlit("{\"error\":");
    lemma_reply_shapes();
    assert(auth_response_text(a)[2] == 't');
    assert(error_reply_text(m)[2] == 'e');
}

/// A token reply determines its token and expiry.
pub proof fn lemma_token_reply_unambiguous(a1: AuthResponse, a2: AuthResponse)
    requires
        auth_response_text(a1) == auth_response_text(a2),
    ensures
        a1.token@ == a2.token@,
        a1.expires_at == a2.expires_at,
{
    reveal_strlit("}");
    lemma_reply_shapes();
    let pe = ",\"expires_at\":"@;
    let close = "}"@;
    let rest = |a: AuthResponse| pe + (signed_decimal(a.expires_at as int) + close);
    lemma_strip_prefix("{\"token\":"@, json_string(a1.token@) + rest(a1), json_string(a2.token@) + rest(a2));
    lemma_json_string_unique(a1.token@, a2.token@, rest(a1), rest(a2));
    lemma_strip_prefix(pe, signed_decimal(a1.expires_at as int) + close, signed_decimal(a2.expires_at as int) + close);
    lemma_signed_decimal_unique(a1.expires_at as int, a2.expires_at as int, close, close);
}

/// An error reply determines its message.
pub proof fn lemma_error_reply_unambiguous(m1: Seq<char>, m2: Seq<char>)
    requires
        error_reply_text(m1) == error_reply_text(m2),
    ensures
        m1 == m2,
{
    lemma_reply_shapes();
    let close = "}"@;
    lemma_strip_prefix("{\"error\":"@, json_string(m1) + close, json_string(m2) + close);
    lemma_json_string_unique(m1, m2, close, close);
}

/// A reply line determines the outcome: a token reply is never taken for an
/// error reply, and each determines what it carries.
pub proof fn lemma_reply_text_unambiguous(
    o1: Result<AuthResponse, ErrorView>,
    o2: Result<AuthResponse, ErrorView>,
)
    requires
        outcome_text(o1) == outcome_text(o2),
    ensures
        o1 is Ok <==> o2 is Ok,
        o1 is Ok ==> o1->Ok_0.token@ == o2->Ok_0.token@ && o1->Ok_0.expires_at
            == o2->Ok_0.expires_at,
        o1 is Err ==> error_text(o1->Err_0) == error_text(o2->Err_0),
{
    match (o1, o2) {
        (Ok(a1), Ok(a2)) => lemma_token_reply_unambiguous(a1, a2),
        (Err(e1), Err(e2)) => lemma_error_reply_unambiguous(error_text(e1), error_text(e2)),
        (Ok(a1), Err(e2)) => lemma_token_reply_not_error_reply(a1, error_text(e2)),
        (Err(e1), Ok(a2)) => lemma_token_reply_not_error_reply(a2, error_text(e1)),
    }
}

/// The round trip between client and daemon: when the daemon's reply line for
/// the outcome `o` is read back as the reply `d` (that is, `d`'s JSON is that
/// line), the client gets the handler's token and expiry, or a daemon error
/// carrying the text of the handler's error.
pub proof fn lemma_reply_round_trip(
    o: Result<AuthResponse, ErrorView>,
    d: DaemonResponse,
    line: Seq<char>,
)
    requires
        daemon_response_text(d) == outcome_text(o),
    ensures
        o is Ok <==> reply_result(line, Ok(d)) is Ok,
        o is Ok ==> reply_result(line, Ok(d))->Ok_0.token@ == o->Ok_0.token@
            && reply_result(line, Ok(d))->Ok_0.expires_at == o->Ok_0.expires_at,
        o is Err ==> reply_result(line, Ok(d)) == Err::<AuthResponse, ErrorView>(
            ErrorView::Daemon(error_text(o->Err_0)),
        ),
{
    match (d, o) {
        (DaemonResponse::Token(a), Ok(b)) => lemma_token_reply_unambiguous(a, b),
        (DaemonResponse::Failure(er), Err(e)) => lemma_error_reply_unambiguous(er.error@, error_text(e)),
        (DaemonResponse::Token(a), Err(e)) => lemma_token_reply_not_error_reply(a, error_text(e)),
        (DaemonResponse::Failure(er), Ok(b)) => lemma_token_reply_not_error_reply(b, er.error@),
    }
}

} // verus!
