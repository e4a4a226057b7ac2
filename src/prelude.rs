//! Wire types and the generic reply item that every handler result turns into.
use vstd::prelude::*;
use crate::json::{
    decimal, digits_value, is_digit, json_str_of, json_str_parse, json_string, json_string_parse,
    lemma_decimal, lemma_digits_bound, push_decimal,
};

verus! {

/// The operation a request selects.
#[derive(Debug, Clone, Copy, PartialEq, Eq, Structural)]
pub enum Command {
    ADD,
    DELETE,
    VERIFY,
}

/// One decoded request frame.
#[derive(Debug, Clone)]
pub struct Request {
    pub authorization: String,
    pub body: String,
    pub method: Command,
}

/// What a request holds, as values.
pub struct RequestView {
    pub authorization: Seq<char>,
    pub body: Seq<char>,
    pub method: Command,
}

impl View for Request {
    type V = RequestView;

    open spec fn view(&self) -> RequestView {
        RequestView { authorization: self.authorization@, body: self.body@, method: self.method }
    }
}

/// A status code and a body, written back once per request.
#[derive(Debug, Clone)]
pub struct Response {
    pub status: u16,
    pub body: Box<String>,
}

impl View for Response {
    type V = (u16, Seq<char>);

    open spec fn view(&self) -> (u16, Seq<char>) {
        (self.status, self.body@)
    }
}

/// The generic reply item: the one shape that all results converge on.
pub enum ReplyItem {
    Item(Response),
}

impl ReplyItem {
    pub open spec fn response(self) -> Response {
        match self {
            ReplyItem::Item(r) => r,
        }
    }
}

pub struct Reply(pub ReplyItem);

/// A value that turns itself into a reply item: a status code and a body.
pub trait Responder: Sized {
    /// The status code and body text this value replies with.
    spec fn reply_spec(&self) -> (u16, Seq<char>);

    fn transform(self) -> (r: Reply)
        ensures
            r.0.response()@ == self.reply_spec(),
    ;
}

impl Responder for Reply {
    open spec fn reply_spec(&self) -> (u16, Seq<char>) {
        self.0.response()@
    }

    fn transform(self) -> (r: Reply) {
        self
    }
}

impl Responder for Response {
    open spec fn reply_spec(&self) -> (u16, Seq<char>) {
        self@
    }

    fn transform(self) -> (r: Reply) {
        Reply(ReplyItem::Item(self))
    }
}

impl From<ReplyItem> for Response {
    fn from(reply_item: ReplyItem) -> (r: Response) {
        match reply_item {
            ReplyItem::Item(response_model) => response_model,
        }
    }
}

impl vstd::std_specs::convert::FromSpecImpl<ReplyItem> for Response {
    open spec fn obeys_from_spec() -> bool {
        true
    }

    open spec fn from_spec(v: ReplyItem) -> Response {
        v.response()
    }
}

impl From<Response> for Reply {
    fn from(data: Response) -> (r: Reply) {
        Reply(ReplyItem::Item(data))
    }
}

impl vstd::std_specs::convert::FromSpecImpl<Response> for Reply {
    open spec fn obeys_from_spec() -> bool {
        true
    }

    open spec fn from_spec(v: Response) -> Reply {
        Reply(ReplyItem::Item(v))
    }
}

pub open spec fn status_key() -> Seq<char> {
    "{\"status\":"@
}

pub open spec fn body_key() -> Seq<char> {
    ",\"body\":"@
}

pub open spec fn close_brace() -> Seq<char> {
    "}"@
}

/// The JSON text of a response whose body is already written as `body_json`.
pub open spec fn response_text(status: u16, body_json: Seq<char>) -> Seq<char> {
    status_key() + decimal(status as nat) + body_key() + body_json + close_brace()
}

impl Response {
    /// The JSON text of this response: `{"status":<code>,"body":<string>}`.
    pub fn to_json(&self) -> (r: String)
        ensures
            r@ == response_text(self.status, json_str_of(self.body@)),
    {
        let mut out = String::from_str("{\"status\":");
        crate::json::push_decimal(&mut out, self.status);
        out.append(",\"body\":");
        let body = json_string(self.body.as_str());
        out.append(body.as_str());
        out.append("}");
        out
    }
}

/// The status code and body text that a response's JSON text carries, if it
/// is one as `to_json` writes it.
pub open spec fn response_parts(t: Seq<char>) -> Option<(u16, Seq<char>)> {
    if exists|st: u16, j: Seq<char>| t == response_text(st, j) {
        Some(choose|st: u16, j: Seq<char>| t == response_text(st, j))
    } else {
        None
    }
}

/// Two responses with the same text have the same status and body text.
pub proof fn lemma_response_text_injective(a: u16, j: Seq<char>, b: u16, k: Seq<char>)
    requires
        response_text(a, j) == response_text(b, k),
    ensures
        a == b,
        j == k,
{
    reveal_strlit("{\"status\":");
    reveal_strlit(",\"body\":");
    reveal_strlit("}");
    let t = response_text(a, j);
    let da = decimal(a as nat);
    let db = decimal(b as nat);
    lemma_decimal(a as nat);
    lemma_decimal(b as nat);
    let la = da.len() as int;
    let lb = db.len() as int;
    assert(t[10 + la] == ',');
    assert(t[10 + lb] == ',');
    if la < lb {
        assert(t[10 + la] == db[la]);
        assert(is_digit(db[la]));
    } else if lb < la {
        assert(t[10 + lb] == da[lb]);
        assert(is_digit(da[lb]));
    }
    assert(da =~= t.subrange(10, 10 + la));
    assert(db =~= t.subrange(10, 10 + lb));
    assert(j =~= t.subrange(18 + la, t.len() - 1));
    assert(k =~= t.subrange(18 + lb, t.len() - 1));
}

/// Decoding the text that `to_json` writes gives back the status code and the
/// body's JSON text exactly.
pub proof fn lemma_response_round_trip(status: u16, body: Seq<char>)
    ensures
        response_parts(response_text(status, json_str_of(body))) == Some((status, json_str_of(body))),
{
    let t = response_text(status, json_str_of(body));
    assert(t == response_text(status, json_str_of(body)));
    let (a, j) = choose|st: u16, j: Seq<char>| t == response_text(st, j);
    lemma_response_text_injective(a, j, status, json_str_of(body));
}

pub open spec fn response_view(r: Option<Response>) -> Option<(u16, Seq<char>)> {
    match r {
        Some(x) => Some(x@),
        None => None,
    }
}

impl Response {
    /// Splits a response's JSON text into its status code and the JSON text of
    /// its body.
    pub fn split_json(t: &str) -> (r: Option<(u16, String)>)
        ensures
            r.is_some() == response_parts(t@).is_some(),
            r matches Some((st, j)) ==> response_parts(t@) == Some((st, j@)),
    {
        proof {
            reveal_strlit("{\"status\":");
            reveal_strlit(",\"body\":");
            reveal_strlit("}");
        }
        let ghost found = exists|st: u16, j: Seq<char>| t@ == response_text(st, j);
        let ghost (st0, j0) = if found {
            choose|st: u16, j: Seq<char>| t@ == response_text(st, j)
        } else {
            (0u16, Seq::<char>::empty())
        };
        let ghost d0 = decimal(st0 as nat);
        proof {
            lemma_decimal(st0 as nat);
        }
        let len = t.unicode_len();
        if len < 20 {
            return None;
        }
        let key = String::from_str("{\"status\":");
        if String::from_str(t.substring_char(0, 10)) != key {
            proof {
                if found {
                    assert(t@.subrange(0, 10) =~= status_key());
                }
            }
            return None;
        }
        let mut k: usize = 0;
        let mut v: u64 = 0;
        let mut more = true;
        while more && k < 5 && 10 + k < len
            invariant
                len == t@.len(),
                20 <= len,
                k <= 5,
                10 + k <= len,
                found ==> t@ == response_text(st0, j0) && k <= d0.len(),
                d0 == decimal(st0 as nat),
                forall|i: int| 0 <= i < k ==> is_digit(#[trigger] t@[10 + i]),
                v == digits_value(t@.subrange(10, 10 + k as int)),
                !more ==> 10 + k < len && !is_digit(t@[10 + k as int]),
            decreases 5 - k + (if more { 1int } else { 0int }),
        {
            let c = t.get_char(10 + k);
            if '0' <= c && c <= '9' {
                proof {
                    let s = t@.subrange(10, 10 + k as int);
                    assert forall|i: int| 0 <= i < s.len() implies is_digit(#[trigger] s[i]) by {
                        assert(s[i] == t@[10 + i]);
                    }
                    lemma_digits_bound(s);
                    let s1 = t@.subrange(10, 10 + k + 1);
                    assert(s1.drop_last() =~= s);
                    if found && k == d0.len() {
                        reveal_strlit("{\"status\":");
                        reveal_strlit(",\"body\":");
                        let pre = status_key() + d0;
                        assert(pre.len() == 10 + k);
                        assert(t@ == ((pre + body_key()) + j0) + close_brace());
                        assert((pre + body_key())[10 + k as int] == body_key()[0]);
                        assert(t@[10 + k as int] == ',');
                    }
                }
                v = v * 10 + (c as u64 - '0' as u64);
                k = k + 1;
            } else {
                more = false;
            }
        }
        proof {
            if found {
                if k < d0.len() {
                    assert(t@[10 + k as int] == d0[k as int]);
                }
                assert(k == d0.len());
                assert(t@.subrange(10, 10 + k as int) =~= d0);
            }
        }
        if k == 0 || v > 65535 {
            return None;
        }
        let status = v as u16;
        let mut head = key;
        push_decimal(&mut head, status);
        head.append(",\"body\":");
        let h = head.as_str().unicode_len();
        if h >= len {
            return None;
        }
        if String::from_str(t.substring_char(0, h)) != head {
            proof {
                if found {
                    assert(t@.subrange(0, h as int) =~= head@);
                }
            }
            return None;
        }
        if t.get_char(len - 1) != '}' {
            return None;
        }
        let j = String::from_str(t.substring_char(h, len - 1));
        proof {
            assert(t@ =~= response_text(status, j@));
            lemma_response_round_trip_parts(t@, status, j@);
        }
        Some((status, j))
    }

    /// Reads a response back from its JSON text.
    pub fn from_json(t: &str) -> (r: Option<Response>)
        ensures
            response_view(r) == match response_parts(t@) {
                Some((st, j)) => match json_str_parse(j) {
                    Some(b) => Some((st, b)),
                    None => None,
                },
                None => None,
            },
    {
        match Response::split_json(t) {
            Some((status, j)) => match json_string_parse(j.as_str()) {
                Some(body) => Some(Response { status, body: Box::new(body) }),
                None => None,
            },
            None => None,
        }
    }
}

/// A text that is a response's text has exactly those parts.
pub proof fn lemma_response_round_trip_parts(t: Seq<char>, status: u16, j: Seq<char>)
    requires
        t == response_text(status, j),
    ensures
        response_parts(t) == Some((status, j)),
{
    let (a, k) = choose|st: u16, k: Seq<char>| t == response_text(st, k);
    lemma_response_text_injective(a, k, status, j);
}

} // verus!
