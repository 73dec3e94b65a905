//! Wire-protocol types for both broker sockets.
//!
//! Both sockets speak newline-delimited JSON, share a limit on the size of a message, and
//! answer errors alike; what else goes over each of them stands in the submodules.

pub mod admin;
pub mod project;

use crate::json::{self, bool_json, Member, ObjectWriter};
use crate::text::{self, copy_text};
use vstd::prelude::*;

verus! {

/// The major version of the protocol, as `ping` and `status` tell it.
pub const PROTOCOL_VERSION: u32 = 1;

/// The largest message, request or response, in bytes.
pub const MAX_MESSAGE_BYTES: usize = 65_536;

/// A code that goes over the wire by a name of its own.
pub trait WireCode: Sized {
    /// The code's name.
    spec fn wire(&self) -> Seq<char>;

    fn wire_text(&self) -> (r: &'static str)
        ensures
            r@ == self.wire(),
    ;
}

/// The answer to a request that failed.
#[derive(Debug, Clone, PartialEq, Eq)]
pub struct ErrorResponse<Code> {
    /// Always `false`.
    pub ok: bool,
    pub code: Code,
    pub message: String,
    pub retry_after_seconds: Option<u32>,
}

/// A number that may be absent, as JSON text.
pub open spec fn optional_number(n: Option<u32>) -> Option<Seq<char>> {
    match n {
        Some(v) => Some(text::decimal(v as nat)),
        None => None,
    }
}

/// A text that may be absent, as JSON text.
pub open spec fn optional_string(s: Option<String>) -> Option<Seq<char>> {
    match s {
        Some(v) => Some(json::quoted(v@)),
        None => None,
    }
}

impl<Code> ErrorResponse<Code> {
    pub fn new(code: Code, message: &str) -> (r: Self)
        ensures
            r.ok == false,
            r.code == code,
            r.message@ == message@,
            r.retry_after_seconds is None,
    {
        ErrorResponse { ok: false, code, message: copy_text(message), retry_after_seconds: None }
    }

    /// The same answer, with the time after which to try again.
    pub fn with_retry_after(self, seconds: u32) -> (r: Self)
        ensures
            r.ok == self.ok,
            r.code == self.code,
            r.message == self.message,
            r.retry_after_seconds == Some(seconds),
    {
        ErrorResponse {
            ok: self.ok,
            code: self.code,
            message: self.message,
            retry_after_seconds: Some(seconds),
        }
    }
}

impl<Code: WireCode> ErrorResponse<Code> {
    /// The answer as it goes over the wire, without the line break behind it.
    pub open spec fn json(&self) -> Seq<char> {
        json::object_text(
            json::with_optional(
                seq![
                    ("ok"@, json::bool_text(self.ok)),
                    ("code"@, json::quoted(self.code.wire())),
                    ("message"@, json::quoted(self.message@)),
                ],
                "retry_after_seconds"@,
                optional_number(self.retry_after_seconds),
            ),
        )
    }

    pub fn to_json(&self) -> (r: String)
        ensures
            r@ == self.json(),
    {
        let mut w = ObjectWriter::new();
        w.member("ok", bool_json(self.ok));
        w.text_member("code", self.code.wire_text());
        w.text_member("message", self.message.as_str());
        assert(w.members() =~= seq![
            ("ok"@, json::bool_text(self.ok)),
            ("code"@, json::quoted(self.code.wire())),
            ("message"@, json::quoted(self.message@)),
        ]);
        if let Some(seconds) = self.retry_after_seconds {
            w.number_member("retry_after_seconds", seconds as u64);
        }
        w.finish()
    }
}

/// An answer to a failed request is one line, whatever its message holds.
pub proof fn error_responses_are_one_line<Code: WireCode>(response: ErrorResponse<Code>)
    ensures
        json::one_line(response.json()),
{
    let first: Seq<Member> = seq![
        ("ok"@, json::bool_text(response.ok)),
        ("code"@, json::quoted(response.code.wire())),
        ("message"@, json::quoted(response.message@)),
    ];
    let members = json::with_optional(
        first,
        "retry_after_seconds"@,
        optional_number(response.retry_after_seconds),
    );
    assert forall|i: int| 0 <= i < members.len() implies json::one_line((#[trigger] members[i]).1) by {
        if i == 0 {
            json::bool_is_one_line(response.ok);
        } else if i == 1 {
            json::quoted_text_is_one_line(response.code.wire());
        } else if i == 2 {
            json::quoted_text_is_one_line(response.message@);
        } else {
            json::decimal_is_one_line(response.retry_after_seconds->0 as nat);
        }
    }
    json::object_is_one_line(members);
}

/// An error goes out with its code, its message to the letter and, where there is one, the time
/// after which to try again.
pub proof fn errors_go_out_whole<Code: WireCode>(response: ErrorResponse<Code>)
    ensures
        response.retry_after_seconds is None ==> response.json() == json::object_text(
            seq![
                (
                    "ok"@,
                    if response.ok {
                        "true"@
                    } else {
                        "false"@
                    },
                ),
                ("code"@, json::quoted(response.code.wire())),
                ("message"@, json::quoted(response.message@)),
            ],
        ),
        response.retry_after_seconds is Some ==> response.json() == json::object_text(
            seq![
                (
                    "ok"@,
                    if response.ok {
                        "true"@
                    } else {
                        "false"@
                    },
                ),
                ("code"@, json::quoted(response.code.wire())),
                ("message"@, json::quoted(response.message@)),
                (
                    "retry_after_seconds"@,
                    text::decimal(response.retry_after_seconds->0 as nat),
                ),
            ],
        ),
{
    let head: Seq<Member> = seq![
        ("ok"@, json::bool_text(response.ok)),
        ("code"@, json::quoted(response.code.wire())),
        ("message"@, json::quoted(response.message@)),
    ];
    assert(json::bool_text(response.ok) == if response.ok {
        "true"@
    } else {
        "false"@
    });
    if response.retry_after_seconds is Some {
        let seconds = text::decimal(response.retry_after_seconds->0 as nat);
        assert(head.push(("retry_after_seconds"@, seconds)) =~= seq![
            ("ok"@, json::bool_text(response.ok)),
            ("code"@, json::quoted(response.code.wire())),
            ("message"@, json::quoted(response.message@)),
            ("retry_after_seconds"@, seconds),
        ]);
    }
}

/// What is there is written, a number in decimal and a text quoted, and what is not is left out.
pub proof fn optional_values_are_written_where_they_are(n: u32, s: String)
    ensures
        optional_number(Some(n)) == Some(text::decimal(n as nat)),
        optional_number(None) is None,
        optional_string(Some(s)) == Some(json::quoted(s@)),
        optional_string(None) is None,
{
}

} // verus!
