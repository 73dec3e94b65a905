//! Messages as this project reads them: one JSON object, taken apart into its fields.

use crate::json;
use crate::text::{self, copy_text, same_text};
use vstd::prelude::*;
use vstd::slice::slice_subrange;
use vstd::string::*;

verus! {

/// What `serde_json` says against a document: the message of a syntax error, or nothing.
pub uninterp spec fn json_error(bytes: Seq<u8>) -> Option<Seq<char>>;

/// A value that is written as one word: a string or a whole number.
pub enum Atom {
    Text(Seq<char>),
    Number(int),
}

impl Atom {
    /// The value as JSON text.
    pub open spec fn json(self) -> Seq<char> {
        match self {
            Atom::Text(s) => json::quoted(s),
            Atom::Number(n) => json::signed_text(n),
        }
    }

    /// The value as it goes over a socket.
    pub open spec fn encoded(self) -> Seq<u8> {
        vstd::utf8::encode_utf8(self.json())
    }

    /// Whether the value is a string, or a number that fits 64 bits, signed or not.
    pub open spec fn fits(self) -> bool {
        match self {
            Atom::Text(_) => true,
            Atom::Number(n) => i64::MIN <= n <= u64::MAX,
        }
    }
}

/// A text that may be absent, as a value.
pub open spec fn text_atom(s: Option<Seq<char>>) -> Option<Atom> {
    match s {
        Some(s) => Some(Atom::Text(s)),
        None => None,
    }
}

/// A number that may be absent, as a value.
pub open spec fn number_atom(n: Option<int>) -> Option<Atom> {
    match n {
        Some(n) => Some(Atom::Number(n)),
        None => None,
    }
}

/// The keys and values of an object that is flat: all its values are written as one word.
pub type Pairs = Seq<(Seq<char>, Atom)>;

/// The members of a flat object.
pub open spec fn flat_members(pairs: Pairs) -> Seq<json::Member> {
    Seq::new(pairs.len(), |i: int| (pairs[i].0, pairs[i].1.json()))
}

/// Whether every value of a flat object fits.
pub open spec fn pairs_fit(pairs: Pairs) -> bool {
    forall|i: int| 0 <= i < pairs.len() ==> (#[trigger] pairs[i]).1.fits()
}

/// A flat object as a line of its own.
pub open spec fn flat_line(pairs: Pairs) -> Seq<char> {
    json::object_text(flat_members(pairs)) + seq!['\n']
}

/// A flat object as it goes over a socket, or into a file: a line of its own.
pub open spec fn encoded_object(pairs: Pairs) -> Seq<u8> {
    vstd::utf8::encode_utf8(flat_line(pairs))
}

/// A flat object without a line break behind it.
pub open spec fn bare_object(pairs: Pairs) -> Seq<u8> {
    vstd::utf8::encode_utf8(json::object_text(flat_members(pairs)))
}

/// Whether bytes are a flat object as it is written, with a line break behind it or without.
pub open spec fn is_written(bytes: Seq<u8>, pairs: Pairs) -> bool {
    bytes == encoded_object(pairs) || bytes == bare_object(pairs)
}

/// Calls `serde_json::from_slice` for a document of any shape. Trusted: whether it is well
/// formed, and the message where it is not, depend on the bytes alone; an object that is
/// written without spaces, but for a line break behind it, and holds only strings and whole
/// numbers of 64 bits is well formed.
#[verifier::external_body]
fn check_document(bytes: &[u8]) -> (r: Option<String>)
    ensures
        text::optional_text(r) == json_error(bytes@),
        forall|pairs: Pairs|
            pairs_fit(pairs) && #[trigger] is_written(bytes@, pairs) ==> r is None,
{
    match serde_json::from_slice::<serde_json::Value>(bytes) {
        Ok(_) => None,
        Err(e) => Some(e.to_string()),
    }
}

/// The text that `serde_json` reads from a JSON string, if the bytes are one.
pub uninterp spec fn json_string(bytes: Seq<u8>) -> Option<Seq<char>>;

/// A text as a JSON string, as it goes over a socket.
pub open spec fn encoded_string(s: Seq<char>) -> Seq<u8> {
    vstd::utf8::encode_utf8(json::quoted(s))
}

/// Calls `serde_json::from_slice` for a string. Trusted: whether the bytes are a JSON
/// string, and the text that it stands for, depend on the bytes alone; a text that is
/// quoted and escaped is read back, and a number in decimal is no string.
#[verifier::external_body]
pub(crate) fn read_string(bytes: &[u8]) -> (r: Option<String>)
    ensures
        text::optional_text(r) == json_string(bytes@),
        forall|s: Seq<char>| bytes@ == #[trigger] encoded_string(s) ==> text::optional_text(r)
            == Some(s),
        forall|n: int| bytes@ == vstd::utf8::encode_utf8(#[trigger] json::signed_text(n)) ==> r
            is None,
{
    match serde_json::from_slice::<String>(bytes) {
        Ok(s) => Some(s),
        Err(_) => None,
    }
}

/// Where a walk through a JSON text stands: how many objects and arrays are open, whether it
/// is within a string, and whether a backslash precedes it there.
pub struct Place {
    pub depth: int,
    pub quoted: bool,
    pub escaped: bool,
}

impl Place {
    /// The start of a text.
    pub open spec fn start() -> Place {
        Place { depth: 0, quoted: false, escaped: false }
    }

    /// The place behind the next byte.
    pub open spec fn behind(self, b: u8) -> Place {
        if self.quoted {
            Place {
                quoted: self.escaped || b != 34,
                escaped: !self.escaped && b == 92,
                ..self
            }
        } else if b == 34 {
            Place { quoted: true, ..self }
        } else if b == 123 || b == 91 {
            Place { depth: self.depth + 1, ..self }
        } else if b == 125 || b == 93 {
            Place { depth: self.depth - 1, ..self }
        } else {
            self
        }
    }

    /// Whether the next byte sets apart the members of the outermost object: its braces, and
    /// the colons and commas right within them.
    pub open spec fn divides(self, b: u8) -> bool {
        &&& !self.quoted
        &&& (self.depth == 0 && b == 123) || (self.depth == 1 && (b == 58 || b == 44 || b == 125))
    }
}

/// A text cut at what divides it, from a place on; `begun` is the part that the place is in,
/// as far as it goes.
pub open spec fn parts(begun: Seq<u8>, rest: Seq<u8>, place: Place) -> Seq<Seq<u8>>
    decreases rest.len(),
{
    if rest.len() == 0 {
        seq![begun]
    } else if place.divides(rest[0]) {
        seq![begun] + parts(Seq::empty(), rest.skip(1), place.behind(rest[0]))
    } else {
        parts(begun.push(rest[0]), rest.skip(1), place.behind(rest[0]))
    }
}

/// An object's text, cut at what divides its members: what precedes it, then the keys and
/// values in turn, then what follows it.
pub open spec fn object_parts(bytes: Seq<u8>) -> Seq<Seq<u8>> {
    parts(Seq::empty(), bytes, Place::start())
}

/// The first byte from index `i` on that is no whitespace: what kind of value it starts.
pub open spec fn mark(bytes: Seq<u8>, i: int) -> Option<u8>
    decreases bytes.len() - i,
{
    if i < 0 || i >= bytes.len() {
        None
    } else if bytes[i] == 32 || bytes[i] == 9 || bytes[i] == 10 || bytes[i] == 13 {
        mark(bytes, i + 1)
    } else {
        Some(bytes[i])
    }
}

/// Whether a well-formed value is an object.
pub open spec fn opens_object(bytes: Seq<u8>) -> bool {
    mark(bytes, 0) == Some(123u8)
}

/// Whether a well-formed value is `null`.
pub open spec fn is_null(bytes: Seq<u8>) -> bool {
    mark(bytes, 0) == Some(110u8)
}

/// The members of a message, in their order: each key with its value as it is written.
pub type Members = Seq<(Seq<char>, Seq<u8>)>;

/// The members of a message, in their order: each key with its text, or with none where its
/// value is no string.
pub type Fields = Seq<(Seq<char>, Option<Seq<char>>)>;

/// How many members an object has that was cut into `count` parts.
pub open spec fn member_count(count: nat) -> nat {
    if count < 2 {
        0
    } else {
        ((count - 2) / 2) as nat
    }
}

/// The members of a flat object, each with its value as it goes over a socket.
pub open spec fn flat_encoded(pairs: Pairs) -> Members {
    Seq::new(pairs.len(), |i: int| (pairs[i].0, pairs[i].1.encoded()))
}

/// The fields of a flat object.
pub open spec fn flat_fields(pairs: Pairs) -> Fields {
    Seq::new(
        pairs.len(),
        |i: int|
            (
                pairs[i].0,
                match pairs[i].1 {
                    Atom::Text(s) => Some(s),
                    Atom::Number(_) => None,
                },
            ),
    )
}

/// The fields that a list of keys and texts stands for.
pub open spec fn field_views(fields: Seq<(String, Option<String>)>) -> Fields {
    Seq::new(fields.len(), |i: int| (fields[i].0@, text::optional_text(fields[i].1)))
}

/// The members that a list of keys and values stands for.
pub open spec fn member_views(members: Seq<(String, &[u8])>) -> Members {
    Seq::new(members.len(), |i: int| (members[i].0@, members[i].1@))
}

/// What a message gives a key.
pub open spec fn field<T>(fields: Seq<(Seq<char>, T)>, key: Seq<char>) -> Option<T>
    decreases fields.len(),
{
    if fields.len() == 0 {
        None
    } else if fields[0].0 == key {
        Some(fields[0].1)
    } else {
        field(fields.skip(1), key)
    }
}

/// Why a message is none.
#[derive(Debug)]
pub enum MessageFault {
    /// The bytes are no JSON document; the message says where.
    Syntax(String),
    /// The document is no object.
    NotAnObject,
    /// A member that the message must have and does not.
    MissingField(String),
    /// A member that is no string.
    NotText(String),
    /// A member that the message has more than once.
    RepeatedField(String),
    /// An operation that there is not, and those that there are.
    UnknownOp(String, String),
    /// A member that cannot be what it is.
    WrongValue(String),
}

/// The model of a `MessageFault`.
pub enum MessageFaultView {
    Syntax(Seq<char>),
    NotAnObject,
    MissingField(Seq<char>),
    NotText(Seq<char>),
    RepeatedField(Seq<char>),
    UnknownOp(Seq<char>, Seq<char>),
    WrongValue(Seq<char>),
}

impl View for MessageFault {
    type V = MessageFaultView;

    open spec fn view(&self) -> MessageFaultView {
        match *self {
            MessageFault::Syntax(message) => MessageFaultView::Syntax(message@),
            MessageFault::NotAnObject => MessageFaultView::NotAnObject,
            MessageFault::MissingField(key) => MessageFaultView::MissingField(key@),
            MessageFault::NotText(key) => MessageFaultView::NotText(key@),
            MessageFault::RepeatedField(key) => MessageFaultView::RepeatedField(key@),
            MessageFault::UnknownOp(op, known) => MessageFaultView::UnknownOp(op@, known@),
            MessageFault::WrongValue(key) => MessageFaultView::WrongValue(key@),
        }
    }
}

/// What a fault is called where nobody else has words for it.
pub open spec fn fault_text(fault: MessageFaultView) -> Seq<char> {
    match fault {
        MessageFaultView::Syntax(message) => message,
        MessageFaultView::NotAnObject => "expected a JSON object"@,
        MessageFaultView::MissingField(key) => "missing field `"@ + key + "`"@,
        MessageFaultView::NotText(key) => "field `"@ + key + "` must be a string"@,
        MessageFaultView::RepeatedField(key) => "duplicate field `"@ + key + "`"@,
        MessageFaultView::UnknownOp(op, known) => "unknown variant `"@ + op
            + "`, expected one of "@ + known,
        MessageFaultView::WrongValue(key) => "invalid value for field `"@ + key + "`"@,
    }
}

/// The members of an object that was cut into `parts`.
pub open spec fn members_in(parts: Seq<Seq<u8>>) -> Result<Members, MessageFaultView> {
    if forall|k: int|
        0 <= k < member_count(parts.len()) ==> json_string(#[trigger] parts[2 * k + 1]) is Some {
        Ok(
            Seq::new(
                member_count(parts.len()),
                |k: int| (json_string(parts[2 * k + 1])->0, parts[2 * k + 2]),
            ),
        )
    } else {
        Err(MessageFaultView::NotAnObject)
    }
}

/// The members of a message.
pub open spec fn message_members(bytes: Seq<u8>) -> Result<Members, MessageFaultView> {
    match json_error(bytes) {
        Some(message) => Err(MessageFaultView::Syntax(message)),
        None => if opens_object(bytes) {
            members_in(object_parts(bytes))
        } else {
            Err(MessageFaultView::NotAnObject)
        },
    }
}

/// The fields of a message.
pub open spec fn message_fields(bytes: Seq<u8>) -> Result<Fields, MessageFaultView> {
    match message_members(bytes) {
        Ok(members) => Ok(
            Seq::new(members.len(), |i: int| (members[i].0, json_string(members[i].1))),
        ),
        Err(fault) => Err(fault),
    }
}

/// Whether a message gives a key more than once.
pub open spec fn repeats<T>(fields: Seq<(Seq<char>, T)>, key: Seq<char>) -> bool {
    exists|i: int, j: int|
        0 <= i < j < fields.len() && (#[trigger] fields[i]).0 == key && (#[trigger] fields[j]).0
            == key
}

/// The text under a key that a message must have, once.
pub open spec fn text_field(fields: Fields, key: Seq<char>) -> Result<
    Seq<char>,
    MessageFaultView,
> {
    if repeats(fields, key) {
        Err(MessageFaultView::RepeatedField(key))
    } else {
        match field(fields, key) {
            None => Err(MessageFaultView::MissingField(key)),
            Some(Some(s)) => Ok(s),
            Some(None) => Err(MessageFaultView::NotText(key)),
        }
    }
}

/// Why a message is refused, in words: those of `diagnosis`, which is what the decoder of
/// whoever read the message has to say against it, or the fault's own where that finds
/// nothing wrong.
pub open spec fn reason(fault: MessageFaultView, diagnosis: Option<Seq<char>>) -> Seq<char> {
    match diagnosis {
        Some(words) => words,
        None => fault_text(fault),
    }
}

/// What a message comes to: what it asks for, or why it asks for nothing.
pub open spec fn understood<R>(
    request: Result<R, MessageFaultView>,
    diagnosis: Option<Seq<char>>,
) -> Result<R, Seq<char>> {
    match request {
        Ok(request) => Ok(request),
        Err(fault) => Err(reason(fault, diagnosis)),
    }
}

impl MessageFault {
    /// Puts the fault into words: those of `diagnosis`, or its own where there is none.
    pub fn reason(&self, diagnosis: Option<String>) -> (r: String)
        ensures
            r@ == reason(self@, text::optional_text(diagnosis)),
    {
        match diagnosis {
            Some(words) => words,
            None => self.text(),
        }
    }

    /// What the fault is called where nobody else has words for it.
    pub fn text(&self) -> (r: String)
        ensures
            r@ == fault_text(self@),
    {
        match self {
            MessageFault::Syntax(message) => copy_text(message.as_str()),
            MessageFault::NotAnObject => copy_text("expected a JSON object"),
            MessageFault::MissingField(key) => {
                let mut r = copy_text("missing field `");
                r.append(key.as_str());
                r.append("`");
                r
            },
            MessageFault::NotText(key) => {
                let mut r = copy_text("field `");
                r.append(key.as_str());
                r.append("` must be a string");
                r
            },
            MessageFault::RepeatedField(key) => {
                let mut r = copy_text("duplicate field `");
                r.append(key.as_str());
                r.append("`");
                r
            },
            MessageFault::UnknownOp(op, known) => {
                let mut r = copy_text("unknown variant `");
                r.append(op.as_str());
                r.append("`, expected one of ");
                r.append(known.as_str());
                r
            },
            MessageFault::WrongValue(key) => {
                let mut r = copy_text("invalid value for field `");
                r.append(key.as_str());
                r.append("`");
                r
            },
        }
    }
}

/// Cuts an object's text at what divides its members: what precedes it, then its keys and
/// values in turn, then what follows it.
pub fn split_object(bytes: &[u8]) -> (r: Vec<&[u8]>)
    ensures
        r@.len() == object_parts(bytes@).len(),
        forall|k: int| 0 <= k < r@.len() ==> (#[trigger] r@[k])@ == object_parts(bytes@)[k],
{
    let mut pieces: Vec<&[u8]> = Vec::new();
    let mut from: usize = 0;
    let mut depth: i128 = 0;
    let mut quoted: bool = false;
    let mut escaped: bool = false;
    let mut i: usize = 0;
    let ghost whole = object_parts(bytes@);
    assert(bytes@.subrange(0, 0) =~= Seq::empty());
    assert(bytes@.skip(0) =~= bytes@);
    assert(whole.skip(0) =~= whole);
    while i < bytes.len()
        invariant
            from <= i <= bytes@.len(),
            -(i as int) <= depth <= i,
            pieces@.len() <= whole.len(),
            whole.skip(pieces@.len() as int) == parts(
                bytes@.subrange(from as int, i as int),
                bytes@.skip(i as int),
                (Place { depth: depth as int, quoted, escaped }),
            ),
            forall|k: int| 0 <= k < pieces@.len() ==> (#[trigger] pieces@[k])@ == whole[k],
        decreases bytes@.len() - i,
    {
        let ghost place = Place { depth: depth as int, quoted, escaped };
        let ghost begun = bytes@.subrange(from as int, i as int);
        let ghost rest = bytes@.skip(i as int);
        let ghost count = pieces@.len() as int;
        let b: u8 = bytes[i];
        assert(rest[0] == b);
        assert(rest.skip(1) =~= bytes@.skip(i + 1));
        if !quoted && ((depth == 0 && b == 123) || (depth == 1 && (b == 58 || b == 44 || b
            == 125))) {
            assert(whole.skip(count)[0] == begun);
            assert(whole.skip(count).skip(1) =~= whole.skip(count + 1));
            assert(parts(begun, rest, place).skip(1) =~= parts(
                Seq::empty(),
                rest.skip(1),
                place.behind(b),
            ));
            assert(bytes@.subrange(i + 1, i + 1) =~= Seq::empty());
            pieces.push(slice_subrange(bytes, from, i));
            from = i + 1;
        } else {
            assert(begun.push(b) =~= bytes@.subrange(from as int, i + 1));
        }
        if quoted {
            let closing = b == 34 && !escaped;
            escaped = b == 92 && !escaped;
            quoted = !closing;
        } else if b == 34 {
            quoted = true;
        } else if b == 123 || b == 91 {
            depth = depth + 1;
        } else if b == 125 || b == 93 {
            depth = depth - 1;
        }
        i = i + 1;
    }
    assert(whole.skip(pieces@.len() as int).len() == 1);
    assert(whole[pieces@.len() as int] == whole.skip(pieces@.len() as int)[0]);
    pieces.push(slice_subrange(bytes, from, i));
    pieces
}

/// The first byte that is no whitespace.
pub(crate) fn find_mark(bytes: &[u8]) -> (r: Option<u8>)
    ensures
        r == mark(bytes@, 0),
{
    let mut i: usize = 0;
    while i < bytes.len()
        invariant
            i <= bytes@.len(),
            mark(bytes@, 0) == mark(bytes@, i as int),
        decreases bytes@.len() - i,
    {
        let b: u8 = bytes[i];
        if !(b == 32 || b == 9 || b == 10 || b == 13) {
            return Some(b);
        }
        i = i + 1;
    }
    None
}

/// Reads a message down to its members. What is written as a flat object is read back.
pub fn read_members(bytes: &[u8]) -> (r: Result<Vec<(String, &[u8])>, MessageFault>)
    ensures
        message_members(bytes@) == match r {
            Ok(members) => Ok(member_views(members@)),
            Err(fault) => Err(fault@),
        },
        forall|pairs: Pairs|
            pairs_fit(pairs) && #[trigger] is_written(bytes@, pairs) ==> message_members(bytes@)
                == Ok::<Members, MessageFaultView>(flat_encoded(pairs)),
{
    if let Some(message) = check_document(bytes) {
        return Err(MessageFault::Syntax(message));
    }
    proof {
        assert forall|pairs: Pairs| #[trigger] is_written(bytes@, pairs) implies opens_object(
            bytes@,
        ) && object_parts(bytes@) == written_parts(pairs, ending(bytes@, pairs)) by {
            lemma_object_parts(pairs, ending(bytes@, pairs));
        }
    }
    if find_mark(bytes) != Some(123u8) {
        return Err(MessageFault::NotAnObject);
    }
    let pieces = split_object(bytes);
    let ghost model = object_parts(bytes@);
    let total: usize = pieces.len();
    let count: usize = if total < 2 {
        0
    } else {
        (total - 2) / 2
    };
    let mut members: Vec<(String, &[u8])> = Vec::new();
    let mut k: usize = 0;
    while k < count
        invariant
            k <= count,
            count == member_count(model.len()),
            model == object_parts(bytes@),
            total == pieces@.len(),
            total == model.len(),
            forall|j: int| 0 <= j < total ==> (#[trigger] pieces@[j])@ == model[j],
            members@.len() == k,
            json_error(bytes@) is None,
            opens_object(bytes@),
            forall|j: int|
                0 <= j < k ==> json_string(#[trigger] model[2 * j + 1]) == Some(members@[j].0@)
                    && model[2 * j + 2] == members@[j].1@,
            forall|j: int, s: Seq<char>|
                0 <= j < k && #[trigger] model[2 * j + 1] == #[trigger] encoded_string(s)
                    ==> members@[j].0@ == s,
            forall|pairs: Pairs| #[trigger] is_written(bytes@, pairs) ==> model == written_parts(
                pairs,
                ending(bytes@, pairs),
            ),
        decreases count - k,
    {
        assert(pieces@[2 * k + 1]@ == model[2 * k + 1]);
        assert(pieces@[2 * k + 2]@ == model[2 * k + 2]);
        let ghost before = members@;
        match read_string(pieces[2 * k + 1]) {
            None => {
                assert(json_string(model[2 * (k as int) + 1]) is None);
                proof {
                    assert forall|pairs: Pairs| #[trigger] is_written(
                        bytes@,
                        pairs,
                    ) implies false by {
                        lemma_written_part(pairs, ending(bytes@, pairs), k as int);
                        assert(model[2 * k + 1] == encoded_string(pairs[k as int].0));
                    }
                }
                return Err(MessageFault::NotAnObject);
            },
            Some(key) => {
                members.push((key, pieces[2 * k + 2]));
            },
        }
        assert(forall|j: int| 0 <= j < k ==> members@[j] == before[j]);
        k = k + 1;
    }
    proof {
        assert(member_views(members@) =~= members_in(model)->Ok_0);
        assert forall|pairs: Pairs| #[trigger] is_written(bytes@, pairs) implies member_views(
            members@,
        ) == flat_encoded(pairs) by {
            lemma_written_part(pairs, ending(bytes@, pairs), 0);
            assert forall|j: int| 0 <= j < count implies member_views(members@)[j] == flat_encoded(
                pairs,
            )[j] by {
                lemma_written_part(pairs, ending(bytes@, pairs), j);
                assert(model[2 * j + 1] == encoded_string(pairs[j].0));
                assert(model[2 * j + 2] == pairs[j].1.encoded());
            }
            assert(member_views(members@) =~= flat_encoded(pairs));
        }
    }
    Ok(members)
}

/// Reads a message down to its fields. What is written as a flat object is read back.
pub fn read_message(bytes: &[u8]) -> (r: Result<Vec<(String, Option<String>)>, MessageFault>)
    ensures
        message_fields(bytes@) == match r {
            Ok(fields) => Ok(field_views(fields@)),
            Err(fault) => Err(fault@),
        },
        forall|pairs: Pairs|
            pairs_fit(pairs) && #[trigger] is_written(bytes@, pairs) ==> message_fields(bytes@)
                == Ok::<Fields, MessageFaultView>(flat_fields(pairs)),
{
    let members = match read_members(bytes) {
        Ok(members) => members,
        Err(fault) => return Err(fault),
    };
    let ghost model = member_views(members@);
    let mut fields: Vec<(String, Option<String>)> = Vec::new();
    let mut k: usize = 0;
    while k < members.len()
        invariant
            k <= members@.len(),
            model == member_views(members@),
            fields@.len() == k,
            forall|j: int|
                0 <= j < k ==> (#[trigger] fields@[j]).0@ == model[j].0 && text::optional_text(
                    fields@[j].1,
                ) == json_string(model[j].1),
            forall|j: int, s: Seq<char>|
                0 <= j < k && (#[trigger] model[j]).1 == #[trigger] encoded_string(s)
                    ==> json_string(model[j].1) == Some(s),
            forall|j: int, n: int|
                0 <= j < k && (#[trigger] model[j]).1 == vstd::utf8::encode_utf8(
                    #[trigger] json::signed_text(n),
                ) ==> json_string(model[j].1) is None,
        decreases members@.len() - k,
    {
        let value = read_string(members[k].1);
        fields.push((copy_text(members[k].0.as_str()), value));
        k = k + 1;
    }
    proof {
        assert(field_views(fields@) =~= message_fields(bytes@)->Ok_0);
        assert forall|pairs: Pairs| model == #[trigger] flat_encoded(
            pairs,
        ) implies field_views(fields@) == flat_fields(pairs) by {
            assert forall|j: int| 0 <= j < model.len() implies field_views(fields@)[j]
                == flat_fields(pairs)[j] by {
                assert(model[j].1 == pairs[j].1.encoded());
                match pairs[j].1 {
                    Atom::Text(s) => {
                        assert(model[j].1 == encoded_string(s));
                    },
                    Atom::Number(n) => {
                        assert(model[j].1 == vstd::utf8::encode_utf8(json::signed_text(n)));
                    },
                }
                assert(fields@[j].0@ == model[j].0);
            }
            assert(field_views(fields@) =~= flat_fields(pairs));
        }
        assert forall|pairs: Pairs|
            pairs_fit(pairs) && #[trigger] is_written(bytes@, pairs) implies message_fields(
            bytes@,
        ) == Ok::<Fields, MessageFaultView>(flat_fields(pairs)) by {
            assert(model == flat_encoded(pairs));
        }
    }
    Ok(fields)
}

/// A message gives a key what it gives it first, and nothing where it does not have it.
pub proof fn lemma_field_found<T>(fields: Seq<(Seq<char>, T)>, key: Seq<char>, k: int)
    requires
        0 <= k <= fields.len(),
        forall|j: int| 0 <= j < k ==> (#[trigger] fields[j]).0 != key,
        k < fields.len() ==> fields[k].0 == key,
    ensures
        field(fields, key) == if k < fields.len() {
            Some(fields[k].1)
        } else {
            None
        },
    decreases fields.len(),
{
    if 0 < k {
        let rest = fields.skip(1);
        assert forall|j: int| 0 <= j < k - 1 implies (#[trigger] rest[j]).0 != key by {
            assert(rest[j] == fields[j + 1]);
        }
        assert(fields[0].0 != key);
        lemma_field_found(rest, key, k - 1);
    }
}

/// Reads the text under a key that a message must have, once.
pub fn read_field(fields: &Vec<(String, Option<String>)>, key: &str) -> (r: Result<
    String,
    MessageFault,
>)
    ensures
        text_field(field_views(fields@), key@) == match r {
            Ok(s) => Ok(s@),
            Err(fault) => Err(fault@),
        },
{
    let ghost model = field_views(fields@);
    let mut found: Option<usize> = None;
    let mut i: usize = 0;
    while i < fields.len()
        invariant
            i <= fields@.len(),
            model == field_views(fields@),
            match found {
                None => forall|j: int| 0 <= j < i ==> (#[trigger] model[j]).0 != key@,
                Some(k) => k < i && model[k as int].0 == key@ && forall|j: int|
                    0 <= j < i && j != k ==> (#[trigger] model[j]).0 != key@,
            },
        decreases fields@.len() - i,
    {
        assert(model[i as int].0 == fields@[i as int].0@);
        if same_text(fields[i].0.as_str(), key) {
            if let Some(k) = found {
                assert(model[k as int].0 == key@ && model[i as int].0 == key@);
                return Err(MessageFault::RepeatedField(copy_text(key)));
            }
            found = Some(i);
        }
        i = i + 1;
    }
    match found {
        None => {
            proof {
                lemma_field_found(model, key@, model.len() as int);
            }
            Err(MessageFault::MissingField(copy_text(key)))
        },
        Some(k) => {
            proof {
                lemma_field_found(model, key@, k as int);
            }
            match &fields[k].1 {
                Some(s) => Ok(copy_text(s.as_str())),
                None => Err(MessageFault::NotText(copy_text(key))),
            }
        },
    }
}

/// A field that a message has once is found.
pub proof fn fields_are_found(fields: Fields, k: int)
    requires
        0 <= k < fields.len(),
        forall|j: int| 0 <= j < fields.len() && j != k ==> (#[trigger] fields[j]).0 != fields[k].0,
    ensures
        text_field(fields, fields[k].0) == match fields[k].1 {
            Some(s) => Ok::<Seq<char>, MessageFaultView>(s),
            None => Err(MessageFaultView::NotText(fields[k].0)),
        },
{
    lemma_field_found(fields, fields[k].0, k);
}

/// A field under a key that nobody asks for changes nothing, wherever it stands.
pub proof fn unknown_fields_are_passed_over(
    fields: Fields,
    at: int,
    extra: (Seq<char>, Option<Seq<char>>),
    key: Seq<char>,
)
    requires
        0 <= at <= fields.len(),
        extra.0 != key,
    ensures
        text_field(fields.insert(at, extra), key) == text_field(fields, key),
{
    let longer = fields.insert(at, extra);
    if repeats(fields, key) {
        let (i, j) = choose|i: int, j: int|
            0 <= i < j < fields.len() && (#[trigger] fields[i]).0 == key && (#[trigger] fields[j]).0
                == key;
        let p = if i < at {
            i
        } else {
            i + 1
        };
        let q = if j < at {
            j
        } else {
            j + 1
        };
        assert(longer[p].0 == key && longer[q].0 == key);
    }
    if repeats(longer, key) {
        let (i, j) = choose|i: int, j: int|
            0 <= i < j < longer.len() && (#[trigger] longer[i]).0 == key && (#[trigger] longer[j]).0
                == key;
        let p = if i < at {
            i
        } else {
            i - 1
        };
        let q = if j < at {
            j
        } else {
            j - 1
        };
        assert(i != at && j != at);
        assert(fields[p].0 == key && fields[q].0 == key);
    }
    lemma_field_insert(fields, at, extra, key);
}

proof fn lemma_field_insert(
    fields: Fields,
    at: int,
    extra: (Seq<char>, Option<Seq<char>>),
    key: Seq<char>,
)
    requires
        0 <= at <= fields.len(),
        extra.0 != key,
    ensures
        field(fields.insert(at, extra), key) == field(fields, key),
    decreases fields.len(),
{
    let longer = fields.insert(at, extra);
    if at == 0 {
        assert(longer.skip(1) =~= fields);
    } else {
        assert(longer.skip(1) =~= fields.skip(1).insert(at - 1, extra));
        lemma_field_insert(fields.skip(1), at - 1, extra, key);
    }
}

/// A message that has a field twice is refused, whatever else it has.
pub proof fn repeated_fields_are_refused(fields: Fields, i: int, j: int)
    requires
        0 <= i < j < fields.len(),
        fields[i].0 == fields[j].0,
    ensures
        text_field(fields, fields[i].0) == Err::<Seq<char>, MessageFaultView>(
            MessageFaultView::RepeatedField(fields[i].0),
        ),
{
}

/// The place behind a run of bytes.
spec fn walked(place: Place, bytes: Seq<u8>) -> Place
    decreases bytes.len(),
{
    if bytes.len() == 0 {
        place
    } else {
        walked(place.behind(bytes[0]), bytes.skip(1))
    }
}

/// Whether nothing divides a run of bytes.
spec fn undivided(place: Place, bytes: Seq<u8>) -> bool
    decreases bytes.len(),
{
    bytes.len() == 0 || (!place.divides(bytes[0]) && undivided(
        place.behind(bytes[0]),
        bytes.skip(1),
    ))
}

proof fn lemma_walked_on(place: Place, a: Seq<u8>, b: Seq<u8>)
    ensures
        walked(place, a + b) == walked(walked(place, a), b),
        undivided(place, a + b) == (undivided(place, a) && undivided(walked(place, a), b)),
    decreases a.len(),
{
    if a.len() == 0 {
        assert(a + b =~= b);
    } else {
        assert((a + b)[0] == a[0]);
        assert((a + b).skip(1) =~= a.skip(1) + b);
        lemma_walked_on(place.behind(a[0]), a.skip(1), b);
    }
}

/// A run of bytes that nothing divides goes to the part that it is in.
proof fn lemma_undivided_parts(begun: Seq<u8>, run: Seq<u8>, rest: Seq<u8>, place: Place)
    requires
        undivided(place, run),
    ensures
        parts(begun, run + rest, place) == parts(begun + run, rest, walked(place, run)),
    decreases run.len(),
{
    if run.len() == 0 {
        assert(run + rest =~= rest);
        assert(begun + run =~= begun);
    } else {
        let whole = run + rest;
        assert(whole[0] == run[0]);
        assert(whole.skip(1) =~= run.skip(1) + rest);
        assert(begun.push(run[0]) + run.skip(1) =~= begun + run);
        lemma_undivided_parts(begun.push(run[0]), run.skip(1), rest, place.behind(run[0]));
    }
}

proof fn lemma_encoded_on(a: Seq<char>, b: Seq<char>)
    ensures
        vstd::utf8::encode_utf8(a + b) == vstd::utf8::encode_utf8(a) + vstd::utf8::encode_utf8(b),
    decreases a.len(),
{
    if a.len() == 0 {
        assert(a + b =~= b);
    } else {
        assert((a + b).drop_first() =~= a.drop_first() + b);
        lemma_encoded_on(a.drop_first(), b);
        assert(vstd::utf8::encode_utf8(a + b) =~= vstd::utf8::encode_utf8(a)
            + vstd::utf8::encode_utf8(b));
    }
}

/// A character of ASCII takes the byte that it is.
proof fn lemma_encoded_ascii(c: char)
    requires
        c as u32 <= 0x7f,
    ensures
        vstd::utf8::encode_utf8(seq![c]) == seq![c as u8],
{
    assert(vstd::utf8::is_ascii_chars(seq![c]));
    vstd::utf8::is_ascii_chars_encode_utf8(seq![c]);
    assert(vstd::utf8::encode_utf8(seq![c]) =~= seq![c as u8]);
}

/// What starts with a character of ASCII starts with the byte that it is.
pub proof fn lemma_first_byte(s: Seq<char>)
    requires
        s.len() > 0,
        s[0] as u32 <= 0x7f,
    ensures
        vstd::utf8::encode_utf8(s).len() > 0,
        vstd::utf8::encode_utf8(s)[0] == s[0] as u8,
{
    assert(s =~= seq![s[0]] + s.skip(1));
    lemma_encoded_on(seq![s[0]], s.skip(1));
    lemma_encoded_ascii(s[0]);
}

/// Within a string, a character that is neither a quote nor a backslash leads nowhere else.
proof fn lemma_plain_char(place: Place, c: char)
    requires
        place.quoted,
        !place.escaped,
        c != '"',
        c != '\\',
    ensures
        walked(place, vstd::utf8::encode_utf8(seq![c])) == place,
        undivided(place, vstd::utf8::encode_utf8(seq![c])),
{
    let scalar = c as u32;
    let bytes = vstd::utf8::encode_utf8(seq![c]);
    reveal_with_fuel(vstd::utf8::encode_utf8, 2);
    assert(seq![c].drop_first() =~= Seq::empty());
    assert(bytes =~= vstd::utf8::encode_scalar(scalar));
    assert forall|i: int| 0 <= i < bytes.len() implies bytes[i] != 34 && bytes[i] != 92 by {
        if scalar <= 0x7f {
            lemma_encoded_ascii(c);
        } else {
            assert(0xC0u8 | ((scalar >> 6) & 0x1F) as u8 >= 0x80) by (bit_vector);
            assert(0xE0u8 | ((scalar >> 12) & 0x0F) as u8 >= 0x80) by (bit_vector);
            assert(0xF0u8 | ((scalar >> 18) & 0x7) as u8 >= 0x80) by (bit_vector);
            assert(0x80u8 | (scalar & 0x3F) as u8 >= 0x80) by (bit_vector);
            assert(0x80u8 | ((scalar >> 6) & 0x3F) as u8 >= 0x80) by (bit_vector);
            assert(0x80u8 | ((scalar >> 12) & 0x3F) as u8 >= 0x80) by (bit_vector);
        }
    }
    lemma_plain_bytes(place, bytes);
}

proof fn lemma_plain_bytes(place: Place, bytes: Seq<u8>)
    requires
        place.quoted,
        !place.escaped,
        forall|i: int| 0 <= i < bytes.len() ==> bytes[i] != 34 && bytes[i] != 92,
    ensures
        walked(place, bytes) == place,
        undivided(place, bytes),
    decreases bytes.len(),
{
    if bytes.len() > 0 {
        assert(bytes[0] != 34 && bytes[0] != 92);
        assert(place.behind(bytes[0]) == place);
        assert forall|i: int| 0 <= i < bytes.skip(1).len() implies bytes.skip(1)[i] != 34
            && bytes.skip(1)[i] != 92 by {
            assert(bytes.skip(1)[i] == bytes[i + 1]);
        }
        lemma_plain_bytes(place, bytes.skip(1));
    }
}

/// Within a string, a character as it is escaped leads nowhere else.
proof fn lemma_escaped_char(place: Place, c: char)
    requires
        place.quoted,
        !place.escaped,
    ensures
        walked(place, vstd::utf8::encode_utf8(json::escaped_char(c))) == place,
        undivided(place, vstd::utf8::encode_utf8(json::escaped_char(c))),
{
    let text = json::escaped_char(c);
    if text.len() == 1 {
        lemma_plain_char(place, c);
    } else {
        let head = text.take(2);
        let second = text[1];
        assert(head =~= seq!['\\'] + seq![second]);
        lemma_encoded_on(seq!['\\'], seq![second]);
        lemma_encoded_ascii('\\');
        lemma_encoded_ascii(second);
        let bytes = vstd::utf8::encode_utf8(head);
        assert(bytes =~= seq![92u8, second as u8]);
        assert(bytes.skip(1) =~= seq![second as u8]);
        assert(bytes.skip(1).skip(1) =~= Seq::empty());
        reveal_with_fuel(walked, 3);
        reveal_with_fuel(undivided, 3);
        assert(walked(place, bytes) == place);
        assert(undivided(place, bytes));
        if text.len() > 2 {
            let tail = text.skip(2);
            assert(text =~= head + tail);
            assert(tail =~= seq!['0', '0', text[4], text[5]]);
            lemma_encoded_on(head, tail);
            lemma_hex_digit(c as nat / 16);
            lemma_hex_digit(c as nat % 16);
            assert(vstd::utf8::is_ascii_chars(tail));
            vstd::utf8::is_ascii_chars_encode_utf8(tail);
            let digits = vstd::utf8::encode_utf8(tail);
            assert forall|i: int| 0 <= i < digits.len() implies digits[i] != 34 && digits[i]
                != 92 by {
                assert(tail[i] as u8 == digits[i]);
            }
            lemma_plain_bytes(place, digits);
            lemma_walked_on(place, bytes, digits);
        } else {
            assert(text =~= head);
        }
    }
}

proof fn lemma_hex_digit(d: nat)
    requires
        d < 16,
    ensures
        json::hex_digit(d) as u32 <= 0x7f,
        json::hex_digit(d) != '"',
        json::hex_digit(d) != '\\',
{
}

proof fn lemma_escaped(place: Place, s: Seq<char>)
    requires
        place.quoted,
        !place.escaped,
    ensures
        walked(place, vstd::utf8::encode_utf8(json::escaped(s))) == place,
        undivided(place, vstd::utf8::encode_utf8(json::escaped(s))),
    decreases s.len(),
{
    if s.len() > 0 {
        lemma_escaped(place, s.drop_last());
        lemma_escaped_char(place, s.last());
        lemma_encoded_on(json::escaped(s.drop_last()), json::escaped_char(s.last()));
        lemma_walked_on(
            place,
            vstd::utf8::encode_utf8(json::escaped(s.drop_last())),
            vstd::utf8::encode_utf8(json::escaped_char(s.last())),
        );
    }
}

/// A JSON string stays in the part that it starts in, and ends where it started.
proof fn lemma_string(place: Place, s: Seq<char>)
    requires
        !place.quoted,
        !place.escaped,
    ensures
        walked(place, encoded_string(s)) == place,
        undivided(place, encoded_string(s)),
{
    let quote = seq!['"'];
    let inside = Place { quoted: true, ..place };
    let mark = vstd::utf8::encode_utf8(quote);
    let body = vstd::utf8::encode_utf8(json::escaped(s));
    lemma_encoded_ascii('"');
    assert(mark =~= seq![34u8]);
    assert(mark.skip(1) =~= Seq::empty());
    reveal_with_fuel(walked, 2);
    reveal_with_fuel(undivided, 2);
    assert(walked(place, mark) == inside);
    assert(undivided(place, mark));
    assert(walked(inside, mark) == place);
    assert(undivided(inside, mark));
    lemma_escaped(inside, s);
    lemma_encoded_on(quote + json::escaped(s), quote);
    lemma_encoded_on(quote, json::escaped(s));
    lemma_walked_on(place, mark + body, mark);
    lemma_walked_on(place, mark, body);
}

/// A value that is written as one word stays in the part that it starts in, and ends where
/// it started.
proof fn lemma_atom(place: Place, atom: Atom)
    requires
        !place.quoted,
        !place.escaped,
    ensures
        walked(place, atom.encoded()) == place,
        undivided(place, atom.encoded()),
{
    match atom {
        Atom::Text(s) => {
            lemma_string(place, s);
        },
        Atom::Number(n) => {
            let word = json::signed_text(n);
            json::signed_text_is_digits(n);
            assert(vstd::utf8::is_ascii_chars(word));
            vstd::utf8::is_ascii_chars_encode_utf8(word);
            let bytes = vstd::utf8::encode_utf8(word);
            assert forall|i: int| 0 <= i < bytes.len() implies bytes[i] == 45 || 48 <= bytes[i]
                <= 57 by {
                assert(word[i] as u8 == bytes[i]);
            }
            lemma_number_bytes(place, bytes);
        },
    }
}

proof fn lemma_number_bytes(place: Place, bytes: Seq<u8>)
    requires
        !place.quoted,
        forall|i: int| 0 <= i < bytes.len() ==> bytes[i] == 45 || 48 <= bytes[i] <= 57,
    ensures
        walked(place, bytes) == place,
        undivided(place, bytes),
    decreases bytes.len(),
{
    if bytes.len() > 0 {
        assert(bytes[0] == 45 || 48 <= bytes[0] <= 57);
        assert(place.behind(bytes[0]) == place);
        assert forall|i: int| 0 <= i < bytes.skip(1).len() implies bytes.skip(1)[i] == 45 || 48
            <= bytes.skip(1)[i] <= 57 by {
            assert(bytes.skip(1)[i] == bytes[i + 1]);
        }
        lemma_number_bytes(place, bytes.skip(1));
    }
}

/// The keys and values of a flat object, in turn.
spec fn written_words(pairs: Pairs) -> Seq<Seq<u8>>
    decreases pairs.len(),
{
    if pairs.len() == 0 {
        Seq::empty()
    } else {
        written_words(pairs.drop_last()).push(encoded_string(pairs.last().0)).push(
            pairs.last().1.encoded(),
        )
    }
}

/// What stands behind a flat object: a line break or nothing.
spec fn ending(bytes: Seq<u8>, pairs: Pairs) -> Seq<u8> {
    if bytes == encoded_object(pairs) {
        seq![10u8]
    } else {
        Seq::empty()
    }
}

/// What a flat object is cut into.
spec fn written_parts(pairs: Pairs, end: Seq<u8>) -> Seq<Seq<u8>> {
    if pairs.len() == 0 {
        seq![Seq::empty(), Seq::empty(), end]
    } else {
        seq![Seq::<u8>::empty()] + written_words(pairs) + seq![end]
    }
}

proof fn lemma_written_words(pairs: Pairs, j: int)
    ensures
        written_words(pairs).len() == 2 * pairs.len(),
        0 <= j < pairs.len() ==> written_words(pairs)[2 * j] == encoded_string(pairs[j].0)
            && written_words(pairs)[2 * j + 1] == pairs[j].1.encoded(),
    decreases pairs.len(),
{
    if pairs.len() > 0 {
        lemma_written_words(pairs.drop_last(), j);
    }
}

proof fn lemma_written_part(pairs: Pairs, end: Seq<u8>, j: int)
    ensures
        member_count(written_parts(pairs, end).len()) == pairs.len(),
        0 <= j < pairs.len() ==> written_parts(pairs, end)[2 * j + 1] == encoded_string(pairs[j].0)
            && written_parts(pairs, end)[2 * j + 2] == pairs[j].1.encoded(),
{
    lemma_written_words(pairs, j);
}

/// Right within the outermost object.
spec fn in_object() -> Place {
    Place { depth: 1, quoted: false, escaped: false }
}

/// A member ends the part with its key, and leaves its value to the next.
proof fn lemma_member_parts(key: Seq<char>, value: Atom, rest: Seq<u8>)
    ensures
        parts(
            Seq::empty(),
            vstd::utf8::encode_utf8(json::member_text((key, value.json()))) + rest,
            in_object(),
        ) == seq![encoded_string(key)] + parts(value.encoded(), rest, in_object()),
{
    let k = encoded_string(key);
    let v = value.encoded();
    lemma_encoded_ascii(':');
    lemma_encoded_on(json::quoted(key), seq![':']);
    lemma_encoded_on(json::quoted(key) + seq![':'], value.json());
    let after_key = seq![58u8] + (v + rest);
    assert(vstd::utf8::encode_utf8(json::member_text((key, value.json()))) + rest =~= k
        + after_key);
    lemma_string(in_object(), key);
    lemma_atom(in_object(), value);
    lemma_undivided_parts(Seq::empty(), k, after_key, in_object());
    assert(Seq::<u8>::empty() + k =~= k);
    assert(after_key.skip(1) =~= v + rest);
    lemma_undivided_parts(Seq::empty(), v, rest, in_object());
    assert(Seq::<u8>::empty() + v =~= v);
}

/// The members of an object are cut into their keys and values; the last value is left to
/// what follows.
proof fn lemma_members_parts(pairs: Pairs, rest: Seq<u8>)
    requires
        pairs.len() > 0,
    ensures
        parts(
            Seq::empty(),
            vstd::utf8::encode_utf8(json::members_text(flat_members(pairs))) + rest,
            in_object(),
        ) == written_words(pairs).drop_last() + parts(
            pairs.last().1.encoded(),
            rest,
            in_object(),
        ),
    decreases pairs.len(),
{
    let members = flat_members(pairs);
    let last = pairs.last();
    let others = pairs.drop_last();
    lemma_member_parts(last.0, last.1, rest);
    assert(members.last() == (last.0, last.1.json()));
    assert(written_words(pairs).drop_last() =~= written_words(others).push(
        encoded_string(last.0),
    ));
    if pairs.len() == 1 {
        assert(members[0] == members.last());
        assert(written_words(others) =~= Seq::empty());
        assert(written_words(pairs).drop_last() =~= seq![encoded_string(last.0)]);
    } else {
        let member = json::member_text(members.last());
        let head = json::members_text(flat_members(others));
        assert(members.drop_last() =~= flat_members(others));
        lemma_encoded_ascii(',');
        lemma_encoded_on(head, seq![',']);
        lemma_encoded_on(head + seq![','], member);
        let tail = vstd::utf8::encode_utf8(member) + rest;
        let after_head = seq![44u8] + tail;
        assert(vstd::utf8::encode_utf8(json::members_text(members)) + rest
            =~= vstd::utf8::encode_utf8(head) + after_head);
        lemma_members_parts(others, after_head);
        assert(after_head.skip(1) =~= tail);
        let value = others.last().1.encoded();
        assert(parts(value, after_head, in_object()) == seq![value] + parts(
            Seq::empty(),
            tail,
            in_object(),
        ));
        lemma_written_words(others, others.len() - 1);
        assert(written_words(others).drop_last() + seq![value] =~= written_words(others));
        assert(written_words(others).drop_last() + (seq![value] + (seq![encoded_string(last.0)]
            + parts(last.1.encoded(), rest, in_object()))) =~= written_words(
            pairs,
        ).drop_last() + parts(last.1.encoded(), rest, in_object()));
    }
}

/// A flat object is not empty, and a line with one ends in its line break.
pub proof fn encoded_objects_are_lines(pairs: Pairs)
    ensures
        bare_object(pairs).len() > 0,
        encoded_object(pairs) == bare_object(pairs) + seq![10u8],
        encoded_object(pairs).last() == 10,
{
    lemma_encoded_ascii('\n');
    lemma_encoded_on(json::object_text(flat_members(pairs)), seq!['\n']);
    lemma_first_byte(json::object_text(flat_members(pairs)));
}

/// A flat object is cut into its keys and values, and is seen to open one.
proof fn lemma_object_parts(pairs: Pairs, end: Seq<u8>)
    requires
        end.len() == 0 || end == seq![10u8],
    ensures
        object_parts(bare_object(pairs) + end) == written_parts(pairs, end),
        opens_object(bare_object(pairs) + end),
        encoded_object(pairs) == bare_object(pairs) + seq![10u8],
        bare_object(pairs) == bare_object(pairs) + Seq::<u8>::empty(),
{
    let members = json::members_text(flat_members(pairs));
    let inner = vstd::utf8::encode_utf8(members);
    let line = bare_object(pairs) + end;
    encoded_objects_are_lines(pairs);
    assert(bare_object(pairs) =~= bare_object(pairs) + Seq::<u8>::empty());
    lemma_encoded_ascii('{');
    lemma_encoded_ascii('}');
    lemma_encoded_on(seq!['{'], members);
    lemma_encoded_on(seq!['{'] + members, seq!['}']);
    let rest = seq![125u8] + end;
    assert(line =~= seq![123u8] + (inner + rest));
    assert(line.skip(1) =~= inner + rest);
    assert(Place::start().behind(123) == in_object());
    assert(object_parts(line) == seq![Seq::<u8>::empty()] + parts(
        Seq::empty(),
        inner + rest,
        in_object(),
    ));
    assert(rest.skip(1) =~= end);
    assert(end.len() > 0 ==> end.skip(1) =~= Seq::empty());
    let outside = in_object().behind(125);
    assert(Seq::<u8>::empty().push(10u8) =~= seq![10u8]);
    reveal_with_fuel(parts, 3);
    assert(parts(Seq::empty(), end, outside) =~= seq![end]) by {
        if end.len() == 0 {
            assert(end =~= Seq::empty());
        }
    }
    if pairs.len() == 0 {
        assert(inner =~= Seq::empty());
        assert(inner + rest =~= rest);
        assert(object_parts(line) =~= written_parts(pairs, end));
    } else {
        lemma_members_parts(pairs, rest);
        let value = pairs.last().1.encoded();
        assert(parts(value, rest, in_object()) =~= seq![value] + seq![end]);
        lemma_written_words(pairs, pairs.len() - 1);
        assert(written_words(pairs).drop_last() + seq![value] =~= written_words(pairs));
        assert(object_parts(line) =~= written_parts(pairs, end));
    }
}

/// A line with a flat object tells which object it was written from: its keys, their order
/// and their values.
pub proof fn lines_tell_objects(a: Pairs, b: Pairs)
    requires
        flat_line(a) == flat_line(b),
    ensures
        a == b,
{
    let end = seq![10u8];
    lemma_object_parts(a, end);
    lemma_object_parts(b, end);
    lemma_written_part(a, end, 0);
    lemma_written_part(b, end, 0);
    assert forall|j: int| 0 <= j < a.len() implies a[j] == b[j] by {
        lemma_written_part(a, end, j);
        lemma_written_part(b, end, j);
        lemma_encoded_tells(json::quoted(a[j].0), json::quoted(b[j].0));
        json::quoted_texts_tell_texts(a[j].0, b[j].0);
        lemma_encoded_tells(a[j].1.json(), b[j].1.json());
        lemma_atoms_tell(a[j].1, b[j].1);
    }
    assert(a =~= b);
}

proof fn lemma_encoded_tells(s: Seq<char>, t: Seq<char>)
    requires
        vstd::utf8::encode_utf8(s) == vstd::utf8::encode_utf8(t),
    ensures
        s == t,
{
    vstd::utf8::encode_utf8_decode_utf8(s);
    vstd::utf8::encode_utf8_decode_utf8(t);
}

proof fn lemma_atoms_tell(a: Atom, b: Atom)
    requires
        a.json() == b.json(),
    ensures
        a == b,
{
    match (a, b) {
        (Atom::Text(s), Atom::Text(t)) => {
            json::quoted_texts_tell_texts(s, t);
        },
        (Atom::Number(n), Atom::Number(m)) => {
            json::signed_texts_tell_numbers(n, m);
        },
        (Atom::Text(s), Atom::Number(m)) => {
            json::signed_text_is_digits(m);
            assert(json::quoted(s)[0] == '"');
            assert(json::signed_text(m)[0] != '"');
        },
        (Atom::Number(n), Atom::Text(t)) => {
            json::signed_text_is_digits(n);
            assert(json::quoted(t)[0] == '"');
            assert(json::signed_text(n)[0] != '"');
        },
    }
}

/// A message must give a key once: one that gives it no value lacks it, one that gives it a text
/// has that text, one that gives it something else is at fault for that, and one that gives it
/// twice is at fault whatever the two are.
pub proof fn keys_are_to_be_given_once(fields: Fields, key: Seq<char>, k: int)
    requires
        0 <= k <= fields.len(),
        forall|j: int| 0 <= j < k ==> (#[trigger] fields[j]).0 != key,
        k < fields.len() ==> fields[k].0 == key,
    ensures
        k == fields.len() ==> text_field(fields, key) == Err::<Seq<char>, _>(
            MessageFaultView::MissingField(key),
        ),
        k < fields.len() && (exists|j: int| k < j < fields.len() && (#[trigger] fields[j]).0 == key)
            ==> text_field(fields, key) == Err::<Seq<char>, _>(
            MessageFaultView::RepeatedField(key),
        ),
        k < fields.len() && (forall|j: int|
            k < j < fields.len() ==> (#[trigger] fields[j]).0 != key) ==> match fields[k].1 {
            Some(s) => text_field(fields, key) == Ok::<_, MessageFaultView>(s),
            None => text_field(fields, key) == Err::<Seq<char>, _>(MessageFaultView::NotText(key)),
        },
        k < fields.len() ==> field(fields, key) == Some(fields[k].1),
        k == fields.len() ==> field(fields, key) is None,
{
    lemma_field_found(fields, key, k);
}

/// Whoever understood a message is asked for nothing else; whoever did not says what its
/// decoder said, to the letter, or else what the fault is called.
pub proof fn reasons_are_the_decoders_own<R>(
    request: R,
    fault: MessageFaultView,
    words: Seq<char>,
    diagnosis: Option<Seq<char>>,
)
    ensures
        understood(Ok::<R, MessageFaultView>(request), diagnosis) == Ok::<R, Seq<char>>(request),
        understood(Err::<R, MessageFaultView>(fault), Some(words)) == Err::<R, Seq<char>>(words),
        understood(Err::<R, MessageFaultView>(fault), None) == Err::<R, Seq<char>>(
            fault_text(fault),
        ),
        reason(fault, Some(words)) == words,
        reason(fault, None) == fault_text(fault),
{
}

/// A fault is put into words that name the member it is about.
pub proof fn faults_name_their_members(key: Seq<char>, other: Seq<char>)
    ensures
        fault_text(MessageFaultView::Syntax(key)) == key,
        fault_text(MessageFaultView::NotAnObject) == "expected a JSON object"@,
        fault_text(MessageFaultView::MissingField(key)) == "missing field `"@ + key + "`"@,
        fault_text(MessageFaultView::NotText(key)) == "field `"@ + key + "` must be a string"@,
        fault_text(MessageFaultView::RepeatedField(key)) == "duplicate field `"@ + key + "`"@,
        fault_text(MessageFaultView::UnknownOp(key, other)) == "unknown variant `"@ + key
            + "`, expected one of "@ + other,
        fault_text(MessageFaultView::WrongValue(key)) == "invalid value for field `"@ + key + "`"@,
{
}

/// A fault is told as it is.
pub proof fn message_faults_are_told_as_they_are(fault: MessageFault)
    ensures
        match fault {
            MessageFault::Syntax(message) => fault@ == MessageFaultView::Syntax(message@),
            MessageFault::NotAnObject => fault@ == MessageFaultView::NotAnObject,
            MessageFault::MissingField(key) => fault@ == MessageFaultView::MissingField(key@),
            MessageFault::NotText(key) => fault@ == MessageFaultView::NotText(key@),
            MessageFault::RepeatedField(key) => fault@ == MessageFaultView::RepeatedField(key@),
            MessageFault::UnknownOp(op, known) => fault@ == MessageFaultView::UnknownOp(op@, known@),
            MessageFault::WrongValue(key) => fault@ == MessageFaultView::WrongValue(key@),
        },
{
}

/// What kind of value a text holds is told by its first byte that is no whitespace: spaces, tabs
/// and line ends before it do not count.
pub proof fn values_are_marked_by_their_first_byte(lead: Seq<u8>, b: u8, rest: Seq<u8>)
    requires
        forall|i: int|
            0 <= i < lead.len() ==> #[trigger] lead[i] == 32 || lead[i] == 9 || lead[i] == 10
                || lead[i] == 13,
        b != 32 && b != 9 && b != 10 && b != 13,
    ensures
        mark(lead, 0) is None,
        mark(lead.push(b) + rest, 0) == Some(b),
        opens_object(lead.push(b) + rest) <==> b == 123,
        is_null(lead.push(b) + rest) <==> b == 110,
        !opens_object(lead),
        !is_null(lead),
{
    let bytes = lead.push(b) + rest;
    assert forall|i: int| 0 <= i < lead.len() implies bytes[i] == 32 || bytes[i] == 9 || bytes[i]
        == 10 || bytes[i] == 13 by {
        assert(bytes[i] == lead[i]);
    }
    lemma_mark_from(lead, 0, lead.len() as int);
    lemma_mark_from(bytes, 0, lead.len() as int);
}

proof fn lemma_mark_from(bytes: Seq<u8>, k: int, i: int)
    requires
        0 <= k <= i <= bytes.len(),
        forall|j: int|
            k <= j < i ==> bytes[j] == 32 || bytes[j] == 9 || bytes[j] == 10 || bytes[j] == 13,
    ensures
        mark(bytes, k) == mark(bytes, i),
    decreases i - k,
{
    if k < i {
        lemma_mark_from(bytes, k + 1, i);
    }
}

/// A walk through a text steps into a string at a quote, out of it at the next that no backslash
/// escapes, into an object or an array at its bracket and out of it at its other. Within a string
/// brackets do not count.
pub proof fn walks_keep_count_of_brackets_and_quotes(place: Place, b: u8)
    ensures
        ({
            let next = place.behind(b);
            &&& place.quoted ==> next.depth == place.depth
            &&& place.quoted && place.escaped ==> next.quoted && !next.escaped
            &&& place.quoted && !place.escaped && b == 34 ==> !next.quoted && !next.escaped
            &&& place.quoted && !place.escaped && b == 92 ==> next.quoted && next.escaped
            &&& place.quoted && !place.escaped && b != 34 && b != 92 ==> next.quoted
                && !next.escaped
            &&& !place.quoted ==> next.escaped == place.escaped
            &&& !place.quoted ==> (next.quoted <==> b == 34)
            &&& !place.quoted && (b == 123 || b == 91) ==> next.depth == place.depth + 1
            &&& !place.quoted && (b == 125 || b == 93) ==> next.depth == place.depth - 1
            &&& !place.quoted && b != 123 && b != 91 && b != 125 && b != 93 ==> next.depth
                == place.depth
        }),
        place.divides(b) <==> !place.quoted && (place.depth == 0 && b == 123 || place.depth == 1
            && b == 58 || place.depth == 1 && b == 44 || place.depth == 1 && b == 125),
        Place::start().depth == 0,
        !Place::start().quoted,
        !Place::start().escaped,
{
}

/// A text is cut at each byte that divides it, which is left out, and nowhere else: between two
/// cuts everything stays as it is.
pub proof fn texts_are_cut_where_they_divide(
    begun: Seq<u8>,
    b: u8,
    rest: Seq<u8>,
    place: Place,
)
    ensures
        parts(begun, Seq::empty(), place) == seq![begun],
        place.divides(b) ==> parts(begun, seq![b] + rest, place) == seq![begun] + parts(
            Seq::empty(),
            rest,
            place.behind(b),
        ),
        !place.divides(b) ==> parts(begun, seq![b] + rest, place) == parts(
            begun.push(b),
            rest,
            place.behind(b),
        ),
        object_parts(rest) == parts(Seq::empty(), rest, Place::start()),
{
    assert((seq![b] + rest).skip(1) =~= rest);
}

/// An object's members are its keys and values in turn: the key before each colon, the value
/// behind it as it is written, and no other. A text of which a key is no string is no object.
pub proof fn members_are_keys_and_values_in_turn(parts: Seq<Seq<u8>>, n: nat)
    requires
        2 * n + 2 <= parts.len() < 2 * n + 4 || n == 0 && parts.len() < 4,
    ensures
        members_in(parts) is Ok ==> {
            let members = members_in(parts)->Ok_0;
            &&& members.len() == n
            &&& forall|k: int|
                0 <= k < n ==> json_string(parts[2 * k + 1]) == Some((#[trigger] members[k]).0)
                    && members[k].1 == parts[2 * k + 2]
        },
        (exists|k: int| 0 <= k < n && json_string(#[trigger] parts[2 * k + 1]) is None)
            ==> members_in(parts) == Err::<Members, _>(MessageFaultView::NotAnObject),
        (forall|j: int| 0 <= j < n ==> json_string(#[trigger] parts[2 * j + 1]) is Some)
            ==> members_in(parts) is Ok,
{
    assert(member_count(parts.len()) == n);
}

/// A message is an object that is well formed, with its members as they stand there. One that is
/// not well formed is at fault with the decoder's own words.
pub proof fn messages_are_objects(bytes: Seq<u8>)
    ensures
        match json_error(bytes) {
            Some(words) => message_members(bytes) == Err::<Members, _>(
                MessageFaultView::Syntax(words),
            ),
            None => {
                &&& opens_object(bytes) ==> message_members(bytes) == members_in(
                    object_parts(bytes),
                )
                &&& !opens_object(bytes) ==> message_members(bytes) == Err::<Members, _>(
                    MessageFaultView::NotAnObject,
                )
            },
        },
        match message_members(bytes) {
            Ok(members) => {
                let fields = message_fields(bytes);
                &&& fields is Ok && fields->Ok_0.len() == members.len()
                &&& forall|i: int|
                    0 <= i < members.len() ==> (#[trigger] fields->Ok_0[i]) == (
                        members[i].0,
                        json_string(members[i].1),
                    )
            },
            Err(fault) => message_fields(bytes) == Err::<Fields, _>(fault),
        },
{
}

/// A flat object is written with each of its values: a text quoted, a number in decimal.
pub proof fn flat_objects_are_written_pair_by_pair(
    pairs: Pairs,
    i: int,
    s: Seq<char>,
    n: int,
    fields: Seq<(String, Option<String>)>,
    members: Seq<(String, &[u8])>,
)
    requires
        0 <= i < pairs.len(),
    ensures
        Atom::Text(s).json() == json::quoted(s),
        Atom::Number(n).json() == json::signed_text(n),
        Atom::Text(s).fits(),
        Atom::Number(n).fits() <==> -9_223_372_036_854_775_808 <= n <= 18_446_744_073_709_551_615,
        flat_members(pairs).len() == pairs.len(),
        flat_members(pairs)[i] == (pairs[i].0, pairs[i].1.json()),
        flat_fields(pairs).len() == pairs.len(),
        flat_fields(pairs)[i] == (
            pairs[i].0,
            match pairs[i].1 {
                Atom::Text(s) => Some(s),
                Atom::Number(_) => None,
            },
        ),
        flat_encoded(pairs).len() == pairs.len(),
        flat_encoded(pairs)[i] == (pairs[i].0, vstd::utf8::encode_utf8(pairs[i].1.json())),
        encoded_string(s) == vstd::utf8::encode_utf8(json::quoted(s)),
        flat_line(pairs) == json::object_text(flat_members(pairs)).push('\n'),
        encoded_object(pairs) == vstd::utf8::encode_utf8(flat_line(pairs)),
        bare_object(pairs) == vstd::utf8::encode_utf8(json::object_text(flat_members(pairs))),
        text_atom(Some(s)) == Some(Atom::Text(s)),
        text_atom(None) is None,
        number_atom(Some(n)) == Some(Atom::Number(n)),
        number_atom(None) is None,
        field_views(fields).len() == fields.len(),
        0 <= i < fields.len() ==> field_views(fields)[i] == (
            fields[i].0@,
            text::optional_text(fields[i].1),
        ),
        member_views(members).len() == members.len(),
        0 <= i < members.len() ==> member_views(members)[i] == (members[i].0@, members[i].1@),
{
    assert(json::object_text(flat_members(pairs)) + seq!['\n'] =~= json::object_text(
        flat_members(pairs),
    ).push('\n'));
}

/// Bytes are a written object exactly where they are its text, with one line break behind it or
/// with none; its values fit where each of them does.
pub proof fn objects_are_written_with_or_without_a_line_break(bytes: Seq<u8>, pairs: Pairs)
    ensures
        is_written(bytes, pairs) <==> {
            let text = json::object_text(flat_members(pairs));
            bytes == vstd::utf8::encode_utf8(text) || bytes == vstd::utf8::encode_utf8(
                text.push('\n'),
            )
        },
        pairs_fit(pairs) <==> (forall|i: int|
            0 <= i < pairs.len() ==> (#[trigger] pairs[i]).1.fits()),
{
    let text = json::object_text(flat_members(pairs));
    assert(text + seq!['\n'] =~= text.push('\n'));
}

} // verus!
