//! The members of a message, read one by one: texts, numbers and names, some of which may be
//! absent.

use crate::json;
use crate::message::{self, find_mark, read_string, split_object, Atom, Members, MessageFault};
use crate::message::{MessageFaultView, Pairs};
use crate::text::{self, copy_text, same_text};
use vstd::prelude::*;
use vstd::string::*;

verus! {

/// The number that `serde_json` reads from a value as a `u64`, if it is one.
pub uninterp spec fn json_u64(bytes: Seq<u8>) -> Option<u64>;

/// Calls `serde_json::from_slice` for a `u64`. Trusted: whether the bytes are such a number,
/// and which, depend on the bytes alone; a number in decimal that fits is read back.
#[verifier::external_body]
fn read_u64(bytes: &[u8]) -> (r: Option<u64>)
    ensures
        r == json_u64(bytes@),
        forall|n: int|
            0 <= n <= u64::MAX && bytes@ == vstd::utf8::encode_utf8(#[trigger] json::signed_text(n))
                ==> r == Some(n as u64),
{
    match serde_json::from_slice::<u64>(bytes) {
        Ok(n) => Some(n),
        Err(_) => None,
    }
}

/// The number that `serde_json` reads from a value as an `i64`, if it is one.
pub uninterp spec fn json_i64(bytes: Seq<u8>) -> Option<i64>;

/// Calls `serde_json::from_slice` for an `i64`. Trusted: whether the bytes are such a number,
/// and which, depend on the bytes alone; a number in decimal that fits is read back.
#[verifier::external_body]
fn read_i64(bytes: &[u8]) -> (r: Option<i64>)
    ensures
        r == json_i64(bytes@),
        forall|n: int|
            i64::MIN <= n <= i64::MAX && bytes@ == vstd::utf8::encode_utf8(
                #[trigger] json::signed_text(n),
            ) ==> r == Some(n as i64),
{
    match serde_json::from_slice::<i64>(bytes) {
        Ok(n) => Some(n),
        Err(_) => None,
    }
}

/// The value under a key, as it is written, if the message has the key; a key must not stand
/// there twice.
pub open spec fn member(members: Members, key: Seq<char>) -> Result<
    Option<Seq<u8>>,
    MessageFaultView,
> {
    if message::repeats(members, key) {
        Err(MessageFaultView::RepeatedField(key))
    } else {
        Ok(message::field(members, key))
    }
}

/// Whether a message has a value under a key, or none.
pub open spec fn holds(members: Members, key: Seq<char>, value: Option<Atom>) -> bool {
    member(members, key) == Ok::<Option<Seq<u8>>, MessageFaultView>(
        match value {
            Some(atom) => Some(atom.encoded()),
            None => None,
        },
    )
}

/// The value under a key that a message must have.
pub open spec fn required(members: Members, key: Seq<char>) -> Result<Seq<u8>, MessageFaultView> {
    match member(members, key) {
        Err(fault) => Err(fault),
        Ok(None) => Err(MessageFaultView::MissingField(key)),
        Ok(Some(value)) => Ok(value),
    }
}

/// The value under a key that a message may have; `null` is as good as none.
pub open spec fn present(members: Members, key: Seq<char>) -> Result<
    Option<Seq<u8>>,
    MessageFaultView,
> {
    match member(members, key) {
        Err(fault) => Err(fault),
        Ok(None) => Ok(None),
        Ok(Some(value)) => Ok(
            if message::is_null(value) {
                None
            } else {
                Some(value)
            },
        ),
    }
}

/// The text under a key that a message must have.
pub open spec fn text_member(members: Members, key: Seq<char>) -> Result<
    Seq<char>,
    MessageFaultView,
> {
    match required(members, key) {
        Err(fault) => Err(fault),
        Ok(value) => match message::json_string(value) {
            Some(s) => Ok(s),
            None => Err(MessageFaultView::NotText(key)),
        },
    }
}

/// The text under a key that a message may have.
pub open spec fn optional_text_member(members: Members, key: Seq<char>) -> Result<
    Option<Seq<char>>,
    MessageFaultView,
> {
    match present(members, key) {
        Err(fault) => Err(fault),
        Ok(None) => Ok(None),
        Ok(Some(value)) => match message::json_string(value) {
            Some(s) => Ok(Some(s)),
            None => Err(MessageFaultView::NotText(key)),
        },
    }
}

/// The whole number, `limit` at most, under a key that a message must have.
pub open spec fn number_member(members: Members, key: Seq<char>, limit: u64) -> Result<
    u64,
    MessageFaultView,
> {
    match required(members, key) {
        Err(fault) => Err(fault),
        Ok(value) => match json_u64(value) {
            Some(n) => if n <= limit {
                Ok(n)
            } else {
                Err(MessageFaultView::WrongValue(key))
            },
            None => Err(MessageFaultView::WrongValue(key)),
        },
    }
}

/// The number of 32 bits under a key that a message may have.
pub open spec fn optional_u32_member(members: Members, key: Seq<char>) -> Result<
    Option<u32>,
    MessageFaultView,
> {
    match present(members, key) {
        Err(fault) => Err(fault),
        Ok(None) => Ok(None),
        Ok(Some(value)) => match json_u64(value) {
            Some(n) => if n <= u32::MAX {
                Ok(Some(n as u32))
            } else {
                Err(MessageFaultView::WrongValue(key))
            },
            None => Err(MessageFaultView::WrongValue(key)),
        },
    }
}

/// The signed number of 32 bits under a key that a message may have.
pub open spec fn optional_i32_member(members: Members, key: Seq<char>) -> Result<
    Option<i32>,
    MessageFaultView,
> {
    match present(members, key) {
        Err(fault) => Err(fault),
        Ok(None) => Ok(None),
        Ok(Some(value)) => match json_i64(value) {
            Some(n) => if i32::MIN <= n <= i32::MAX {
                Ok(Some(n as i32))
            } else {
                Err(MessageFaultView::WrongValue(key))
            },
            None => Err(MessageFaultView::WrongValue(key)),
        },
    }
}

/// Whether a well-formed value holds nothing: `null`, or an object without members.
pub open spec fn holds_nothing(value: Seq<u8>) -> bool {
    message::is_null(value) || (message::opens_object(value) && message::object_parts(value).len()
        == 3)
}

/// The name that a well-formed value is: a text, or the key of an object that has only this
/// one and nothing under it.
pub open spec fn name_in(value: Seq<u8>) -> Option<Seq<char>> {
    match message::json_string(value) {
        Some(s) => Some(s),
        None => {
            let parts = message::object_parts(value);
            if message::opens_object(value) && parts.len() == 4 && holds_nothing(parts[2]) {
                message::json_string(parts[1])
            } else {
                None
            }
        },
    }
}

/// The name under a key that a message must have.
pub open spec fn name_member(members: Members, key: Seq<char>) -> Result<
    Seq<char>,
    MessageFaultView,
> {
    match required(members, key) {
        Err(fault) => Err(fault),
        Ok(value) => match name_in(value) {
            Some(s) => Ok(s),
            None => Err(MessageFaultView::WrongValue(key)),
        },
    }
}

/// Finds the value under a key.
fn find_member<'a>(members: &Vec<(String, &'a [u8])>, key: &str) -> (r: Result<
    Option<&'a [u8]>,
    MessageFault,
>)
    ensures
        member(message::member_views(members@), key@) == match r {
            Ok(Some(value)) => Ok(Some(value@)),
            Ok(None) => Ok(None),
            Err(fault) => Err(fault@),
        },
{
    let ghost model = message::member_views(members@);
    let mut found: Option<usize> = None;
    let mut i: usize = 0;
    while i < members.len()
        invariant
            i <= members@.len(),
            model == message::member_views(members@),
            match found {
                None => forall|j: int| 0 <= j < i ==> (#[trigger] model[j]).0 != key@,
                Some(k) => k < i && model[k as int].0 == key@ && forall|j: int|
                    0 <= j < i && j != k ==> (#[trigger] model[j]).0 != key@,
            },
        decreases members@.len() - i,
    {
        assert(model[i as int].0 == members@[i as int].0@);
        if same_text(members[i].0.as_str(), key) {
            if let Some(k) = found {
                assert(model[k as int].0 == key@ && model[i as int].0 == key@);
                return Err(MessageFault::RepeatedField(copy_text(key)));
            }
            found = Some(i);
        }
        i = i + 1;
    }
    match found {
        None => {
            proof {
                message::lemma_field_found(model, key@, model.len() as int);
            }
            Ok(None)
        },
        Some(k) => {
            proof {
                message::lemma_field_found(model, key@, k as int);
            }
            Ok(Some(members[k].1))
        },
    }
}

fn find_required<'a>(members: &Vec<(String, &'a [u8])>, key: &str) -> (r: Result<
    &'a [u8],
    MessageFault,
>)
    ensures
        required(message::member_views(members@), key@) == match r {
            Ok(value) => Ok(value@),
            Err(fault) => Err(fault@),
        },
{
    match find_member(members, key) {
        Err(fault) => Err(fault),
        Ok(None) => Err(MessageFault::MissingField(copy_text(key))),
        Ok(Some(value)) => Ok(value),
    }
}

fn find_present<'a>(members: &Vec<(String, &'a [u8])>, key: &str) -> (r: Result<
    Option<&'a [u8]>,
    MessageFault,
>)
    ensures
        present(message::member_views(members@), key@) == match r {
            Ok(Some(value)) => Ok(Some(value@)),
            Ok(None) => Ok(None),
            Err(fault) => Err(fault@),
        },
{
    match find_member(members, key) {
        Err(fault) => Err(fault),
        Ok(None) => Ok(None),
        Ok(Some(value)) => if find_mark(value) == Some(110u8) {
            Ok(None)
        } else {
            Ok(Some(value))
        },
    }
}

/// Reads the text under a key that a message must have. A text that was written there is
/// read back.
pub fn read_text_member(members: &Vec<(String, &[u8])>, key: &str) -> (r: Result<
    String,
    MessageFault,
>)
    ensures
        text_member(message::member_views(members@), key@) == match r {
            Ok(s) => Ok(s@),
            Err(fault) => Err(fault@),
        },
        forall|s: Seq<char>| #[trigger]
            holds(message::member_views(members@), key@, Some(Atom::Text(s))) ==> r is Ok
                && r->Ok_0@ == s,
{
    let value = match find_required(members, key) {
        Ok(value) => value,
        Err(fault) => return Err(fault),
    };
    match read_string(value) {
        Some(s) => {
            assert forall|t: Seq<char>| #[trigger]
                holds(message::member_views(members@), key@, Some(Atom::Text(t))) implies s@
                == t by {
                assert(value@ == message::encoded_string(t));
            }
            Ok(s)
        },
        None => {
            assert forall|t: Seq<char>| #[trigger]
                holds(message::member_views(members@), key@, Some(Atom::Text(t))) implies false by {
                assert(value@ == message::encoded_string(t));
            }
            Err(MessageFault::NotText(copy_text(key)))
        },
    }
}

/// Reads the text under a key that a message may have. What was written there is read back.
pub fn read_optional_text_member(members: &Vec<(String, &[u8])>, key: &str) -> (r: Result<
    Option<String>,
    MessageFault,
>)
    ensures
        optional_text_member(message::member_views(members@), key@) == match r {
            Ok(s) => Ok(text::optional_text(s)),
            Err(fault) => Err(fault@),
        },
        forall|s: Option<Seq<char>>| #[trigger]
            holds(message::member_views(members@), key@, message::text_atom(s)) ==> r is Ok
                && text::optional_text(r->Ok_0) == s,
{
    let ghost views = message::member_views(members@);
    proof {
        lemma_written_is_present(views, key@);
    }
    match find_present(members, key) {
        Err(fault) => Err(fault),
        Ok(None) => Ok(None),
        Ok(Some(value)) => {
            let read = read_string(value);
            assert forall|s: Option<Seq<char>>| #[trigger]
                holds(views, key@, message::text_atom(s)) implies s is Some && read is Some
                && read->0@ == s->0 by {
                assert(value@ == message::encoded_string(s->0));
            }
            match read {
                Some(s) => Ok(Some(s)),
                None => Err(MessageFault::NotText(copy_text(key))),
            }
        },
    }
}

/// Reads the whole number, `limit` at most, under a key that a message must have. A number
/// that was written there is read back.
pub fn read_number_member(members: &Vec<(String, &[u8])>, key: &str, limit: u64) -> (r: Result<
    u64,
    MessageFault,
>)
    ensures
        number_member(message::member_views(members@), key@, limit) == match r {
            Ok(n) => Ok(n),
            Err(fault) => Err(fault@),
        },
        forall|n: int| #[trigger]
            holds(message::member_views(members@), key@, Some(Atom::Number(n))) && 0 <= n <= limit
                ==> r is Ok && r->Ok_0 == n,
{
    let value = match find_required(members, key) {
        Ok(value) => value,
        Err(fault) => return Err(fault),
    };
    let read = read_u64(value);
    assert forall|n: int| #[trigger]
        holds(message::member_views(members@), key@, Some(Atom::Number(n))) && 0 <= n
        <= limit implies read == Some(n as u64) by {
        assert(value@ == vstd::utf8::encode_utf8(json::signed_text(n)));
    }
    match read {
        Some(n) => if n <= limit {
            Ok(n)
        } else {
            Err(MessageFault::WrongValue(copy_text(key)))
        },
        None => Err(MessageFault::WrongValue(copy_text(key))),
    }
}

/// Reads the number of 32 bits under a key that a message may have. What was written there
/// is read back.
pub fn read_optional_u32_member(members: &Vec<(String, &[u8])>, key: &str) -> (r: Result<
    Option<u32>,
    MessageFault,
>)
    ensures
        optional_u32_member(message::member_views(members@), key@) == match r {
            Ok(n) => Ok(n),
            Err(fault) => Err(fault@),
        },
        forall|n: Option<int>| #[trigger]
            holds(message::member_views(members@), key@, message::number_atom(n)) && (n is Some
                ==> 0 <= n->0 <= u32::MAX) ==> r is Ok && (r->Ok_0 is Some <==> n is Some) && (n
                is Some ==> r->Ok_0->0 == n->0),
{
    let ghost views = message::member_views(members@);
    proof {
        lemma_written_is_present(views, key@);
    }
    match find_present(members, key) {
        Err(fault) => Err(fault),
        Ok(None) => Ok(None),
        Ok(Some(value)) => {
            let read = read_u64(value);
            assert forall|n: Option<int>| #[trigger]
                holds(views, key@, message::number_atom(n)) && (n is Some ==> 0 <= n->0
                <= u32::MAX) implies n is Some && read == Some(n->0 as u64) by {
                assert(value@ == vstd::utf8::encode_utf8(json::signed_text(n->0)));
            }
            match read {
                Some(n) => if n <= u32::MAX as u64 {
                    Ok(Some(n as u32))
                } else {
                    Err(MessageFault::WrongValue(copy_text(key)))
                },
                None => Err(MessageFault::WrongValue(copy_text(key))),
            }
        },
    }
}

/// Reads the signed number of 32 bits under a key that a message may have. What was written
/// there is read back.
pub fn read_optional_i32_member(members: &Vec<(String, &[u8])>, key: &str) -> (r: Result<
    Option<i32>,
    MessageFault,
>)
    ensures
        optional_i32_member(message::member_views(members@), key@) == match r {
            Ok(n) => Ok(n),
            Err(fault) => Err(fault@),
        },
        forall|n: Option<int>| #[trigger]
            holds(message::member_views(members@), key@, message::number_atom(n)) && (n is Some
                ==> i32::MIN <= n->0 <= i32::MAX) ==> r is Ok && (r->Ok_0 is Some <==> n is Some)
                && (n is Some ==> r->Ok_0->0 == n->0),
{
    let ghost views = message::member_views(members@);
    proof {
        lemma_written_is_present(views, key@);
    }
    match find_present(members, key) {
        Err(fault) => Err(fault),
        Ok(None) => Ok(None),
        Ok(Some(value)) => {
            let read = read_i64(value);
            assert forall|n: Option<int>| #[trigger]
                holds(views, key@, message::number_atom(n)) && (n is Some ==> i32::MIN <= n->0
                <= i32::MAX) implies n is Some && read == Some(n->0 as i64) by {
                assert(value@ == vstd::utf8::encode_utf8(json::signed_text(n->0)));
            }
            match read {
                Some(n) => if i32::MIN as i64 <= n && n <= i32::MAX as i64 {
                    Ok(Some(n as i32))
                } else {
                    Err(MessageFault::WrongValue(copy_text(key)))
                },
                None => Err(MessageFault::WrongValue(copy_text(key))),
            }
        },
    }
}

fn find_nothing(value: &[u8]) -> (r: bool)
    ensures
        r == holds_nothing(value@),
{
    let mark = find_mark(value);
    mark == Some(110u8) || (mark == Some(123u8) && split_object(value).len() == 3)
}

/// Reads the name that a well-formed value is. A text that was written there is read back.
pub fn read_name(value: &[u8]) -> (r: Option<String>)
    ensures
        text::optional_text(r) == name_in(value@),
        forall|s: Seq<char>| value@ == #[trigger] message::encoded_string(s)
            ==> text::optional_text(r) == Some(s),
{
    if let Some(s) = read_string(value) {
        return Some(s);
    }
    if find_mark(value) != Some(123u8) {
        return None;
    }
    let pieces = split_object(value);
    if pieces.len() == 4 && find_nothing(pieces[2]) {
        read_string(pieces[1])
    } else {
        None
    }
}

/// Reads the name under a key that a message must have. A text that was written there is
/// read back.
pub fn read_name_member(members: &Vec<(String, &[u8])>, key: &str) -> (r: Result<
    String,
    MessageFault,
>)
    ensures
        name_member(message::member_views(members@), key@) == match r {
            Ok(s) => Ok(s@),
            Err(fault) => Err(fault@),
        },
        forall|s: Seq<char>| #[trigger]
            holds(message::member_views(members@), key@, Some(Atom::Text(s))) ==> r is Ok
                && r->Ok_0@ == s,
{
    let value = match find_required(members, key) {
        Ok(value) => value,
        Err(fault) => return Err(fault),
    };
    let read = read_name(value);
    assert forall|s: Seq<char>| #[trigger]
        holds(message::member_views(members@), key@, Some(Atom::Text(s))) implies read is Some
        && read->0@ == s by {
        assert(value@ == message::encoded_string(s));
    }
    match read {
        Some(s) => Ok(s),
        None => Err(MessageFault::WrongValue(copy_text(key))),
    }
}

/// A value that is written as one word is there, and is not `null`.
proof fn lemma_written_is_present(members: Members, key: Seq<char>)
    ensures
        forall|value: Option<Atom>| #[trigger]
            holds(members, key, value) ==> present(members, key) == Ok::<
                Option<Seq<u8>>,
                MessageFaultView,
            >(
                match value {
                    Some(atom) => Some(atom.encoded()),
                    None => None,
                },
            ),
{
    assert forall|value: Option<Atom>| #[trigger] holds(members, key, value) implies present(
        members,
        key,
    ) == Ok::<Option<Seq<u8>>, MessageFaultView>(
        match value {
            Some(atom) => Some(atom.encoded()),
            None => None,
        },
    ) by {
        if let Some(atom) = value {
            lemma_atoms_are_values(atom);
        }
    }
}

/// What is written of a text or a number does not start as `null` does.
proof fn lemma_atoms_are_values(atom: Atom)
    ensures
        !message::is_null(atom.encoded()),
{
    let word = atom.json();
    let bytes = atom.encoded();
    match atom {
        Atom::Text(s) => {
            assert(word =~= seq!['"'] + word.skip(1));
            assert(word[0] == '"');
        },
        Atom::Number(n) => {
            json::signed_text_is_digits(n);
        },
    }
    message::lemma_first_byte(word);
    assert(bytes[0] == word[0] as u8);
}

/// A key that a message has once is found, with the value that was written there.
pub proof fn members_are_found(pairs: Pairs, k: int)
    requires
        0 <= k < pairs.len(),
        forall|j: int| 0 <= j < pairs.len() && j != k ==> (#[trigger] pairs[j]).0 != pairs[k].0,
    ensures
        holds(message::flat_encoded(pairs), pairs[k].0, Some(pairs[k].1)),
{
    let members = message::flat_encoded(pairs);
    assert forall|j: int| 0 <= j < members.len() && j != k implies (#[trigger] members[j]).0
        != pairs[k].0 by {
        assert(pairs[j].0 == members[j].0);
    }
    message::lemma_field_found(members, pairs[k].0, k);
}

/// A key that a message does not have is not found.
pub proof fn other_members_are_absent(pairs: Pairs, key: Seq<char>)
    requires
        forall|j: int| 0 <= j < pairs.len() ==> (#[trigger] pairs[j]).0 != key,
    ensures
        holds(message::flat_encoded(pairs), key, None),
{
    let members = message::flat_encoded(pairs);
    assert forall|j: int| 0 <= j < members.len() implies (#[trigger] members[j]).0 != key by {
        assert(pairs[j].0 == members[j].0);
    }
    message::lemma_field_found(members, key, members.len() as int);
}

/// A message gives a key the value that it stands before, as it is written, and none where the
/// key does not stand there; one that gives it twice is at fault.
pub proof fn members_are_to_be_given_once(members: Members, key: Seq<char>, k: int)
    requires
        0 <= k <= members.len(),
        forall|j: int| 0 <= j < k ==> (#[trigger] members[j]).0 != key,
        k < members.len() ==> members[k].0 == key,
    ensures
        k == members.len() ==> member(members, key) == Ok::<Option<Seq<u8>>, MessageFaultView>(
            None,
        ) && required(members, key) == Err::<Seq<u8>, _>(MessageFaultView::MissingField(key))
            && present(members, key) == Ok::<Option<Seq<u8>>, MessageFaultView>(None),
        k < members.len() && (exists|j: int|
            k < j < members.len() && (#[trigger] members[j]).0 == key) ==> member(members, key)
            == Err::<Option<Seq<u8>>, _>(MessageFaultView::RepeatedField(key)) && required(
            members,
            key,
        ) == Err::<Seq<u8>, _>(MessageFaultView::RepeatedField(key)) && present(members, key)
            == Err::<Option<Seq<u8>>, _>(MessageFaultView::RepeatedField(key)),
        k < members.len() && (forall|j: int|
            k < j < members.len() ==> (#[trigger] members[j]).0 != key) ==> {
            let value = members[k].1;
            &&& member(members, key) == Ok::<_, MessageFaultView>(Some(value))
            &&& required(members, key) == Ok::<_, MessageFaultView>(value)
            &&& message::is_null(value) ==> present(members, key) == Ok::<
                Option<Seq<u8>>,
                MessageFaultView,
            >(None)
            &&& !message::is_null(value) ==> present(members, key) == Ok::<_, MessageFaultView>(
                Some(value),
            )
        },
{
    message::lemma_field_found(members, key, k);
}

/// A text or a number is read from the value under its key, and a value that is neither is at
/// fault: one that a message must have where it is missing too, one that it may have where it is
/// there and not `null`.
pub proof fn members_are_read_by_their_kind(members: Members, key: Seq<char>, limit: u64)
    ensures
        match required(members, key) {
            Err(fault) => {
                &&& text_member(members, key) == Err::<Seq<char>, _>(fault)
                &&& number_member(members, key, limit) == Err::<u64, _>(fault)
                &&& name_member(members, key) == Err::<Seq<char>, _>(fault)
            },
            Ok(value) => {
                &&& match message::json_string(value) {
                    Some(s) => text_member(members, key) == Ok::<_, MessageFaultView>(s),
                    None => text_member(members, key) == Err::<Seq<char>, _>(
                        MessageFaultView::NotText(key),
                    ),
                }
                &&& match json_u64(value) {
                    Some(n) if n <= limit => number_member(members, key, limit) == Ok::<
                        _,
                        MessageFaultView,
                    >(n),
                    _ => number_member(members, key, limit) == Err::<u64, _>(
                        MessageFaultView::WrongValue(key),
                    ),
                }
                &&& match name_in(value) {
                    Some(s) => name_member(members, key) == Ok::<_, MessageFaultView>(s),
                    None => name_member(members, key) == Err::<Seq<char>, _>(
                        MessageFaultView::WrongValue(key),
                    ),
                }
            },
        },
        match present(members, key) {
            Err(fault) => {
                &&& optional_text_member(members, key) == Err::<Option<Seq<char>>, _>(fault)
                &&& optional_u32_member(members, key) == Err::<Option<u32>, _>(fault)
                &&& optional_i32_member(members, key) == Err::<Option<i32>, _>(fault)
            },
            Ok(None) => {
                &&& optional_text_member(members, key) == Ok::<Option<Seq<char>>, MessageFaultView>(
                    None,
                )
                &&& optional_u32_member(members, key) == Ok::<Option<u32>, MessageFaultView>(None)
                &&& optional_i32_member(members, key) == Ok::<Option<i32>, MessageFaultView>(None)
            },
            Ok(Some(value)) => {
                &&& match message::json_string(value) {
                    Some(s) => optional_text_member(members, key) == Ok::<_, MessageFaultView>(
                        Some(s),
                    ),
                    None => optional_text_member(members, key) == Err::<Option<Seq<char>>, _>(
                        MessageFaultView::NotText(key),
                    ),
                }
                &&& match json_u64(value) {
                    Some(n) if n <= 4_294_967_295 => optional_u32_member(members, key) is Ok
                        && optional_u32_member(members, key)->Ok_0 is Some && optional_u32_member(
                        members,
                        key,
                    )->Ok_0->0 == n,
                    _ => optional_u32_member(members, key) == Err::<Option<u32>, _>(
                        MessageFaultView::WrongValue(key),
                    ),
                }
                &&& match json_i64(value) {
                    Some(n) if -2_147_483_648 <= n <= 2_147_483_647 => optional_i32_member(
                        members,
                        key,
                    ) is Ok && optional_i32_member(members, key)->Ok_0 is Some
                        && optional_i32_member(members, key)->Ok_0->0 == n,
                    _ => optional_i32_member(members, key) == Err::<Option<i32>, _>(
                        MessageFaultView::WrongValue(key),
                    ),
                }
            },
        },
{
}

/// A name is a text, or the only key of an object that holds nothing under it.
pub proof fn names_are_texts_or_only_keys(value: Seq<u8>)
    ensures
        ({
            let parts = message::object_parts(value);
            let alone = message::opens_object(value) && parts.len() == 4;
            &&& message::json_string(value) is Some ==> name_in(value) == message::json_string(
                value,
            )
            &&& message::json_string(value) is None && alone && holds_nothing(parts[2]) ==> name_in(
                value,
            ) == message::json_string(parts[1])
            &&& message::json_string(value) is None && !(alone && holds_nothing(parts[2]))
                ==> name_in(value) is None
            &&& holds_nothing(value) <==> message::is_null(value) || message::opens_object(value)
                && parts.len() == 3
        }),
{
}

/// A message holds a value under a key exactly where it gives the key that value, as it is
/// written.
pub proof fn holding_is_giving(members: Members, key: Seq<char>, atom: Atom)
    ensures
        holds(members, key, Some(atom)) <==> member(members, key) == Ok::<_, MessageFaultView>(
            Some(atom.encoded()),
        ),
        holds(members, key, None) <==> member(members, key) == Ok::<
            Option<Seq<u8>>,
            MessageFaultView,
        >(None),
{
}

} // verus!
