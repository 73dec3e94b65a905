//! JSON as this project writes it: compact, with its members in a fixed order.

use crate::text::{self, copy_text, decimal_text};
use vstd::prelude::*;
use vstd::string::*;

verus! {

/// The lower-case hexadecimal digit that stands for `d`.
pub open spec fn hex_digit(d: nat) -> char {
    if d < 10 {
        (('0' as nat + d) as u32) as char
    } else {
        (('a' as nat + d - 10) as u32) as char
    }
}

/// How a character stands inside a JSON string.
pub open spec fn escaped_char(c: char) -> Seq<char> {
    if c == '"' {
        seq!['\\', '"']
    } else if c == '\\' {
        seq!['\\', '\\']
    } else if c == '\u{8}' {
        seq!['\\', 'b']
    } else if c == '\t' {
        seq!['\\', 't']
    } else if c == '\n' {
        seq!['\\', 'n']
    } else if c == '\u{c}' {
        seq!['\\', 'f']
    } else if c == '\r' {
        seq!['\\', 'r']
    } else if c as nat <= 31 {
        seq!['\\', 'u', '0', '0', hex_digit(c as nat / 16), hex_digit(c as nat % 16)]
    } else {
        seq![c]
    }
}

/// How a text stands inside a JSON string.
pub open spec fn escaped(s: Seq<char>) -> Seq<char>
    decreases s.len(),
{
    if s.len() == 0 {
        Seq::empty()
    } else {
        escaped(s.drop_last()) + escaped_char(s.last())
    }
}

/// A text as a JSON string.
pub open spec fn quoted(s: Seq<char>) -> Seq<char> {
    seq!['"'] + escaped(s) + seq!['"']
}

/// Calls `serde_json::to_string` on a string. Trusted: the string comes out in double
/// quotes; the quote, the backslash and the control characters are escaped, the latter by
/// their short form where JSON has one, and every other character stands for itself.
#[verifier::external_body]
pub(crate) fn quote(s: &str) -> (r: String)
    ensures
        r@ == quoted(s@),
{
    serde_json::to_string(s).expect("a string serializes")
}

/// One member of an object: its key, and its value as JSON text.
pub type Member = (Seq<char>, Seq<char>);

pub open spec fn member_text(member: Member) -> Seq<char> {
    quoted(member.0) + seq![':'] + member.1
}

pub open spec fn members_text(members: Seq<Member>) -> Seq<char>
    decreases members.len(),
{
    if members.len() == 0 {
        Seq::empty()
    } else if members.len() == 1 {
        member_text(members[0])
    } else {
        members_text(members.drop_last()) + seq![','] + member_text(members.last())
    }
}

/// An object with these members, without spaces, in their order.
pub open spec fn object_text(members: Seq<Member>) -> Seq<char> {
    seq!['{'] + members_text(members) + seq!['}']
}

pub open spec fn items_text(items: Seq<Seq<char>>) -> Seq<char>
    decreases items.len(),
{
    if items.len() == 0 {
        Seq::empty()
    } else if items.len() == 1 {
        items[0]
    } else {
        items_text(items.drop_last()) + seq![','] + items.last()
    }
}

/// An array of these items, without spaces.
pub open spec fn array_text(items: Seq<Seq<char>>) -> Seq<char> {
    seq!['['] + items_text(items) + seq![']']
}

pub open spec fn bool_text(b: bool) -> Seq<char> {
    if b {
        "true"@
    } else {
        "false"@
    }
}

/// A signed number in decimal.
pub open spec fn signed_text(n: int) -> Seq<char> {
    if n < 0 {
        seq!['-'] + text::decimal((-n) as nat)
    } else {
        text::decimal(n as nat)
    }
}

/// The members with one more, where there is a value for it.
pub open spec fn with_optional(
    members: Seq<Member>,
    key: Seq<char>,
    value: Option<Seq<char>>,
) -> Seq<Member> {
    match value {
        Some(v) => members.push((key, v)),
        None => members,
    }
}

/// A list of texts as an array of strings.
pub open spec fn texts_array(texts: Seq<Seq<char>>) -> Seq<char> {
    array_text(Seq::new(texts.len(), |i: int| quoted(texts[i])))
}

pub fn bool_json(b: bool) -> (r: &'static str)
    ensures
        r@ == bool_text(b),
{
    if b {
        "true"
    } else {
        "false"
    }
}

pub fn signed_json(n: i32) -> (r: String)
    ensures
        r@ == signed_text(n as int),
{
    if n < 0 {
        proof {
            reveal_strlit("-");
            assert("-"@ =~= seq!['-']);
        }
        let mut r = copy_text("-");
        let magnitude: i64 = -(n as i64);
        r.append(decimal_text(magnitude as u64).as_str());
        r
    } else {
        decimal_text(n as u64)
    }
}

/// An object that is being written.
pub struct ObjectWriter {
    text: String,
    started: bool,
    members: Ghost<Seq<Member>>,
}

impl ObjectWriter {
    pub closed spec fn wf(&self) -> bool {
        &&& self.text@ == seq!['{'] + members_text(self.members@)
        &&& self.started == (self.members@.len() > 0)
    }

    /// The members written so far.
    pub closed spec fn members(&self) -> Seq<Member> {
        self.members@
    }

    pub fn new() -> (r: ObjectWriter)
        ensures
            r.wf(),
            r.members() == Seq::<Member>::empty(),
    {
        proof {
            reveal_strlit("{");
        }
        let r = ObjectWriter {
            text: copy_text("{"),
            started: false,
            members: Ghost(Seq::empty()),
        };
        assert(r.text@ =~= seq!['{'] + members_text(r.members@));
        r
    }

    /// Writes one member whose value is JSON text already.
    pub fn member(&mut self, key: &str, value: &str)
        requires
            old(self).wf(),
        ensures
            final(self).wf(),
            final(self).members() == old(self).members().push((key@, value@)),
    {
        proof {
            reveal_strlit(",");
            reveal_strlit(":");
        }
        let ghost before = self.members@;
        let ghost text_before = self.text@;
        if self.started {
            self.text.append(",");
        }
        self.text.append(quote(key).as_str());
        self.text.append(":");
        self.text.append(value);
        self.started = true;
        self.members = Ghost(before.push((key@, value@)));
        proof {
            let after = before.push((key@, value@));
            assert(after.drop_last() =~= before);
            assert(","@ =~= seq![',']);
            assert(":"@ =~= seq![':']);
            if before.len() == 0 {
                assert(self.text@ =~= seq!['{'] + member_text((key@, value@)));
            } else {
                assert(self.text@ =~= seq!['{'] + (members_text(before) + seq![','] + member_text(
                    (key@, value@),
                )));
            }
        }
    }

    /// Writes one member whose value is a string.
    pub fn text_member(&mut self, key: &str, value: &str)
        requires
            old(self).wf(),
        ensures
            final(self).wf(),
            final(self).members() == old(self).members().push((key@, quoted(value@))),
    {
        self.member(key, quote(value).as_str());
    }

    /// Writes one member whose value is a number.
    pub fn number_member(&mut self, key: &str, value: u64)
        requires
            old(self).wf(),
        ensures
            final(self).wf(),
            final(self).members() == old(self).members().push((key@, text::decimal(value as nat))),
    {
        self.member(key, decimal_text(value).as_str());
    }

    /// Writes one member whose value is a list of strings.
    pub fn texts_member(&mut self, key: &str, texts: &Vec<String>)
        requires
            old(self).wf(),
        ensures
            final(self).wf(),
            final(self).members() == old(self).members().push(
                (key@, texts_array(text::text_views(texts@))),
            ),
    {
        let array = texts_json(texts);
        self.member(key, array.as_str());
    }

    pub fn finish(self) -> (r: String)
        requires
            self.wf(),
        ensures
            r@ == object_text(self.members()),
    {
        proof {
            reveal_strlit("}");
            assert("}"@ =~= seq!['}']);
        }
        let mut r = self.text;
        r.append("}");
        r
    }
}

/// Puts items into an array.
pub fn array_json(items: &Vec<String>) -> (r: String)
    ensures
        r@ == array_text(text::text_views(items@)),
{
    proof {
        reveal_strlit("[");
        reveal_strlit("]");
        reveal_strlit(",");
        assert("["@ =~= seq!['[']);
        assert("]"@ =~= seq![']']);
        assert(","@ =~= seq![',']);
    }
    let ghost views = text::text_views(items@);
    let mut r = copy_text("[");
    let mut i: usize = 0;
    assert(views.take(0) =~= Seq::empty());
    assert(r@ =~= seq!['['] + items_text(views.take(0)));
    while i < items.len()
        invariant
            i <= items@.len(),
            views == text::text_views(items@),
            r@ == seq!['['] + items_text(views.take(i as int)),
            ","@ == seq![','],
        decreases items@.len() - i,
    {
        let ghost before = r@;
        if i > 0 {
            r.append(",");
        }
        r.append(items[i].as_str());
        proof {
            let longer = views.take(i + 1);
            assert(longer.drop_last() =~= views.take(i as int));
            assert(longer.last() == items@[i as int]@);
            if i == 0 {
                assert(longer[0] == items@[0]@);
                assert(views.take(0) =~= Seq::empty());
                assert(r@ =~= seq!['['] + longer[0]);
            } else {
                assert(r@ =~= seq!['['] + (items_text(views.take(i as int)) + seq![',']
                    + longer.last()));
            }
        }
        i = i + 1;
    }
    assert(views.take(i as int) =~= views);
    r.append("]");
    r
}

/// Puts texts into an array of strings.
pub fn texts_json(texts: &Vec<String>) -> (r: String)
    ensures
        r@ == texts_array(text::text_views(texts@)),
{
    let mut items: Vec<String> = Vec::new();
    let mut i: usize = 0;
    while i < texts.len()
        invariant
            i <= texts@.len(),
            items@.len() == i,
            forall|j: int| 0 <= j < i ==> (#[trigger] items@[j])@ == quoted(texts@[j]@),
        decreases texts@.len() - i,
    {
        items.push(quote(texts[i].as_str()));
        i = i + 1;
    }
    let ghost views = text::text_views(texts@);
    assert(text::text_views(items@) =~= Seq::new(views.len(), |j: int| quoted(views[j])));
    array_json(&items)
}

/// Whether a text stays on one line.
pub open spec fn one_line(s: Seq<char>) -> bool {
    !s.contains('\n')
}

proof fn lemma_one_line_concat(a: Seq<char>, b: Seq<char>)
    requires
        one_line(a),
        one_line(b),
    ensures
        one_line(a + b),
{
    if (a + b).contains('\n') {
        let i = choose|i: int| 0 <= i < (a + b).len() && (a + b)[i] == '\n';
        if i < a.len() {
            assert(a[i] == '\n');
            assert(a.contains('\n'));
        } else {
            assert(b[i - a.len()] == '\n');
            assert(b.contains('\n'));
        }
    }
}

/// A JSON string never holds a line break, whatever the text that it stands for.
pub proof fn quoted_text_is_one_line(s: Seq<char>)
    ensures
        one_line(quoted(s)),
{
    lemma_escaped_one_line(s);
    assert(one_line(seq!['"']));
    lemma_one_line_concat(seq!['"'], escaped(s));
    lemma_one_line_concat(seq!['"'] + escaped(s), seq!['"']);
}

proof fn lemma_escaped_one_line(s: Seq<char>)
    ensures
        one_line(escaped(s)),
    decreases s.len(),
{
    if s.len() > 0 {
        lemma_escaped_one_line(s.drop_last());
        assert(one_line(escaped_char(s.last())));
        lemma_one_line_concat(escaped(s.drop_last()), escaped_char(s.last()));
    }
}

/// An object stays on one line where the values of its members do.
pub proof fn object_is_one_line(members: Seq<Member>)
    requires
        forall|i: int| 0 <= i < members.len() ==> one_line((#[trigger] members[i]).1),
    ensures
        one_line(object_text(members)),
{
    lemma_members_one_line(members);
    assert(one_line(seq!['{']));
    assert(one_line(seq!['}']));
    lemma_one_line_concat(seq!['{'], members_text(members));
    lemma_one_line_concat(seq!['{'] + members_text(members), seq!['}']);
}

proof fn lemma_members_one_line(members: Seq<Member>)
    requires
        forall|i: int| 0 <= i < members.len() ==> one_line((#[trigger] members[i]).1),
    ensures
        one_line(members_text(members)),
    decreases members.len(),
{
    if members.len() > 0 {
        let last = members.last();
        assert(one_line(members[members.len() - 1].1));
        quoted_text_is_one_line(last.0);
        assert(one_line(seq![':']));
        assert(one_line(seq![',']));
        lemma_one_line_concat(quoted(last.0), seq![':']);
        lemma_one_line_concat(quoted(last.0) + seq![':'], last.1);
        if members.len() > 1 {
            let front = members.drop_last();
            assert forall|i: int| 0 <= i < front.len() implies one_line((#[trigger] front[i]).1) by {
                assert(front[i] == members[i]);
            }
            lemma_members_one_line(front);
            lemma_one_line_concat(members_text(front), seq![',']);
            lemma_one_line_concat(members_text(front) + seq![','], member_text(last));
        }
    }
}

/// An array stays on one line where its items do.
pub proof fn array_is_one_line(items: Seq<Seq<char>>)
    requires
        forall|i: int| 0 <= i < items.len() ==> one_line(#[trigger] items[i]),
    ensures
        one_line(array_text(items)),
{
    lemma_items_one_line(items);
    assert(one_line(seq!['[']));
    assert(one_line(seq![']']));
    lemma_one_line_concat(seq!['['], items_text(items));
    lemma_one_line_concat(seq!['['] + items_text(items), seq![']']);
}

proof fn lemma_items_one_line(items: Seq<Seq<char>>)
    requires
        forall|i: int| 0 <= i < items.len() ==> one_line(#[trigger] items[i]),
    ensures
        one_line(items_text(items)),
    decreases items.len(),
{
    if items.len() > 1 {
        let front = items.drop_last();
        assert forall|i: int| 0 <= i < front.len() implies one_line(#[trigger] front[i]) by {
            assert(front[i] == items[i]);
        }
        lemma_items_one_line(front);
        assert(one_line(seq![',']));
        assert(one_line(items[items.len() - 1]));
        lemma_one_line_concat(items_text(front), seq![',']);
        lemma_one_line_concat(items_text(front) + seq![','], items.last());
    } else if items.len() == 1 {
        assert(one_line(items[0]));
    }
}

/// A list of strings stays on one line.
pub proof fn texts_array_is_one_line(texts: Seq<Seq<char>>)
    ensures
        one_line(texts_array(texts)),
{
    let items = Seq::new(texts.len(), |i: int| quoted(texts[i]));
    assert forall|i: int| 0 <= i < items.len() implies one_line(#[trigger] items[i]) by {
        quoted_text_is_one_line(texts[i]);
    }
    array_is_one_line(items);
}

/// A number stays on one line.
pub proof fn decimal_is_one_line(n: nat)
    ensures
        one_line(text::decimal(n)),
    decreases n,
{
    if n < 10 {
        assert(text::decimal(n) =~= seq![text::digit_char(n)]);
        assert(text::digit_char(n) != '\n');
    } else {
        decimal_is_one_line(n / 10);
        let digit = seq![text::digit_char(n % 10)];
        assert(text::digit_char(n % 10) != '\n');
        assert(one_line(digit));
        lemma_one_line_concat(text::decimal(n / 10), digit);
        assert(text::decimal(n) =~= text::decimal(n / 10) + digit);
    }
}

/// A signed number stays on one line.
pub proof fn signed_is_one_line(n: int)
    ensures
        one_line(signed_text(n)),
{
    if n < 0 {
        decimal_is_one_line((-n) as nat);
        assert(one_line(seq!['-']));
        lemma_one_line_concat(seq!['-'], text::decimal((-n) as nat));
    } else {
        decimal_is_one_line(n as nat);
    }
}

/// A truth value stays on one line.
pub proof fn bool_is_one_line(b: bool)
    ensures
        one_line(bool_text(b)),
{
    reveal_strlit("true");
    reveal_strlit("false");
}

/// A text's quotes and escapes make it six times as long at most, and two characters.
pub proof fn quoting_adds_little(s: Seq<char>)
    ensures
        quoted(s).len() <= 6 * s.len() + 2,
{
    lemma_escaped_len(s);
}

proof fn lemma_escaped_len(s: Seq<char>)
    ensures
        escaped(s).len() <= 6 * s.len(),
    decreases s.len(),
{
    if s.len() > 0 {
        lemma_escaped_len(s.drop_last());
    }
}

/// A signed number is digits behind a minus sign or none.
pub proof fn signed_text_is_digits(n: int)
    ensures
        signed_text(n).len() > 0,
        forall|i: int|
            0 <= i < signed_text(n).len() ==> (#[trigger] signed_text(n)[i]) == '-' || '0'
                <= signed_text(n)[i] <= '9',
{
    if n < 0 {
        text::decimals_tell_numbers((-n) as nat, 0);
        assert forall|i: int| 0 <= i < signed_text(n).len() implies (#[trigger] signed_text(n)[i])
            == '-' || '0' <= signed_text(n)[i] <= '9' by {
            if i > 0 {
                assert(signed_text(n)[i] == text::decimal((-n) as nat)[i - 1]);
            }
        }
    } else {
        text::decimals_tell_numbers(n as nat, 0);
    }
}

/// Two numbers differ in how they are written.
pub proof fn signed_texts_tell_numbers(n: int, m: int)
    requires
        signed_text(n) == signed_text(m),
    ensures
        n == m,
{
    let a = if n < 0 {
        (-n) as nat
    } else {
        n as nat
    };
    let b = if m < 0 {
        (-m) as nat
    } else {
        m as nat
    };
    text::decimals_tell_numbers(a, b);
    text::decimals_tell_numbers(b, a);
    if n < 0 {
        assert(signed_text(n)[0] == '-');
        if m >= 0 {
            assert('0' <= text::decimal(b)[0] <= '9');
        }
        assert(signed_text(n).skip(1) =~= text::decimal(a));
        assert(signed_text(m).skip(1) =~= text::decimal(b));
    } else if m < 0 {
        assert(signed_text(m)[0] == '-');
        assert('0' <= text::decimal(a)[0] <= '9');
    }
}

/// Two texts differ in how they are quoted.
pub proof fn quoted_texts_tell_texts(s: Seq<char>, t: Seq<char>)
    requires
        quoted(s) == quoted(t),
    ensures
        s == t,
{
    assert(quoted(s).subrange(1, quoted(s).len() - 1) =~= escaped(s));
    assert(quoted(t).subrange(1, quoted(t).len() - 1) =~= escaped(t));
    lemma_escaped_tells(s, t);
}

proof fn lemma_escaped_front(s: Seq<char>)
    requires
        s.len() > 0,
    ensures
        escaped(s) == escaped_char(s[0]) + escaped(s.skip(1)),
    decreases s.len(),
{
    if s.len() == 1 {
        assert(s.drop_last() =~= Seq::empty());
        assert(s.skip(1) =~= Seq::empty());
        assert(escaped(s) =~= escaped_char(s[0]) + escaped(s.skip(1)));
    } else {
        lemma_escaped_front(s.drop_last());
        assert(s.drop_last().skip(1) =~= s.skip(1).drop_last());
        assert(s.skip(1).last() == s.last());
        assert(escaped(s) =~= escaped_char(s[0]) + escaped(s.skip(1)));
    }
}

proof fn lemma_escaped_tells(s: Seq<char>, t: Seq<char>)
    requires
        escaped(s) == escaped(t),
    ensures
        s == t,
    decreases s.len(),
{
    if s.len() == 0 || t.len() == 0 {
        if s.len() > 0 {
            lemma_escaped_front(s);
        }
        if t.len() > 0 {
            lemma_escaped_front(t);
        }
        assert(s =~= t);
    } else {
        lemma_escaped_front(s);
        lemma_escaped_front(t);
        let a = escaped_char(s[0]);
        let b = escaped_char(t[0]);
        let whole = escaped(s);
        lemma_escaped_chars(s[0], t[0], escaped(s.skip(1)), escaped(t.skip(1)));
        assert(whole.skip(a.len() as int) =~= escaped(s.skip(1)));
        assert(whole.skip(b.len() as int) =~= escaped(t.skip(1)));
        lemma_escaped_tells(s.skip(1), t.skip(1));
        assert(s =~= seq![s[0]] + s.skip(1));
        assert(t =~= seq![t[0]] + t.skip(1));
    }
}

/// What a text starts with, once it is escaped, tells its first character.
proof fn lemma_escaped_chars(c: char, d: char, p: Seq<char>, q: Seq<char>)
    requires
        escaped_char(c) + p == escaped_char(d) + q,
    ensures
        c == d,
{
    let a = escaped_char(c);
    let b = escaped_char(d);
    let whole = a + p;
    assert(whole[0] == a[0] && whole[0] == b[0]);
    if a.len() > 1 && b.len() > 1 {
        assert(whole[1] == a[1] && whole[1] == b[1]);
        if a.len() == 6 && b.len() == 6 {
            assert(whole[4] == a[4] && whole[4] == b[4]);
            assert(whole[5] == a[5] && whole[5] == b[5]);
            lemma_hex_digits_tell(c as nat / 16, d as nat / 16);
            lemma_hex_digits_tell(c as nat % 16, d as nat % 16);
            assert(c as nat == d as nat);
        }
    }
}

proof fn lemma_hex_digits_tell(a: nat, b: nat)
    requires
        a < 16,
        b < 16,
        hex_digit(a) == hex_digit(b),
    ensures
        a == b,
{
}

/// A text without quotes, backslashes and control characters stands between quotes as it is.
pub proof fn plain_texts_are_quoted_as_they_are(s: Seq<char>)
    requires
        forall|i: int|
            0 <= i < s.len() ==> (#[trigger] s[i]) != '"' && s[i] != '\\' && s[i] as nat > 31,
    ensures
        quoted(s) == seq!['"'] + s + seq!['"'],
{
    lemma_plain_escaped(s);
}

proof fn lemma_plain_escaped(s: Seq<char>)
    requires
        forall|i: int|
            0 <= i < s.len() ==> (#[trigger] s[i]) != '"' && s[i] != '\\' && s[i] as nat > 31,
    ensures
        escaped(s) == s,
    decreases s.len(),
{
    if s.len() > 0 {
        let front = s.drop_last();
        assert forall|i: int| 0 <= i < front.len() implies (#[trigger] front[i]) != '"' && front[i]
            != '\\' && front[i] as nat > 31 by {
            assert(front[i] == s[i]);
        }
        lemma_plain_escaped(front);
        let last = s[s.len() - 1];
        assert(last != '"' && last != '\\' && last as nat > 31);
        assert(escaped_char(last) == seq![last]);
        assert(escaped(s) =~= s);
    } else {
        assert(escaped(s) =~= s);
    }
}

/// A text is escaped character by character.
pub proof fn escapes_stand_side_by_side(s: Seq<char>, t: Seq<char>)
    ensures
        escaped(s + t) == escaped(s) + escaped(t),
    decreases t.len(),
{
    if t.len() == 0 {
        assert(s + t =~= s);
        assert(escaped(s) + escaped(t) =~= escaped(s));
    } else {
        assert((s + t).drop_last() =~= s + t.drop_last());
        escapes_stand_side_by_side(s, t.drop_last());
        assert(escaped(s + t) =~= escaped(s) + escaped(t));
    }
}

/// An object is its members between braces, each a quoted key, a colon and its value, in
/// their order with commas between them, and nothing else.
pub proof fn objects_hold_their_members(members: Seq<Member>, key: Seq<char>, value: Seq<char>)
    ensures
        object_text(Seq::empty()) == "{}"@,
        object_text(seq![(key, value)]) == "{"@ + quoted(key) + ":"@ + value + "}"@,
        members.len() > 0 ==> object_text(members.push((key, value))) == object_text(
            members,
        ).drop_last() + ","@ + quoted(key) + ":"@ + value + "}"@,
{
    reveal_strlit("{");
    reveal_strlit("}");
    reveal_strlit("{}");
    reveal_strlit(",");
    reveal_strlit(":");
    assert(object_text(Seq::<Member>::empty()) =~= "{}"@);
    assert(object_text(seq![(key, value)]) =~= "{"@ + quoted(key) + ":"@ + value + "}"@);
    if members.len() > 0 {
        let longer = members.push((key, value));
        assert(longer.drop_last() =~= members);
        assert(object_text(members).drop_last() =~= seq!['{'] + members_text(members));
        assert(object_text(longer) =~= object_text(members).drop_last() + ","@ + quoted(key) + ":"@
            + value + "}"@);
    }
}

/// An array is its items between brackets, in their order with commas between them.
pub proof fn arrays_hold_their_items(items: Seq<Seq<char>>, item: Seq<char>)
    ensures
        array_text(Seq::empty()) == "[]"@,
        array_text(seq![item]) == "["@ + item + "]"@,
        items.len() > 0 ==> array_text(items.push(item)) == array_text(items).drop_last() + ","@
            + item + "]"@,
{
    reveal_strlit("[");
    reveal_strlit("]");
    reveal_strlit("[]");
    reveal_strlit(",");
    assert(array_text(Seq::<Seq<char>>::empty()) =~= "[]"@);
    assert(array_text(seq![item]) =~= "["@ + item + "]"@);
    if items.len() > 0 {
        let longer = items.push(item);
        assert(longer.drop_last() =~= items);
        assert(array_text(items).drop_last() =~= seq!['['] + items_text(items));
        assert(array_text(longer) =~= array_text(items).drop_last() + ","@ + item + "]"@);
    }
}

/// A list of texts is the array of the texts, each quoted.
pub proof fn text_lists_quote_their_texts(texts: Seq<Seq<char>>, s: Seq<char>)
    ensures
        texts_array(Seq::empty()) == "[]"@,
        texts_array(seq![s]) == "["@ + quoted(s) + "]"@,
        texts.len() > 0 ==> texts_array(texts.push(s)) == texts_array(texts).drop_last() + ","@
            + quoted(s) + "]"@,
{
    let items = Seq::new(texts.len(), |i: int| quoted(texts[i]));
    arrays_hold_their_items(items, quoted(s));
    let none = Seq::<Seq<char>>::empty();
    assert(Seq::new(none.len(), |i: int| quoted(none[i])) =~= none);
    let one = seq![s];
    assert(Seq::new(one.len(), |i: int| quoted(one[i])) =~= seq![quoted(s)]);
    let longer = texts.push(s);
    assert(Seq::new(longer.len(), |i: int| quoted(longer[i])) =~= items.push(quoted(s)));
}

/// Truth values and signed numbers are written as JSON has them.
pub proof fn scalars_are_written_plainly(n: nat)
    ensures
        bool_text(true) == "true"@,
        bool_text(false) == "false"@,
        signed_text(n as int) == text::decimal(n),
        n > 0 ==> signed_text(-(n as int)) == "-"@ + text::decimal(n),
{
    reveal_strlit("-");
    assert("-"@ =~= seq!['-']);
}

/// Within a JSON string a quote and a backslash stand behind a backslash, the control characters
/// that have a short form by that and the others by their number, and every other character
/// stands for itself.
pub proof fn characters_are_escaped_where_they_must_be(c: char)
    ensures
        quoted(seq![c]) == seq!['"'] + (if c == '"' || c == '\\' {
            seq!['\\', c]
        } else if c as int == 8 {
            seq!['\\', 'b']
        } else if c as int == 9 {
            seq!['\\', 't']
        } else if c as int == 10 {
            seq!['\\', 'n']
        } else if c as int == 12 {
            seq!['\\', 'f']
        } else if c as int == 13 {
            seq!['\\', 'r']
        } else if c as int > 31 {
            seq![c]
        } else {
            escaped_char(c)
        }) + seq!['"'],
        c as int <= 31 && c as int != 8 && c as int != 9 && c as int != 10 && c as int != 12 && c
            as int != 13 ==> {
            let e = escaped_char(c);
            &&& e.len() == 6
            &&& e[0] == '\\' && e[1] == 'u' && e[2] == '0' && e[3] == '0'
            &&& c as int >= 16 <==> e[4] == '1'
            &&& c as int <= 15 <==> e[4] == '0'
            &&& c as int % 16 < 10 ==> e[5] as int == 48 + c as int % 16
            &&& c as int % 16 >= 10 ==> e[5] as int == 87 + c as int % 16
        },
{
    let s = seq![c];
    assert(s.drop_last() =~= Seq::empty());
    assert(escaped(s.drop_last()) =~= Seq::empty());
    assert(escaped(s) =~= escaped_char(c));
    if c as int <= 31 {
        assert(c as nat / 16 == 0 || c as nat / 16 == 1);
    }
}

} // verus!
