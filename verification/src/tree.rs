//! TOML documents as plain trees, and strict reading of typed keys from their tables.

use crate::text::{self, copy_text, same_text};
use vstd::prelude::*;
use vstd::string::*;

verus! {

/// The outside type `toml::Value`. Nothing of its inside is known here.
#[verifier::external_type_specification]
#[verifier::external_body]
pub struct ExTomlValue(toml::Value);

/// What a TOML value is. No key of this project takes a float or a date, so of those two
/// only the kind is kept.
pub enum TomlNode {
    Text(Seq<char>),
    Integer(int),
    Float,
    Boolean(bool),
    Datetime,
    Array(Seq<TomlNode>),
    Table(Seq<(Seq<char>, TomlNode)>),
}

/// What a `toml::Value` holds.
pub uninterp spec fn toml_node(value: toml::Value) -> TomlNode;

/// What `toml` makes of a document: its tree, or the message of a syntax error.
pub uninterp spec fn toml_document(src: Seq<char>) -> Result<TomlNode, Seq<char>>;

/// Calls `toml::from_str`. Trusted: what comes back, tree or message, depends on the text
/// alone.
#[verifier::external_body]
fn parse_document(src: &str) -> (r: Result<toml::Value, String>)
    ensures
        match r {
            Ok(value) => toml_document(src@) == Ok::<TomlNode, Seq<char>>(toml_node(value)),
            Err(message) => toml_document(src@) == Err::<TomlNode, Seq<char>>(message@),
        },
{
    toml::from_str::<toml::Value>(src).map_err(|e| e.to_string())
}

/// A `toml::Value`, opened one level deep.
enum TomlLevel {
    Text(String),
    Integer(i64),
    Float,
    Boolean(bool),
    Datetime,
    Array(Vec<toml::Value>),
    Table(Vec<(String, toml::Value)>),
}

impl TomlLevel {
    spec fn node(self) -> TomlNode {
        match self {
            TomlLevel::Text(s) => TomlNode::Text(s@),
            TomlLevel::Integer(i) => TomlNode::Integer(i as int),
            TomlLevel::Float => TomlNode::Float,
            TomlLevel::Boolean(b) => TomlNode::Boolean(b),
            TomlLevel::Datetime => TomlNode::Datetime,
            TomlLevel::Array(items) => TomlNode::Array(
                Seq::new(items@.len(), |i: int| toml_node(items@[i])),
            ),
            TomlLevel::Table(entries) => TomlNode::Table(
                Seq::new(entries@.len(), |i: int| (entries@[i].0@, toml_node(entries@[i].1))),
            ),
        }
    }
}

/// Tells the variants of `toml::Value` apart and copies what they carry. Trusted: the
/// opened value holds what the outside one holds; a table hands out its entries in its own
/// order.
#[verifier::external_body]
fn open_value(value: &toml::Value) -> (r: TomlLevel)
    ensures
        r.node() == toml_node(*value),
{
    match value.clone() {
        toml::Value::String(s) => TomlLevel::Text(s),
        toml::Value::Integer(i) => TomlLevel::Integer(i),
        toml::Value::Float(_) => TomlLevel::Float,
        toml::Value::Boolean(b) => TomlLevel::Boolean(b),
        toml::Value::Datetime(_) => TomlLevel::Datetime,
        toml::Value::Array(items) => TomlLevel::Array(items),
        toml::Value::Table(table) => TomlLevel::Table(table.into_iter().collect()),
    }
}

/// A TOML value as plain data. A table lists its keys with their values.
#[derive(Debug)]
pub enum TomlValue {
    Text(String),
    Integer(i64),
    Float,
    Boolean(bool),
    Datetime,
    Array(Vec<TomlValue>),
    Table(Vec<(String, TomlValue)>),
}

impl TomlValue {
    /// The value's model.
    pub open spec fn node(self) -> TomlNode
        decreases self,
    {
        match self {
            TomlValue::Text(s) => TomlNode::Text(s@),
            TomlValue::Integer(i) => TomlNode::Integer(i as int),
            TomlValue::Float => TomlNode::Float,
            TomlValue::Boolean(b) => TomlNode::Boolean(b),
            TomlValue::Datetime => TomlNode::Datetime,
            TomlValue::Array(items) => TomlNode::Array(nodes(items@)),
            TomlValue::Table(entries) => TomlNode::Table(entry_nodes(entries@)),
        }
    }
}

/// Whether a value is an array or a table with nothing in it.
pub open spec fn is_empty(value: TomlNode) -> bool {
    match value {
        TomlNode::Array(items) => items.len() == 0,
        TomlNode::Table(entries) => entries.len() == 0,
        _ => false,
    }
}

impl TomlValue {
    /// Tells whether the value is an array or a table with nothing in it.
    pub fn holds_nothing(&self) -> (r: bool)
        ensures
            r == is_empty(self.node()),
    {
        match self {
            TomlValue::Array(items) => {
                proof {
                    nodes_by_index(items@);
                }
                items.len() == 0
            },
            TomlValue::Table(entries) => {
                proof {
                    entry_nodes_by_index(entries@);
                }
                entries.len() == 0
            },
            _ => false,
        }
    }
}

/// The models of a list of values.
pub open spec fn nodes(items: Seq<TomlValue>) -> Seq<TomlNode>
    decreases items,
{
    if items.len() == 0 {
        Seq::empty()
    } else {
        nodes(items.drop_last()).push(items.last().node())
    }
}

/// The models of a table's entries.
pub open spec fn entry_nodes(entries: Seq<(String, TomlValue)>) -> TomlEntries
    decreases entries,
{
    if entries.len() == 0 {
        Seq::empty()
    } else {
        entry_nodes(entries.drop_last()).push((entries.last().0@, entries.last().1.node()))
    }
}

/// The model of a list has the models of its items.
pub proof fn nodes_by_index(items: Seq<TomlValue>)
    ensures
        nodes(items).len() == items.len(),
        forall|i: int| 0 <= i < items.len() ==> #[trigger] nodes(items)[i] == items[i].node(),
    decreases items.len(),
{
    if items.len() > 0 {
        nodes_by_index(items.drop_last());
    }
}

/// The model of a table has the keys and the models of its entries.
pub proof fn entry_nodes_by_index(entries: Seq<(String, TomlValue)>)
    ensures
        entry_nodes(entries).len() == entries.len(),
        forall|i: int|
            0 <= i < entries.len() ==> #[trigger] entry_nodes(entries)[i] == (
                entries[i].0@,
                entries[i].1.node(),
            ),
    decreases entries.len(),
{
    if entries.len() > 0 {
        entry_nodes_by_index(entries.drop_last());
    }
}

/// Takes a `toml::Value` apart, down to its leaves.
fn plain_value(value: &toml::Value) -> (r: TomlValue)
    ensures
        r.node() == toml_node(*value),
    decreases toml_node(*value),
{
    match open_value(value) {
        TomlLevel::Text(s) => TomlValue::Text(s),
        TomlLevel::Integer(i) => TomlValue::Integer(i),
        TomlLevel::Float => TomlValue::Float,
        TomlLevel::Boolean(b) => TomlValue::Boolean(b),
        TomlLevel::Datetime => TomlValue::Datetime,
        TomlLevel::Array(items) => {
            let ghost model = toml_node(*value)->Array_0;
            let mut plain: Vec<TomlValue> = Vec::new();
            let mut i: usize = 0;
            while i < items.len()
                invariant
                    i <= items@.len(),
                    toml_node(*value) == TomlNode::Array(model),
                    model == Seq::new(items@.len(), |j: int| toml_node(items@[j])),
                    plain@.len() == i,
                    forall|j: int| 0 <= j < i ==> (#[trigger] plain@[j]).node() == model[j],
                decreases items@.len() - i,
            {
                assert(model[i as int] == toml_node(items@[i as int]));
                assert(decreases_to!(toml_node(*value) => toml_node(*value)->Array_0));
                assert(decreases_to!(model => model[i as int]));
                plain.push(plain_value(&items[i]));
                i = i + 1;
            }
            proof {
                nodes_by_index(plain@);
                assert(nodes(plain@) =~= model);
            }
            TomlValue::Array(plain)
        },
        TomlLevel::Table(entries) => {
            let ghost model = toml_node(*value)->Table_0;
            let mut plain: Vec<(String, TomlValue)> = Vec::new();
            let mut i: usize = 0;
            while i < entries.len()
                invariant
                    i <= entries@.len(),
                    toml_node(*value) == TomlNode::Table(model),
                    model == Seq::new(
                        entries@.len(),
                        |j: int| (entries@[j].0@, toml_node(entries@[j].1)),
                    ),
                    plain@.len() == i,
                    forall|j: int|
                        0 <= j < i ==> model[j] == (
                            (#[trigger] plain@[j]).0@,
                            plain@[j].1.node(),
                        ),
                decreases entries@.len() - i,
            {
                assert(model[i as int] == (
                    entries@[i as int].0@,
                    toml_node(entries@[i as int].1),
                ));
                assert(decreases_to!(toml_node(*value) => toml_node(*value)->Table_0));
                assert(decreases_to!(model => model[i as int]));
                assert(decreases_to!(model[i as int] => model[i as int].1));
                plain.push((copy_text(entries[i].0.as_str()), plain_value(&entries[i].1)));
                i = i + 1;
            }
            proof {
                entry_nodes_by_index(plain@);
                assert(entry_nodes(plain@) =~= model);
            }
            TomlValue::Table(plain)
        },
    }
}

/// Why a document cannot be taken.
#[derive(Debug)]
pub enum TomlFault {
    /// The text is no TOML document; the message says where.
    Syntax(String),
    /// A key that the table must not hold.
    UnknownKey(String),
    /// A key that the table must hold and does not.
    MissingKey(String),
    /// A key whose value is of another type or out of its type's range.
    WrongType(String),
}

/// The model of a `TomlFault`.
pub enum TomlFaultView {
    Syntax(Seq<char>),
    UnknownKey(Seq<char>),
    MissingKey(Seq<char>),
    WrongType(Seq<char>),
}

impl View for TomlFault {
    type V = TomlFaultView;

    open spec fn view(&self) -> TomlFaultView {
        match *self {
            TomlFault::Syntax(message) => TomlFaultView::Syntax(message@),
            TomlFault::UnknownKey(key) => TomlFaultView::UnknownKey(key@),
            TomlFault::MissingKey(key) => TomlFaultView::MissingKey(key@),
            TomlFault::WrongType(key) => TomlFaultView::WrongType(key@),
        }
    }
}

/// A fault in words.
pub open spec fn toml_fault_text(fault: TomlFaultView) -> Seq<char> {
    match fault {
        TomlFaultView::Syntax(message) => message,
        TomlFaultView::UnknownKey(key) => "unknown key `"@ + key + "`"@,
        TomlFaultView::MissingKey(key) => "missing key `"@ + key + "`"@,
        TomlFaultView::WrongType(key) => "wrong type or out-of-range value for key `"@ + key
            + "`"@,
    }
}

impl TomlFault {
    /// Puts the fault into words.
    pub fn text(&self) -> (r: String)
        ensures
            r@ == toml_fault_text(self@),
    {
        let (head, key) = match self {
            TomlFault::Syntax(message) => return copy_text(message.as_str()),
            TomlFault::UnknownKey(key) => ("unknown key `", key),
            TomlFault::MissingKey(key) => ("missing key `", key),
            TomlFault::WrongType(key) => ("wrong type or out-of-range value for key `", key),
        };
        let mut r = copy_text(head);
        r.append(key.as_str());
        r.append("`");
        r
    }
}

/// Entries of a table, as its model lists them.
pub type TomlEntries = Seq<(Seq<char>, TomlNode)>;

/// The value that a table gives a key.
pub open spec fn entry(entries: TomlEntries, key: Seq<char>) -> Option<TomlNode>
    decreases entries.len(),
{
    if entries.len() == 0 {
        None
    } else if entries[0].0 == key {
        Some(entries[0].1)
    } else {
        entry(entries.skip(1), key)
    }
}

/// Whether `key` is one of `known`.
pub open spec fn names_key(known: Seq<&str>, key: Seq<char>) -> bool {
    exists|i: int| 0 <= i < known.len() && (#[trigger] known[i])@ == key
}

/// The first key of a table that is not one of `known`.
pub open spec fn stray_key(entries: TomlEntries, known: Seq<&str>) -> Option<Seq<char>>
    decreases entries.len(),
{
    if entries.len() == 0 {
        None
    } else if !names_key(known, entries[0].0) {
        Some(entries[0].0)
    } else {
        stray_key(entries.skip(1), known)
    }
}

/// The text under a key, if the table has the key.
pub open spec fn text_entry(entries: TomlEntries, key: Seq<char>) -> Result<
    Option<Seq<char>>,
    TomlFaultView,
> {
    match entry(entries, key) {
        None => Ok(None),
        Some(TomlNode::Text(s)) => Ok(Some(s)),
        Some(_) => Err(TomlFaultView::WrongType(key)),
    }
}

/// The unsigned number under a key, if the table has the key.
pub open spec fn u32_entry(entries: TomlEntries, key: Seq<char>) -> Result<
    Option<u32>,
    TomlFaultView,
> {
    match entry(entries, key) {
        None => Ok(None),
        Some(TomlNode::Integer(i)) => if 0 <= i <= u32::MAX {
            Ok(Some(i as u32))
        } else {
            Err(TomlFaultView::WrongType(key))
        },
        Some(_) => Err(TomlFaultView::WrongType(key)),
    }
}

/// The record under a key, if the table has the key. A record is written as a table, or as
/// an array of its values in the order of `fields`; in an array none of them may be left
/// out, and what follows them is passed over.
pub open spec fn record_entry(entries: TomlEntries, key: Seq<char>, fields: Seq<&str>) -> Result<
    Option<TomlEntries>,
    TomlFaultView,
> {
    match entry(entries, key) {
        None => Ok(None),
        Some(TomlNode::Table(inner)) => Ok(Some(inner)),
        Some(TomlNode::Array(items)) => if items.len() >= fields.len() {
            Ok(Some(Seq::new(fields.len(), |i: int| (fields[i]@, items[i]))))
        } else {
            Err(TomlFaultView::WrongType(key))
        },
        Some(_) => Err(TomlFaultView::WrongType(key)),
    }
}

/// The texts that a list of values consists of, where it holds texts only.
pub open spec fn texts_of(items: Seq<TomlNode>) -> Option<Seq<Seq<char>>> {
    if forall|i: int| 0 <= i < items.len() ==> (#[trigger] items[i]) is Text {
        Some(Seq::new(items.len(), |i: int| items[i]->Text_0))
    } else {
        None
    }
}

/// The list of texts under a key, if the table has the key.
pub open spec fn texts_entry(entries: TomlEntries, key: Seq<char>) -> Result<
    Option<Seq<Seq<char>>>,
    TomlFaultView,
> {
    match entry(entries, key) {
        None => Ok(None),
        Some(TomlNode::Array(items)) => match texts_of(items) {
            Some(texts) => Ok(Some(texts)),
            None => Err(TomlFaultView::WrongType(key)),
        },
        Some(_) => Err(TomlFaultView::WrongType(key)),
    }
}

/// Turns an absent key into a fault.
pub open spec fn required<T>(found: Result<Option<T>, TomlFaultView>, key: Seq<char>) -> Result<
    T,
    TomlFaultView,
> {
    match found {
        Err(fault) => Err(fault),
        Ok(None) => Err(TomlFaultView::MissingKey(key)),
        Ok(Some(value)) => Ok(value),
    }
}

/// The entries of a document's root table.
pub open spec fn document_entries(src: Seq<char>) -> Result<TomlEntries, TomlFaultView> {
    match toml_document(src) {
        Err(message) => Err(TomlFaultView::Syntax(message)),
        Ok(TomlNode::Table(entries)) => Ok(entries),
        Ok(_) => Err(TomlFaultView::WrongType("document"@)),
    }
}

/// Reads a document down to the entries of its root table.
pub fn read_document(src: &str) -> (r: Result<Vec<(String, TomlValue)>, TomlFault>)
    ensures
        match r {
            Ok(entries) => document_entries(src@) == Ok::<TomlEntries, TomlFaultView>(
                entry_nodes(entries@),
            ),
            Err(fault) => document_entries(src@) == Err::<TomlEntries, TomlFaultView>(fault@),
        },
{
    match parse_document(src) {
        Err(message) => Err(TomlFault::Syntax(message)),
        Ok(value) => match plain_value(&value) {
            TomlValue::Table(entries) => Ok(entries),
            _ => Err(TomlFault::WrongType(copy_text("document"))),
        },
    }
}

/// Finds the value that a table gives a key.
pub fn find_entry<'a>(entries: &'a Vec<(String, TomlValue)>, key: &str) -> (r: Option<
    &'a TomlValue,
>)
    ensures
        match r {
            Some(value) => entry(entry_nodes(entries@), key@) == Some(value.node()),
            None => entry(entry_nodes(entries@), key@) is None,
        },
{
    let ghost model = entry_nodes(entries@);
    proof {
        entry_nodes_by_index(entries@);
        assert(model.skip(0) =~= model);
    }
    let mut i: usize = 0;
    while i < entries.len()
        invariant
            i <= entries@.len(),
            model == entry_nodes(entries@),
            model.len() == entries@.len(),
            forall|j: int|
                0 <= j < entries@.len() ==> #[trigger] model[j] == (
                    entries@[j].0@,
                    entries@[j].1.node(),
                ),
            entry(model, key@) == entry(model.skip(i as int), key@),
        decreases entries@.len() - i,
    {
        assert(model.skip(i as int)[0] == model[i as int]);
        if same_text(entries[i].0.as_str(), key) {
            return Some(&entries[i].1);
        }
        assert(model.skip(i as int).skip(1) =~= model.skip(i + 1));
        i = i + 1;
    }
    None
}

/// Tells whether `key` is one of `known`.
pub fn is_named(known: &Vec<&str>, key: &str) -> (r: bool)
    ensures
        r == names_key(known@, key@),
{
    let mut i: usize = 0;
    while i < known.len()
        invariant
            i <= known@.len(),
            forall|j: int| 0 <= j < i ==> (#[trigger] known@[j])@ != key@,
        decreases known@.len() - i,
    {
        if same_text(known[i], key) {
            return true;
        }
        i = i + 1;
    }
    false
}

/// Refuses a table that holds a key outside `known`.
pub fn only_known(entries: &Vec<(String, TomlValue)>, known: &Vec<&str>) -> (r: Result<
    (),
    TomlFault,
>)
    ensures
        match r {
            Ok(_) => stray_key(entry_nodes(entries@), known@) is None,
            Err(fault) => fault@ is UnknownKey && stray_key(entry_nodes(entries@), known@) == Some(
                fault@->UnknownKey_0,
            ),
        },
{
    let ghost model = entry_nodes(entries@);
    proof {
        entry_nodes_by_index(entries@);
        assert(model.skip(0) =~= model);
    }
    let mut i: usize = 0;
    while i < entries.len()
        invariant
            i <= entries@.len(),
            model == entry_nodes(entries@),
            model.len() == entries@.len(),
            forall|j: int|
                0 <= j < entries@.len() ==> #[trigger] model[j] == (
                    entries@[j].0@,
                    entries@[j].1.node(),
                ),
            stray_key(model, known@) == stray_key(model.skip(i as int), known@),
        decreases entries@.len() - i,
    {
        assert(model.skip(i as int)[0] == model[i as int]);
        if !is_named(known, entries[i].0.as_str()) {
            return Err(TomlFault::UnknownKey(copy_text(entries[i].0.as_str())));
        }
        assert(model.skip(i as int).skip(1) =~= model.skip(i + 1));
        i = i + 1;
    }
    Ok(())
}

/// Reads the text under a key.
pub fn read_text(entries: &Vec<(String, TomlValue)>, key: &str) -> (r: Result<
    Option<String>,
    TomlFault,
>)
    ensures
        match r {
            Ok(Some(s)) => text_entry(entry_nodes(entries@), key@) == Ok::<_, TomlFaultView>(
                Some(s@),
            ),
            Ok(None) => text_entry(entry_nodes(entries@), key@) == Ok::<
                Option<Seq<char>>,
                TomlFaultView,
            >(None),
            Err(fault) => text_entry(entry_nodes(entries@), key@) == Err::<
                Option<Seq<char>>,
                TomlFaultView,
            >(fault@),
        },
{
    match find_entry(entries, key) {
        None => Ok(None),
        Some(TomlValue::Text(s)) => Ok(Some(copy_text(s.as_str()))),
        Some(_) => Err(TomlFault::WrongType(copy_text(key))),
    }
}

/// Reads the unsigned number under a key.
pub fn read_u32(entries: &Vec<(String, TomlValue)>, key: &str) -> (r: Result<
    Option<u32>,
    TomlFault,
>)
    ensures
        match r {
            Ok(found) => u32_entry(entry_nodes(entries@), key@) == Ok::<_, TomlFaultView>(found),
            Err(fault) => u32_entry(entry_nodes(entries@), key@) == Err::<
                Option<u32>,
                TomlFaultView,
            >(fault@),
        },
{
    match find_entry(entries, key) {
        None => Ok(None),
        Some(TomlValue::Integer(i)) => if 0 <= *i && *i <= u32::MAX as i64 {
            Ok(Some(*i as u32))
        } else {
            Err(TomlFault::WrongType(copy_text(key)))
        },
        Some(_) => Err(TomlFault::WrongType(copy_text(key))),
    }
}

/// Copies a value, down to its leaves.
fn copy_value(value: &TomlValue) -> (r: TomlValue)
    ensures
        r.node() == value.node(),
    decreases value,
{
    match value {
        TomlValue::Text(s) => TomlValue::Text(copy_text(s.as_str())),
        TomlValue::Integer(i) => TomlValue::Integer(*i),
        TomlValue::Float => TomlValue::Float,
        TomlValue::Boolean(b) => TomlValue::Boolean(*b),
        TomlValue::Datetime => TomlValue::Datetime,
        TomlValue::Array(items) => {
            let mut copies: Vec<TomlValue> = Vec::new();
            let mut i: usize = 0;
            while i < items.len()
                invariant
                    i <= items@.len(),
                    *value == TomlValue::Array(*items),
                    copies@.len() == i,
                    forall|j: int|
                        0 <= j < i ==> (#[trigger] copies@[j]).node() == items@[j].node(),
                decreases items@.len() - i,
            {
                assert(decreases_to!(value => value->Array_0));
                assert(decreases_to!(items => items@));
                assert(decreases_to!(items@ => items@[i as int]));
                copies.push(copy_value(&items[i]));
                i = i + 1;
            }
            proof {
                nodes_by_index(copies@);
                nodes_by_index(items@);
                assert(nodes(copies@) =~= nodes(items@));
            }
            TomlValue::Array(copies)
        },
        TomlValue::Table(entries) => {
            let mut copies: Vec<(String, TomlValue)> = Vec::new();
            let mut i: usize = 0;
            while i < entries.len()
                invariant
                    i <= entries@.len(),
                    *value == TomlValue::Table(*entries),
                    copies@.len() == i,
                    forall|j: int|
                        0 <= j < i ==> (#[trigger] copies@[j]).0@ == entries@[j].0@
                            && copies@[j].1.node() == entries@[j].1.node(),
                decreases entries@.len() - i,
            {
                assert(decreases_to!(value => value->Table_0));
                assert(decreases_to!(entries => entries@));
                assert(decreases_to!(entries@ => entries@[i as int]));
                assert(decreases_to!(entries@[i as int] => entries@[i as int].1));
                copies.push((copy_text(entries[i].0.as_str()), copy_value(&entries[i].1)));
                i = i + 1;
            }
            proof {
                entry_nodes_by_index(copies@);
                entry_nodes_by_index(entries@);
                assert(entry_nodes(copies@) =~= entry_nodes(entries@));
            }
            TomlValue::Table(copies)
        },
    }
}

/// Reads the record under a key.
pub fn read_record(entries: &Vec<(String, TomlValue)>, key: &str, fields: &Vec<&str>) -> (r: Result<
    Option<Vec<(String, TomlValue)>>,
    TomlFault,
>)
    ensures
        record_entry(entry_nodes(entries@), key@, fields@) == match r {
            Ok(Some(inner)) => Ok(Some(entry_nodes(inner@))),
            Ok(None) => Ok(None),
            Err(fault) => Err(fault@),
        },
{
    match find_entry(entries, key) {
        None => Ok(None),
        Some(TomlValue::Table(inner)) => {
            let mut record: Vec<(String, TomlValue)> = Vec::new();
            let mut i: usize = 0;
            while i < inner.len()
                invariant
                    i <= inner@.len(),
                    record@.len() == i,
                    forall|j: int|
                        0 <= j < i ==> (#[trigger] record@[j]).0@ == inner@[j].0@
                            && record@[j].1.node() == inner@[j].1.node(),
                decreases inner@.len() - i,
            {
                record.push((copy_text(inner[i].0.as_str()), copy_value(&inner[i].1)));
                i = i + 1;
            }
            proof {
                entry_nodes_by_index(record@);
                entry_nodes_by_index(inner@);
                assert(entry_nodes(record@) =~= entry_nodes(inner@));
            }
            Ok(Some(record))
        },
        Some(TomlValue::Array(items)) => {
            proof {
                nodes_by_index(items@);
            }
            if items.len() < fields.len() {
                return Err(TomlFault::WrongType(copy_text(key)));
            }
            let mut record: Vec<(String, TomlValue)> = Vec::new();
            let mut i: usize = 0;
            while i < fields.len()
                invariant
                    i <= fields@.len() <= items@.len(),
                    record@.len() == i,
                    forall|j: int|
                        0 <= j < i ==> (#[trigger] record@[j]).0@ == fields@[j]@
                            && record@[j].1.node() == items@[j].node(),
                decreases fields@.len() - i,
            {
                record.push((copy_text(fields[i]), copy_value(&items[i])));
                i = i + 1;
            }
            proof {
                entry_nodes_by_index(record@);
                assert(entry_nodes(record@) =~= Seq::new(
                    fields@.len(),
                    |j: int| (fields@[j]@, nodes(items@)[j]),
                ));
            }
            Ok(Some(record))
        },
        Some(_) => Err(TomlFault::WrongType(copy_text(key))),
    }
}

/// Takes a list of values as a list of texts.
pub fn plain_texts(items: &Vec<TomlValue>) -> (r: Option<Vec<String>>)
    ensures
        match r {
            Some(texts) => texts_of(nodes(items@)) == Some(text::text_views(texts@)),
            None => texts_of(nodes(items@)) is None,
        },
{
    let ghost model = nodes(items@);
    proof {
        nodes_by_index(items@);
    }
    let mut texts: Vec<String> = Vec::new();
    let mut i: usize = 0;
    while i < items.len()
        invariant
            i <= items@.len(),
            model == nodes(items@),
            model.len() == items@.len(),
            forall|j: int| 0 <= j < items@.len() ==> #[trigger] model[j] == items@[j].node(),
            texts@.len() == i,
            forall|j: int|
                0 <= j < i ==> (#[trigger] model[j]) is Text && model[j]->Text_0 == texts@[j]@,
        decreases items@.len() - i,
    {
        assert(model[i as int] == items@[i as int].node());
        match &items[i] {
            TomlValue::Text(s) => {
                texts.push(copy_text(s.as_str()));
            },
            _ => {
                return None;
            },
        }
        i = i + 1;
    }
    assert(texts_of(model)->Some_0 =~= text::text_views(texts@));
    Some(texts)
}

/// Reads the list of texts under a key.
pub fn read_texts(entries: &Vec<(String, TomlValue)>, key: &str) -> (r: Result<
    Option<Vec<String>>,
    TomlFault,
>)
    ensures
        match r {
            Ok(Some(texts)) => texts_entry(entry_nodes(entries@), key@) == Ok::<_, TomlFaultView>(
                Some(text::text_views(texts@)),
            ),
            Ok(None) => texts_entry(entry_nodes(entries@), key@) == Ok::<
                Option<Seq<Seq<char>>>,
                TomlFaultView,
            >(None),
            Err(fault) => texts_entry(entry_nodes(entries@), key@) == Err::<
                Option<Seq<Seq<char>>>,
                TomlFaultView,
            >(fault@),
        },
{
    match find_entry(entries, key) {
        None => Ok(None),
        Some(TomlValue::Array(items)) => match plain_texts(items) {
            Some(texts) => Ok(Some(texts)),
            None => Err(TomlFault::WrongType(copy_text(key))),
        },
        Some(_) => Err(TomlFault::WrongType(copy_text(key))),
    }
}

/// A table without stray keys holds known keys only.
pub proof fn no_stray_key_means_all_known(entries: TomlEntries, known: Seq<&str>)
    ensures
        stray_key(entries, known) is None <==> (forall|i: int|
            0 <= i < entries.len() ==> names_key(known, (#[trigger] entries[i]).0)),
    decreases entries.len(),
{
    if entries.len() > 0 {
        let rest = entries.skip(1);
        no_stray_key_means_all_known(rest, known);
        if stray_key(entries, known) is None {
            assert forall|i: int| 0 <= i < entries.len() implies names_key(
                known,
                (#[trigger] entries[i]).0,
            ) by {
                if i > 0 {
                    assert(entries[i] == rest[i - 1]);
                }
            }
        } else if names_key(known, entries[0].0) {
            let j = choose|j: int|
                0 <= j < rest.len() && !names_key(known, (#[trigger] rest[j]).0);
            assert(entries[j + 1] == rest[j]);
        }
    }
}

/// A key is given the value that stands by it first; a text, a number, a list of texts or a
/// record is read from it where it is one, and is at fault where it is not.
pub proof fn keys_are_given_their_values(
    entries: TomlEntries,
    i: int,
    key: Seq<char>,
    fields: Seq<&str>,
)
    requires
        0 <= i < entries.len(),
        entries[i].0 == key,
        forall|j: int| 0 <= j < i ==> (#[trigger] entries[j]).0 != key,
    ensures
        entry(entries, key) == Some(entries[i].1),
        match entries[i].1 {
            TomlNode::Text(s) => text_entry(entries, key) == Ok::<_, TomlFaultView>(Some(s)),
            _ => text_entry(entries, key) == Err::<Option<Seq<char>>, _>(
                TomlFaultView::WrongType(key),
            ),
        },
        match entries[i].1 {
            TomlNode::Integer(n) if 0 <= n <= 4_294_967_295 => u32_entry(entries, key) is Ok
                && u32_entry(entries, key)->Ok_0 is Some && u32_entry(entries, key)->Ok_0->0 == n,
            _ => u32_entry(entries, key) == Err::<Option<u32>, _>(TomlFaultView::WrongType(key)),
        },
        match entries[i].1 {
            TomlNode::Array(items) => {
                let found = texts_entry(entries, key);
                if exists|k: int| 0 <= k < items.len() && !((#[trigger] items[k]) is Text) {
                    found == Err::<Option<Seq<Seq<char>>>, _>(TomlFaultView::WrongType(key))
                } else {
                    &&& found is Ok && found->Ok_0 is Some && found->Ok_0->0.len() == items.len()
                    &&& forall|k: int|
                        0 <= k < items.len() ==> (#[trigger] items[k]) == TomlNode::Text(
                            found->Ok_0->0[k],
                        )
                }
            },
            _ => texts_entry(entries, key) == Err::<Option<Seq<Seq<char>>>, _>(
                TomlFaultView::WrongType(key),
            ),
        },
        match entries[i].1 {
            TomlNode::Table(inner) => record_entry(entries, key, fields) == Ok::<_, TomlFaultView>(
                Some(inner),
            ),
            TomlNode::Array(items) => {
                let found = record_entry(entries, key, fields);
                if items.len() < fields.len() {
                    found == Err::<Option<TomlEntries>, _>(TomlFaultView::WrongType(key))
                } else {
                    &&& found is Ok && found->Ok_0 is Some && found->Ok_0->0.len() == fields.len()
                    &&& forall|k: int|
                        0 <= k < fields.len() ==> (#[trigger] found->Ok_0->0[k]) == (
                            fields[k]@,
                            items[k],
                        )
                }
            },
            _ => record_entry(entries, key, fields) == Err::<Option<TomlEntries>, _>(
                TomlFaultView::WrongType(key),
            ),
        },
{
    lemma_entry_at(entries, i, key);
    if let TomlNode::Array(items) = entries[i].1 {
        if let Some(texts) = texts_of(items) {
            assert forall|k: int| 0 <= k < items.len() implies (#[trigger] items[k])
                == TomlNode::Text(texts[k]) by {
                assert(items[k] is Text);
            }
        }
    }
}

proof fn lemma_entry_at(entries: TomlEntries, i: int, key: Seq<char>)
    requires
        0 <= i <= entries.len(),
        i < entries.len() ==> entries[i].0 == key,
        forall|j: int| 0 <= j < i ==> (#[trigger] entries[j]).0 != key,
    ensures
        i < entries.len() ==> entry(entries, key) == Some(entries[i].1),
        i == entries.len() ==> entry(entries, key) is None,
    decreases entries.len(),
{
    if 0 < i {
        assert(entries[0].0 != key);
        let rest = entries.skip(1);
        assert forall|j: int| 0 <= j < i - 1 implies (#[trigger] rest[j]).0 != key by {
            assert(rest[j] == entries[j + 1]);
        }
        lemma_entry_at(rest, i - 1, key);
    }
}

/// A key that a table does not have is given nothing, which is no fault unless it is required.
pub proof fn absent_keys_are_given_nothing(
    entries: TomlEntries,
    key: Seq<char>,
    fields: Seq<&str>,
)
    requires
        forall|j: int| 0 <= j < entries.len() ==> (#[trigger] entries[j]).0 != key,
    ensures
        entry(entries, key) is None,
        text_entry(entries, key) == Ok::<Option<Seq<char>>, TomlFaultView>(None),
        u32_entry(entries, key) == Ok::<Option<u32>, TomlFaultView>(None),
        texts_entry(entries, key) == Ok::<Option<Seq<Seq<char>>>, TomlFaultView>(None),
        record_entry(entries, key, fields) == Ok::<Option<TomlEntries>, TomlFaultView>(None),
        required(text_entry(entries, key), key) == Err::<Seq<char>, _>(
            TomlFaultView::MissingKey(key),
        ),
        required(u32_entry(entries, key), key) == Err::<u32, _>(TomlFaultView::MissingKey(key)),
        required(texts_entry(entries, key), key) == Err::<Seq<Seq<char>>, _>(
            TomlFaultView::MissingKey(key),
        ),
        required(record_entry(entries, key, fields), key) == Err::<TomlEntries, _>(
            TomlFaultView::MissingKey(key),
        ),
{
    lemma_entry_at(entries, entries.len() as int, key);
}

/// What is required and there is taken as it is, and a fault stays the fault that it is.
pub proof fn required_values_are_taken<T>(value: T, fault: TomlFaultView, key: Seq<char>)
    ensures
        required(Ok(Some(value)), key) == Ok::<T, TomlFaultView>(value),
        required(Err::<Option<T>, _>(fault), key) == Err::<T, _>(fault),
{
}

/// A table is at fault for the first of its keys that is not known, and for none where all
/// are.
pub proof fn the_first_unknown_key_is_reported(
    entries: TomlEntries,
    known: Seq<&str>,
    i: int,
)
    requires
        0 <= i <= entries.len(),
        forall|j: int|
            0 <= j < i ==> exists|k: int|
                0 <= k < known.len() && (#[trigger] known[k])@ == (#[trigger] entries[j]).0,
        i < entries.len() ==> forall|k: int|
            0 <= k < known.len() ==> (#[trigger] known[k])@ != entries[i].0,
    ensures
        i < entries.len() ==> stray_key(entries, known) == Some(entries[i].0),
        i == entries.len() ==> stray_key(entries, known) is None,
    decreases entries.len(),
{
    if 0 < i {
        assert(names_key(known, entries[0].0));
        let rest = entries.skip(1);
        assert forall|j: int| 0 <= j < i - 1 implies exists|k: int|
            0 <= k < known.len() && (#[trigger] known[k])@ == (#[trigger] rest[j]).0 by {
            assert(rest[j] == entries[j + 1]);
        }
        the_first_unknown_key_is_reported(rest, known, i - 1);
    }
}

/// What is wrong with a document is told with the key that it is about.
pub proof fn toml_faults_in_words(key: Seq<char>, message: Seq<char>)
    ensures
        toml_fault_text(TomlFaultView::Syntax(message)) == message,
        toml_fault_text(TomlFaultView::UnknownKey(key)) == "unknown key `"@ + key + "`"@,
        toml_fault_text(TomlFaultView::MissingKey(key)) == "missing key `"@ + key + "`"@,
        toml_fault_text(TomlFaultView::WrongType(key))
            == "wrong type or out-of-range value for key `"@ + key + "`"@,
{
}

/// A document says what its root table holds. A document that is none is at fault with the
/// reader's own words.
pub proof fn documents_are_their_root_tables(src: Seq<char>)
    ensures
        match toml_document(src) {
            Err(message) => document_entries(src) == Err::<TomlEntries, _>(
                TomlFaultView::Syntax(message),
            ),
            Ok(TomlNode::Table(entries)) => document_entries(src) == Ok::<_, TomlFaultView>(entries),
            Ok(_) => document_entries(src) == Err::<TomlEntries, _>(
                TomlFaultView::WrongType("document"@),
            ),
        },
{
}

/// A value is told as it is, down to its leaves, and only an array or a table can hold nothing.
pub proof fn values_are_told_as_they_are(value: TomlValue, fault: TomlFault)
    ensures
        match value {
            TomlValue::Text(s) => value.node() == TomlNode::Text(s@),
            TomlValue::Integer(i) => value.node() == TomlNode::Integer(i as int),
            TomlValue::Float => value.node() == TomlNode::Float,
            TomlValue::Boolean(b) => value.node() == TomlNode::Boolean(b),
            TomlValue::Datetime => value.node() == TomlNode::Datetime,
            TomlValue::Array(items) => value.node() is Array && value.node()->Array_0.len()
                == items@.len() && forall|i: int|
                0 <= i < items@.len() ==> (#[trigger] value.node()->Array_0[i]) == items@[i].node(),
            TomlValue::Table(entries) => value.node() is Table && value.node()->Table_0.len()
                == entries@.len() && forall|i: int|
                0 <= i < entries@.len() ==> (#[trigger] value.node()->Table_0[i]) == (
                    entries@[i].0@,
                    entries@[i].1.node(),
                ),
        },
        is_empty(value.node()) <==> match value {
            TomlValue::Array(items) => items@.len() == 0,
            TomlValue::Table(entries) => entries@.len() == 0,
            _ => false,
        },
        match fault {
            TomlFault::Syntax(message) => fault@ == TomlFaultView::Syntax(message@),
            TomlFault::UnknownKey(key) => fault@ == TomlFaultView::UnknownKey(key@),
            TomlFault::MissingKey(key) => fault@ == TomlFaultView::MissingKey(key@),
            TomlFault::WrongType(key) => fault@ == TomlFaultView::WrongType(key@),
        },
{
    match value {
        TomlValue::Array(items) => {
            nodes_by_index(items@);
        },
        TomlValue::Table(entries) => {
            entry_nodes_by_index(entries@);
        },
        _ => {},
    }
}

} // verus!
