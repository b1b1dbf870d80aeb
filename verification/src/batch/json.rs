//! Commands written as JSON objects.

use vstd::prelude::*;
use vstd::string::*;
use super::op::{
    op_name, op_views, op_word, BatchError, BatchErrorView, BatchOp, BatchOpView, BatchParseError,
    BatchParseErrorView, Field, OpKind,
};
use super::words::is_word;
use crate::text::option_text;

verus! {

/// `serde_json::Value`, a JSON value. What the library reads of it, it
/// reads through the functions below.
#[verifier::external_type_specification]
#[verifier::external_body]
pub struct ExJsonValue(serde_json::Value);

/// Whether a JSON value is an object.
pub uninterp spec fn json_is_object(value: serde_json::Value) -> bool;

/// The members of a JSON value that are texts, by their names; none where
/// the value is no object.
pub uninterp spec fn json_texts(value: serde_json::Value) -> Map<Seq<char>, Seq<char>>;

/// The members of a JSON value that are whole numbers from 0 to `u64::MAX`,
/// by their names; none where the value is no object.
pub uninterp spec fn json_numbers(value: serde_json::Value) -> Map<Seq<char>, u64>;

/// The members of a JSON value that are `true` or `false`, by their names;
/// none where the value is no object.
pub uninterp spec fn json_flags(value: serde_json::Value) -> Map<Seq<char>, bool>;

/// Calls `serde_json::Value::is_object`.
#[verifier::external_body]
pub(crate) fn json_object(value: &serde_json::Value) -> (b: bool)
    ensures
        b == json_is_object(*value),
{
    value.is_object()
}

/// Calls `serde_json::Value::get` with a name and `as_str` on what it
/// finds: the member of that name, if the value is an object that has one
/// and the member is a text.
#[verifier::external_body]
pub(crate) fn json_text(value: &serde_json::Value, name: &str) -> (r: Option<String>)
    ensures
        match r {
            Some(text) => json_texts(*value).contains_key(name@) && json_texts(*value)[name@]
                == text@,
            None => !json_texts(*value).contains_key(name@),
        },
{
    match value.get(name) {
        Some(member) => match member.as_str() {
            Some(text) => Some(text.to_string()),
            None => None,
        },
        None => None,
    }
}

/// Calls `serde_json::Value::get` with a name and `as_u64` on what it
/// finds: the member of that name, if the value is an object that has one
/// and the member is a whole number that fits a `u64`.
#[verifier::external_body]
pub(crate) fn json_number(value: &serde_json::Value, name: &str) -> (r: Option<u64>)
    ensures
        match r {
            Some(n) => json_numbers(*value).contains_key(name@) && json_numbers(*value)[name@]
                == n,
            None => !json_numbers(*value).contains_key(name@),
        },
{
    match value.get(name) {
        Some(member) => member.as_u64(),
        None => None,
    }
}

/// Calls `serde_json::Value::get` with a name and `as_bool` on what it
/// finds: the member of that name, if the value is an object that has one
/// and the member is `true` or `false`.
#[verifier::external_body]
pub(crate) fn json_flag(value: &serde_json::Value, name: &str) -> (r: Option<bool>)
    ensures
        match r {
            Some(b) => json_flags(*value).contains_key(name@) && json_flags(*value)[name@] == b,
            None => !json_flags(*value).contains_key(name@),
        },
{
    match value.get(name) {
        Some(member) => member.as_bool(),
        None => None,
    }
}

/// What a command in JSON is read from: whether the value is an object, and
/// those of its members that a command can need.
pub struct JsonMembers {
    pub is_object: bool,
    pub op: Option<String>,
    pub typ: Option<String>,
    pub title: Option<String>,
    pub desc: Option<String>,
    pub line: Option<String>,
    pub id: Option<u64>,
    pub to: Option<u64>,
    pub force: Option<bool>,
}

/// The mathematical content of [`JsonMembers`].
pub struct JsonMembersView {
    pub is_object: bool,
    pub op: Option<Seq<char>>,
    pub typ: Option<Seq<char>>,
    pub title: Option<Seq<char>>,
    pub desc: Option<Seq<char>>,
    pub line: Option<Seq<char>>,
    pub id: Option<u64>,
    pub to: Option<u64>,
    pub force: Option<bool>,
}

impl View for JsonMembers {
    type V = JsonMembersView;

    open spec fn view(&self) -> JsonMembersView {
        JsonMembersView {
            is_object: self.is_object,
            op: option_text(self.op),
            typ: option_text(self.typ),
            title: option_text(self.title),
            desc: option_text(self.desc),
            line: option_text(self.line),
            id: self.id,
            to: self.to,
            force: self.force,
        }
    }
}

/// The member `name` of a map, if it has one.
pub open spec fn member<V>(map: Map<Seq<char>, V>, name: Seq<char>) -> Option<V> {
    if map.contains_key(name) {
        Some(map[name])
    } else {
        None
    }
}

/// Those members of a JSON value that a command can need.
pub open spec fn members_of(value: serde_json::Value) -> JsonMembersView {
    JsonMembersView {
        is_object: json_is_object(value),
        op: member(json_texts(value), "op"@),
        typ: member(json_texts(value), "type"@),
        title: member(json_texts(value), "title"@),
        desc: member(json_texts(value), "desc"@),
        line: member(json_texts(value), "line"@),
        id: member(json_numbers(value), "id"@),
        to: member(json_numbers(value), "to"@),
        force: member(json_flags(value), "force"@),
    }
}

/// A number as an id: its low 32 bits.
pub open spec fn id_of_number(n: u64) -> u32 {
    (n % 0x1_0000_0000) as u32
}

/// The id of a JSON command, which is its member `id`.
pub open spec fn id_member(m: JsonMembersView, op: OpKind) -> Result<u32, BatchParseErrorView> {
    match m.id {
        Some(n) => Ok(id_of_number(n)),
        None => Err(BatchParseErrorView::MissingMember { op, member: Field::Id }),
    }
}

/// The command that the members of a JSON value denote.
pub open spec fn op_of_members(m: JsonMembersView) -> Result<BatchOpView, BatchParseErrorView> {
    if !m.is_object {
        Err(BatchParseErrorView::NotAnObject)
    } else {
        match m.op {
            None => Err(BatchParseErrorView::MissingOp),
            Some(op) => if op == op_name(OpKind::Add) {
                if m.typ is None {
                    Err(BatchParseErrorView::MissingMember { op: OpKind::Add, member: Field::Type })
                } else if m.title is None {
                    Err(
                        BatchParseErrorView::MissingMember {
                            op: OpKind::Add,
                            member: Field::Title,
                        },
                    )
                } else if m.desc is None {
                    Err(BatchParseErrorView::MissingMember { op: OpKind::Add, member: Field::Desc })
                } else {
                    Ok(
                        BatchOpView::Add {
                            type_prefix: m.typ->Some_0,
                            title: m.title->Some_0,
                            desc: m.desc->Some_0,
                        },
                    )
                }
            } else if op == op_name(OpKind::Patch) {
                match id_member(m, OpKind::Patch) {
                    Err(e) => Err(e),
                    Ok(id) => Ok(
                        BatchOpView::Patch { id, type_prefix: m.typ, title: m.title, desc: m.desc },
                    ),
                }
            } else if op == op_name(OpKind::Put) {
                match id_member(m, OpKind::Put) {
                    Err(e) => Err(e),
                    Ok(id) => match m.line {
                        Some(line) => Ok(BatchOpView::Put { id, line }),
                        None => Err(
                            BatchParseErrorView::MissingMember {
                                op: OpKind::Put,
                                member: Field::Line,
                            },
                        ),
                    },
                }
            } else if op == op_name(OpKind::Delete) {
                match id_member(m, OpKind::Delete) {
                    Err(e) => Err(e),
                    Ok(id) => Ok(
                        BatchOpView::Delete {
                            id,
                            force: match m.force {
                                Some(force) => force,
                                None => false,
                            },
                        },
                    ),
                }
            } else if op == op_name(OpKind::Deprecate) {
                match id_member(m, OpKind::Deprecate) {
                    Err(e) => Err(e),
                    Ok(id) => match m.to {
                        Some(to) => Ok(BatchOpView::Deprecate { id, to: id_of_number(to) }),
                        None => Err(
                            BatchParseErrorView::MissingMember {
                                op: OpKind::Deprecate,
                                member: Field::To,
                            },
                        ),
                    },
                }
            } else if op == op_name(OpKind::Verify) {
                match id_member(m, OpKind::Verify) {
                    Err(e) => Err(e),
                    Ok(id) => Ok(BatchOpView::Verify { id }),
                }
            } else {
                Err(BatchParseErrorView::UnknownOp { name: op })
            },
        }
    }
}

fn low_bits(n: u64) -> (id: u32)
    ensures
        id == id_of_number(n),
{
    (n % 0x1_0000_0000) as u32
}

fn id_of_members(m: &JsonMembers, op: OpKind) -> (r: Result<u32, BatchParseError>)
    ensures
        match r {
            Ok(id) => id_member(m@, op) == Ok::<u32, BatchParseErrorView>(id),
            Err(e) => id_member(m@, op) == Err::<u32, BatchParseErrorView>(e@),
        },
{
    match m.id {
        Some(n) => Ok(low_bits(n)),
        None => Err(BatchParseError::MissingMember { op, member: Field::Id }),
    }
}

fn clone_text(s: &Option<String>) -> (r: Option<String>)
    ensures
        option_text(r) == option_text(*s),
{
    match s {
        Some(s) => Some(s.clone()),
        None => None,
    }
}

/// The command that the members of a JSON value denote; see [`op_of_members`].
pub fn batch_op_of_members(m: &JsonMembers) -> (r: Result<BatchOp, BatchParseError>)
    ensures
        match r {
            Ok(op) => op_of_members(m@) == Ok::<BatchOpView, BatchParseErrorView>(op@),
            Err(e) => op_of_members(m@) == Err::<BatchOpView, BatchParseErrorView>(e@),
        },
{
    if !m.is_object {
        return Err(BatchParseError::NotAnObject);
    }
    let op = match &m.op {
        Some(op) => op,
        None => {
            return Err(BatchParseError::MissingOp);
        },
    };
    if is_word(op, op_word(OpKind::Add)) {
        let type_prefix = match &m.typ {
            Some(s) => s.clone(),
            None => {
                return Err(
                    BatchParseError::MissingMember { op: OpKind::Add, member: Field::Type },
                );
            },
        };
        let title = match &m.title {
            Some(s) => s.clone(),
            None => {
                return Err(
                    BatchParseError::MissingMember { op: OpKind::Add, member: Field::Title },
                );
            },
        };
        let desc = match &m.desc {
            Some(s) => s.clone(),
            None => {
                return Err(
                    BatchParseError::MissingMember { op: OpKind::Add, member: Field::Desc },
                );
            },
        };
        Ok(BatchOp::Add { type_prefix, title, desc })
    } else if is_word(op, op_word(OpKind::Patch)) {
        let id = id_of_members(m, OpKind::Patch)?;
        Ok(
            BatchOp::Patch {
                id,
                type_prefix: clone_text(&m.typ),
                title: clone_text(&m.title),
                desc: clone_text(&m.desc),
            },
        )
    } else if is_word(op, op_word(OpKind::Put)) {
        let id = id_of_members(m, OpKind::Put)?;
        match &m.line {
            Some(line) => Ok(BatchOp::Put { id, line: line.clone() }),
            None => Err(BatchParseError::MissingMember { op: OpKind::Put, member: Field::Line }),
        }
    } else if is_word(op, op_word(OpKind::Delete)) {
        let id = id_of_members(m, OpKind::Delete)?;
        let force = match m.force {
            Some(force) => force,
            None => false,
        };
        Ok(BatchOp::Delete { id, force })
    } else if is_word(op, op_word(OpKind::Deprecate)) {
        let id = id_of_members(m, OpKind::Deprecate)?;
        match m.to {
            Some(to) => Ok(BatchOp::Deprecate { id, to: low_bits(to) }),
            None => Err(
                BatchParseError::MissingMember { op: OpKind::Deprecate, member: Field::To },
            ),
        }
    } else if is_word(op, op_word(OpKind::Verify)) {
        let id = id_of_members(m, OpKind::Verify)?;
        Ok(BatchOp::Verify { id })
    } else {
        Err(BatchParseError::UnknownOp { name: op.clone() })
    }
}

/// Reads from a JSON value those members that a command can need.
pub fn json_members(value: &serde_json::Value) -> (m: JsonMembers)
    ensures
        m@ == members_of(*value),
{
    JsonMembers {
        is_object: json_object(value),
        op: json_text(value, "op"),
        typ: json_text(value, "type"),
        title: json_text(value, "title"),
        desc: json_text(value, "desc"),
        line: json_text(value, "line"),
        id: json_number(value, "id"),
        to: json_number(value, "to"),
        force: json_flag(value, "force"),
    }
}

/// Reads one command of a batch from a JSON value, such as
/// `{"op": "delete", "id": 5, "force": true}`.
pub fn parse_batch_op_json(value: &serde_json::Value) -> (r: Result<BatchOp, BatchParseError>)
    ensures
        match r {
            Ok(op) => op_of_members(members_of(*value)) == Ok::<BatchOpView, BatchParseErrorView>(
                op@,
            ),
            Err(e) => op_of_members(members_of(*value)) == Err::<
                BatchOpView,
                BatchParseErrorView,
            >(e@),
        },
{
    let m = json_members(value);
    batch_op_of_members(&m)
}

/// Once a value is no command, reading has failed with that value, however
/// many values follow.
pub proof fn lemma_ops_of_values_error_stays(values: Seq<serde_json::Value>, n: int, m: int)
    requires
        n <= m,
        ops_of_values(values, n) is Err,
    ensures
        ops_of_values(values, m) == ops_of_values(values, n),
    decreases m - n,
{
    if n < m {
        lemma_ops_of_values_error_stays(values, n, m - 1);
    }
}

/// `serde_json::Error`, the error of reading JSON. It is not looked into.
#[verifier::external_type_specification]
#[verifier::external_body]
pub struct ExJsonError(serde_json::Error);

/// Calls `serde_json::from_str` for a vector of JSON values: the elements
/// of the array that the text denotes, or an error where it denotes none.
#[verifier::external_body]
pub(crate) fn json_array(text: &str) -> (r: Result<Vec<serde_json::Value>, serde_json::Error>) {
    serde_json::from_str::<Vec<serde_json::Value>>(text)
}

/// The commands that the first `n` of `values` denote, or the first that denotes none.
pub open spec fn ops_of_values(values: Seq<serde_json::Value>, n: int) -> Result<
    Seq<BatchOpView>,
    BatchErrorView,
>
    decreases n,
{
    if n <= 0 {
        Ok(Seq::empty())
    } else {
        match ops_of_values(values, n - 1) {
            Err(e) => Err(e),
            Ok(ops) => match op_of_members(members_of(values[n - 1])) {
                Ok(op) => Ok(ops.push(op)),
                Err(error) => Err(BatchErrorView::Element { index: (n - 1) as usize, error }),
            },
        }
    }
}

/// Reads the commands that JSON values denote; see [`ops_of_values`].
pub fn batch_ops_of_values(values: &Vec<serde_json::Value>) -> (r: Result<
    Vec<BatchOp>,
    BatchError,
>)
    ensures
        match r {
            Ok(ops) => ops_of_values(values@, values@.len() as int) == Ok::<
                Seq<BatchOpView>,
                BatchErrorView,
            >(op_views(ops@)),
            Err(e) => ops_of_values(values@, values@.len() as int) == Err::<
                Seq<BatchOpView>,
                BatchErrorView,
            >(e@),
        },
{
    let mut ops: Vec<BatchOp> = Vec::new();
    let mut i: usize = 0;
    assert(op_views(ops@) =~= Seq::<BatchOpView>::empty());
    while i < values.len()
        invariant
            i <= values.len(),
            ops_of_values(values@, i as int) == Ok::<Seq<BatchOpView>, BatchErrorView>(
                op_views(ops@),
            ),
        decreases values.len() - i,
    {
        match parse_batch_op_json(&values[i]) {
            Ok(op) => {
                let ghost before = op_views(ops@);
                let ghost op_view = op@;
                ops.push(op);
                assert(op_views(ops@) =~= before.push(op_view));
            },
            Err(error) => {
                proof {
                    assert(ops_of_values(values@, i + 1) is Err);
                    lemma_ops_of_values_error_stays(values@, i + 1, values@.len() as int);
                }
                return Err(BatchError::Element { index: i, error });
            },
        }
        i = i + 1;
    }
    Ok(ops)
}

/// Reads a batch that is a JSON array of commands. A text that is no JSON
/// array fails with `InvalidJson`; for one that is, the outcome is that of
/// [`batch_ops_of_values`] on its elements.
pub fn parse_batch_json(input: &str) -> (r: Result<Vec<BatchOp>, BatchError>)
    ensures
        r matches Err(e) ==> e@ is InvalidJson || e@ is Element,
        r matches Ok(ops) ==> exists|values: Seq<serde_json::Value>|
            #[trigger] ops_of_values(values, values.len() as int) == Ok::<
                Seq<BatchOpView>,
                BatchErrorView,
            >(op_views(ops@)),
{
    match json_array(input) {
        Ok(values) => {
            let r = batch_ops_of_values(&values);
            proof {
                if r is Err {
                    lemma_ops_of_values_error(values@, values@.len() as int);
                }
            }
            r
        },
        Err(_) => Err(BatchError::InvalidJson),
    }
}

/// Reading JSON values fails with nothing but `Element`.
pub proof fn lemma_ops_of_values_error(values: Seq<serde_json::Value>, n: int)
    ensures
        ops_of_values(values, n) matches Err(e) ==> e is Element,
    decreases n,
{
    if n > 0 {
        lemma_ops_of_values_error(values, n - 1);
    }
}

} // verus!
