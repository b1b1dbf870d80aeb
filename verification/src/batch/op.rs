//! The commands of a batch, and the ways in which reading or replaying them can fail.

use vstd::prelude::*;
use vstd::string::*;
use super::json::member;
use crate::error::{CommandError, CommandErrorView};
use crate::text::{decimal, option_text, push_decimal, NumberError};

verus! {

/// One command of a batch.
#[derive(Debug, Clone)]
#[allow(inconsistent_fields)]
pub enum BatchOp {
    Add { type_prefix: String, title: String, desc: String },
    Patch { id: u32, type_prefix: Option<String>, title: Option<String>, desc: Option<String> },
    Put { id: u32, line: String },
    Delete { id: u32, force: bool },
    Deprecate { id: u32, to: u32 },
    Verify { id: u32 },
}

/// The mathematical content of a [`BatchOp`].
#[allow(inconsistent_fields)]
pub enum BatchOpView {
    Add { type_prefix: Seq<char>, title: Seq<char>, desc: Seq<char> },
    Patch {
        id: u32,
        type_prefix: Option<Seq<char>>,
        title: Option<Seq<char>>,
        desc: Option<Seq<char>>,
    },
    Put { id: u32, line: Seq<char> },
    Delete { id: u32, force: bool },
    Deprecate { id: u32, to: u32 },
    Verify { id: u32 },
}

impl View for BatchOp {
    type V = BatchOpView;

    open spec fn view(&self) -> BatchOpView {
        match self {
            BatchOp::Add { type_prefix, title, desc } => BatchOpView::Add {
                type_prefix: type_prefix@,
                title: title@,
                desc: desc@,
            },
            BatchOp::Patch { id, type_prefix, title, desc } => BatchOpView::Patch {
                id: *id,
                type_prefix: option_text(*type_prefix),
                title: option_text(*title),
                desc: option_text(*desc),
            },
            BatchOp::Put { id, line } => BatchOpView::Put { id: *id, line: line@ },
            BatchOp::Delete { id, force } => BatchOpView::Delete { id: *id, force: *force },
            BatchOp::Deprecate { id, to } => BatchOpView::Deprecate { id: *id, to: *to },
            BatchOp::Verify { id } => BatchOpView::Verify { id: *id },
        }
    }
}

/// The commands that a batch knows.
#[derive(Debug, Clone, Copy, PartialEq, Eq, Structural)]
pub enum OpKind {
    Add,
    Patch,
    Put,
    Delete,
    Deprecate,
    Verify,
}

/// The members and flags that carry the arguments of a command.
#[derive(Debug, Clone, Copy, PartialEq, Eq, Structural)]
pub enum Field {
    Type,
    Title,
    Desc,
    Line,
    Id,
    To,
}

/// Why a command of a batch could not be read.
#[derive(Debug)]
pub enum BatchParseError {
    /// The line holds no word.
    EmptyLine,
    /// A quote in the line is never closed.
    MissingClosingQuote,
    /// A flag stands at the end of the line, without its value.
    FlagWithoutValue { op: OpKind, flag: Field },
    /// `add` lacks its type, its title or its description, or one of them is empty.
    AddIncomplete,
    /// The command lacks the id of its node.
    MissingId { op: OpKind },
    /// An id is not the numeral of a `u32`.
    BadNumber(NumberError),
    /// `put` lacks its line, or the line is empty.
    PutWithoutLine,
    /// `deprecate` lacks the node to use instead.
    DeprecateWithoutTarget,
    /// The first word is no command.
    UnknownCommand { name: String },
    /// The JSON value is no object.
    NotAnObject,
    /// The JSON object has no text member `op`.
    MissingOp,
    /// The JSON object lacks a member that its command needs.
    MissingMember { op: OpKind, member: Field },
    /// The member `op` names no command.
    UnknownOp { name: String },
}

/// The mathematical content of a [`BatchParseError`].
pub enum BatchParseErrorView {
    EmptyLine,
    MissingClosingQuote,
    FlagWithoutValue { op: OpKind, flag: Field },
    AddIncomplete,
    MissingId { op: OpKind },
    BadNumber(NumberError),
    PutWithoutLine,
    DeprecateWithoutTarget,
    UnknownCommand { name: Seq<char> },
    NotAnObject,
    MissingOp,
    MissingMember { op: OpKind, member: Field },
    UnknownOp { name: Seq<char> },
}

impl View for BatchParseError {
    type V = BatchParseErrorView;

    open spec fn view(&self) -> BatchParseErrorView {
        match self {
            BatchParseError::EmptyLine => BatchParseErrorView::EmptyLine,
            BatchParseError::MissingClosingQuote => BatchParseErrorView::MissingClosingQuote,
            BatchParseError::FlagWithoutValue { op, flag } => {
                BatchParseErrorView::FlagWithoutValue { op: *op, flag: *flag }
            },
            BatchParseError::AddIncomplete => BatchParseErrorView::AddIncomplete,
            BatchParseError::MissingId { op } => BatchParseErrorView::MissingId { op: *op },
            BatchParseError::BadNumber(e) => BatchParseErrorView::BadNumber(*e),
            BatchParseError::PutWithoutLine => BatchParseErrorView::PutWithoutLine,
            BatchParseError::DeprecateWithoutTarget => BatchParseErrorView::DeprecateWithoutTarget,
            BatchParseError::UnknownCommand { name } => BatchParseErrorView::UnknownCommand {
                name: name@,
            },
            BatchParseError::NotAnObject => BatchParseErrorView::NotAnObject,
            BatchParseError::MissingOp => BatchParseErrorView::MissingOp,
            BatchParseError::MissingMember { op, member } => BatchParseErrorView::MissingMember {
                op: *op,
                member: *member,
            },
            BatchParseError::UnknownOp { name } => BatchParseErrorView::UnknownOp { name: name@ },
        }
    }
}

/// The word that names a command.
pub open spec fn op_name(op: OpKind) -> Seq<char> {
    match op {
        OpKind::Add => "add"@,
        OpKind::Patch => "patch"@,
        OpKind::Put => "put"@,
        OpKind::Delete => "delete"@,
        OpKind::Deprecate => "deprecate"@,
        OpKind::Verify => "verify"@,
    }
}

/// The name of a member of a JSON command.
pub open spec fn member_name(field: Field) -> Seq<char> {
    match field {
        Field::Type => "type"@,
        Field::Title => "title"@,
        Field::Desc => "desc"@,
        Field::Line => "line"@,
        Field::Id => "id"@,
        Field::To => "to"@,
    }
}

/// The flag that carries a field on a command line.
pub open spec fn flag_name(field: Field) -> Seq<char> {
    "--"@ + member_name(field)
}

/// The text that reports a number that is none, in the words of the standard library.
pub open spec fn number_error_message(e: NumberError) -> Seq<char> {
    match e {
        NumberError::Empty => "cannot parse integer from empty string"@,
        NumberError::InvalidDigit => "invalid digit found in string"@,
        NumberError::TooLarge => "number too large to fit in target type"@,
    }
}

impl BatchParseErrorView {
    /// The text that reports this failure to a person.
    pub open spec fn message(self) -> Seq<char> {
        match self {
            BatchParseErrorView::EmptyLine => "Empty operation line"@,
            BatchParseErrorView::MissingClosingQuote => "missing closing quote"@,
            BatchParseErrorView::FlagWithoutValue { op, flag } => op_name(op) + ": "@ + flag_name(
                flag,
            ) + " requires value"@,
            BatchParseErrorView::AddIncomplete => "add: requires --type, --title, --desc"@,
            BatchParseErrorView::MissingId { op } => op_name(op) + ": missing id"@,
            BatchParseErrorView::BadNumber(e) => number_error_message(e),
            BatchParseErrorView::PutWithoutLine => "put: requires --line"@,
            BatchParseErrorView::DeprecateWithoutTarget => "deprecate: requires --to"@,
            BatchParseErrorView::UnknownCommand { name } => "Unknown batch command: "@ + name,
            BatchParseErrorView::NotAnObject => "Op must be a JSON object"@,
            BatchParseErrorView::MissingOp => "Missing 'op' field"@,
            BatchParseErrorView::MissingMember { op, member } => op_name(op) + ": missing '"@
                + member_name(member) + "' field"@,
            BatchParseErrorView::UnknownOp { name } => "Unknown op type: "@ + name,
        }
    }
}

pub(crate) fn op_word(op: OpKind) -> (r: &'static str)
    ensures
        r@ == op_name(op),
{
    match op {
        OpKind::Add => "add",
        OpKind::Patch => "patch",
        OpKind::Put => "put",
        OpKind::Delete => "delete",
        OpKind::Deprecate => "deprecate",
        OpKind::Verify => "verify",
    }
}

fn member_word(field: Field) -> (r: &'static str)
    ensures
        r@ == member_name(field),
{
    match field {
        Field::Type => "type",
        Field::Title => "title",
        Field::Desc => "desc",
        Field::Line => "line",
        Field::Id => "id",
        Field::To => "to",
    }
}

pub(crate) fn flag_word(field: Field) -> (r: String)
    ensures
        r@ == flag_name(field),
{
    let mut r = String::from_str("--");
    r.append(member_word(field));
    r
}

impl BatchParseError {
    /// The text that reports this failure to a person.
    pub fn message(&self) -> (r: String)
        ensures
            r@ == self@.message(),
    {
        match self {
            BatchParseError::EmptyLine => String::from_str("Empty operation line"),
            BatchParseError::MissingClosingQuote => String::from_str("missing closing quote"),
            BatchParseError::FlagWithoutValue { op, flag } => {
                let mut r = String::from_str(op_word(*op));
                r.append(": ");
                r.append(flag_word(*flag).as_str());
                r.append(" requires value");
                r
            },
            BatchParseError::AddIncomplete => String::from_str(
                "add: requires --type, --title, --desc",
            ),
            BatchParseError::MissingId { op } => {
                let mut r = String::from_str(op_word(*op));
                r.append(": missing id");
                r
            },
            BatchParseError::BadNumber(e) => match e {
                NumberError::Empty => String::from_str("cannot parse integer from empty string"),
                NumberError::InvalidDigit => String::from_str("invalid digit found in string"),
                NumberError::TooLarge => String::from_str(
                    "number too large to fit in target type",
                ),
            },
            BatchParseError::PutWithoutLine => String::from_str("put: requires --line"),
            BatchParseError::DeprecateWithoutTarget => String::from_str("deprecate: requires --to"),
            BatchParseError::UnknownCommand { name } => {
                let mut r = String::from_str("Unknown batch command: ");
                r.append(name.as_str());
                r
            },
            BatchParseError::NotAnObject => String::from_str("Op must be a JSON object"),
            BatchParseError::MissingOp => String::from_str("Missing 'op' field"),
            BatchParseError::MissingMember { op, member } => {
                let mut r = String::from_str(op_word(*op));
                r.append(": missing '");
                r.append(member_word(*member));
                r.append("' field");
                r
            },
            BatchParseError::UnknownOp { name } => {
                let mut r = String::from_str("Unknown op type: ");
                r.append(name.as_str());
                r
            },
        }
    }
}

/// The contents of a vector of commands.
pub open spec fn op_views(ops: Seq<BatchOp>) -> Seq<BatchOpView> {
    Seq::new(ops.len(), |i: int| ops[i]@)
}

/// The kind of a command.
pub open spec fn kind_of(op: BatchOpView) -> OpKind {
    match op {
        BatchOpView::Add { .. } => OpKind::Add,
        BatchOpView::Patch { .. } => OpKind::Patch,
        BatchOpView::Put { .. } => OpKind::Put,
        BatchOpView::Delete { .. } => OpKind::Delete,
        BatchOpView::Deprecate { .. } => OpKind::Deprecate,
        BatchOpView::Verify { .. } => OpKind::Verify,
    }
}

/// Why a batch could not be read or replayed.
#[derive(Debug)]
#[allow(inconsistent_fields)]
pub enum BatchError {
    /// The line with the given number, counted from 1, is no command.
    Line { number: usize, error: BatchParseError },
    /// The element with the given index of the JSON array is no command.
    Element { index: usize, error: BatchParseError },
    /// The input is no JSON array.
    InvalidJson,
    /// The command with the given index was refused.
    Op { index: usize, op: OpKind, error: CommandError },
    /// The file is not the one that the batch began with.
    Changed { base_hash: String, current_hash: String },
}

/// The mathematical content of a [`BatchError`].
#[allow(inconsistent_fields)]
pub enum BatchErrorView {
    Line { number: usize, error: BatchParseErrorView },
    Element { index: usize, error: BatchParseErrorView },
    InvalidJson,
    Op { index: usize, op: OpKind, error: CommandErrorView },
    Changed { base_hash: Seq<char>, current_hash: Seq<char> },
}

impl View for BatchError {
    type V = BatchErrorView;

    open spec fn view(&self) -> BatchErrorView {
        match self {
            BatchError::Line { number, error } => BatchErrorView::Line {
                number: *number,
                error: error@,
            },
            BatchError::Element { index, error } => BatchErrorView::Element {
                index: *index,
                error: error@,
            },
            BatchError::InvalidJson => BatchErrorView::InvalidJson,
            BatchError::Op { index, op, error } => BatchErrorView::Op {
                index: *index,
                op: *op,
                error: error@,
            },
            BatchError::Changed { base_hash, current_hash } => BatchErrorView::Changed {
                base_hash: base_hash@,
                current_hash: current_hash@,
            },
        }
    }
}

impl BatchErrorView {
    /// The text that reports this failure to a person.
    pub open spec fn message(self) -> Seq<char> {
        match self {
            BatchErrorView::Line { number, error } => "Failed to parse batch line "@ + decimal(
                number as nat,
            ) + ": "@ + error.message(),
            BatchErrorView::Element { index, error } => "Failed to parse batch op "@ + decimal(
                index as nat,
            ) + ": "@ + error.message(),
            BatchErrorView::InvalidJson => "Batch input is not a JSON array"@,
            BatchErrorView::Op { index, op, error } => "Op "@ + decimal(index as nat) + ": "@
                + op_name(op) + " failed: "@ + error.message(),
            BatchErrorView::Changed { base_hash, current_hash } => {
                "Cannot commit batch: target file changed since batch began (hash mismatch).\nBase hash: "@
                    + base_hash + "\nCurrent hash: "@ + current_hash
                    + "\nThe file was likely modified by another process. Re-run begin your batch on the current file."@
            },
        }
    }
}

impl BatchError {
    /// The text that reports this failure to a person.
    pub fn message(&self) -> (r: String)
        ensures
            r@ == self@.message(),
    {
        match self {
            BatchError::Line { number, error } => {
                let mut r = String::from_str("Failed to parse batch line ");
                push_decimal(&mut r, *number as u64);
                r.append(": ");
                r.append(error.message().as_str());
                r
            },
            BatchError::Element { index, error } => {
                let mut r = String::from_str("Failed to parse batch op ");
                push_decimal(&mut r, *index as u64);
                r.append(": ");
                r.append(error.message().as_str());
                r
            },
            BatchError::InvalidJson => String::from_str("Batch input is not a JSON array"),
            BatchError::Op { index, op, error } => {
                let mut r = String::from_str("Op ");
                push_decimal(&mut r, *index as u64);
                r.append(": ");
                r.append(op_word(*op));
                r.append(" failed: ");
                r.append(error.message().as_str());
                r
            },
            BatchError::Changed { base_hash, current_hash } => {
                let mut r = String::from_str(
                    "Cannot commit batch: target file changed since batch began (hash mismatch).\nBase hash: ",
                );
                r.append(base_hash.as_str());
                r.append("\nCurrent hash: ");
                r.append(current_hash.as_str());
                r.append(
                    "\nThe file was likely modified by another process. Re-run begin your batch on the current file.",
                );
                r
            },
        }
    }
}

} // verus!
