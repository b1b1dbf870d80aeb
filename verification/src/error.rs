//! The ways in which following a cross-file reference can fail.

use vstd::prelude::*;
use vstd::string::*;
use crate::node::LineError;
use crate::text::{decimal, push_decimal, NumberError};

verus! {

/// Why a reference could not be followed. Every failure is final for the one
/// reference that caused it; the caller decides whether to skip it or to stop.
#[derive(Debug)]
pub enum TraversalError {
    /// The reference is itself an absolute path.
    AbsolutePathRejected { reference: String },
    /// The target, once canonical, lies outside the workspace root.
    PathEscape { reference: String },
    /// The target could not be made canonical (missing, broken link, no permission).
    PathResolutionFailed { reference: String, base_dir: String },
    /// The target is already in the visited set of the running traversal.
    CircularReference { base_file: String, reference: String },
    /// The target is larger than the cache admits; its content was not read.
    FileTooLarge { size: u64, limit: u64 },
    /// One more level of recursion would pass the configured maximum.
    RecursionDepthExceeded { max_depth: usize },
    /// The size of the target could not be determined.
    StatFailed { path: String },
    /// The content of the target could not be read.
    ReadFailed { path: String },
}

/// The mathematical content of a [`TraversalError`].
pub enum TraversalErrorView {
    AbsolutePathRejected { reference: Seq<char> },
    PathEscape { reference: Seq<char> },
    PathResolutionFailed { reference: Seq<char>, base_dir: Seq<char> },
    CircularReference { base_file: Seq<char>, reference: Seq<char> },
    FileTooLarge { size: u64, limit: u64 },
    RecursionDepthExceeded { max_depth: usize },
    StatFailed { path: Seq<char> },
    ReadFailed { path: Seq<char> },
}

impl View for TraversalError {
    type V = TraversalErrorView;

    open spec fn view(&self) -> TraversalErrorView {
        match self {
            TraversalError::AbsolutePathRejected { reference } => {
                TraversalErrorView::AbsolutePathRejected { reference: reference@ }
            },
            TraversalError::PathEscape { reference } => {
                TraversalErrorView::PathEscape { reference: reference@ }
            },
            TraversalError::PathResolutionFailed { reference, base_dir } => {
                TraversalErrorView::PathResolutionFailed {
                    reference: reference@,
                    base_dir: base_dir@,
                }
            },
            TraversalError::CircularReference { base_file, reference } => {
                TraversalErrorView::CircularReference {
                    base_file: base_file@,
                    reference: reference@,
                }
            },
            TraversalError::FileTooLarge { size, limit } => {
                TraversalErrorView::FileTooLarge { size: *size, limit: *limit }
            },
            TraversalError::RecursionDepthExceeded { max_depth } => {
                TraversalErrorView::RecursionDepthExceeded { max_depth: *max_depth }
            },
            TraversalError::StatFailed { path } => TraversalErrorView::StatFailed { path: path@ },
            TraversalError::ReadFailed { path } => TraversalErrorView::ReadFailed { path: path@ },
        }
    }
}

impl TraversalErrorView {
    /// The text that reports this failure to a person.
    pub open spec fn message(self) -> Seq<char> {
        match self {
            TraversalErrorView::AbsolutePathRejected { reference } => {
                "Absolute paths not allowed: "@ + reference
            },
            TraversalErrorView::PathEscape { reference } => {
                "Path escape attempt: "@ + reference + " resolves outside workspace"@
            },
            TraversalErrorView::PathResolutionFailed { reference, base_dir } => {
                "Failed to resolve path: "@ + reference + " (relative to "@ + base_dir + ")"@
            },
            TraversalErrorView::CircularReference { base_file, reference } => {
                "Circular reference detected: "@ + base_file + " -> "@ + reference
            },
            TraversalErrorView::FileTooLarge { size, limit } => {
                "File too large: "@ + decimal(size as nat) + " bytes (max: "@ + decimal(
                    limit as nat,
                ) + " bytes)"@
            },
            TraversalErrorView::RecursionDepthExceeded { max_depth } => {
                "Recursion depth exceeded (max: "@ + decimal(max_depth as nat) + ")"@
            },
            TraversalErrorView::StatFailed { path } => "Failed to stat file: "@ + path,
            TraversalErrorView::ReadFailed { path } => "Failed to load mindmap: "@ + path,
        }
    }
}

impl TraversalError {
    /// The text that reports this failure to a person.
    pub fn message(&self) -> (r: String)
        ensures
            r@ == self@.message(),
    {
        match self {
            TraversalError::AbsolutePathRejected { reference } => {
                let mut r = String::from_str("Absolute paths not allowed: ");
                r.append(reference.as_str());
                r
            },
            TraversalError::PathEscape { reference } => {
                let mut r = String::from_str("Path escape attempt: ");
                r.append(reference.as_str());
                r.append(" resolves outside workspace");
                r
            },
            TraversalError::PathResolutionFailed { reference, base_dir } => {
                let mut r = String::from_str("Failed to resolve path: ");
                r.append(reference.as_str());
                r.append(" (relative to ");
                r.append(base_dir.as_str());
                r.append(")");
                r
            },
            TraversalError::CircularReference { base_file, reference } => {
                let mut r = String::from_str("Circular reference detected: ");
                r.append(base_file.as_str());
                r.append(" -> ");
                r.append(reference.as_str());
                r
            },
            TraversalError::FileTooLarge { size, limit } => {
                let mut r = String::from_str("File too large: ");
                push_decimal(&mut r, *size);
                r.append(" bytes (max: ");
                push_decimal(&mut r, *limit);
                r.append(" bytes)");
                r
            },
            TraversalError::RecursionDepthExceeded { max_depth } => {
                let mut r = String::from_str("Recursion depth exceeded (max: ");
                push_decimal(&mut r, *max_depth as u64);
                r.append(")");
                r
            },
            TraversalError::StatFailed { path } => {
                let mut r = String::from_str("Failed to stat file: ");
                r.append(path.as_str());
                r
            },
            TraversalError::ReadFailed { path } => {
                let mut r = String::from_str("Failed to load mindmap: ");
                r.append(path.as_str());
                r
            },
        }
    }
}

/// The text that reports why a line is not a node.
pub open spec fn line_error_message(e: LineError) -> Seq<char> {
    match e {
        LineError::Format => "Line does not match node format"@,
        LineError::Id(NumberError::Empty) => "cannot parse integer from empty string"@,
        LineError::Id(NumberError::InvalidDigit) => "invalid digit found in string"@,
        LineError::Id(NumberError::TooLarge) => "number too large to fit in target type"@,
    }
}

/// Builds [`line_error_message`].
pub fn line_error_text(e: LineError) -> (r: String)
    ensures
        r@ == line_error_message(e),
{
    match e {
        LineError::Format => String::from_str("Line does not match node format"),
        LineError::Id(NumberError::Empty) => String::from_str(
            "cannot parse integer from empty string",
        ),
        LineError::Id(NumberError::InvalidDigit) => String::from_str(
            "invalid digit found in string",
        ),
        LineError::Id(NumberError::TooLarge) => String::from_str(
            "number too large to fit in target type",
        ),
    }
}

/// The command that checked references strictly.
#[derive(Debug, Clone, Copy, PartialEq, Eq, Structural)]
pub enum StrictCommand {
    Add,
    Put,
    Patch,
}

/// Why a command on a mindmap was refused. A refused command changes nothing.
#[derive(Debug)]
pub enum CommandError {
    /// No node has the id.
    NodeNotFound { id: u32 },
    /// No node has the id that a graph was asked for.
    NotInGraph { id: u32 },
    /// The line that was given, or that the command built, is not a node.
    Line(LineError),
    /// The line given to `put` has another id than the node it replaces.
    PutIdMismatch,
    /// The line that `patch` built has another id than the node it patches.
    PatchIdMismatch,
    /// The edited line has another id than the node that was edited.
    EditIdMismatch,
    /// The line written for a new node has another id than the one it was given.
    AddIdMismatch { expected: u32 },
    /// Under strict checking, the new text refers to a node that does not exist.
    MissingReference { command: StrictCommand, target: u32 },
    /// Other nodes refer to the node, and its removal was not forced.
    Referenced { id: u32, by: Vec<u32> },
    /// The editor left no line.
    EditorEmpty,
    /// The editor left more than one line.
    EditorManyLines,
    /// Every id up to the greatest that a node can have is in use.
    NoFreeId,
    /// The editor could not be run, or did not end well.
    EditorFailed,
    /// The mindmap was read from standard input and has no file to be written to.
    CannotSave,
    /// The text of the mindmap could not be written to its file.
    WriteFailed { path: String },
}

/// The mathematical content of a [`CommandError`].
pub enum CommandErrorView {
    NodeNotFound { id: u32 },
    NotInGraph { id: u32 },
    Line(LineError),
    PutIdMismatch,
    PatchIdMismatch,
    EditIdMismatch,
    AddIdMismatch { expected: u32 },
    MissingReference { command: StrictCommand, target: u32 },
    Referenced { id: u32, by: Seq<u32> },
    EditorEmpty,
    EditorManyLines,
    NoFreeId,
    EditorFailed,
    CannotSave,
    WriteFailed { path: Seq<char> },
}

impl View for CommandError {
    type V = CommandErrorView;

    open spec fn view(&self) -> CommandErrorView {
        match self {
            CommandError::NodeNotFound { id } => CommandErrorView::NodeNotFound { id: *id },
            CommandError::NotInGraph { id } => CommandErrorView::NotInGraph { id: *id },
            CommandError::Line(e) => CommandErrorView::Line(*e),
            CommandError::PutIdMismatch => CommandErrorView::PutIdMismatch,
            CommandError::PatchIdMismatch => CommandErrorView::PatchIdMismatch,
            CommandError::EditIdMismatch => CommandErrorView::EditIdMismatch,
            CommandError::AddIdMismatch { expected } => CommandErrorView::AddIdMismatch {
                expected: *expected,
            },
            CommandError::MissingReference { command, target } => {
                CommandErrorView::MissingReference { command: *command, target: *target }
            },
            CommandError::Referenced { id, by } => CommandErrorView::Referenced {
                id: *id,
                by: by@,
            },
            CommandError::EditorEmpty => CommandErrorView::EditorEmpty,
            CommandError::EditorManyLines => CommandErrorView::EditorManyLines,
            CommandError::NoFreeId => CommandErrorView::NoFreeId,
            CommandError::EditorFailed => CommandErrorView::EditorFailed,
            CommandError::CannotSave => CommandErrorView::CannotSave,
            CommandError::WriteFailed { path } => CommandErrorView::WriteFailed { path: path@ },
        }
    }
}

/// The name of a strictly checking command as the messages write it.
pub open spec fn strict_command_name(command: StrictCommand) -> Seq<char> {
    match command {
        StrictCommand::Add => "ADD"@,
        StrictCommand::Put => "PUT"@,
        StrictCommand::Patch => "PATCH"@,
    }
}

impl CommandErrorView {
    /// The text that reports this refusal to a person.
    pub open spec fn message(self) -> Seq<char> {
        match self {
            CommandErrorView::NodeNotFound { id } => "Node ["@ + decimal(id as nat)
                + "] not found"@,
            CommandErrorView::NotInGraph { id } => "Node "@ + decimal(id as nat) + " not found"@,
            CommandErrorView::Line(e) => line_error_message(e),
            CommandErrorView::PutIdMismatch => "PUT line id does not match target id"@,
            CommandErrorView::PatchIdMismatch => "Patch resulted in different id"@,
            CommandErrorView::EditIdMismatch => "Cannot change node ID"@,
            CommandErrorView::AddIdMismatch { expected } => "Added line id changed; expected ["@
                + decimal(expected as nat) + "]"@,
            CommandErrorView::MissingReference { command, target } => strict_command_name(command)
                + " strict: reference to missing node "@ + decimal(target as nat),
            CommandErrorView::Referenced { id, by } => "Node "@ + decimal(id as nat)
                + " is referenced by "@ + crate::commands::id_list(by)
                + "; use --force to delete"@,
            CommandErrorView::EditorEmpty => "No content written in editor"@,
            CommandErrorView::EditorManyLines => {
                "Expected exactly one node line in editor; found multiple lines"@
            },
            CommandErrorView::NoFreeId => "No free node id is left"@,
            CommandErrorView::EditorFailed => "Editor exited with non-zero status"@,
            CommandErrorView::CannotSave => {
                "Cannot save: mindmap was loaded from stdin ('-'); use --file <path> to save changes"@
            },
            CommandErrorView::WriteFailed { path } => "Failed to persist temp file to "@ + path,
        }
    }
}

impl CommandError {
    /// The text that reports this refusal to a person.
    pub fn message(&self) -> (r: String)
        ensures
            r@ == self@.message(),
    {
        match self {
            CommandError::NodeNotFound { id } => {
                let mut r = String::from_str("Node [");
                push_decimal(&mut r, *id as u64);
                r.append("] not found");
                r
            },
            CommandError::NotInGraph { id } => {
                let mut r = String::from_str("Node ");
                push_decimal(&mut r, *id as u64);
                r.append(" not found");
                r
            },
            CommandError::Line(e) => line_error_text(*e),
            CommandError::PutIdMismatch => String::from_str("PUT line id does not match target id"),
            CommandError::PatchIdMismatch => String::from_str("Patch resulted in different id"),
            CommandError::EditIdMismatch => String::from_str("Cannot change node ID"),
            CommandError::AddIdMismatch { expected } => {
                let mut r = String::from_str("Added line id changed; expected [");
                push_decimal(&mut r, *expected as u64);
                r.append("]");
                r
            },
            CommandError::MissingReference { command, target } => {
                let mut r = match command {
                    StrictCommand::Add => String::from_str("ADD"),
                    StrictCommand::Put => String::from_str("PUT"),
                    StrictCommand::Patch => String::from_str("PATCH"),
                };
                r.append(" strict: reference to missing node ");
                push_decimal(&mut r, *target as u64);
                r
            },
            CommandError::Referenced { id, by } => {
                let mut r = String::from_str("Node ");
                push_decimal(&mut r, *id as u64);
                r.append(" is referenced by ");
                crate::commands::push_id_list(&mut r, by);
                r.append("; use --force to delete");
                r
            },
            CommandError::EditorEmpty => String::from_str("No content written in editor"),
            CommandError::EditorManyLines => String::from_str(
                "Expected exactly one node line in editor; found multiple lines",
            ),
            CommandError::NoFreeId => String::from_str("No free node id is left"),
            CommandError::EditorFailed => String::from_str("Editor exited with non-zero status"),
            CommandError::CannotSave => String::from_str(
                "Cannot save: mindmap was loaded from stdin ('-'); use --file <path> to save changes",
            ),
            CommandError::WriteFailed { path } => {
                let mut r = String::from_str("Failed to persist temp file to ");
                r.append(path.as_str());
                r
            },
        }
    }
}

} // verus!
