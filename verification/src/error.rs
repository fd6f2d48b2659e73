//! The error kinds of the session manager, and the failures of the
//! operating-system steps from which they are made.

use vstd::prelude::*;
use vstd::string::*;

verus! {

/// What a manager operation can fail with.
#[derive(Debug, PartialEq, Eq)]
pub enum ManagerError {
    /// No session has the given identifier.
    NotFound,
    /// Allocating the PTY or starting the command failed; the text says how.
    SpawnError(String),
    /// An operation on an existing session's PTY failed; the text says how.
    IoError(String),
}

/// The step of creating a session that can fail.
#[derive(Clone, Copy, Debug, PartialEq, Eq)]
pub enum SpawnStage {
    /// Allocating the PTY pair.
    OpenPty,
    /// Starting the command on the slave side.
    Spawn,
    /// Duplicating the master for the reader task.
    CloneReader,
    /// Taking the master's writer.
    TakeWriter,
}

/// The PTY operation on a live session that can fail.
#[derive(Clone, Copy, Debug, PartialEq, Eq)]
pub enum IoStage {
    /// Writing the input bytes.
    Write,
    /// Flushing after the write.
    Flush,
    /// Changing the terminal's dimensions.
    Resize,
}

/// A failed step of session creation, with the operating system's account.
#[derive(Debug)]
pub struct SpawnFailure {
    pub stage: SpawnStage,
    pub detail: String,
}

/// A failed PTY operation, with the operating system's account.
#[derive(Debug)]
pub struct IoFailure {
    pub stage: IoStage,
    pub detail: String,
}

/// The text reported for a missing session.
pub open spec fn not_found_text() -> Seq<char> {
    "session not found"@
}

impl SpawnStage {
    /// The words that open the message of a failure at this stage.
    pub open spec fn prefix(self) -> Seq<char> {
        match self {
            SpawnStage::OpenPty => "openpty failed: "@,
            SpawnStage::Spawn => "spawn failed: "@,
            SpawnStage::CloneReader => "clone reader failed: "@,
            SpawnStage::TakeWriter => "take writer failed: "@,
        }
    }

    /// The words that open the message of a failure at this stage.
    pub fn label(&self) -> (text: &'static str)
        ensures
            text@ == self.prefix(),
    {
        match self {
            SpawnStage::OpenPty => "openpty failed: ",
            SpawnStage::Spawn => "spawn failed: ",
            SpawnStage::CloneReader => "clone reader failed: ",
            SpawnStage::TakeWriter => "take writer failed: ",
        }
    }
}

impl IoStage {
    /// The words that open the message of a failure of this operation.
    pub open spec fn prefix(self) -> Seq<char> {
        match self {
            IoStage::Write => "write failed: "@,
            IoStage::Flush => "flush failed: "@,
            IoStage::Resize => "resize failed: "@,
        }
    }

    /// The words that open the message of a failure of this operation.
    pub fn label(&self) -> (text: &'static str)
        ensures
            text@ == self.prefix(),
    {
        match self {
            IoStage::Write => "write failed: ",
            IoStage::Flush => "flush failed: ",
            IoStage::Resize => "resize failed: ",
        }
    }
}

impl SpawnFailure {
    /// The full message: the stage's prefix, then the detail.
    pub open spec fn text(&self) -> Seq<char> {
        self.stage.prefix() + self.detail@
    }

    /// The full message: the stage's prefix, then the detail.
    pub fn message(&self) -> (message: String)
        ensures
            message@ == self.text(),
    {
        let mut message = self.stage.label().to_owned();
        message.append(self.detail.as_str());
        message
    }
}

impl IoFailure {
    /// The full message: the operation's prefix, then the detail.
    pub open spec fn text(&self) -> Seq<char> {
        self.stage.prefix() + self.detail@
    }

    /// The full message: the operation's prefix, then the detail.
    pub fn message(&self) -> (message: String)
        ensures
            message@ == self.text(),
    {
        let mut message = self.stage.label().to_owned();
        message.append(self.detail.as_str());
        message
    }
}

impl ManagerError {
    /// The text that a caller is shown for this error.
    pub open spec fn text(&self) -> Seq<char> {
        match self {
            ManagerError::NotFound => not_found_text(),
            ManagerError::SpawnError(message) => message@,
            ManagerError::IoError(message) => message@,
        }
    }

    /// The text that a caller is shown for this error.
    pub fn message(&self) -> (message: String)
        ensures
            message@ == self.text(),
    {
        match self {
            ManagerError::NotFound => "session not found".to_owned(),
            ManagerError::SpawnError(message) => message.clone(),
            ManagerError::IoError(message) => message.clone(),
        }
    }

    /// The error that a failed creation step becomes.
    pub fn from_spawn_failure(failure: &SpawnFailure) -> (error: ManagerError)
        ensures
            error matches ManagerError::SpawnError(message) && message@ == failure.text(),
    {
        ManagerError::SpawnError(failure.message())
    }

    /// The error that a failed PTY operation becomes.
    pub fn from_io_failure(failure: &IoFailure) -> (error: ManagerError)
        ensures
            error matches ManagerError::IoError(message) && message@ == failure.text(),
    {
        ManagerError::IoError(failure.message())
    }
}

} // verus!
