//! The messages that clients and the server exchange over a transfer connection, one line each.

use vstd::prelude::*;

use crate::text::{append, ends_with, opt_text, trim, trimmed, CharClass};

verus! {

/// What a client asks of the server.
pub enum TransferCommand {
    /// Send the file from `offset` on.
    Download { path: String, offset: u64 },
    /// Take a file of `total_size` bytes.
    Upload { path: String, total_size: u64, auth_key: Option<String>, hash: Option<String> },
    /// Make a directory.
    Mkdir { path: String, auth_key: Option<String> },
    /// Remove a file or a directory.
    Remove { path: String, auth_key: Option<String> },
}

/// A command as a mathematical value.
pub enum TransferCommandView {
    Download { path: Seq<char>, offset: u64 },
    Upload {
        path: Seq<char>,
        total_size: u64,
        auth_key: Option<Seq<char>>,
        hash: Option<Seq<char>>,
    },
    Mkdir { path: Seq<char>, auth_key: Option<Seq<char>> },
    Remove { path: Seq<char>, auth_key: Option<Seq<char>> },
}

impl View for TransferCommand {
    type V = TransferCommandView;

    open spec fn view(&self) -> TransferCommandView {
        match self {
            TransferCommand::Download { path, offset } => TransferCommandView::Download {
                path: path@,
                offset: *offset,
            },
            TransferCommand::Upload { path, total_size, auth_key, hash } => TransferCommandView::Upload {
                path: path@,
                total_size: *total_size,
                auth_key: opt_text(*auth_key),
                hash: opt_text(*hash),
            },
            TransferCommand::Mkdir { path, auth_key } => TransferCommandView::Mkdir {
                path: path@,
                auth_key: opt_text(*auth_key),
            },
            TransferCommand::Remove { path, auth_key } => TransferCommandView::Remove {
                path: path@,
                auth_key: opt_text(*auth_key),
            },
        }
    }
}

/// The answer to an upload: `ready`, with the offset to send from, or `denied`.
pub struct UploadResponse {
    pub status: String,
    pub start_offset: u64,
    pub message: Option<String>,
}

/// The answer to an upload as a mathematical value.
pub struct UploadResponseView {
    pub status: Seq<char>,
    pub start_offset: u64,
    pub message: Option<Seq<char>>,
}

impl View for UploadResponse {
    type V = UploadResponseView;

    open spec fn view(&self) -> UploadResponseView {
        UploadResponseView {
            status: self.status@,
            start_offset: self.start_offset,
            message: opt_text(self.message),
        }
    }
}

/// The answer to a download, sent before the contents.
pub struct DownloadStartResponse {
    pub found: bool,
    pub size: u64,
    pub hash: Option<String>,
}

/// The answer to a download as a mathematical value.
pub struct DownloadStartResponseView {
    pub found: bool,
    pub size: u64,
    pub hash: Option<Seq<char>>,
}

impl View for DownloadStartResponse {
    type V = DownloadStartResponseView;

    open spec fn view(&self) -> DownloadStartResponseView {
        DownloadStartResponseView {
            found: self.found,
            size: self.size,
            hash: opt_text(self.hash),
        }
    }
}

/// The most bytes that are read of a command line.
pub const COMMAND_LINE_LIMIT: u64 = 1_048_576;

/// What became of reading a command line.
#[derive(Clone, Copy, PartialEq, Eq, Structural, Debug)]
pub enum CommandLine {
    /// The client closed the connection without a command.
    Absent,
    /// The line does not end within the limit, or the client closed the connection inside it.
    Unfinished,
    /// The line is complete.
    Complete,
}

/// Judges what was read as a command line: the number of bytes and the text.
pub fn judge_command_line(bytes_read: usize, line: &str) -> (r: CommandLine)
    ensures
        r is Absent <==> bytes_read == 0,
        r is Complete <==> bytes_read != 0 && line@.len() > 0 && line@.last() == '\n',
{
    if bytes_read == 0 {
        CommandLine::Absent
    } else {
        proof {
            reveal_strlit("\n");
            if line@.len() > 0 {
                let end = line@.subrange(line@.len() - 1, line@.len() as int);
                if line@.last() == '\n' {
                    assert(end =~= "\n"@);
                } else {
                    assert(end[0] != "\n"@[0]);
                }
            }
        }
        if ends_with(line, "\n") {
            CommandLine::Complete
        } else {
            CommandLine::Unfinished
        }
    }
}

/// Makes a line of a message that is written without line breaks.
pub fn frame(message: &str) -> (r: String)
    ensures
        r@ == message@ + "\n"@,
{
    append(message, "\n")
}

/// Tells whether an answer holds nothing but white space.
pub fn is_blank(line: &str) -> (r: bool)
    ensures
        r == (trimmed(line@, CharClass::Whitespace).len() == 0),
{
    let t = trim(line, CharClass::Whitespace);
    t.as_str().is_empty()
}

/// A framed message is a complete line, whatever it holds.
pub proof fn framed_message_is_complete(message: Seq<char>)
    ensures
        (message + "\n"@).len() > 0,
        (message + "\n"@).last() == '\n',
{
    reveal_strlit("\n");
}

} // verus!
