//! Errors of input and output operations, as plain values.

use std::io::ErrorKind::{
    NotFound as StdNotFound, PermissionDenied as StdPermissionDenied,
    ConnectionRefused as StdConnectionRefused, ConnectionReset as StdConnectionReset,
    HostUnreachable as StdHostUnreachable, NetworkUnreachable as StdNetworkUnreachable,
    ConnectionAborted as StdConnectionAborted, NotConnected as StdNotConnected,
    AddrInUse as StdAddrInUse, AddrNotAvailable as StdAddrNotAvailable,
    NetworkDown as StdNetworkDown, BrokenPipe as StdBrokenPipe, AlreadyExists as StdAlreadyExists,
    WouldBlock as StdWouldBlock, NotADirectory as StdNotADirectory,
    IsADirectory as StdIsADirectory, DirectoryNotEmpty as StdDirectoryNotEmpty,
    ReadOnlyFilesystem as StdReadOnlyFilesystem,
    StaleNetworkFileHandle as StdStaleNetworkFileHandle, InvalidInput as StdInvalidInput,
    InvalidData as StdInvalidData, TimedOut as StdTimedOut, WriteZero as StdWriteZero,
    StorageFull as StdStorageFull, NotSeekable as StdNotSeekable,
    QuotaExceeded as StdQuotaExceeded, FileTooLarge as StdFileTooLarge,
    ResourceBusy as StdResourceBusy, ExecutableFileBusy as StdExecutableFileBusy,
    Deadlock as StdDeadlock, CrossesDevices as StdCrossesDevices, TooManyLinks as StdTooManyLinks,
    InvalidFilename as StdInvalidFilename, ArgumentListTooLong as StdArgumentListTooLong,
    Interrupted as StdInterrupted, Unsupported as StdUnsupported,
    UnexpectedEof as StdUnexpectedEof, OutOfMemory as StdOutOfMemory, Other as StdOther,
};
use vstd::prelude::*;

use self::ErrorKind::{
    NotFound, PermissionDenied, ConnectionRefused, ConnectionReset, HostUnreachable,
    NetworkUnreachable, ConnectionAborted, NotConnected, AddrInUse, AddrNotAvailable, NetworkDown,
    BrokenPipe, AlreadyExists, WouldBlock, NotADirectory, IsADirectory, DirectoryNotEmpty,
    ReadOnlyFilesystem, StaleNetworkFileHandle, InvalidInput, InvalidData, TimedOut, WriteZero,
    StorageFull, NotSeekable, QuotaExceeded, FileTooLarge, ResourceBusy, ExecutableFileBusy,
    Deadlock, CrossesDevices, TooManyLinks, InvalidFilename, ArgumentListTooLong, Interrupted,
    Unsupported, UnexpectedEof, OutOfMemory, Other,
};

verus! {

pub const EPERM: i32 = 1;

pub const ENOENT: i32 = 2;

pub const EINTR: i32 = 4;

pub const EIO: i32 = 5;

pub const EACCES: i32 = 13;

pub const EBUSY: i32 = 16;

pub const ENODEV: i32 = 19;

pub const EINVAL: i32 = 22;

pub const ENOTTY: i32 = 25;

/// What kind of thing went wrong, as `std::io::ErrorKind` tells it.
#[derive(Clone, Copy, Debug, PartialEq, Eq, Structural)]
pub enum ErrorKind {
    NotFound,
    PermissionDenied,
    ConnectionRefused,
    ConnectionReset,
    HostUnreachable,
    NetworkUnreachable,
    ConnectionAborted,
    NotConnected,
    AddrInUse,
    AddrNotAvailable,
    NetworkDown,
    BrokenPipe,
    AlreadyExists,
    WouldBlock,
    NotADirectory,
    IsADirectory,
    DirectoryNotEmpty,
    ReadOnlyFilesystem,
    StaleNetworkFileHandle,
    InvalidInput,
    InvalidData,
    TimedOut,
    WriteZero,
    StorageFull,
    NotSeekable,
    QuotaExceeded,
    FileTooLarge,
    ResourceBusy,
    ExecutableFileBusy,
    Deadlock,
    CrossesDevices,
    TooManyLinks,
    InvalidFilename,
    ArgumentListTooLong,
    Interrupted,
    Unsupported,
    UnexpectedEof,
    OutOfMemory,
    Other,
    /// A kind that the standard library has no stable name for.
    Uncategorized,
}

/// An error, with the code that the operating system gave for it, where it gave one.
#[derive(Debug)]
pub struct IoError {
    pub kind: ErrorKind,
    pub os_code: Option<i32>,
    pub message: String,
}

/// The kind of an error of the operating system, as the standard library tells it for its code.
pub uninterp spec fn kind_of_code(code: i32) -> ErrorKind;

/// `std::io::Error::kind`, for the error of a code of the operating system. The kind is a function
/// of the code. Which one it is for a code is not stated.
#[verifier::external_body]
fn os_error_kind(code: i32) -> (kind: ErrorKind)
    ensures
        kind == kind_of_code(code),
{
    match std::io::Error::from_raw_os_error(code).kind() {
        StdNotFound => NotFound, StdPermissionDenied => PermissionDenied, StdConnectionRefused => ConnectionRefused, StdConnectionReset => ConnectionReset,
        StdHostUnreachable => HostUnreachable, StdNetworkUnreachable => NetworkUnreachable, StdConnectionAborted => ConnectionAborted, StdNotConnected => NotConnected,
        StdAddrInUse => AddrInUse, StdAddrNotAvailable => AddrNotAvailable, StdNetworkDown => NetworkDown, StdBrokenPipe => BrokenPipe,
        StdAlreadyExists => AlreadyExists, StdWouldBlock => WouldBlock, StdNotADirectory => NotADirectory, StdIsADirectory => IsADirectory,
        StdDirectoryNotEmpty => DirectoryNotEmpty, StdReadOnlyFilesystem => ReadOnlyFilesystem, StdStaleNetworkFileHandle => StaleNetworkFileHandle, StdInvalidInput => InvalidInput,
        StdInvalidData => InvalidData, StdTimedOut => TimedOut, StdWriteZero => WriteZero, StdStorageFull => StorageFull,
        StdNotSeekable => NotSeekable, StdQuotaExceeded => QuotaExceeded, StdFileTooLarge => FileTooLarge,
        StdResourceBusy => ResourceBusy, StdExecutableFileBusy => ExecutableFileBusy, StdDeadlock => Deadlock,
        StdCrossesDevices => CrossesDevices, StdTooManyLinks => TooManyLinks, StdInvalidFilename => InvalidFilename,
        StdArgumentListTooLong => ArgumentListTooLong, StdInterrupted => Interrupted, StdUnsupported => Unsupported,
        StdUnexpectedEof => UnexpectedEof, StdOutOfMemory => OutOfMemory, StdOther => Other,
        _ => ErrorKind::Uncategorized,
    }
}

/// `std::io::Error`: an error of the standard library. Nothing of it is visible here.
#[verifier::external_type_specification]
#[verifier::external_body]
pub struct ExError(std::io::Error);

/// `std::io::Error::from_raw_os_error`: the error of a code of the operating system. Nothing is
/// claimed of it.
pub assume_specification[ std::io::Error::from_raw_os_error ](code: i32) -> std::io::Error;

/// `to_string` of a `std::io::Error`. The text comes from the operating system, so nothing is
/// claimed of it.
#[verifier::external_body]
fn error_text(error: &std::io::Error) -> (text: String) {
    error.to_string()
}

impl IoError {
    pub fn new(kind: ErrorKind, message: &str) -> (error: IoError)
        ensures
            error.kind == kind,
            error.os_code is None,
            error.message@ == message@,
    {
        IoError { kind, os_code: None, message: message.to_owned() }
    }

    /// The error of a code of the operating system. The text of its message is left to the
    /// operating system.
    pub fn from_raw_os_error(code: i32) -> (error: IoError)
        ensures
            error.kind == kind_of_code(code),
            error.os_code == Some(code),
    {
        let error = std::io::Error::from_raw_os_error(code);
        IoError { kind: os_error_kind(code), os_code: Some(code), message: error_text(&error) }
    }

    /// Whether the error comes with this code of the operating system.
    pub open spec fn has_code(self, code: i32) -> bool {
        self.os_code == Some(code)
    }

    /// Whether the error means that a file or its device is gone.
    pub open spec fn disappeared(self) -> bool {
        self.kind == ErrorKind::NotFound || self.has_code(ENODEV)
    }

    /// Whether the error means that an input device was disconnected.
    pub open spec fn disconnected(self) -> bool {
        self.kind == ErrorKind::BrokenPipe || self.has_code(ENODEV) || self.has_code(EIO)
    }
}

pub fn is_disappearance(err: &IoError) -> (gone: bool)
    ensures
        gone == err.disappeared(),
{
    err.kind == ErrorKind::NotFound || err.os_code == Some(ENODEV)
}

pub fn is_device_disconnect(err: &IoError) -> (gone: bool)
    ensures
        gone == err.disconnected(),
{
    err.kind == ErrorKind::BrokenPipe || err.os_code == Some(ENODEV) || err.os_code == Some(EIO)
}

/// Whether the operation was interrupted and is to be tried again.
pub fn is_interruption(err: &IoError) -> (interrupted: bool)
    ensures
        interrupted == err.has_code(EINTR),
{
    err.os_code == Some(EINTR)
}

} // verus!
