//! Taking over an input device, step by step.

use vstd::prelude::*;

use crate::entry::Entry;
use crate::event::ABS_CNT;
use crate::interceptor::CreateError;
use crate::io_error::{
    ErrorKind, IoError, EACCES, EBUSY, EINTR, EINVAL, ENODEV, ENOENT, ENOTTY, EPERM,
};

verus! {

/// Why a device could not be taken over.
#[derive(Debug)]
pub enum ClaimError {
    Owned,
    Stale,
    NotApplicable,
    Busy,
    Gone(IoError),
    Interrupted(IoError),
    Permission(IoError),
    Unsupported(IoError),
    Output(IoError),
    Fatal(IoError),
    Other(IoError),
}

/// What an error of the device itself means for the claim.
pub open spec fn source_error(err: IoError) -> ClaimError {
    if err.has_code(ENOENT) || err.has_code(ENODEV) {
        ClaimError::Gone(err)
    } else if err.has_code(EINTR) {
        ClaimError::Interrupted(err)
    } else if err.has_code(EACCES) || err.has_code(EPERM) {
        ClaimError::Permission(err)
    } else if err.has_code(EINVAL) || err.has_code(ENOTTY) {
        ClaimError::Unsupported(err)
    } else {
        ClaimError::Other(err)
    }
}

impl ClaimError {
    /// What an error of the device itself means for the claim.
    pub fn source(err: IoError) -> (error: ClaimError)
        ensures
            error == source_error(err),
    {
        match err.os_code {
            Some(code) => {
                if code == ENOENT || code == ENODEV {
                    ClaimError::Gone(err)
                } else if code == EINTR {
                    ClaimError::Interrupted(err)
                } else if code == EACCES || code == EPERM {
                    ClaimError::Permission(err)
                } else if code == EINVAL || code == ENOTTY {
                    ClaimError::Unsupported(err)
                } else {
                    ClaimError::Other(err)
                }
            },
            None => ClaimError::Other(err),
        }
    }

    /// The text of the error.
    pub open spec fn text(self) -> Seq<char> {
        match self {
            ClaimError::Owned => "candidate is already owned by rkvm"@,
            ClaimError::Stale => "candidate node instance changed"@,
            ClaimError::NotApplicable => "candidate no longer matches policy"@,
            ClaimError::Busy => "candidate is busy"@,
            ClaimError::Gone(err) => "candidate disappeared: "@ + err.message@,
            ClaimError::Interrupted(err) => "candidate operation was interrupted: "@ + err.message@,
            ClaimError::Permission(err) => "candidate access is blocked: "@ + err.message@,
            ClaimError::Unsupported(err) => "candidate is unsupported: "@ + err.message@,
            ClaimError::Output(err) => "failed to create candidate output: "@ + err.message@,
            ClaimError::Fatal(err) => "input infrastructure failed: "@ + err.message@,
            ClaimError::Other(err) => "candidate operation failed: "@ + err.message@,
        }
    }

    pub fn message(&self) -> (text: String)
        ensures
            text@ == self.text(),
    {
        let (start, cause) = match self {
            ClaimError::Owned => ("candidate is already owned by rkvm", None),
            ClaimError::Stale => ("candidate node instance changed", None),
            ClaimError::NotApplicable => ("candidate no longer matches policy", None),
            ClaimError::Busy => ("candidate is busy", None),
            ClaimError::Gone(err) => ("candidate disappeared: ", Some(err)),
            ClaimError::Interrupted(err) => ("candidate operation was interrupted: ", Some(err)),
            ClaimError::Permission(err) => ("candidate access is blocked: ", Some(err)),
            ClaimError::Unsupported(err) => ("candidate is unsupported: ", Some(err)),
            ClaimError::Output(err) => ("failed to create candidate output: ", Some(err)),
            ClaimError::Fatal(err) => ("input infrastructure failed: ", Some(err)),
            ClaimError::Other(err) => ("candidate operation failed: ", Some(err)),
        };
        let mut text = String::new();
        text.append(start);
        proof {
            assert(text@ =~= start@);
        }
        if let Some(err) = cause {
            text.append(err.message.as_str());
        }
        text
    }
}

/// What has to be done next to take over a device.
#[derive(Clone, Copy, Debug, PartialEq, Eq, Structural)]
pub enum ClaimStep {
    /// Ask whether the node is already owned.
    CheckOwned,
    /// Open the node and identify it.
    Open,
    /// Inspect the device and ask the policy about it.
    Inspect,
    /// Register the node as owned.
    Register,
    /// Ask whether the device has switches.
    CheckSwitches,
    /// Read the range of an absolute axis.
    ReadAxis { axis: u16 },
    /// Disable an absolute axis.
    DisableAxis { axis: u16 },
    /// Put the device on the virtual bus and grab it.
    Grab,
    /// Make the virtual device.
    MakeWriter,
    /// Find the node of the virtual device.
    FindWriter,
    /// Identify the node of the virtual device.
    IdentifyWriter,
    /// Register the node of the virtual device as owned.
    RegisterWriter,
    /// The device is taken over.
    Done,
}

/// How a step went.
#[derive(Debug)]
pub enum ClaimReply {
    Owned(bool),
    Opened(Result<Entry, IoError>),
    /// The device was inspected, and matches the policy or does not.
    Inspected(Result<bool, IoError>),
    Registered(bool),
    Switches(i32),
    /// The minimum and maximum of the axis, where the device has it.
    Axis(Option<(i32, i32)>),
    Disabled(i32),
    Grabbed(i32),
    WriterMade(Result<(), CreateError>),
    WriterFound(bool),
    WriterIdentified(Result<(), IoError>),
    WriterRegistered(bool),
}

/// Whether a reply answers a step.
pub open spec fn answers(step: ClaimStep, reply: ClaimReply) -> bool {
    match (step, reply) {
        (ClaimStep::CheckOwned, ClaimReply::Owned(_)) => true,
        (ClaimStep::Open, ClaimReply::Opened(_)) => true,
        (ClaimStep::Inspect, ClaimReply::Inspected(_)) => true,
        (ClaimStep::Register, ClaimReply::Registered(_)) => true,
        (ClaimStep::CheckSwitches, ClaimReply::Switches(_)) => true,
        (ClaimStep::ReadAxis { axis }, ClaimReply::Axis(_)) => axis < ABS_CNT,
        (ClaimStep::DisableAxis { axis }, ClaimReply::Disabled(ret)) => axis < ABS_CNT && ret
            > i32::MIN,
        (ClaimStep::Grab, ClaimReply::Grabbed(ret)) => ret > i32::MIN,
        (ClaimStep::MakeWriter, ClaimReply::WriterMade(_)) => true,
        (ClaimStep::FindWriter, ClaimReply::WriterFound(_)) => true,
        (ClaimStep::IdentifyWriter, ClaimReply::WriterIdentified(_)) => true,
        (ClaimStep::RegisterWriter, ClaimReply::WriterRegistered(_)) => true,
        _ => false,
    }
}

/// Whether the range of an axis makes no sense: kernels have been seen to report such.
pub open spec fn is_nonsense(min: i32, max: i32) -> bool {
    (min != 0 || max != 0) && max < min
}

/// The step after an axis is dealt with.
pub open spec fn after_axis(axis: u16) -> ClaimStep {
    if axis + 1 < ABS_CNT {
        ClaimStep::ReadAxis { axis: (axis + 1) as u16 }
    } else {
        ClaimStep::Grab
    }
}

/// Whether a step went well.
pub open spec fn goes_on(expected: Entry, reply: ClaimReply) -> bool {
    match reply {
        ClaimReply::Owned(owned) => !owned,
        ClaimReply::Opened(opened) => opened == Ok::<Entry, IoError>(expected),
        ClaimReply::Inspected(inspected) => inspected == Ok::<bool, IoError>(true),
        ClaimReply::Registered(registered) => registered,
        ClaimReply::Switches(switches) => switches != 1,
        ClaimReply::Axis(_) => true,
        ClaimReply::Disabled(ret) => ret >= 0,
        ClaimReply::Grabbed(ret) => ret >= 0,
        ClaimReply::WriterMade(made) => made is Ok,
        ClaimReply::WriterFound(found) => found,
        ClaimReply::WriterIdentified(identified) => identified is Ok,
        ClaimReply::WriterRegistered(registered) => registered,
    }
}

/// The step after one that went well.
pub open spec fn step_after(step: ClaimStep, reply: ClaimReply) -> ClaimStep {
    match step {
        ClaimStep::CheckOwned => ClaimStep::Open,
        ClaimStep::Open => ClaimStep::Inspect,
        ClaimStep::Inspect => ClaimStep::Register,
        ClaimStep::Register => ClaimStep::CheckSwitches,
        ClaimStep::CheckSwitches => ClaimStep::ReadAxis { axis: 0 },
        ClaimStep::ReadAxis { axis } => match reply {
            ClaimReply::Axis(Some((min, max))) if is_nonsense(min, max) => ClaimStep::DisableAxis {
                axis,
            },
            _ => after_axis(axis),
        },
        ClaimStep::DisableAxis { axis } => after_axis(axis),
        ClaimStep::Grab => ClaimStep::MakeWriter,
        ClaimStep::MakeWriter => ClaimStep::FindWriter,
        ClaimStep::FindWriter => ClaimStep::IdentifyWriter,
        ClaimStep::IdentifyWriter => ClaimStep::RegisterWriter,
        ClaimStep::RegisterWriter => ClaimStep::Done,
        ClaimStep::Done => ClaimStep::Done,
    }
}

/// Whether an error is a new one with this kind and text.
pub open spec fn is_plain(err: IoError, kind: ErrorKind, message: Seq<char>) -> bool {
    err.kind == kind && err.os_code is None && err.message@ == message
}

/// Whether a claim error stands for a return value that is a negative error code.
pub open spec fn is_source_of(ret: i32, error: ClaimError) -> bool {
    exists|err: IoError|
        err.has_code((-ret) as i32) && err.kind == crate::io_error::kind_of_code((-ret) as i32)
            && error == #[trigger] source_error(err)
}

/// Whether an error is the one of a step that went wrong.
pub open spec fn is_error_of(reply: ClaimReply, error: ClaimError) -> bool {
    match reply {
        ClaimReply::Owned(_) => error == ClaimError::Owned,
        ClaimReply::Opened(Ok(_)) => error == ClaimError::Stale,
        ClaimReply::Opened(Err(err)) => error == source_error(err),
        ClaimReply::Inspected(Ok(_)) => error == ClaimError::NotApplicable,
        ClaimReply::Inspected(Err(err)) => error == source_error(err),
        ClaimReply::Registered(_) => error == ClaimError::Owned,
        ClaimReply::Switches(_) => error matches ClaimError::Unsupported(err) && is_plain(
            err,
            ErrorKind::Unsupported,
            "switch devices cannot be reproduced safely"@,
        ),
        ClaimReply::Axis(_) => false,
        ClaimReply::Disabled(ret) => is_source_of(ret, error),
        ClaimReply::Grabbed(ret) => if ret == -EBUSY {
            error == ClaimError::Busy
        } else {
            is_source_of(ret, error)
        },
        ClaimReply::WriterMade(Err(CreateError::Open(err))) => error == ClaimError::Fatal(err),
        ClaimReply::WriterMade(Err(CreateError::Create(err))) => error == ClaimError::Output(err),
        ClaimReply::WriterMade(Ok(_)) => false,
        ClaimReply::WriterFound(_) => error matches ClaimError::Fatal(err) && is_plain(
            err,
            ErrorKind::Other,
            "No devnode for writer"@,
        ),
        ClaimReply::WriterIdentified(Err(err)) => error == ClaimError::Fatal(err),
        ClaimReply::WriterIdentified(Ok(_)) => false,
        ClaimReply::WriterRegistered(_) => error matches ClaimError::Fatal(err) && is_plain(
            err,
            ErrorKind::Other,
            "Writer already registered"@,
        ),
    }
}

/// An attempt to take over a device.
#[derive(Debug)]
pub struct Claim {
    expected: Entry,
    step: ClaimStep,
}

impl Claim {
    /// The node that is to be taken over.
    pub closed spec fn expected(&self) -> Entry {
        self.expected
    }

    /// What has to be done next.
    pub closed spec fn next(&self) -> ClaimStep {
        self.step
    }

    pub fn new(expected: Entry) -> (claim: Claim)
        ensures
            claim.expected() == expected,
            claim.next() == ClaimStep::CheckOwned,
    {
        Claim { expected, step: ClaimStep::CheckOwned }
    }

    pub fn step(&self) -> (step: ClaimStep)
        ensures
            step == self.next(),
    {
        self.step
    }

    fn after(axis: u16) -> (step: ClaimStep)
        requires
            axis < ABS_CNT,
        ensures
            step == after_axis(axis),
    {
        if axis + 1 < ABS_CNT {
            ClaimStep::ReadAxis { axis: axis + 1 }
        } else {
            ClaimStep::Grab
        }
    }

    /// Takes how the current step went, and goes on to the next one or fails.
    pub fn advance(&mut self, reply: ClaimReply) -> (result: Result<ClaimStep, ClaimError>)
        requires
            answers(old(self).next(), reply),
        ensures
            final(self).expected() == old(self).expected(),
            match result {
                Ok(step) => goes_on(old(self).expected(), reply) && step == step_after(
                    old(self).next(),
                    reply,
                ) && final(self).next() == step,
                Err(error) => !goes_on(old(self).expected(), reply) && is_error_of(reply, error)
                    && final(self).next() == old(self).next(),
            },
    {
        let next = match (self.step, reply) {
            (ClaimStep::CheckOwned, ClaimReply::Owned(owned)) => {
                if owned {
                    return Err(ClaimError::Owned);
                }
                ClaimStep::Open
            },
            (ClaimStep::Open, ClaimReply::Opened(opened)) => {
                match opened {
                    Ok(entry) => {
                        if entry != self.expected {
                            return Err(ClaimError::Stale);
                        }
                        ClaimStep::Inspect
                    },
                    Err(err) => {
                        return Err(ClaimError::source(err));
                    },
                }
            },
            (ClaimStep::Inspect, ClaimReply::Inspected(inspected)) => {
                match inspected {
                    Ok(eligible) => {
                        if !eligible {
                            return Err(ClaimError::NotApplicable);
                        }
                        ClaimStep::Register
                    },
                    Err(err) => {
                        return Err(ClaimError::source(err));
                    },
                }
            },
            (ClaimStep::Register, ClaimReply::Registered(registered)) => {
                if !registered {
                    return Err(ClaimError::Owned);
                }
                ClaimStep::CheckSwitches
            },
            (ClaimStep::CheckSwitches, ClaimReply::Switches(switches)) => {
                // A driver reports the current state of its switches when it binds. There is no
                // way of knowing that state here.
                if switches == 1 {
                    return Err(
                        ClaimError::Unsupported(
                            IoError::new(
                                ErrorKind::Unsupported,
                                "switch devices cannot be reproduced safely",
                            ),
                        ),
                    );
                }
                ClaimStep::ReadAxis { axis: 0 }
            },
            (ClaimStep::ReadAxis { axis }, ClaimReply::Axis(range)) => {
                match range {
                    Some((min, max)) => {
                        if (min != 0 || max != 0) && max < min {
                            ClaimStep::DisableAxis { axis }
                        } else {
                            Claim::after(axis)
                        }
                    },
                    None => Claim::after(axis),
                }
            },
            (ClaimStep::DisableAxis { axis }, ClaimReply::Disabled(ret)) => {
                if ret < 0 {
                    return Err(ClaimError::source(IoError::from_raw_os_error(-ret)));
                }
                Claim::after(axis)
            },
            (ClaimStep::Grab, ClaimReply::Grabbed(ret)) => {
                if ret < 0 {
                    if ret == -EBUSY {
                        return Err(ClaimError::Busy);
                    }
                    return Err(ClaimError::source(IoError::from_raw_os_error(-ret)));
                }
                ClaimStep::MakeWriter
            },
            (ClaimStep::MakeWriter, ClaimReply::WriterMade(made)) => {
                match made {
                    Ok(_) => ClaimStep::FindWriter,
                    Err(CreateError::Open(err)) => {
                        return Err(ClaimError::Fatal(err));
                    },
                    Err(CreateError::Create(err)) => {
                        return Err(ClaimError::Output(err));
                    },
                }
            },
            (ClaimStep::FindWriter, ClaimReply::WriterFound(found)) => {
                if !found {
                    return Err(
                        ClaimError::Fatal(IoError::new(ErrorKind::Other, "No devnode for writer")),
                    );
                }
                ClaimStep::IdentifyWriter
            },
            (ClaimStep::IdentifyWriter, ClaimReply::WriterIdentified(identified)) => {
                match identified {
                    Ok(_) => ClaimStep::RegisterWriter,
                    Err(err) => {
                        return Err(ClaimError::Fatal(err));
                    },
                }
            },
            (ClaimStep::RegisterWriter, ClaimReply::WriterRegistered(registered)) => {
                if !registered {
                    return Err(
                        ClaimError::Fatal(
                            IoError::new(ErrorKind::Other, "Writer already registered"),
                        ),
                    );
                }
                ClaimStep::Done
            },
            _ => {
                assert(false);
                ClaimStep::Done
            },
        };
        self.step = next;
        Ok(next)
    }
}

/// How many steps are left at most.
pub open spec fn steps_left(step: ClaimStep) -> int {
    match step {
        ClaimStep::CheckOwned => 2 * ABS_CNT + 10,
        ClaimStep::Open => 2 * ABS_CNT + 9,
        ClaimStep::Inspect => 2 * ABS_CNT + 8,
        ClaimStep::Register => 2 * ABS_CNT + 7,
        ClaimStep::CheckSwitches => 2 * ABS_CNT + 6,
        ClaimStep::ReadAxis { axis } => 2 * (ABS_CNT - axis) + 5,
        ClaimStep::DisableAxis { axis } => 2 * (ABS_CNT - axis) + 4,
        ClaimStep::Grab => 5,
        ClaimStep::MakeWriter => 4,
        ClaimStep::FindWriter => 3,
        ClaimStep::IdentifyWriter => 2,
        ClaimStep::RegisterWriter => 1,
        ClaimStep::Done => 0,
    }
}

/// A claim comes to an end: every step that goes well leaves fewer steps, down to none.
pub proof fn claims_come_to_an_end(step: ClaimStep, reply: ClaimReply)
    requires
        answers(step, reply),
    ensures
        0 <= steps_left(step_after(step, reply)) < steps_left(step),
        steps_left(step_after(step, reply)) == 0 <==> step_after(step, reply) == ClaimStep::Done,
{
}

/// A device is grabbed only after every axis was read and those without sense were disabled: the
/// step before a grab dealt with the last axis.
pub proof fn every_axis_is_checked(step: ClaimStep, reply: ClaimReply)
    requires
        answers(step, reply),
        step_after(step, reply) == ClaimStep::Grab,
    ensures
        step == (ClaimStep::ReadAxis { axis: (ABS_CNT - 1) as u16 }) || step == (
        ClaimStep::DisableAxis { axis: (ABS_CNT - 1) as u16 }),
{
}

} // verus!
