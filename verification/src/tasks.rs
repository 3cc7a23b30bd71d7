//! Settings of the task scheduler.

use vstd::prelude::*;

verus! {

/// The settings that must be at least 1.
#[derive(Clone, Copy, Debug, PartialEq, Eq, Structural)]
pub enum TasksField {
    MicroWorkers,
    MacroWorkers,
    BizarreRetry,
}

impl TasksField {
    /// The name of the setting as the configuration writes it.
    pub open spec fn spec_name(self) -> Seq<char> {
        match self {
            TasksField::MicroWorkers => "micro_workers"@,
            TasksField::MacroWorkers => "macro_workers"@,
            TasksField::BizarreRetry => "bizarre_retry"@,
        }
    }

    /// The name of the setting as the configuration writes it.
    pub fn name(self) -> (r: &'static str)
        ensures
            r@ == self.spec_name(),
    {
        match self {
            TasksField::MicroWorkers => "micro_workers",
            TasksField::MacroWorkers => "macro_workers",
            TasksField::BizarreRetry => "bizarre_retry",
        }
    }

    /// What is wrong with a setting that validation names.
    pub fn message(self) -> (r: &'static str)
        ensures
            r@ == "Cannot be less than 1"@,
    {
        "Cannot be less than 1"
    }
}

/// `ValidateRange::validate_range` of the validator crate, asked for a lower
/// bound alone. With only `min` given it answers false where the value is
/// less than `min` and true everywhere else.
#[verifier::external_body]
fn at_least(value: u8, min: u8) -> (r: bool)
    ensures
        r == (value >= min),
{
    validator::ValidateRange::validate_range(&value, Some(min), None, None, None)
}

/// The settings of the task scheduler.
#[derive(Clone, Copy, Debug, PartialEq, Eq)]
pub struct Tasks {
    pub micro_workers: u8,
    pub macro_workers: u8,
    pub bizarre_retry: u8,
    pub image_alloc: u32,
    pub image_bound: [u16; 2],
    pub suppress_preload: bool,
}

impl Tasks {
    /// Whether the settings are in range: the two numbers of workers and the
    /// number of retries are each at least 1.
    pub open spec fn valid(&self) -> bool {
        self.micro_workers >= 1 && self.macro_workers >= 1 && self.bizarre_retry >= 1
    }

    /// The settings that are out of range, in the order in which the
    /// structure lists them.
    pub open spec fn out_of_range(&self) -> Seq<TasksField> {
        (if self.micro_workers < 1 {
            seq![TasksField::MicroWorkers]
        } else {
            Seq::empty()
        }) + (if self.macro_workers < 1 {
            seq![TasksField::MacroWorkers]
        } else {
            Seq::empty()
        }) + (if self.bizarre_retry < 1 {
            seq![TasksField::BizarreRetry]
        } else {
            Seq::empty()
        })
    }

    /// Checks the ranges. Fails with every setting that is out of range.
    pub fn validate(&self) -> (r: Result<(), Vec<TasksField>>)
        ensures
            match r {
                Ok(_) => self.valid(),
                Err(fields) => !self.valid() && fields@ == self.out_of_range(),
            },
    {
        let mut fields: Vec<TasksField> = Vec::new();
        if !at_least(self.micro_workers, 1) {
            fields.push(TasksField::MicroWorkers);
        }
        if !at_least(self.macro_workers, 1) {
            fields.push(TasksField::MacroWorkers);
        }
        if !at_least(self.bizarre_retry, 1) {
            fields.push(TasksField::BizarreRetry);
        }
        if fields.len() == 0 {
            Ok(())
        } else {
            Err(fields)
        }
    }
}

} // verus!
