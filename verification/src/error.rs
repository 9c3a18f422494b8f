//! The errors of the record store, and the text of each.

use vstd::prelude::*;
use vstd::string::*;

verus! {

/// The four kinds of record.
#[derive(Clone, Copy, Debug, PartialEq, Eq, Structural)]
pub enum RecordKind {
    Student,
    Teacher,
    Course,
    Classroom,
}

/// Why an operation of the record store failed. A failed operation leaves the
/// store as it was.
#[derive(Clone, Copy, Debug, PartialEq, Eq, Structural)]
pub enum StoreError {
    /// A record of this kind was to be created from a payload that lacks a
    /// required text.
    Validation(RecordKind),
    /// No record of this kind is stored under this id.
    NotFound(RecordKind, u64),
    /// The student is enrolled in the course already.
    AlreadyEnrolled,
    /// The teacher is the course's teacher already.
    AlreadyAssigned,
    /// No id could be handed out: the last id was the greatest `u64`.
    IdUnavailable,
}

/// The result is `value`.
pub open spec fn gives<T>(result: Result<T, StoreError>, value: T) -> bool {
    result matches Ok(got) && got == value
}

/// The result is the error `error`.
pub open spec fn fails_with<T>(result: Result<T, StoreError>, error: StoreError) -> bool {
    result matches Err(got) && got == error
}

/// The character for one decimal digit.
pub open spec fn digit(d: nat) -> char {
    if d == 0 {
        '0'
    } else if d == 1 {
        '1'
    } else if d == 2 {
        '2'
    } else if d == 3 {
        '3'
    } else if d == 4 {
        '4'
    } else if d == 5 {
        '5'
    } else if d == 6 {
        '6'
    } else if d == 7 {
        '7'
    } else if d == 8 {
        '8'
    } else {
        '9'
    }
}

/// A number in decimal, without leading zeros.
pub open spec fn decimal(n: nat) -> Seq<char>
    decreases n,
{
    if n < 10 {
        seq![digit(n)]
    } else {
        decimal(n / 10).push(digit(n % 10))
    }
}

impl RecordKind {
    /// The kind's name as it stands in messages.
    pub open spec fn name(self) -> Seq<char> {
        match self {
            RecordKind::Student => "Student"@,
            RecordKind::Teacher => "Teacher"@,
            RecordKind::Course => "Course"@,
            RecordKind::Classroom => "Classroom"@,
        }
    }

    /// What a payload of this kind must hold, as it stands in messages.
    pub open spec fn required_fields(self) -> Seq<char> {
        match self {
            RecordKind::Student => "Name and email are required fields"@,
            RecordKind::Teacher => "Name and email are required fields"@,
            RecordKind::Course => "Name and description are required fields"@,
            RecordKind::Classroom => "Name and location are required fields"@,
        }
    }
}

impl StoreError {
    /// The text of the error.
    pub open spec fn text(self) -> Seq<char> {
        match self {
            StoreError::Validation(kind) => kind.required_fields(),
            StoreError::NotFound(kind, id) => kind.name() + " with ID "@ + decimal(id as nat)
                + " not found"@,
            StoreError::AlreadyEnrolled => "Student is already enrolled in the course"@,
            StoreError::AlreadyAssigned => "Teacher is already assigned to the course"@,
            StoreError::IdUnavailable => "Cannot allocate a new ID"@,
        }
    }

    /// The text of the error.
    pub fn message(&self) -> (text: String)
        ensures
            text@ == self.text(),
    {
        match self {
            StoreError::Validation(kind) => String::from_str(required_fields_text(*kind)),
            StoreError::NotFound(kind, id) => {
                let mut text = String::from_str(kind_name(*kind));
                text.append(" with ID ");
                let number = decimal_text(*id);
                text.append(number.as_str());
                text.append(" not found");
                text
            },
            StoreError::AlreadyEnrolled => String::from_str(
                "Student is already enrolled in the course",
            ),
            StoreError::AlreadyAssigned => String::from_str(
                "Teacher is already assigned to the course",
            ),
            StoreError::IdUnavailable => String::from_str("Cannot allocate a new ID"),
        }
    }
}

fn kind_name(kind: RecordKind) -> (name: &'static str)
    ensures
        name@ == kind.name(),
{
    match kind {
        RecordKind::Student => "Student",
        RecordKind::Teacher => "Teacher",
        RecordKind::Course => "Course",
        RecordKind::Classroom => "Classroom",
    }
}

fn required_fields_text(kind: RecordKind) -> (text: &'static str)
    ensures
        text@ == kind.required_fields(),
{
    match kind {
        RecordKind::Student => "Name and email are required fields",
        RecordKind::Teacher => "Name and email are required fields",
        RecordKind::Course => "Name and description are required fields",
        RecordKind::Classroom => "Name and location are required fields",
    }
}

fn digit_text(d: u64) -> (text: &'static str)
    requires
        d < 10,
    ensures
        text@ == seq![digit(d as nat)],
{
    proof {
        reveal_strlit("0");
        reveal_strlit("1");
        reveal_strlit("2");
        reveal_strlit("3");
        reveal_strlit("4");
        reveal_strlit("5");
        reveal_strlit("6");
        reveal_strlit("7");
        reveal_strlit("8");
        reveal_strlit("9");
    }
    let text = if d == 0 {
        "0"
    } else if d == 1 {
        "1"
    } else if d == 2 {
        "2"
    } else if d == 3 {
        "3"
    } else if d == 4 {
        "4"
    } else if d == 5 {
        "5"
    } else if d == 6 {
        "6"
    } else if d == 7 {
        "7"
    } else if d == 8 {
        "8"
    } else {
        "9"
    };
    assert(text@ =~= seq![digit(d as nat)]);
    text
}

/// `n` in decimal, without leading zeros.
pub fn decimal_text(n: u64) -> (text: String)
    ensures
        text@ == decimal(n as nat),
    decreases n,
{
    if n < 10 {
        String::from_str(digit_text(n))
    } else {
        let mut text = decimal_text(n / 10);
        text.append(digit_text(n % 10));
        assert(text@ =~= decimal(n as nat));
        text
    }
}

} // verus!
