//! Records exchanged with the desktop shell's other tools.
use vstd::prelude::*;

verus! {

/// An account and the enrolment year the shell's password tool works with.
pub struct PasswordCracker {
    pub username: String,
    pub year: i32,
}

impl PasswordCracker {
    pub fn new(username: String, year: i32) -> (r: PasswordCracker)
        ensures
            r.username == username,
            r.year == year,
    {
        PasswordCracker { username, year }
    }
}

/// A term of a timetable and when it was last refreshed.
pub struct ScheduleTerm {
    pub term: String,
    pub updated_at: String,
}

/// One timetable entry as it is stored.
pub struct ScheduleEntryInput {
    pub term: String,
    pub weekday: i32,
    pub period_label: String,
    pub period_index: Option<i32>,
    pub course_name: String,
    pub teacher: Option<String>,
    pub location: Option<String>,
    pub week_text: Option<String>,
    pub week_numbers: Vec<i32>,
}

/// A fetched timetable: the chosen term, all terms offered, and the entries.
pub struct ScheduleFetchResult {
    pub term: String,
    pub terms: Vec<String>,
    pub entries: Vec<ScheduleEntryInput>,
}

} // verus!
