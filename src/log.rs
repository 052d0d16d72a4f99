//! The record of one run: its entries, with strictly increasing timestamps,
//! and the name under which it is kept.
use vstd::prelude::*;
use crate::reference::decimal;

verus! {

/// A calendar date.
#[derive(Clone, Copy, Debug, PartialEq, Eq, Structural)]
pub struct Date {
    pub year: i32,
    pub month: u32,
    pub day: u32,
}

/// Whether `year` is a leap year of the proleptic Gregorian calendar.
pub open spec fn is_leap_year(year: int) -> bool {
    (year % 4 == 0 && year % 100 != 0) || year % 400 == 0
}

/// The number of days of `month` (1 to 12) in `year`.
pub open spec fn days_in_month(year: int, month: int) -> int {
    if month == 2 {
        if is_leap_year(year) {
            29
        } else {
            28
        }
    } else if month == 4 || month == 6 || month == 9 || month == 11 {
        30
    } else {
        31
    }
}

/// Whether the date exists, within the years -262143 to 262142 that a
/// chrono date can hold.
pub open spec fn valid_date(date: Date) -> bool {
    &&& -262143 <= date.year <= 262142
    &&& 1 <= date.month <= 12
    &&& 1 <= date.day <= days_in_month(date.year as int, date.month as int)
}

/// The decimal text of `n`, padded with leading zeros to `width` digits.
pub open spec fn padded(n: nat, width: nat) -> Seq<char> {
    let digits = decimal(n);
    Seq::new((width - digits.len()) as nat, |i: int| '0') + digits
}

/// The year as `%Y` writes it: four digits for 0 to 9999, else a sign and
/// at least four digits.
pub open spec fn year_text(year: int) -> Seq<char> {
    if 0 <= year <= 9999 {
        padded(year as nat, 4)
    } else if year > 9999 {
        seq!['+'] + padded(year as nat, 4)
    } else {
        seq!['-'] + padded((-year) as nat, 4)
    }
}

/// The text `%Y-%m-%d` of a date.
pub open spec fn date_text(date: Date) -> Seq<char> {
    year_text(date.year as int) + seq!['-'] + padded(date.month as nat, 2) + seq!['-'] + padded(
        date.day as nat,
        2,
    )
}

/// Relies on chrono's `NaiveDate::from_ymd_opt`, which gives a date exactly
/// when it exists within chrono's range of years, and on
/// `NaiveDate::format` with `%Y-%m-%d`, which writes that date.
#[verifier::external_body]
fn format_iso_date(date: &Date) -> (r: Option<String>)
    ensures
        r is Some <==> valid_date(*date),
        r matches Some(s) ==> s@ == date_text(*date),
{
    match chrono::NaiveDate::from_ymd_opt(date.year, date.month, date.day) {
        Some(d) => Some(d.format("%Y-%m-%d").to_string()),
        None => None,
    }
}

/// One control step: when it was taken (milliseconds since the Unix epoch),
/// the setpoint, the measurement and the command that was computed.
#[derive(Clone, Copy, Debug, PartialEq, Eq, Structural)]
pub struct LogEntry {
    pub timestamp: u64,
    pub reference: i64,
    pub input: i64,
    pub output: i128,
}

impl LogEntry {
    pub fn new(reference: i64, input: i64, output: i128, timestamp: u64) -> (r: LogEntry)
        ensures
            r == (LogEntry { timestamp, reference, input, output }),
    {
        LogEntry { timestamp, reference, input, output }
    }
}

/// The document of one run: the name of the reference series that was
/// followed, and the entries in the order they were made.
pub struct Log {
    reference: String,
    entries: Vec<LogEntry>,
}

impl Log {
    pub closed spec fn reference_name(&self) -> Seq<char> {
        self.reference@
    }

    pub closed spec fn view(&self) -> Seq<LogEntry> {
        self.entries@
    }

    /// An empty log for a run that follows the series named `reference`.
    pub fn new(reference: &String) -> (r: Log)
        ensures
            r.reference_name() == reference@,
            r@ == Seq::<LogEntry>::empty(),
    {
        Log { reference: reference.clone(), entries: Vec::new() }
    }

    pub fn add_entry(&mut self, entry: LogEntry)
        ensures
            final(self).reference_name() == old(self).reference_name(),
            final(self)@ == old(self)@.push(entry),
    {
        self.entries.push(entry);
    }

    pub fn reference(&self) -> (r: &String)
        ensures
            r@ == self.reference_name(),
    {
        &self.reference
    }

    pub fn entries(&self) -> (r: &Vec<LogEntry>)
        ensures
            r@ == self@,
    {
        &self.entries
    }
}

/// Timestamps strictly increase along `entries`.
pub open spec fn strictly_increasing(entries: Seq<LogEntry>) -> bool {
    forall|i: int, j: int|
        0 <= i < j < entries.len() ==> #[trigger] entries[i].timestamp
            < #[trigger] entries[j].timestamp
}

/// The timestamp given to an entry made at `now` after `last`: `now`, or
/// one past the last timestamp where the clock has not moved past it;
/// `None` where no later timestamp exists.
pub open spec fn next_timestamp(last: Option<LogEntry>, now: u64) -> Option<u64> {
    match last {
        None => Some(now),
        Some(e) => if now > e.timestamp {
            Some(now)
        } else if e.timestamp < u64::MAX {
            Some((e.timestamp + 1) as u64)
        } else {
            None
        },
    }
}

/// The name of the log of a run of `reference` begun on the given date:
/// the reference name, a dash, and the date.
pub open spec fn log_name(reference: Seq<char>, date: Date) -> Seq<char> {
    reference + seq!['-'] + date_text(date)
}

pub open spec fn names_of(names: Seq<String>) -> Seq<Seq<char>> {
    names.map_values(|s: String| s@)
}

/// Whether `name` is one of `names`.
pub fn contains_name(names: &Vec<String>, name: &String) -> (r: bool)
    ensures
        r == names_of(names@).contains(name@),
{
    let mut i: usize = 0;
    while i < names.len()
        invariant
            i <= names@.len(),
            forall|k: int| 0 <= k < i ==> names@[k]@ != name@,
        decreases names.len() - i,
    {
        if names[i] == *name {
            assert(names_of(names@)[i as int] == name@);
            return true;
        }
        i = i + 1;
    }
    assert forall|k: int| 0 <= k < names_of(names@).len() implies names_of(names@)[k] != name@ by {
        assert(names_of(names@)[k] == names@[k]@);
    }
    false
}

#[derive(Clone, Copy, Debug, PartialEq, Eq, Structural)]
pub enum LogError {
    /// A log of that name exists already.
    NameCollision,
    /// The date given for the log's name does not exist.
    InvalidDate,
    /// The last entry carries the largest timestamp there is.
    TimestampExhausted,
}

/// Writes the log of one run, and keeps its last entry for status readers.
pub struct Logger {
    name: String,
    log: Log,
    last_entry: Option<LogEntry>,
}

impl Logger {
    /// Timestamps strictly increase, and the kept last entry is the last one
    /// of the log.
    pub closed spec fn wf(&self) -> bool {
        &&& strictly_increasing(self.log@)
        &&& self.last_entry == (if self.log@.len() == 0 {
            None
        } else {
            Some(self.log@.last())
        })
    }

    pub closed spec fn name(&self) -> Seq<char> {
        self.name@
    }

    pub closed spec fn view(&self) -> Seq<LogEntry> {
        self.log@
    }

    pub closed spec fn reference_name(&self) -> Seq<char> {
        self.log.reference_name()
    }

    /// The timestamps of a well-formed logger strictly increase.
    pub proof fn lemma_timestamps_increase(&self)
        requires
            self.wf(),
        ensures
            strictly_increasing(self@),
    {
    }

    /// The last entry made, if any.
    pub open spec fn last(&self) -> Option<LogEntry> {
        if self@.len() == 0 {
            None
        } else {
            Some(self@.last())
        }
    }

    /// A logger for a run of `reference` begun on `date`, named
    /// `<reference>-<YYYY-MM-DD>`; `existing_logs` are the names of the logs
    /// kept already.
    pub fn new(reference: String, date: &Date, existing_logs: &Vec<String>) -> (r: Result<
        Logger,
        LogError,
    >)
        ensures
            r matches Ok(l) ==> l.name() == log_name(reference@, *date) && l.reference_name()
                == reference@ && l@ == Seq::<LogEntry>::empty() && l.wf() && !names_of(
                existing_logs@,
            ).contains(l.name()),
            r is Ok <==> valid_date(*date) && !names_of(existing_logs@).contains(
                log_name(reference@, *date),
            ),
            r == Err::<Logger, LogError>(LogError::InvalidDate) <==> !valid_date(*date),
            r == Err::<Logger, LogError>(LogError::NameCollision) <==> valid_date(*date)
                && names_of(existing_logs@).contains(log_name(reference@, *date)),
    {
        let text = match format_iso_date(date) {
            Some(t) => t,
            None => {
                return Err(LogError::InvalidDate);
            },
        };
        let mut name = reference.clone();
        name.append("-");
        name.append(text.as_str());
        proof {
            reveal_strlit("-");
        }
        assert(name@ == log_name(reference@, *date));
        if contains_name(existing_logs, &name) {
            return Err(LogError::NameCollision);
        }
        let log = Log::new(&reference);
        Ok(Logger { name, log, last_entry: None })
    }

    /// Appends an entry made at `now_ms`, with a timestamp past the last
    /// one; returns the entry.
    pub fn add_entry(&mut self, reference: i64, input: i64, output: i128, now_ms: u64) -> (r:
        Result<LogEntry, LogError>)
        requires
            old(self).wf(),
        ensures
            final(self).wf(),
            final(self).name() == old(self).name(),
            final(self).reference_name() == old(self).reference_name(),
            match next_timestamp(old(self).last(), now_ms) {
                Some(t) => r == Ok::<LogEntry, LogError>(
                    LogEntry { timestamp: t, reference, input, output },
                ) && final(self)@ == old(self)@.push(r->Ok_0),
                None => r == Err::<LogEntry, LogError>(LogError::TimestampExhausted)
                    && final(self)@ == old(self)@,
            },
    {
        let timestamp = match self.last_entry {
            None => now_ms,
            Some(e) => {
                if now_ms > e.timestamp {
                    now_ms
                } else if e.timestamp < u64::MAX {
                    e.timestamp + 1
                } else {
                    return Err(LogError::TimestampExhausted);
                }
            },
        };
        let entry = LogEntry::new(reference, input, output, timestamp);
        self.log.add_entry(entry);
        self.last_entry = Some(entry);
        Ok(entry)
    }

    /// The last entry made, if any.
    pub fn get_last_entry(&self) -> (r: Option<LogEntry>)
        requires
            self.wf(),
        ensures
            r == self.last(),
    {
        self.last_entry
    }

    pub fn get_name(&self) -> (r: String)
        ensures
            r@ == self.name(),
    {
        self.name.clone()
    }

    /// The document written so far.
    pub fn log(&self) -> (r: &Log)
        ensures
            r@ == self@,
            r.reference_name() == self.reference_name(),
    {
        &self.log
    }
}

} // verus!
