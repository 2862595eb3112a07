//! Listing the registry.

use vstd::prelude::*;
use crate::decimal::{decimal, decimal_text, three_digits};
use crate::error::Error;
use crate::hex::digit_text;
use crate::structs::{BackupFile, EntryView, Row};
use crate::time::{format_utc, later, later_of, no_later, utc_text, Timestamp};
use vstd::string::StringExecFns;

verus! {

/// The registry's rows with a summary of them.
pub struct Listing<'a> {
    /// Every row, in the order in which paths were added.
    pub rows: &'a Vec<Row>,
    /// How many paths are tracked.
    pub total_paths: usize,
    /// The most recent backup of any path; unset where no path has one.
    pub last_backup: Option<Timestamp>,
}

/// A `Listing` as a mathematical value.
pub struct ListingView {
    pub rows: Seq<(Seq<char>, EntryView)>,
    pub total_paths: nat,
    pub last_backup: Option<Timestamp>,
}

impl<'a> View for Listing<'a> {
    type V = ListingView;

    open spec fn view(&self) -> ListingView {
        ListingView {
            rows: crate::structs::rows_of(self.rows@),
            total_paths: self.total_paths as nat,
            last_backup: self.last_backup,
        }
    }
}

/// The most recent backup among the first `count` rows.
pub open spec fn latest(rows: Seq<(Seq<char>, EntryView)>, count: nat) -> Option<Timestamp>
    decreases count,
{
    if count == 0 || count > rows.len() {
        None
    } else {
        later_of(latest(rows, (count - 1) as nat), rows[count - 1].1.last_backup)
    }
}

/// `latest` is the backup time of one of the rows and no earlier than that of
/// any of them; it is unset only where every row's is.
pub proof fn lemma_latest(rows: Seq<(Seq<char>, EntryView)>, count: nat)
    requires
        count <= rows.len(),
    ensures
        forall|i: int| 0 <= i < count ==> no_later((#[trigger] rows[i]).1.last_backup, latest(rows, count)),
        latest(rows, count) is Some ==> exists|i: int|
            0 <= i < count && (#[trigger] rows[i]).1.last_backup == latest(rows, count),
    decreases count,
{
    if count > 0 {
        let before = (count - 1) as nat;
        lemma_latest(rows, before);
        let previous = latest(rows, before);
        let last = rows[count - 1].1.last_backup;
        let now = latest(rows, count);
        assert(now == later_of(previous, last));
        assert forall|i: int| 0 <= i < count implies no_later(
            (#[trigger] rows[i]).1.last_backup,
            now,
        ) by {
            if i < before {
                assert(no_later(rows[i].1.last_backup, previous));
            }
        }
        if now is Some {
            if now == last {
                assert(rows[count - 1].1.last_backup == now);
            } else {
                let i = choose|i: int| 0 <= i < before && (#[trigger] rows[i]).1.last_backup == previous;
                assert(rows[i].1.last_backup == now);
            }
        }
    }
}

/// What listing `document` gives: its rows, their number and their most
/// recent backup; or that there is no document.
pub open spec fn listing(document: Option<Seq<(Seq<char>, EntryView)>>) -> Result<
    ListingView,
    Error,
> {
    match document {
        None => Err(Error::RegistryMissing),
        Some(rows) => Ok(
            ListingView { rows, total_paths: rows.len(), last_backup: latest(rows, rows.len()) },
        ),
    }
}

/// Lists the registry: every row, how many there are, and the most recent
/// backup of any of them. Without a document there is nothing to list.
pub fn start<'a>(document: Option<&'a BackupFile>) -> (outcome: Result<Listing<'a>, Error>)
    ensures
        match outcome {
            Ok(found) => Ok::<ListingView, Error>(found@),
            Err(error) => Err(error),
        } == listing(
            match document {
                Some(registry) => Some(registry@),
                None => None,
            },
        ),
        outcome matches Ok(found) ==> forall|i: int|
            0 <= i < found@.rows.len() ==> no_later(
                (#[trigger] found@.rows[i]).1.last_backup,
                found.last_backup,
            ),
        outcome matches Ok(found) ==> (found.last_backup is Some ==> exists|i: int|
            0 <= i < found@.rows.len() && (#[trigger] found@.rows[i]).1.last_backup
                == found.last_backup),
{
    let registry = match document {
        Some(registry) => registry,
        None => {
            return Err(Error::RegistryMissing);
        },
    };
    let rows = registry.rows();
    let mut last_backup: Option<Timestamp> = None;
    let mut i: usize = 0;
    while i < rows.len()
        invariant
            i <= rows.len(),
            crate::structs::rows_of(rows@) == registry@,
            last_backup == latest(registry@, i as nat),
        decreases rows.len() - i,
    {
        assert(registry@[i as int] == rows@[i as int]@);
        last_backup = later(last_backup, rows[i].entry.last_backup);
        i += 1;
    }
    proof {
        lemma_latest(registry@, registry@.len());
    }
    Ok(Listing { rows, total_paths: rows.len(), last_backup })
}

/// How a backup time is shown, given the text of its date where it has one:
/// `None` for a path that was never copied, the date and time of a copy, and
/// `Invalid` for a time that has no date.
pub open spec fn label_of(written: Option<Option<Seq<char>>>) -> Seq<char> {
    match written {
        None => "None"@,
        Some(None) => "Invalid"@,
        Some(Some(text)) => text,
    }
}

/// How `last_backup` is shown.
pub open spec fn backup_label(last_backup: Option<Timestamp>) -> Seq<char> {
    label_of(
        match last_backup {
            None => None,
            Some(at) => Some(utc_text(at.secs, at.nanos)),
        },
    )
}

/// The text for a backup time whose date was already written: `written` is
/// unset for a path that was never copied, and holds the date and time
/// otherwise, or nothing where the time has no date.
pub fn label(written: Option<Option<String>>) -> (text: String)
    ensures
        text@ == label_of(
            match written {
                None => None,
                Some(None) => Some(None),
                Some(Some(date)) => Some(Some(date@)),
            },
        ),
{
    match written {
        None => String::from_str("None"),
        Some(None) => String::from_str("Invalid"),
        Some(Some(date)) => date,
    }
}

/// The text for a backup time: `None` for a path that was never copied,
/// otherwise the date and time in UTC as `year-month-day hour:minute:second`.
pub fn format_last_backup(last_backup: Option<Timestamp>) -> (text: String)
    ensures
        text@ == backup_label(last_backup),
{
    match last_backup {
        None => label(None),
        Some(at) => label(Some(format_utc(at.secs, at.nanos))),
    }
}

/// The unit that a byte count is shown in: 0 for bytes, then 1 to 4 for
/// kilobytes to terabytes, each 1024 of the one before. It is the largest
/// unit that the count reaches.
pub open spec fn unit_of(bytes: nat) -> nat {
    if bytes < 1024 {
        0
    } else if bytes < 1024 * 1024 {
        1
    } else if bytes < 1024 * 1024 * 1024 {
        2
    } else if bytes < 1024 * 1024 * 1024 * 1024 {
        3
    } else {
        4
    }
}

/// How many bytes make one of `unit`.
pub open spec fn unit_size(unit: nat) -> nat {
    if unit == 0 {
        1
    } else if unit == 1 {
        1024
    } else if unit == 2 {
        1024 * 1024
    } else if unit == 3 {
        1024 * 1024 * 1024
    } else {
        1024 * 1024 * 1024 * 1024
    }
}

/// The name of `unit`.
pub open spec fn unit_name(unit: nat) -> Seq<char> {
    if unit == 0 {
        "Bytes"@
    } else if unit == 1 {
        "KB"@
    } else if unit == 2 {
        "MB"@
    } else if unit == 3 {
        "GB"@
    } else {
        "TB"@
    }
}

/// `bytes` in thousandths of a unit of `size` bytes, rounded to the nearest
/// thousandth, and to the even one where two are equally near.
pub open spec fn thousandths(bytes: nat, size: nat) -> nat {
    let whole = bytes * 1000 / size;
    let rest = bytes * 1000 % size;
    if 2 * rest > size || (2 * rest == size && whole % 2 == 1) {
        whole + 1
    } else {
        whole
    }
}

/// A byte count as text: below 1024 the count and `Bytes`; from there on the
/// amount in the largest unit that the count reaches, with three decimals.
pub open spec fn humanized(bytes: nat) -> Seq<char> {
    let unit = unit_of(bytes);
    if unit == 0 {
        decimal_text(bytes) + " "@ + unit_name(0)
    } else {
        let amount = thousandths(bytes, unit_size(unit));
        decimal_text(amount / 1000) + "."@ + three_digits(amount % 1000) + " "@ + unit_name(unit)
    }
}

/// The unit that `bytes` is shown in, with its size and its name.
fn choose_unit(bytes: u64) -> (unit: (u64, &'static str))
    ensures
        unit.0 == unit_size(unit_of(bytes as nat)),
        unit.1@ == unit_name(unit_of(bytes as nat)),
{
    if bytes < 1024 {
        (1, "Bytes")
    } else if bytes < 1024 * 1024 {
        (1024, "KB")
    } else if bytes < 1024 * 1024 * 1024 {
        (1024 * 1024, "MB")
    } else if bytes < 1024 * 1024 * 1024 * 1024 {
        (1024 * 1024 * 1024, "GB")
    } else {
        (1024 * 1024 * 1024 * 1024, "TB")
    }
}

/// Writes a byte count for a reader: `0 Bytes`, `1023 Bytes`, `1.000 KB`,
/// `1.500 MB`. Counts of a terabyte and more are shown in terabytes.
pub fn humanize_bytes(bytes: u64) -> (text: String)
    ensures
        text@ == humanized(bytes as nat),
{
    let (size, name) = choose_unit(bytes);
    if size == 1 {
        let mut text = decimal(bytes);
        text.append(" ");
        text.append(name);
        return text;
    }
    let scaled: u128 = bytes as u128 * 1000;
    let wide: u128 = size as u128;
    let whole: u128 = scaled / wide;
    let rest: u128 = scaled % wide;
    let amount: u128 = if 2 * rest > wide || (2 * rest == wide && whole % 2 == 1) {
        whole + 1
    } else {
        whole
    };
    assert(amount == thousandths(bytes as nat, size as nat));
    assert(amount / 1000 <= u64::MAX) by {
        assert(scaled / wide <= scaled / 1024) by (nonlinear_arith)
            requires
                wide >= 1024,
                scaled >= 0,
        ;
    }
    let fraction: u64 = (amount % 1000) as u64;
    let mut text = decimal((amount / 1000) as u64);
    text.append(".");
    text.append(digit_text((fraction / 100) as u8));
    text.append(digit_text((fraction / 10 % 10) as u8));
    text.append(digit_text((fraction % 10) as u8));
    text.append(" ");
    text.append(name);
    assert(text@ =~= humanized(bytes as nat));
    text
}

} // verus!
