//! What a report on checked domains holds: which records, in which form,
//! and the text of each row.

use crate::checker::{is_detected, Checker};
use crate::domain::check_result;
use crate::domain::{status_text, Domain};
use crate::helpers::bool_to_str;
use crate::text::texts;
use vstd::prelude::*;

verus! {

/// The forms of a report.
#[derive(Debug, Clone, Copy, PartialEq, Eq)]
pub enum ReportKind {
    /// A table with one column for each signal.
    FullTable,
    /// A table of names and states.
    SmallTable,
    /// The names alone, one on each line.
    Names,
}

/// The word for a truth value.
pub open spec fn bool_word(b: bool) -> Seq<char> {
    if b {
        "true"@
    } else {
        "false"@
    }
}

/// The headings of the full table.
pub open spec fn full_heading() -> Seq<Seq<char>> {
    seq![
        "Domain"@,
        "Unreachable"@,
        "CF SSL"@,
        "CF IP"@,
        "CF-Ray"@,
        "CF-Cache-Status"@,
        "CF-Server"@,
    ]
}

/// The row of the full table for `domain`: its name, then the words for
/// its unreachable flag and its five signals.
pub open spec fn full_row_text(domain: Domain) -> Seq<Seq<char>> {
    seq![
        domain.name@,
        bool_word(domain.is_unreachable),
        bool_word(domain.check_result & check_result::CF_SSL != 0),
        bool_word(domain.check_result & check_result::CF_IP != 0),
        bool_word(domain.check_result & check_result::CF_RAY_HEADER != 0),
        bool_word(domain.check_result & check_result::CF_CACHE_STATUS_HEADER != 0),
        bool_word(domain.check_result & check_result::CF_SERVER != 0),
    ]
}

/// The headings of the small table.
pub open spec fn small_heading() -> Seq<Seq<char>> {
    seq!["Domain"@, "Status"@]
}

/// The row of the small table for `domain`: its name and its state.
pub open spec fn small_row_text(domain: Domain) -> Seq<Seq<char>> {
    seq![domain.name@, status_text(domain.is_unreachable, domain.check_result)]
}

/// The text of every row of a table.
pub open spec fn table_text(table: Seq<Vec<String>>) -> Seq<Seq<Seq<char>>> {
    Seq::new(table.len(), |i: int| texts(table[i]@))
}

/// The form of the report: the full table where details are asked for;
/// else the names alone where only detected domains are asked for; else
/// the small table.
pub fn report_kind(detailed: bool, filtered: bool) -> (kind: ReportKind)
    ensures
        kind == (if detailed {
            ReportKind::FullTable
        } else if filtered {
            ReportKind::Names
        } else {
            ReportKind::SmallTable
        }),
{
    if detailed || !detailed && !filtered {
        if detailed {
            ReportKind::FullTable
        } else {
            ReportKind::SmallTable
        }
    } else {
        ReportKind::Names
    }
}

/// The extension of the file that a report is stored in: `csv` for a
/// table, `txt` for names.
pub fn report_extension(kind: ReportKind) -> (extension: &'static str)
    ensures
        extension@ == (match kind {
            ReportKind::Names => "txt"@,
            _ => "csv"@,
        }),
{
    match kind {
        ReportKind::Names => "txt",
        _ => "csv",
    }
}

/// The records to report: those with a signal where `filtered` holds, else
/// all, in the order of the domains.
pub fn reported_domains(checker: &Checker, filtered: bool) -> (domains: Vec<Domain>)
    ensures
        domains@ == (if filtered {
            checker.domains@.filter(is_detected())
        } else {
            checker.domains@
        }),
{
    if filtered {
        checker.cf_detected_domains()
    } else {
        let mut all: Vec<Domain> = Vec::new();
        let mut i: usize = 0;
        while i < checker.domains.len()
            invariant
                i <= checker.domains.len(),
                all@ == checker.domains@.take(i as int),
            decreases checker.domains.len() - i,
        {
            all.push(checker.domains[i].duplicate());
            i += 1;
            assert(all@ =~= checker.domains@.take(i as int));
        }
        assert(checker.domains@.take(i as int) =~= checker.domains@);
        all
    }
}

/// The row of the full table for `domain`.
pub fn full_row(domain: &Domain) -> (row: Vec<String>)
    ensures
        texts(row@) == full_row_text(*domain),
{
    let mut row: Vec<String> = Vec::new();
    row.push(domain.name.clone());
    row.push(bool_to_str(domain.is_unreachable).to_owned());
    row.push(bool_to_str(domain.has_cf_ssl()).to_owned());
    row.push(bool_to_str(domain.has_cf_ip()).to_owned());
    row.push(bool_to_str(domain.has_cf_ray_header()).to_owned());
    row.push(bool_to_str(domain.has_cf_cache_status_header()).to_owned());
    row.push(bool_to_str(domain.has_cf_server_header()).to_owned());
    assert(texts(row@) =~= full_row_text(*domain));
    row
}

/// The row of the small table for `domain`.
pub fn small_row(domain: &Domain) -> (row: Vec<String>)
    ensures
        texts(row@) == small_row_text(*domain),
{
    let mut row: Vec<String> = Vec::new();
    row.push(domain.name.clone());
    row.push(domain.get_status().to_owned());
    assert(texts(row@) =~= small_row_text(*domain));
    row
}

/// The full table: its headings, then one row for each of `domains`.
pub fn build_full_table(domains: &Vec<Domain>) -> (table: Vec<Vec<String>>)
    ensures
        table.len() == domains.len() + 1,
        table_text(table@)[0] == full_heading(),
        forall|i: int|
            0 <= i < domains.len() ==> #[trigger] table_text(table@)[i + 1] == full_row_text(
                domains@[i],
            ),
{
    let mut heading: Vec<String> = Vec::new();
    heading.push("Domain".to_owned());
    heading.push("Unreachable".to_owned());
    heading.push("CF SSL".to_owned());
    heading.push("CF IP".to_owned());
    heading.push("CF-Ray".to_owned());
    heading.push("CF-Cache-Status".to_owned());
    heading.push("CF-Server".to_owned());
    assert(texts(heading@) =~= full_heading());
    let mut table: Vec<Vec<String>> = Vec::new();
    table.push(heading);
    let mut i: usize = 0;
    while i < domains.len()
        invariant
            i <= domains.len(),
            table.len() == i + 1,
            texts(table@[0]@) == full_heading(),
            forall|j: int| 0 <= j < i ==> texts(#[trigger] table@[j + 1]@) == full_row_text(domains@[j]),
        decreases domains.len() - i,
    {
        table.push(full_row(&domains[i]));
        i += 1;
    }
    table
}

/// The small table: its headings, then one row for each of `domains`.
pub fn build_small_table(domains: &Vec<Domain>) -> (table: Vec<Vec<String>>)
    ensures
        table.len() == domains.len() + 1,
        table_text(table@)[0] == small_heading(),
        forall|i: int|
            0 <= i < domains.len() ==> #[trigger] table_text(table@)[i + 1] == small_row_text(
                domains@[i],
            ),
{
    let mut heading: Vec<String> = Vec::new();
    heading.push("Domain".to_owned());
    heading.push("Status".to_owned());
    assert(texts(heading@) =~= small_heading());
    let mut table: Vec<Vec<String>> = Vec::new();
    table.push(heading);
    let mut i: usize = 0;
    while i < domains.len()
        invariant
            i <= domains.len(),
            table.len() == i + 1,
            texts(table@[0]@) == small_heading(),
            forall|j: int| 0 <= j < i ==> texts(#[trigger] table@[j + 1]@) == small_row_text(domains@[j]),
        decreases domains.len() - i,
    {
        table.push(small_row(&domains[i]));
        i += 1;
    }
    table
}

} // verus!
