//! The structured document of a run: the overall verdict, every outcome in
//! the order of the items, and the counts.

use vstd::prelude::*;
use crate::coordinator::Summary;
use crate::decimal::{decimal, integer, lemma_decimal_reads_back, lemma_digits_read_back, natural, parse_integer, parse_natural, signed_text,
    unsigned_text};
use crate::text::chars_of;
use crate::exec::{CommandResult, Outcome};
use crate::json::{find_member, lemma_member_absent, lemma_member_found, lemma_member_of_sum,
    member, members_data, Json, JsonData};

verus! {

/// One outcome as the document shows it. Captured text that is empty is
/// absent.
#[derive(Debug, Clone)]
pub struct ReportEntry {
    pub directory: String,
    pub command: String,
    pub success: bool,
    pub exit_code: i32,
    pub stdout: Option<String>,
    pub stderr: Option<String>,
}

/// The structured document of a run.
#[derive(Debug, Clone)]
pub struct Report {
    pub success: bool,
    pub results: Vec<ReportEntry>,
    pub total: usize,
    pub succeeded: usize,
    pub failed: usize,
    pub dry_run: bool,
}

/// What a `ReportEntry` holds.
pub struct EntryData {
    pub directory: Seq<char>,
    pub command: Seq<char>,
    pub success: bool,
    pub exit_code: i32,
    pub stdout: Option<Seq<char>>,
    pub stderr: Option<Seq<char>>,
}

/// What a `Report` holds.
pub struct ReportData {
    pub success: bool,
    pub results: Seq<EntryData>,
    pub total: usize,
    pub succeeded: usize,
    pub failed: usize,
    pub dry_run: bool,
}

/// The view of an optional string.
pub open spec fn optional_text(text: Option<String>) -> Option<Seq<char>> {
    match text {
        Some(s) => Some(s@),
        None => None,
    }
}

impl View for ReportEntry {
    type V = EntryData;

    open spec fn view(&self) -> EntryData {
        EntryData {
            directory: self.directory@,
            command: self.command@,
            success: self.success,
            exit_code: self.exit_code,
            stdout: optional_text(self.stdout),
            stderr: optional_text(self.stderr),
        }
    }
}

impl View for Report {
    type V = ReportData;

    open spec fn view(&self) -> ReportData {
        ReportData {
            success: self.success,
            results: Seq::new(self.results@.len(), |i: int| self.results@[i]@),
            total: self.total,
            succeeded: self.succeeded,
            failed: self.failed,
            dry_run: self.dry_run,
        }
    }
}

/// A captured text as the document shows it: absent where it is empty.
pub open spec fn shown(text: Seq<char>) -> Option<Seq<char>> {
    if text.len() == 0 {
        None
    } else {
        Some(text)
    }
}

/// An outcome as the document shows it.
pub open spec fn entry_of(item: Outcome) -> EntryData {
    EntryData {
        directory: item.directory,
        command: item.command,
        success: item.success,
        exit_code: item.exit_code,
        stdout: shown(item.stdout),
        stderr: shown(item.stderr),
    }
}

/// The document of a run: its verdict, its outcomes in the order of the
/// items, and its counts.
pub open spec fn report_of(summary: Summary) -> ReportData {
    ReportData {
        success: summary.signals_success(),
        results: Seq::new(summary.results@.len(), |i: int| entry_of(summary.results@[i]@)),
        total: summary.total,
        succeeded: summary.succeeded,
        failed: summary.failed,
        dry_run: summary.dry_run,
    }
}

fn shown_text(text: &String) -> (r: Option<String>)
    ensures
        optional_text(r) == shown(text@),
{
    if text.as_str().unicode_len() == 0 {
        None
    } else {
        Some(text.clone())
    }
}

/// An outcome as the document shows it.
pub fn report_entry(item: &CommandResult) -> (entry: ReportEntry)
    ensures
        entry@ == entry_of(item@),
{
    ReportEntry {
        directory: item.directory.clone(),
        command: item.command.clone(),
        success: item.success,
        exit_code: item.exit_code,
        stdout: shown_text(&item.stdout),
        stderr: shown_text(&item.stderr),
    }
}

/// The structured document of a run.
pub fn structured_report(summary: &Summary) -> (report: Report)
    ensures
        report@ == report_of(*summary),
{
    let mut results: Vec<ReportEntry> = Vec::new();
    let mut i: usize = 0;
    while i < summary.results.len()
        invariant
            i <= summary.results.len(),
            results@.len() == i,
            forall|j: int| 0 <= j < i ==> (#[trigger] results@[j])@ == entry_of(summary.results@[j]@),
        decreases summary.results.len() - i,
    {
        results.push(report_entry(&summary.results[i]));
        i += 1;
    }
    let report = Report {
        success: summary.passed(),
        results,
        total: summary.total,
        succeeded: summary.succeeded,
        failed: summary.failed,
        dry_run: summary.dry_run,
    };
    assert(report@.results =~= report_of(*summary).results);
    report
}

/// A number as a JSON value.
pub open spec fn number(n: int) -> JsonData {
    JsonData::Number(decimal(n))
}

/// A captured text as an object member, if it is shown at all.
pub open spec fn optional_member(name: Seq<char>, text: Option<Seq<char>>) -> Seq<
    (Seq<char>, JsonData),
> {
    match text {
        Some(s) => seq![(name, JsonData::Text(s))],
        None => Seq::empty(),
    }
}

/// The members of the object that stands for one outcome. A captured text
/// that is absent has no member.
pub open spec fn entry_members(entry: EntryData) -> Seq<(Seq<char>, JsonData)> {
    seq![
        ("directory"@, JsonData::Text(entry.directory)),
        ("command"@, JsonData::Text(entry.command)),
        ("success"@, JsonData::Bool(entry.success)),
        ("exit_code"@, number(entry.exit_code as int)),
    ] + optional_member("stdout"@, entry.stdout) + optional_member("stderr"@, entry.stderr)
}

/// The members of the object that holds the counts.
pub open spec fn count_members(report: ReportData) -> Seq<(Seq<char>, JsonData)> {
    seq![
        ("total"@, number(report.total as int)),
        ("succeeded"@, number(report.succeeded as int)),
        ("failed"@, number(report.failed as int)),
        ("dry_run"@, JsonData::Bool(report.dry_run)),
    ]
}

/// The JSON document that stands for a report.
pub open spec fn encoded(report: ReportData) -> JsonData {
    JsonData::Object(
        seq![
            ("success"@, JsonData::Bool(report.success)),
            (
                "results"@,
                JsonData::List(
                    Seq::new(
                        report.results.len(),
                        |i: int| JsonData::Object(entry_members(report.results[i])),
                    ),
                ),
            ),
            ("summary"@, JsonData::Object(count_members(report))),
        ],
    )
}

fn signed(n: i32) -> (doc: Json)
    ensures
        doc.data() == number(n as int),
{
    Json::Number(signed_text(n as i64))
}

fn unsigned(n: usize) -> (doc: Json)
    ensures
        doc.data() == number(n as int),
{
    Json::Number(unsigned_text(n as u64))
}

fn object(members: Vec<(String, Json)>) -> (doc: Json)
    ensures
        doc.data() == JsonData::Object(members_data(members@)),
{
    let doc = Json::Object(members);
    assert(doc.data()->Object_0 =~= members_data(members@));
    doc
}

/// The JSON object that stands for one outcome.
pub fn encode_entry(entry: &ReportEntry) -> (doc: Json)
    ensures
        doc.data() == JsonData::Object(entry_members(entry@)),
{
    let mut members: Vec<(String, Json)> = Vec::new();
    members.push(("directory".to_owned(), Json::Text(entry.directory.clone())));
    members.push(("command".to_owned(), Json::Text(entry.command.clone())));
    members.push(("success".to_owned(), Json::Bool(entry.success)));
    members.push(("exit_code".to_owned(), signed(entry.exit_code)));
    match &entry.stdout {
        Some(text) => {
            members.push(("stdout".to_owned(), Json::Text(text.clone())));
        },
        None => {},
    }
    match &entry.stderr {
        Some(text) => {
            members.push(("stderr".to_owned(), Json::Text(text.clone())));
        },
        None => {},
    }
    assert(members_data(members@) =~= entry_members(entry@));
    object(members)
}

/// The JSON document that stands for a report.
pub fn encode_report(report: &Report) -> (doc: Json)
    ensures
        doc.data() == encoded(report@),
{
    let mut entries: Vec<Json> = Vec::new();
    let mut i: usize = 0;
    while i < report.results.len()
        invariant
            i <= report.results.len(),
            entries@.len() == i,
            forall|j: int|
                0 <= j < i ==> (#[trigger] entries@[j]).data() == JsonData::Object(
                    entry_members(report.results@[j]@),
                ),
        decreases report.results.len() - i,
    {
        entries.push(encode_entry(&report.results[i]));
        i += 1;
    }
    let list = Json::List(entries);
    assert(list.data()->List_0 =~= Seq::new(
        report@.results.len(),
        |i: int| JsonData::Object(entry_members(report@.results[i])),
    ));
    let mut counts: Vec<(String, Json)> = Vec::new();
    counts.push(("total".to_owned(), unsigned(report.total)));
    counts.push(("succeeded".to_owned(), unsigned(report.succeeded)));
    counts.push(("failed".to_owned(), unsigned(report.failed)));
    counts.push(("dry_run".to_owned(), Json::Bool(report.dry_run)));
    assert(members_data(counts@) =~= count_members(report@));
    let mut members: Vec<(String, Json)> = Vec::new();
    members.push(("success".to_owned(), Json::Bool(report.success)));
    members.push(("results".to_owned(), list));
    members.push(("summary".to_owned(), object(counts)));
    assert(members_data(members@) =~= encoded(report@)->Object_0);
    object(members)
}

/// A member as a truth value, where it is one.
pub open spec fn as_bool(value: Option<JsonData>) -> Option<bool> {
    match value {
        Some(JsonData::Bool(b)) => Some(b),
        _ => None,
    }
}

/// A member as a text, where it is one.
pub open spec fn as_text(value: Option<JsonData>) -> Option<Seq<char>> {
    match value {
        Some(JsonData::Text(s)) => Some(s),
        _ => None,
    }
}

/// A member that may be absent as a text: absent, or the text, or `None`
/// where it is there and no text.
pub open spec fn as_optional_text(value: Option<JsonData>) -> Option<Option<Seq<char>>> {
    match value {
        None => Some(None),
        Some(JsonData::Text(s)) => Some(Some(s)),
        _ => None,
    }
}

/// A member as an exit code, where it is a whole number that fits one.
pub open spec fn as_exit_code(value: Option<JsonData>) -> Option<i32> {
    match value {
        Some(JsonData::Number(text)) => match integer(text) {
            Some(n) => if i32::MIN <= n <= i32::MAX {
                Some(n as i32)
            } else {
                None
            },
            None => None,
        },
        _ => None,
    }
}

/// A member as a count, where it is a run of digits that fits one.
pub open spec fn as_count(value: Option<JsonData>) -> Option<usize> {
    match value {
        Some(JsonData::Number(text)) => match natural(text) {
            Some(n) => if n <= usize::MAX {
                Some(n as usize)
            } else {
                None
            },
            None => None,
        },
        _ => None,
    }
}

/// The outcome that a JSON value stands for, or `None` where it is no
/// object with the members of an outcome.
pub open spec fn decoded_entry(doc: JsonData) -> Option<EntryData> {
    match doc {
        JsonData::Object(members) => {
            let directory = as_text(member(members, "directory"@));
            let command = as_text(member(members, "command"@));
            let success = as_bool(member(members, "success"@));
            let exit_code = as_exit_code(member(members, "exit_code"@));
            let stdout = as_optional_text(member(members, "stdout"@));
            let stderr = as_optional_text(member(members, "stderr"@));
            if directory is Some && command is Some && success is Some && exit_code is Some
                && stdout is Some && stderr is Some {
                Some(
                    EntryData {
                        directory: directory->0,
                        command: command->0,
                        success: success->0,
                        exit_code: exit_code->0,
                        stdout: stdout->0,
                        stderr: stderr->0,
                    },
                )
            } else {
                None
            }
        },
        _ => None,
    }
}

/// The outcomes that a list of JSON values stands for, or `None` where one
/// of them stands for none.
pub open spec fn decoded_entries(items: Seq<JsonData>) -> Option<Seq<EntryData>>
    decreases items.len(),
{
    if items.len() == 0 {
        Some(Seq::empty())
    } else {
        match (decoded_entries(items.drop_last()), decoded_entry(items.last())) {
            (Some(init), Some(entry)) => Some(init.push(entry)),
            _ => None,
        }
    }
}

/// The report that a JSON document stands for, or `None` where it is no
/// object with the members of a report.
pub open spec fn decoded(doc: JsonData) -> Option<ReportData> {
    match doc {
        JsonData::Object(members) => {
            let success = as_bool(member(members, "success"@));
            let results = match member(members, "results"@) {
                Some(JsonData::List(items)) => decoded_entries(items),
                _ => None,
            };
            match member(members, "summary"@) {
                Some(JsonData::Object(counts)) => {
                    let total = as_count(member(counts, "total"@));
                    let succeeded = as_count(member(counts, "succeeded"@));
                    let failed = as_count(member(counts, "failed"@));
                    let dry_run = as_bool(member(counts, "dry_run"@));
                    if success is Some && results is Some && total is Some && succeeded is Some
                        && failed is Some && dry_run is Some {
                        Some(
                            ReportData {
                                success: success->0,
                                results: results->0,
                                total: total->0,
                                succeeded: succeeded->0,
                                failed: failed->0,
                                dry_run: dry_run->0,
                            },
                        )
                    } else {
                        None
                    }
                },
                _ => None,
            }
        },
        _ => None,
    }
}

fn read_bool(members: &Vec<(String, Json)>, key: &str) -> (r: Option<bool>)
    ensures
        r == as_bool(member(members_data(members@), key@)),
{
    match find_member(members, key) {
        Some(Json::Bool(b)) => Some(*b),
        _ => None,
    }
}

fn read_text(members: &Vec<(String, Json)>, key: &str) -> (r: Option<String>)
    ensures
        optional_text(r) == as_text(member(members_data(members@), key@)),
{
    match find_member(members, key) {
        Some(Json::Text(s)) => Some(s.clone()),
        _ => None,
    }
}

fn read_optional_text(members: &Vec<(String, Json)>, key: &str) -> (r: Option<Option<String>>)
    ensures
        match r {
            Some(text) => as_optional_text(member(members_data(members@), key@)) == Some(
                optional_text(text),
            ),
            None => as_optional_text(member(members_data(members@), key@)) is None,
        },
{
    match find_member(members, key) {
        None => Some(None),
        Some(Json::Text(s)) => Some(Some(s.clone())),
        _ => None,
    }
}

fn read_exit_code(members: &Vec<(String, Json)>, key: &str) -> (r: Option<i32>)
    ensures
        r == as_exit_code(member(members_data(members@), key@)),
{
    match find_member(members, key) {
        Some(Json::Number(text)) => match parse_integer(text.as_str()) {
            Some(n) => if -2147483648 <= n && n <= 2147483647 {
                Some(n as i32)
            } else {
                None
            },
            None => None,
        },
        _ => None,
    }
}

fn read_count(members: &Vec<(String, Json)>, key: &str) -> (r: Option<usize>)
    ensures
        r == as_count(member(members_data(members@), key@)),
{
    match find_member(members, key) {
        Some(Json::Number(text)) => {
            let chars = chars_of(text.as_str());
            assert(chars@ =~= chars@.subrange(0, chars@.len() as int));
            match parse_natural(&chars, 0) {
                Some(n) => if n <= usize::MAX as u64 {
                    Some(n as usize)
                } else {
                    None
                },
                None => None,
            }
        },
        _ => None,
    }
}

/// The outcome that a JSON value stands for.
pub fn decode_entry(doc: &Json) -> (r: Option<ReportEntry>)
    ensures
        match r {
            Some(entry) => decoded_entry(doc.data()) == Some(entry@),
            None => decoded_entry(doc.data()) is None,
        },
{
    let members = match doc.as_object() {
        Some(members) => members,
        None => {
            return None;
        },
    };
    let directory = read_text(members, "directory");
    let command = read_text(members, "command");
    let success = read_bool(members, "success");
    let exit_code = read_exit_code(members, "exit_code");
    let stdout = read_optional_text(members, "stdout");
    let stderr = read_optional_text(members, "stderr");
    match (directory, command, success, exit_code, stdout, stderr) {
        (Some(directory), Some(command), Some(success), Some(exit_code), Some(stdout), Some(
            stderr,
        )) => Some(ReportEntry { directory, command, success, exit_code, stdout, stderr }),
        _ => None,
    }
}

/// The items of the member `results`, where it is a list.
spec fn results_items(members: Seq<(Seq<char>, JsonData)>) -> Seq<JsonData> {
    match member(members, "results"@) {
        Some(JsonData::List(items)) => items,
        _ => Seq::empty(),
    }
}

/// A list with an item that stands for no outcome stands for no outcomes.
proof fn lemma_one_bad_entry(items: Seq<JsonData>, at: int)
    requires
        0 <= at < items.len(),
        decoded_entry(items[at]) is None,
    ensures
        decoded_entries(items) is None,
    decreases items.len(),
{
    if at < items.len() - 1 {
        lemma_one_bad_entry(items.drop_last(), at);
    }
}

/// The report that a JSON document stands for.
pub fn decode_report(doc: &Json) -> (r: Option<Report>)
    ensures
        match r {
            Some(report) => decoded(doc.data()) == Some(report@),
            None => decoded(doc.data()) is None,
        },
{
    let members = match doc.as_object() {
        Some(members) => members,
        None => {
            return None;
        },
    };
    let counts = match find_member(members, "summary") {
        Some(summary) => match summary.as_object() {
            Some(counts) => counts,
            None => {
                return None;
            },
        },
        None => {
            return None;
        },
    };
    let success = read_bool(members, "success");
    let total = read_count(counts, "total");
    let succeeded = read_count(counts, "succeeded");
    let failed = read_count(counts, "failed");
    let dry_run = read_bool(counts, "dry_run");
    let items = match find_member(members, "results") {
        Some(Json::List(items)) => items,
        _ => {
            return None;
        },
    };
    let ghost list = results_items(members_data(members@));
    assert(list =~= Seq::new(items@.len(), |i: int| items@[i].data()));
    let mut results: Vec<ReportEntry> = Vec::new();
    let mut i: usize = 0;
    while i < items.len()
        invariant
            i <= items.len(),
            doc.data() == JsonData::Object(members_data(members@)),
            member(members_data(members@), "results"@) == Some(JsonData::List(list)),
            list =~= Seq::new(items@.len(), |i: int| items@[i].data()),
            decoded_entries(list.take(i as int)) == Some(
                Seq::new(results@.len(), |j: int| results@[j]@),
            ),
        decreases items.len() - i,
    {
        proof {
            let next = list.take(i + 1);
            assert(next.drop_last() =~= list.take(i as int));
            assert(next.last() == items@[i as int].data());
        }
        match decode_entry(&items[i]) {
            Some(entry) => {
                let ghost before = Seq::new(results@.len(), |j: int| results@[j]@);
                results.push(entry);
                assert(Seq::new(results@.len(), |j: int| results@[j]@) =~= before.push(entry@));
            },
            None => {
                proof {
                    lemma_one_bad_entry(list, i as int);
                }
                return None;
            },
        }
        i += 1;
    }
    assert(list.take(items@.len() as int) =~= list);
    match (success, total, succeeded, failed, dry_run) {
        (Some(success), Some(total), Some(succeeded), Some(failed), Some(dry_run)) => Some(
            Report { success, results, total, succeeded, failed, dry_run },
        ),
        _ => None,
    }
}

/// The names of the members are pairwise different.
proof fn lemma_names_differ()
    ensures
        "directory"@ != "command"@,
        "directory"@ != "success"@,
        "directory"@ != "exit_code"@,
        "directory"@ != "stdout"@,
        "directory"@ != "stderr"@,
        "command"@ != "success"@,
        "command"@ != "exit_code"@,
        "command"@ != "stdout"@,
        "command"@ != "stderr"@,
        "success"@ != "exit_code"@,
        "success"@ != "stdout"@,
        "success"@ != "stderr"@,
        "exit_code"@ != "stdout"@,
        "exit_code"@ != "stderr"@,
        "stdout"@ != "stderr"@,
        "success"@ != "results"@,
        "success"@ != "summary"@,
        "results"@ != "summary"@,
        "total"@ != "succeeded"@,
        "total"@ != "failed"@,
        "total"@ != "dry_run"@,
        "succeeded"@ != "failed"@,
        "succeeded"@ != "dry_run"@,
        "failed"@ != "dry_run"@,
{
    reveal_strlit("directory");
    reveal_strlit("command");
    reveal_strlit("success");
    reveal_strlit("exit_code");
    reveal_strlit("stdout");
    reveal_strlit("stderr");
    reveal_strlit("results");
    reveal_strlit("summary");
    reveal_strlit("total");
    reveal_strlit("succeeded");
    reveal_strlit("failed");
    reveal_strlit("dry_run");
    assert("directory"@[0] == 'd' && "exit_code"@[0] == 'e');
    assert("command"@[0] == 'c' && "success"@[0] == 's');
    assert("stdout"@[3] == 'o' && "stderr"@[3] == 'e');
    assert("results"@[0] == 'r' && "summary"@[2] == 'm' && "success"@[2] == 'c');
    assert("dry_run"@[0] == 'd');
    assert("total"@.len() == 5 && "succeeded"@.len() == 9 && "failed"@.len() == 6);
}

/// In the object of an outcome a captured text that is absent has no
/// member at all, and one that is there stands under its name as it is.
pub proof fn lemma_optional_members(entry: EntryData)
    ensures
        member(entry_members(entry), "stdout"@) == (match entry.stdout {
            Some(text) => Some(JsonData::Text(text)),
            None => None,
        }),
        member(entry_members(entry), "stderr"@) == (match entry.stderr {
            Some(text) => Some(JsonData::Text(text)),
            None => None,
        }),
{
    lemma_names_differ();
    let fixed = seq![
        ("directory"@, JsonData::Text(entry.directory)),
        ("command"@, JsonData::Text(entry.command)),
        ("success"@, JsonData::Bool(entry.success)),
        ("exit_code"@, number(entry.exit_code as int)),
    ];
    lemma_member_absent(fixed, "stdout"@);
    lemma_member_absent(fixed, "stderr"@);
    let out = optional_member("stdout"@, entry.stdout);
    let err = optional_member("stderr"@, entry.stderr);
    lemma_member_absent(err, "stdout"@);
    lemma_member_of_sum(fixed, out, "stdout"@);
    lemma_member_of_sum(fixed + out, err, "stdout"@);
    lemma_member_of_sum(fixed + out, err, "stderr"@);
    lemma_member_of_sum(fixed, out, "stderr"@);
    if entry.stdout is Some {
        assert(out.drop_last() =~= Seq::empty());
    }
    if entry.stderr is Some {
        assert(err.drop_last() =~= Seq::empty());
    }
}

/// In the object of an outcome a captured text that is empty has no member
/// at all, and one that is not empty stands under its name as it is.
pub proof fn lemma_empty_output_is_absent(item: Outcome)
    ensures
        member(entry_members(entry_of(item)), "stdout"@) == (if item.stdout.len() == 0 {
            None
        } else {
            Some(JsonData::Text(item.stdout))
        }),
        member(entry_members(entry_of(item)), "stderr"@) == (if item.stderr.len() == 0 {
            None
        } else {
            Some(JsonData::Text(item.stderr))
        }),
{
    lemma_optional_members(entry_of(item));
}

/// The object of an outcome stands for that outcome.
pub proof fn lemma_entry_round_trip(entry: EntryData)
    ensures
        decoded_entry(JsonData::Object(entry_members(entry))) == Some(entry),
{
    lemma_names_differ();
    lemma_optional_members(entry);
    lemma_decimal_reads_back(entry.exit_code as int);
    let fixed = seq![
        ("directory"@, JsonData::Text(entry.directory)),
        ("command"@, JsonData::Text(entry.command)),
        ("success"@, JsonData::Bool(entry.success)),
        ("exit_code"@, number(entry.exit_code as int)),
    ];
    let out = optional_member("stdout"@, entry.stdout);
    let err = optional_member("stderr"@, entry.stderr);
    lemma_member_found(fixed, 0);
    lemma_member_found(fixed, 1);
    lemma_member_found(fixed, 2);
    lemma_member_found(fixed, 3);
    lemma_member_absent(out, "directory"@);
    lemma_member_absent(out, "command"@);
    lemma_member_absent(out, "success"@);
    lemma_member_absent(out, "exit_code"@);
    lemma_member_absent(err, "directory"@);
    lemma_member_absent(err, "command"@);
    lemma_member_absent(err, "success"@);
    lemma_member_absent(err, "exit_code"@);
    lemma_member_of_sum(fixed, out, "directory"@);
    lemma_member_of_sum(fixed, out, "command"@);
    lemma_member_of_sum(fixed, out, "success"@);
    lemma_member_of_sum(fixed, out, "exit_code"@);
    lemma_member_of_sum(fixed + out, err, "directory"@);
    lemma_member_of_sum(fixed + out, err, "command"@);
    lemma_member_of_sum(fixed + out, err, "success"@);
    lemma_member_of_sum(fixed + out, err, "exit_code"@);
    let back = decoded_entry(JsonData::Object(entry_members(entry)));
    assert(back is Some);
    assert(back->0.stdout == entry.stdout);
    assert(back->0.stderr == entry.stderr);
}

/// The list of the objects of a sequence of outcomes stands for that
/// sequence.
pub proof fn lemma_entries_round_trip(entries: Seq<EntryData>)
    ensures
        decoded_entries(
            Seq::new(entries.len(), |i: int| JsonData::Object(entry_members(entries[i]))),
        ) == Some(entries),
    decreases entries.len(),
{
    let items = Seq::new(entries.len(), |i: int| JsonData::Object(entry_members(entries[i])));
    if entries.len() > 0 {
        let init = entries.drop_last();
        lemma_entries_round_trip(init);
        lemma_entry_round_trip(entries.last());
        assert(items.drop_last() =~= Seq::new(
            init.len(),
            |i: int| JsonData::Object(entry_members(init[i])),
        ));
        assert(init.push(entries.last()) =~= entries);
    } else {
        assert(entries =~= Seq::empty());
    }
}

/// Round trip: the document of a report stands for that report, with
/// every count, every exit code and every captured text as it was.
pub proof fn lemma_report_round_trip(report: ReportData)
    ensures
        decoded(encoded(report)) == Some(report),
{
    lemma_names_differ();
    lemma_entries_round_trip(report.results);
    lemma_digits_read_back(report.total as nat);
    lemma_digits_read_back(report.succeeded as nat);
    lemma_digits_read_back(report.failed as nat);
    let members = encoded(report)->Object_0;
    lemma_member_found(members, 0);
    lemma_member_found(members, 1);
    lemma_member_found(members, 2);
    let counts = count_members(report);
    lemma_member_found(counts, 0);
    lemma_member_found(counts, 1);
    lemma_member_found(counts, 2);
    lemma_member_found(counts, 3);
    let back = decoded(encoded(report));
    assert(back is Some);
    assert(back->0.results == report.results);
}

/// Round trip of a summary: the document of a run stands for its report,
/// so what is read back has the counts of the summary and, item for item,
/// the exit codes of its outcomes.
pub proof fn lemma_summary_round_trip(summary: Summary)
    ensures
        decoded(encoded(report_of(summary))) == Some(report_of(summary)),
        decoded(encoded(report_of(summary)))->0.total == summary.total,
        decoded(encoded(report_of(summary)))->0.succeeded == summary.succeeded,
        decoded(encoded(report_of(summary)))->0.failed == summary.failed,
        decoded(encoded(report_of(summary)))->0.results.len() == summary.results@.len(),
        forall|i: int|
            0 <= i < summary.results@.len() ==> (#[trigger] decoded(
                encoded(report_of(summary)),
            )->0.results[i]).exit_code == summary.results@[i].exit_code,
{
    lemma_report_round_trip(report_of(summary));
}

} // verus!
