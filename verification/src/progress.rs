//! What the user sees of downloads and of the temporary files.

use vstd::prelude::*;

use crate::binary64::{bytes_text, format_bytes, saturated, saturating_times};
use crate::text::{
    chars_of, decimal, join2, join3, join5, join_strings, joined, opt_nat, opt_view, parse_u64,
    parsed_unsigned, str_words, string_between, usize_text, views, words,
};

verus! {

// ---------------------------------------------------------------------------
// Downloads
// ---------------------------------------------------------------------------

/// A step of a download. A rate is given as it is to be shown.
#[derive(Debug)]
pub enum PullProgress {
    Started { url: String },
    GitProgress { line: String },
    CloneFinished,
    LfsStarted { file: Option<String>, total_bytes: Option<u64> },
    LfsProgress { line: String },
    TransferStats { bytes: u64, total_bytes: Option<u64>, rate: String },
    LfsFinished,
    Importing,
    Finished { files: usize, bytes: u64 },
}

/// What to show: the new position in percent, where it changes, and the message.
#[derive(Debug)]
pub struct ProgressUpdate {
    pub position: Option<u64>,
    pub message: String,
}

/// The number in front of a percent sign at the end of a word.
pub open spec fn percent_word(word: Seq<char>) -> Option<nat> {
    if word.len() > 0 && word.last() == '%' {
        parsed_unsigned(word.drop_last(), u64::MAX as nat)
    } else {
        None
    }
}

pub open spec fn first_percent(all: Seq<Seq<char>>) -> Option<nat>
    decreases all.len(),
{
    if all.len() == 0 {
        None
    } else {
        match percent_word(all[0]) {
            Some(n) => Some(n),
            None => first_percent(all.drop_first()),
        }
    }
}

/// The first percentage in a line of `git`, at most a hundred.
pub open spec fn git_percent(line: Seq<char>) -> Option<nat> {
    match first_percent(words(line)) {
        Some(n) => Some(
            if n <= 100 {
                n
            } else {
                100
            },
        ),
        None => None,
    }
}

pub fn parse_git_percent(line: &str) -> (r: Option<u64>)
    ensures
        opt_nat(r) == git_percent(line@),
        r matches Some(n) ==> n <= 100,
{
    let parts = str_words(line);
    let ghost all = words(line@);
    let mut i: usize = 0;
    assert(all.skip(0) =~= all);
    while i < parts.len()
        invariant
            i <= parts@.len(),
            all == views(parts@),
            all == words(line@),
            first_percent(all) == first_percent(all.skip(i as int)),
        decreases parts@.len() - i,
    {
        assert(all.skip(i as int)[0] == parts@[i as int]@);
        assert(all.skip(i as int).drop_first() =~= all.skip(i + 1));
        let v = chars_of(parts[i].as_str());
        let n: usize = v.len();
        if n > 0 && v[n - 1] == '%' {
            let digits = string_between(&v, 0, n - 1);
            assert(digits@ =~= v@.drop_last());
            if let Some(percent) = parse_u64(digits.as_str()) {
                return Some(
                    if percent <= 100 {
                        percent
                    } else {
                        100
                    },
                );
            }
        }
        i = i + 1;
    }
    None
}

pub open spec fn started_message(file: Option<Seq<char>>, total_bytes: Option<u64>) -> Seq<char> {
    "downloading"@ + (match file {
        Some(file) => " "@ + file,
        None => Seq::empty(),
    }) + (match total_bytes {
        Some(n) => " ("@ + bytes_text(n as nat) + ")"@,
        None => Seq::empty(),
    })
}

/// The percentage of a transfer that still runs: never a hundred.
pub open spec fn transfer_percent(bytes: u64, total: u64) -> nat {
    let percent = saturated(bytes as nat * 100) / total as nat;
    if percent <= 99 {
        percent
    } else {
        99
    }
}

pub open spec fn transfer_message(bytes: u64, total: Option<u64>, rate: Seq<char>) -> Seq<char> {
    if total is Some && total->0 > 0 {
        if bytes >= total->0 {
            "finalizing LFS checkout after "@ + bytes_text(total->0 as nat) + " @ "@ + rate + "/s"@
        } else {
            "downloading "@ + bytes_text(bytes as nat) + " / "@ + bytes_text(total->0 as nat)
                + " @ "@ + rate + "/s"@
        }
    } else {
        "downloading "@ + bytes_text(bytes as nat) + " @ "@ + rate + "/s"@
    }
}

/// What a step of a download shows.
pub open spec fn shown(event: PullProgress) -> (Option<nat>, Seq<char>) {
    match event {
        PullProgress::Started { url } => (Some(0), "cloning "@ + url@),
        PullProgress::GitProgress { line } => (git_percent(line@), line@),
        PullProgress::CloneFinished => (Some(100), "metadata clone complete"@),
        PullProgress::LfsStarted { file, total_bytes } => (
            Some(0),
            started_message(opt_view(file), total_bytes),
        ),
        PullProgress::LfsProgress { line } => (git_percent(line@), line@),
        PullProgress::TransferStats { bytes, total_bytes, rate } => (
            if total_bytes is Some && total_bytes->0 > 0 {
                Some(transfer_percent(bytes, total_bytes->0))
            } else {
                None
            },
            transfer_message(bytes, total_bytes, rate@),
        ),
        PullProgress::LfsFinished => (Some(100), "download complete"@),
        PullProgress::Importing => (Some(0), "importing into model store"@),
        PullProgress::Finished { files, bytes } => (
            Some(100),
            "imported "@ + decimal(files as nat) + " files, "@ + bytes_text(bytes as nat),
        ),
    }
}

fn describe_start(file: &Option<String>, total_bytes: Option<u64>) -> (r: String)
    ensures
        r@ == started_message(opt_view(*file), total_bytes),
{
    let mut message = "downloading".to_owned();
    match file {
        Some(file) => {
            message.push_str(join2(" ", file.as_str()).as_str());
        },
        None => {
            assert(message@ =~= message@ + Seq::<char>::empty());
        },
    }
    match total_bytes {
        Some(n) => {
            message.push_str(join3(" (", format_bytes(n).as_str(), ")").as_str());
        },
        None => {
            assert(message@ =~= message@ + Seq::<char>::empty());
        },
    }
    message
}

fn describe_transfer(bytes: u64, total: Option<u64>, rate: &str) -> (r: String)
    ensures
        r@ == transfer_message(bytes, total, rate@),
{
    if let Some(total) = total {
        if total > 0 {
            let size = format_bytes(total);
            if bytes >= total {
                return join5("finalizing LFS checkout after ", size.as_str(), " @ ", rate, "/s");
            }
            let done = format_bytes(bytes);
            let mut message = join5("downloading ", done.as_str(), " / ", size.as_str(), " @ ");
            message.push_str(rate);
            message.push_str("/s");
            return message;
        }
    }
    let done = format_bytes(bytes);
    join5("downloading ", done.as_str(), " @ ", rate, "/s")
}

/// Decides what a step of a download shows.
pub fn update_pull_progress(event: PullProgress) -> (r: ProgressUpdate)
    ensures
        opt_nat(r.position) == shown(event).0,
        r.message@ == shown(event).1,
{
    match event {
        PullProgress::Started { url } => ProgressUpdate {
            position: Some(0),
            message: join2("cloning ", url.as_str()),
        },
        PullProgress::GitProgress { line } => ProgressUpdate {
            position: parse_git_percent(line.as_str()),
            message: line,
        },
        PullProgress::CloneFinished => ProgressUpdate {
            position: Some(100),
            message: "metadata clone complete".to_owned(),
        },
        PullProgress::LfsStarted { file, total_bytes } => ProgressUpdate {
            position: Some(0),
            message: describe_start(&file, total_bytes),
        },
        PullProgress::LfsProgress { line } => ProgressUpdate {
            position: parse_git_percent(line.as_str()),
            message: line,
        },
        PullProgress::TransferStats { bytes, total_bytes, rate } => {
            let position: Option<u64> = match total_bytes {
                Some(total) => if total > 0 {
                    let percent: u64 = saturating_times(bytes, 100) / total;
                    if percent <= 99 {
                        Some(percent)
                    } else {
                        Some(99)
                    }
                } else {
                    None
                },
                None => None,
            };
            ProgressUpdate {
                position,
                message: describe_transfer(bytes, total_bytes, rate.as_str()),
            }
        },
        PullProgress::LfsFinished => ProgressUpdate {
            position: Some(100),
            message: "download complete".to_owned(),
        },
        PullProgress::Importing => ProgressUpdate {
            position: Some(0),
            message: "importing into model store".to_owned(),
        },
        PullProgress::Finished { files, bytes } => {
            let mut message = join3("imported ", usize_text(files).as_str(), " files, ");
            message.push_str(format_bytes(bytes).as_str());
            ProgressUpdate { position: Some(100), message }
        },
    }
}

/// The position never leaves the bar, and a running transfer never fills it.
pub proof fn positions_stay_on_the_bar(event: PullProgress)
    ensures
        shown(event).0 matches Some(n) ==> n <= 100,
        event is TransferStats ==> (shown(event).0 matches Some(n) ==> n < 100),
{
}

// ---------------------------------------------------------------------------
// Temporary files
// ---------------------------------------------------------------------------

/// What purging removed, or would remove.
#[derive(Clone, Copy, Debug, PartialEq, Eq, Structural)]
pub struct TempPurgeSummary {
    pub entries: usize,
    pub bytes: Option<u64>,
}

pub open spec fn purge_text(summary: TempPurgeSummary, dry_run: bool) -> Seq<char> {
    let label = if summary.entries == 1 {
        "temporary entry"@
    } else {
        "temporary entries"@
    };
    let size = match summary.bytes {
        Some(n) => " ("@ + bytes_text(n as nat) + ")"@,
        None => Seq::empty(),
    };
    let count = decimal(summary.entries as nat);
    if summary.entries == 0 {
        if dry_run {
            "Dry run: nothing to purge."@
        } else {
            "Nothing to purge."@
        }
    } else if dry_run {
        "Dry run: would purge "@ + count + " "@ + label + size + "; nothing was deleted."@
    } else {
        "Purged "@ + count + " "@ + label + size + "."@
    }
}

pub fn format_temp_purge_summary(summary: &TempPurgeSummary, dry_run: bool) -> (r: String)
    ensures
        r@ == purge_text(*summary, dry_run),
{
    if summary.entries == 0 {
        return if dry_run {
            "Dry run: nothing to purge.".to_owned()
        } else {
            "Nothing to purge.".to_owned()
        };
    }
    let label = if summary.entries == 1 {
        "temporary entry"
    } else {
        "temporary entries"
    };
    let size = match summary.bytes {
        Some(n) => join3(" (", format_bytes(n).as_str(), ")"),
        None => String::new(),
    };
    let count = usize_text(summary.entries);
    if dry_run {
        let mut r = join5("Dry run: would purge ", count.as_str(), " ", label, size.as_str());
        r.push_str("; nothing was deleted.");
        r
    } else {
        let mut r = join5("Purged ", count.as_str(), " ", label, size.as_str());
        r.push_str(".");
        r
    }
}

/// The temporary entries, one on each line.
pub fn format_temp_list(entries: &Vec<String>) -> (r: String)
    ensures
        r@ == if entries@.len() == 0 {
            "No temporary entries."@
        } else {
            joined(views(entries@), "\n"@)
        },
{
    if entries.len() == 0 {
        return "No temporary entries.".to_owned();
    }
    join_strings(entries, "\n")
}

// ---------------------------------------------------------------------------
// What progress shows
// ---------------------------------------------------------------------------

/// The percentage of a line is its first word that is one, and no more than all.
pub proof fn lines_tell_their_percentage(line: Seq<char>, k: int, n: nat)
    requires
        0 <= k < words(line).len(),
        forall|j: int| 0 <= j < k ==> percent_word(#[trigger] words(line)[j]) is None,
        percent_word(words(line)[k]) == Some(n),
    ensures
        n <= 100 ==> git_percent(line) == Some(n),
        n > 100 ==> git_percent(line) == Some(100nat),
{
    lemma_first_percent(words(line), k, n);
}

proof fn lemma_first_percent(all: Seq<Seq<char>>, k: int, n: nat)
    requires
        0 <= k < all.len(),
        forall|j: int| 0 <= j < k ==> percent_word(#[trigger] all[j]) is None,
        percent_word(all[k]) == Some(n),
    ensures
        first_percent(all) == Some(n),
    decreases k,
{
    if k > 0 {
        let rest = all.drop_first();
        assert(percent_word(all[0]) is None);
        assert forall|j: int| 0 <= j < k - 1 implies percent_word(#[trigger] rest[j]) is None by {
            assert(rest[j] == all[j + 1]);
        }
        lemma_first_percent(rest, k - 1, n);
    }
}

/// A number before a percent sign is a percentage, and nothing else is.
pub proof fn percentages_end_in_a_sign(digits: Seq<char>)
    ensures
        percent_word(digits + seq!['%']) == parsed_unsigned(digits, u64::MAX as nat),
        digits.len() > 0 && digits.last() != '%' ==> percent_word(digits) is None,
{
    assert((digits + seq!['%']).drop_last() =~= digits);
}

/// A transfer stands where its share of the bytes puts it, and never at its end before
/// the files are checked out.
pub proof fn transfers_stand_at_their_share(bytes: u64, total: u64, rate: String)
    requires
        total > 0,
        bytes as nat * 100 <= u64::MAX,
    ensures
        ({
            let n = shown(PullProgress::TransferStats { bytes, total_bytes: Some(total), rate }).0;
            &&& n is Some
            &&& bytes < total ==> n->0 * total <= bytes * 100 && bytes * 100 < (n->0 + 1) * total
            &&& bytes >= total ==> n == Some(99nat)
        }),
        shown(PullProgress::TransferStats { bytes, total_bytes: None, rate }).0 is None,
        shown(PullProgress::TransferStats { bytes, total_bytes: Some(0), rate }).0 is None,
{
    let x = bytes as int * 100;
    let t = total as int;
    let q = x / t;
    assert(q * t <= x && x < (q + 1) * t) by (nonlinear_arith)
        requires
            t > 0,
            q == x / t,
    ;
    if bytes >= total {
        assert(q >= 100) by (nonlinear_arith)
            requires
                x < (q + 1) * t,
                x >= 100 * t,
                t > 0,
        ;
    } else {
        assert(q <= 99) by (nonlinear_arith)
            requires
                q * t <= x,
                x < 100 * t,
                t > 0,
        ;
    }
}

/// What begins stands at its beginning, and what is done at its end.
pub proof fn steps_begin_and_end(url: String, file: Option<String>, bytes: u64, files: usize)
    ensures
        shown(PullProgress::Started { url }).0 == Some(0nat),
        shown(PullProgress::LfsStarted { file, total_bytes: Some(bytes) }).0 == Some(0nat),
        shown(PullProgress::LfsStarted { file, total_bytes: None }).0 == Some(0nat),
        shown(PullProgress::Importing).0 == Some(0nat),
        shown(PullProgress::CloneFinished).0 == Some(100nat),
        shown(PullProgress::LfsFinished).0 == Some(100nat),
        shown(PullProgress::Finished { files, bytes }).0 == Some(100nat),
        shown(PullProgress::GitProgress { line: url }).1 == url@,
        shown(PullProgress::LfsProgress { line: url }) == shown(
            PullProgress::GitProgress { line: url },
        ),
{
}

/// A purge tells what it removed, and a trial of it that nothing was.
pub proof fn trials_say_that_they_are(bytes: Option<u64>, entries: usize)
    ensures
        "Dry run: "@.is_prefix_of(purge_text(TempPurgeSummary { entries, bytes }, true)),
        entries > 0 ==> "Purged "@.is_prefix_of(
            purge_text(TempPurgeSummary { entries, bytes }, false),
        ),
        purge_text(TempPurgeSummary { entries: 0, bytes }, false) == "Nothing to purge."@,
        "Purged "@ + decimal(1) + " temporary entry."@ == purge_text(
            TempPurgeSummary { entries: 1, bytes: None },
            false,
        ),
        entries > 1 ==> "Purged "@ + decimal(entries as nat) + " temporary entries."@
            == purge_text(TempPurgeSummary { entries, bytes: None }, false),
{
    reveal_strlit("Dry run: ");
    reveal_strlit("Dry run: nothing to purge.");
    reveal_strlit("Dry run: would purge ");
    reveal_strlit("Purged ");
    reveal_strlit(" ");
    reveal_strlit(".");
    reveal_strlit("temporary entry");
    reveal_strlit("temporary entries");
    reveal_strlit(" temporary entry.");
    reveal_strlit(" temporary entries.");
    let s = TempPurgeSummary { entries, bytes };
    assert("Dry run: "@ =~= purge_text(s, true).take("Dry run: "@.len() as int));
    if entries > 0 {
        assert("Purged "@ =~= purge_text(s, false).take("Purged "@.len() as int));
    }
    let none = Seq::<char>::empty();
    assert(" "@ + "temporary entry"@ + none + "."@ =~= " temporary entry."@);
    assert(" "@ + "temporary entries"@ + none + "."@ =~= " temporary entries."@);
    assert("Purged "@ + decimal(1) + " temporary entry."@ =~= "Purged "@ + decimal(1) + " "@
        + "temporary entry"@ + none + "."@);
    assert("Purged "@ + decimal(entries as nat) + " temporary entries."@ =~= "Purged "@ + decimal(
        entries as nat,
    ) + " "@ + "temporary entries"@ + none + "."@);
}

} // verus!
