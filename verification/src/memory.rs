//! The memory of the machine, out of what the operating system prints.

use vstd::prelude::*;

use crate::binary64::{saturated, saturating_times};
use crate::estimate_report::SystemMemory;
use crate::text::{
    first_occurrence, lines, opt_nat, opt_str_view, parse_u64, parsed_unsigned, split_at_first,
    str_eq, str_find, str_lines, str_split_once, str_trim, str_without_char, str_words,
    string_between, trimmed, views, without_char, words,
};

verus! {

/// The number with which a text starts, behind white space.
pub open spec fn leading_number(s: Seq<char>) -> Option<nat> {
    if words(s).len() == 0 {
        None
    } else {
        parsed_unsigned(words(s)[0], u64::MAX as nat)
    }
}

fn read_leading_number(s: &str) -> (r: Option<u64>)
    ensures
        opt_nat(r) == leading_number(s@),
{
    let parts = str_words(s);
    assert(views(parts@).len() == parts@.len());
    if parts.len() == 0 {
        None
    } else {
        assert(views(parts@)[0] == parts@[0]@);
        parse_u64(parts[0].as_str())
    }
}

/// What one line of `/proc/meminfo` says of a key.
pub open spec fn meminfo_line(line: Seq<char>, key: Seq<char>) -> Option<nat> {
    match split_at_first(line, ':') {
        Some((name, rest)) => if name == key {
            leading_number(rest)
        } else {
            None
        },
        None => None,
    }
}

/// The first line that gives a number for the key.
pub open spec fn meminfo_lines(all: Seq<Seq<char>>, key: Seq<char>) -> Option<nat>
    decreases all.len(),
{
    if all.len() == 0 {
        None
    } else {
        match meminfo_line(all[0], key) {
            Some(n) => Some(n),
            None => meminfo_lines(all.drop_first(), key),
        }
    }
}

/// The KiB that `/proc/meminfo` gives for a key.
pub fn linux_meminfo_kib(data: &str, key: &str) -> (r: Option<u64>)
    ensures
        opt_nat(r) == meminfo_lines(lines(data@), key@),
{
    let all = str_lines(data);
    let ghost model = lines(data@);
    let mut i: usize = 0;
    assert(model.skip(0) =~= model);
    while i < all.len()
        invariant
            i <= all@.len(),
            model == views(all@),
            model == lines(data@),
            meminfo_lines(model, key@) == meminfo_lines(model.skip(i as int), key@),
        decreases all@.len() - i,
    {
        assert(model.skip(i as int)[0] == all@[i as int]@);
        assert(model.skip(i as int).drop_first() =~= model.skip(i + 1));
        if let Some((name, rest)) = str_split_once(all[i].as_str(), ':') {
            if str_eq(name.as_str(), key) {
                if let Some(n) = read_leading_number(rest.as_str()) {
                    return Some(n);
                }
            }
        }
        i = i + 1;
    }
    None
}

pub open spec fn kib_to_bytes(kib: Option<nat>) -> Option<nat> {
    match kib {
        Some(n) => Some(saturated(n * 1024)),
        None => None,
    }
}

/// The memory that `/proc/meminfo` describes; unknown where it cannot be read.
pub fn linux_system_memory(meminfo: Option<&str>) -> (r: SystemMemory)
    ensures
        match opt_str_view(meminfo) {
            Some(data) => opt_nat(r.total_bytes) == kib_to_bytes(
                meminfo_lines(lines(data), "MemTotal"@),
            ) && opt_nat(r.available_bytes) == kib_to_bytes(
                meminfo_lines(lines(data), "MemAvailable"@),
            ),
            None => r.total_bytes is None && r.available_bytes is None,
        },
{
    match meminfo {
        None => SystemMemory { total_bytes: None, available_bytes: None },
        Some(data) => {
            let total_bytes: Option<u64> = match linux_meminfo_kib(data, "MemTotal") {
                Some(kib) => Some(saturating_times(kib, 1024)),
                None => None,
            };
            let available_bytes: Option<u64> = match linux_meminfo_kib(data, "MemAvailable") {
                Some(kib) => Some(saturating_times(kib, 1024)),
                None => None,
            };
            SystemMemory { total_bytes, available_bytes }
        },
    }
}

// ---------------------------------------------------------------------------
// vm_stat
// ---------------------------------------------------------------------------

/// The page size that the first line of `vm_stat` states.
pub open spec fn page_size(vm_stat: Seq<char>) -> Option<nat> {
    if lines(vm_stat).len() == 0 {
        None
    } else {
        let first = lines(vm_stat)[0];
        match first_occurrence(first, "page size of "@) {
            Some(i) => leading_number(first.skip(i + "page size of "@.len())),
            None => None,
        }
    }
}

pub fn parse_macos_vm_page_size(vm_stat: &str) -> (r: Option<u64>)
    ensures
        opt_nat(r) == page_size(vm_stat@),
{
    let all = str_lines(vm_stat);
    assert(views(all@).len() == all@.len());
    if all.len() == 0 {
        return None;
    }
    assert(views(all@)[0] == all@[0]@);
    let first = all[0].as_str();
    match str_find(first, "page size of ") {
        Some(i) => {
            let v = crate::text::chars_of(first);
            let marker: usize = crate::text::chars_of("page size of ").len();
            let end: usize = v.len();
            assert(i + marker <= end);
            let rest = string_between(&v, i + marker, end);
            assert(rest@ =~= first@.skip(i + "page size of "@.len()));
            read_leading_number(rest.as_str())
        },
        None => None,
    }
}

/// What one line of `vm_stat` says of a key: a count that may be grouped and
/// ended by dots.
pub open spec fn vm_stat_line(line: Seq<char>, key: Seq<char>) -> Option<nat> {
    match split_at_first(line, ':') {
        Some((name, rest)) => if trimmed(name) == key {
            parsed_unsigned(without_char(trimmed(rest), '.'), u64::MAX as nat)
        } else {
            None
        },
        None => None,
    }
}

pub open spec fn vm_stat_lines(all: Seq<Seq<char>>, key: Seq<char>) -> Option<nat>
    decreases all.len(),
{
    if all.len() == 0 {
        None
    } else {
        match vm_stat_line(all[0], key) {
            Some(n) => Some(n),
            None => vm_stat_lines(all.drop_first(), key),
        }
    }
}

/// The pages that `vm_stat` counts under a key.
pub fn parse_macos_vm_stat_pages(vm_stat: &str, key: &str) -> (r: Option<u64>)
    ensures
        opt_nat(r) == vm_stat_lines(lines(vm_stat@), key@),
{
    let all = str_lines(vm_stat);
    let ghost model = lines(vm_stat@);
    let mut i: usize = 0;
    assert(model.skip(0) =~= model);
    while i < all.len()
        invariant
            i <= all@.len(),
            model == views(all@),
            model == lines(vm_stat@),
            vm_stat_lines(model, key@) == vm_stat_lines(model.skip(i as int), key@),
        decreases all@.len() - i,
    {
        assert(model.skip(i as int)[0] == all@[i as int]@);
        assert(model.skip(i as int).drop_first() =~= model.skip(i + 1));
        if let Some((name, rest)) = str_split_once(all[i].as_str(), ':') {
            if str_eq(str_trim(name.as_str()).as_str(), key) {
                let digits = str_without_char(str_trim(rest.as_str()).as_str(), '.');
                if let Some(n) = parse_u64(digits.as_str()) {
                    return Some(n);
                }
            }
        }
        i = i + 1;
    }
    None
}

/// The pages under a key, none where it is missing.
pub open spec fn pages(vm_stat: Seq<char>, key: Seq<char>) -> nat {
    match vm_stat_lines(lines(vm_stat), key) {
        Some(n) => n,
        None => 0,
    }
}

fn read_pages(vm_stat: &str, key: &str) -> (r: u64)
    ensures
        r == pages(vm_stat@, key@),
{
    match parse_macos_vm_stat_pages(vm_stat, key) {
        Some(n) => n,
        None => 0,
    }
}

pub open spec fn available_pages(vm_stat: Seq<char>) -> nat {
    pages(vm_stat, "Pages free"@) + pages(vm_stat, "Pages inactive"@) + pages(
        vm_stat,
        "Pages speculative"@,
    )
}

pub open spec fn all_pages(vm_stat: Seq<char>) -> nat {
    pages(vm_stat, "Pages free"@) + pages(vm_stat, "Pages active"@) + pages(
        vm_stat,
        "Pages inactive"@,
    ) + pages(vm_stat, "Pages speculative"@) + pages(vm_stat, "Pages wired down"@) + pages(
        vm_stat,
        "Pages occupied by compressor"@,
    )
}

/// The page size of `vm_stat`, else the one that `sysctl` printed.
pub open spec fn known_page_size(vm_stat: Seq<char>, pagesize: Option<Seq<char>>) -> Option<nat> {
    match page_size(vm_stat) {
        Some(n) => Some(n),
        None => match pagesize {
            Some(text) => parsed_unsigned(trimmed(text), u64::MAX as nat),
            None => None,
        },
    }
}

fn read_page_size(vm_stat: &str, pagesize: Option<&str>) -> (r: Option<u64>)
    ensures
        opt_nat(r) == known_page_size(vm_stat@, opt_str_view(pagesize)),
{
    match parse_macos_vm_page_size(vm_stat) {
        Some(n) => Some(n),
        None => match pagesize {
            Some(text) => parse_u64(str_trim(text).as_str()),
            None => None,
        },
    }
}

pub open spec fn available_memory(vm_stat: Seq<char>, pagesize: Option<Seq<char>>) -> Option<nat> {
    match known_page_size(vm_stat, pagesize) {
        Some(size) => Some(saturated(available_pages(vm_stat) * size)),
        None => None,
    }
}

/// The available memory by `vm_stat`; `pagesize` is what `sysctl` printed of
/// the page size.
pub fn macos_available_memory_from_vm_stat(vm_stat: &str, pagesize: Option<&str>) -> (r: Option<
    u64,
>)
    requires
        known_page_size(vm_stat@, opt_str_view(pagesize)) is Some ==> available_pages(vm_stat@)
            <= u64::MAX,
    ensures
        opt_nat(r) == available_memory(vm_stat@, opt_str_view(pagesize)),
{
    match read_page_size(vm_stat, pagesize) {
        Some(size) => {
            let count: u64 = read_pages(vm_stat, "Pages free") + read_pages(
                vm_stat,
                "Pages inactive",
            ) + read_pages(vm_stat, "Pages speculative");
            Some(saturating_times(count, size))
        },
        None => None,
    }
}

pub open spec fn total_memory(vm_stat: Seq<char>, pagesize: Option<Seq<char>>) -> Option<nat> {
    match known_page_size(vm_stat, pagesize) {
        Some(size) => if all_pages(vm_stat) == 0 {
            None
        } else {
            Some(saturated(all_pages(vm_stat) * size))
        },
        None => None,
    }
}

/// The whole memory by `vm_stat`; unknown where it counts no pages.
pub fn macos_total_memory_from_vm_stat(vm_stat: &str, pagesize: Option<&str>) -> (r: Option<u64>)
    requires
        known_page_size(vm_stat@, opt_str_view(pagesize)) is Some ==> all_pages(vm_stat@)
            <= u64::MAX,
    ensures
        opt_nat(r) == total_memory(vm_stat@, opt_str_view(pagesize)),
{
    match read_page_size(vm_stat, pagesize) {
        Some(size) => {
            let count: u64 = read_pages(vm_stat, "Pages free") + read_pages(vm_stat, "Pages active")
                + read_pages(vm_stat, "Pages inactive") + read_pages(vm_stat, "Pages speculative")
                + read_pages(vm_stat, "Pages wired down") + read_pages(
                vm_stat,
                "Pages occupied by compressor",
            );
            if count == 0 {
                return None;
            }
            Some(saturating_times(count, size))
        },
        None => None,
    }
}

/// The memory size that `sysctl` printed.
pub open spec fn stated_memory(memsize: Option<Seq<char>>) -> Option<nat> {
    match memsize {
        Some(text) => parsed_unsigned(trimmed(text), u64::MAX as nat),
        None => None,
    }
}

fn read_stated_memory(memsize: Option<&str>) -> (r: Option<u64>)
    ensures
        opt_nat(r) == stated_memory(opt_str_view(memsize)),
{
    match memsize {
        Some(text) => parse_u64(str_trim(text).as_str()),
        None => None,
    }
}

pub open spec fn macos_total(
    memsize: Option<Seq<char>>,
    vm_stat: Option<Seq<char>>,
    pagesize: Option<Seq<char>>,
) -> Option<nat> {
    match stated_memory(memsize) {
        Some(n) => Some(n),
        None => match vm_stat {
            Some(vm_stat) => total_memory(vm_stat, pagesize),
            None => None,
        },
    }
}

/// The counts that have to be added up do so within a `u64`: those of the pages
/// that are available, and of all pages where the memory size is not stated. None
/// are added up where the size of a page is unknown.
pub open spec fn page_counts_fit(
    memsize: Option<Seq<char>>,
    vm_stat: Seq<char>,
    pagesize: Option<Seq<char>>,
) -> bool {
    known_page_size(vm_stat, pagesize) is Some ==> available_pages(vm_stat) <= u64::MAX && (
    stated_memory(memsize) is None ==> all_pages(vm_stat) <= u64::MAX)
}

/// Whether the counts of `vm_stat` that are needed add up within a `u64`.
pub fn vm_stat_adds_up(memsize: Option<&str>, vm_stat: &str, pagesize: Option<&str>) -> (r: bool)
    ensures
        r == page_counts_fit(opt_str_view(memsize), vm_stat@, opt_str_view(pagesize)),
{
    if read_page_size(vm_stat, pagesize).is_none() {
        return true;
    }
    let available: u128 = read_pages(vm_stat, "Pages free") as u128 + read_pages(
        vm_stat,
        "Pages inactive",
    ) as u128 + read_pages(vm_stat, "Pages speculative") as u128;
    if available > u64::MAX as u128 {
        return false;
    }
    if read_stated_memory(memsize).is_some() {
        return true;
    }
    let total: u128 = available + read_pages(vm_stat, "Pages active") as u128 + read_pages(
        vm_stat,
        "Pages wired down",
    ) as u128 + read_pages(vm_stat, "Pages occupied by compressor") as u128;
    total <= u64::MAX as u128
}

/// The memory of a Mac, out of what `sysctl` and `vm_stat` printed.
pub fn macos_system_memory(
    memsize: Option<&str>,
    vm_stat: Option<&str>,
    pagesize: Option<&str>,
) -> (r: SystemMemory)
    requires
        vm_stat matches Some(text) ==> page_counts_fit(
            opt_str_view(memsize),
            text@,
            opt_str_view(pagesize),
        ),
    ensures
        opt_nat(r.total_bytes) == macos_total(
            opt_str_view(memsize),
            opt_str_view(vm_stat),
            opt_str_view(pagesize),
        ),
        opt_nat(r.available_bytes) == match opt_str_view(vm_stat) {
            Some(text) => available_memory(text, opt_str_view(pagesize)),
            None => None,
        },
{
    let total_bytes: Option<u64> = match read_stated_memory(memsize) {
        Some(n) => Some(n),
        None => match vm_stat {
            Some(text) => macos_total_memory_from_vm_stat(text, pagesize),
            None => None,
        },
    };
    let available_bytes: Option<u64> = match vm_stat {
        Some(text) => macos_available_memory_from_vm_stat(text, pagesize),
        None => None,
    };
    SystemMemory { total_bytes, available_bytes }
}

// ---------------------------------------------------------------------------
// What reading the memory is for
// ---------------------------------------------------------------------------

/// The first line under a key that tells a number is the one that counts.
pub proof fn keys_tell_their_numbers(all: Seq<Seq<char>>, key: Seq<char>, k: int, n: nat)
    requires
        0 <= k < all.len(),
        forall|j: int| 0 <= j < k ==> meminfo_line(#[trigger] all[j], key) is None,
        meminfo_line(all[k], key) == Some(n),
    ensures
        meminfo_lines(all, key) == Some(n),
    decreases k,
{
    if k > 0 {
        let rest = all.drop_first();
        assert(meminfo_line(all[0], key) is None);
        assert forall|j: int| 0 <= j < k - 1 implies meminfo_line(#[trigger] rest[j], key)
            is None by {
            assert(rest[j] == all[j + 1]);
        }
        keys_tell_their_numbers(rest, key, k - 1, n);
    }
}

/// A line tells the number behind the colon under the name before it, and nothing under
/// any other name.
pub proof fn lines_tell_numbers_under_their_names(
    name: Seq<char>,
    rest: Seq<char>,
    other: Seq<char>,
)
    requires
        !name.contains(':'),
        name != other,
    ensures
        meminfo_line(name + seq![':'] + rest, name) == leading_number(rest),
        meminfo_line(name + seq![':'] + rest, other) is None,
{
    let line = name + seq![':'] + rest;
    assert(line[name.len() as int] == ':');
    assert forall|j: int| 0 <= j < name.len() implies line[j] != ':' by {
        assert(name.contains(name[j]));
    }
    crate::text::lemma_position_unique(line, ':', name.len() as int);
    assert(line.take(name.len() as int) =~= name);
    assert(line.skip(name.len() as int + 1) =~= rest);
}

/// A kibibyte is 1024 bytes; no more than can be told is told.
pub proof fn kibibytes_are_bytes(n: nat)
    ensures
        n * 1024 <= u64::MAX ==> kib_to_bytes(Some(n)) == Some(n * 1024),
        kib_to_bytes(None) is None,
        kib_to_bytes(Some(n)) matches Some(b) ==> b <= u64::MAX,
{
}

/// Free, inactive and speculative pages are available; active, wired and compressed ones
/// are not, and all of them are the whole.
pub proof fn pages_are_available_or_taken(vm_stat: Seq<char>)
    ensures
        available_pages(vm_stat) <= all_pages(vm_stat),
        all_pages(vm_stat) == available_pages(vm_stat) + pages(vm_stat, "Pages active"@) + pages(
            vm_stat,
            "Pages wired down"@,
        ) + pages(vm_stat, "Pages occupied by compressor"@),
        available_pages(vm_stat) == pages(vm_stat, "Pages free"@) + pages(
            vm_stat,
            "Pages inactive"@,
        ) + pages(vm_stat, "Pages speculative"@),
{
}

/// Memory is pages times their size; what is stated outright counts before what is counted,
/// and the size that the pages are told with before the one that is told apart.
pub proof fn memory_is_pages_times_their_size(
    memsize: Option<Seq<char>>,
    vm_stat: Seq<char>,
    pagesize: Option<Seq<char>>,
    size: nat,
)
    ensures
        page_size(vm_stat) == Some(size) && available_pages(vm_stat) * size <= u64::MAX
            ==> available_memory(vm_stat, pagesize) == Some(available_pages(vm_stat) * size),
        page_size(vm_stat) == Some(size) && 0 < all_pages(vm_stat) && all_pages(vm_stat) * size
            <= u64::MAX ==> total_memory(vm_stat, pagesize) == Some(all_pages(vm_stat) * size),
        page_size(vm_stat) is None && pagesize is None ==> available_memory(vm_stat, pagesize)
            is None && total_memory(vm_stat, pagesize) is None,
        page_size(vm_stat) is None && (pagesize matches Some(text) && parsed_unsigned(
            trimmed(text),
            u64::MAX as nat,
        ) == Some(size)) && available_pages(vm_stat) * size <= u64::MAX ==> available_memory(
            vm_stat,
            pagesize,
        ) == Some(available_pages(vm_stat) * size),
        all_pages(vm_stat) == 0 ==> total_memory(vm_stat, pagesize) is None,
        (memsize matches Some(text) && parsed_unsigned(trimmed(text), u64::MAX as nat) == Some(size))
            ==> macos_total(memsize, Some(vm_stat), pagesize) == Some(size) && macos_total(
            memsize,
            None,
            pagesize,
        ) == Some(size),
        memsize is None ==> macos_total(memsize, Some(vm_stat), pagesize) == total_memory(
            vm_stat,
            pagesize,
        ),
{
}

/// A line of page counts tells the number behind its colon, points left out, under the
/// name before it, blanks left out; and the first line that tells one counts.
pub proof fn page_lines_tell_their_counts(
    name: Seq<char>,
    rest: Seq<char>,
    other: Seq<char>,
    more: Seq<Seq<char>>,
)
    requires
        !name.contains(':'),
        trimmed(name) != other,
    ensures
        ({
            let line = name + seq![':'] + rest;
            let count = parsed_unsigned(without_char(trimmed(rest), '.'), u64::MAX as nat);
            &&& vm_stat_line(line, trimmed(name)) == count
            &&& vm_stat_line(line, other) is None
            &&& count is Some ==> vm_stat_lines(seq![line] + more, trimmed(name)) == count
            &&& vm_stat_lines(seq![line] + more, other) == vm_stat_lines(more, other)
        }),
        vm_stat_lines(Seq::empty(), other) is None,
{
    let line = name + seq![':'] + rest;
    assert(line[name.len() as int] == ':');
    assert forall|j: int| 0 <= j < name.len() implies line[j] != ':' by {
        assert(name.contains(name[j]));
    }
    crate::text::lemma_position_unique(line, ':', name.len() as int);
    assert(line.take(name.len() as int) =~= name);
    assert(line.skip(name.len() as int + 1) =~= rest);
    let all = seq![line] + more;
    assert(all[0] == line);
    assert(all.drop_first() =~= more);
}

} // verus!
