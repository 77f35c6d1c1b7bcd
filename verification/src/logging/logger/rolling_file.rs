//! Rolling log files: the names of live and archived log files, how archives are found
//! again in a directory listing, which archives are cleared, and when the live file rolls.
use crate::logging::logger::log_date::LogDate;
use crate::text::{
    zero_padded, pow10, all_digits, chars_of, decimal, digits_value, parse_digits, push_char, push_decimal, push_str,
    string_of,
};
use vstd::prelude::*;

verus! {

/// A live log file is rolled once it holds this many bytes.
pub const MAX_LOG_SIZE: u64 = 1073741824;

/// The forms an archived log file takes.
#[derive(Debug, Clone, Copy, PartialEq, Eq, Structural)]
pub enum ArchiveKind {
    /// Rolled and not yet compressed: `<name>-<date>-<n>.log`.
    Raw,
    /// Compressed: `<name>-<date>-<n>.log.gz`.
    Gz,
    /// Being compressed: `<name>-<date>-<n>.log.gz.tmp`.
    GzTmp,
}

impl ArchiveKind {
    /// The file name suffix of the kind.
    pub open spec fn spec_suffix(self) -> Seq<char> {
        match self {
            ArchiveKind::Raw => seq!['.', 'l', 'o', 'g'],
            ArchiveKind::Gz => seq!['.', 'l', 'o', 'g', '.', 'g', 'z'],
            ArchiveKind::GzTmp => seq!['.', 'l', 'o', 'g', '.', 'g', 'z', '.', 't', 'm', 'p'],
        }
    }

    fn suffix(&self) -> (r: Vec<char>)
        ensures
            r@ == self.spec_suffix(),
    {
        match self {
            ArchiveKind::Raw => vec!['.', 'l', 'o', 'g'],
            ArchiveKind::Gz => vec!['.', 'l', 'o', 'g', '.', 'g', 'z'],
            ArchiveKind::GzTmp => vec!['.', 'l', 'o', 'g', '.', 'g', 'z', '.', 't', 'm', 'p'],
        }
    }
}

/// The path of `file` inside `dir`, as `PathBuf::push` forms it: an absolute `file` stands
/// alone, and a separator is put between them unless `dir` is empty or already ends in one.
pub open spec fn spec_join(dir: Seq<char>, file: Seq<char>) -> Seq<char> {
    if file.len() > 0 && file[0] == '/' {
        file
    } else if dir.len() == 0 || dir.last() == '/' {
        dir + file
    } else {
        dir + seq!['/'] + file
    }
}

/// The file name of the live log `name`: `<name>.log`.
pub open spec fn spec_log_file_name(name: Seq<char>) -> Seq<char> {
    name + ArchiveKind::Raw.spec_suffix()
}

/// The file name of an archive: `<name>-<date>-<number>` and the kind's suffix.
pub open spec fn spec_archive_file_name(
    name: Seq<char>,
    date: LogDate,
    number: u32,
    kind: ArchiveKind,
) -> Seq<char> {
    name + seq!['-'] + date.spec_text() + seq!['-'] + decimal(number as nat) + kind.spec_suffix()
}

/// Joins a directory and a file name into a path, as `PathBuf::push` does.
pub fn join_path(dir: &str, file: &String) -> (r: String)
    ensures
        r@ == spec_join(dir@, file@),
{
    let f = file.as_str();
    let fc = chars_of(f);
    if fc.len() > 0 && fc[0] == '/' {
        return string_of(f);
    }
    let dc = chars_of(dir);
    let mut r = string_of(dir);
    if !(dc.len() == 0 || dc[dc.len() - 1] == '/') {
        push_char(&mut r, '/');
    }
    push_str(&mut r, f);
    r
}

/// The directory that holds the log files.
pub fn log_dir() -> (r: &'static str)
    ensures
        r@ == seq!['v', 'a', 'r', '/', 'l', 'o', 'g'],
{
    proof {
        reveal_strlit("var/log");
    }
    "var/log"
}

fn push_suffix(s: &mut String, kind: ArchiveKind)
    ensures
        final(s)@ == old(s)@ + kind.spec_suffix(),
{
    let suffix = kind.suffix();
    let mut i: usize = 0;
    let ghost start = s@;
    while i < suffix.len()
        invariant
            i <= suffix.len(),
            suffix@ == kind.spec_suffix(),
            s@ =~= start + suffix@.subrange(0, i as int),
        decreases suffix.len() - i,
    {
        push_char(s, suffix[i]);
        i = i + 1;
    }
    assert(suffix@.subrange(0, suffix.len() as int) =~= suffix@);
}

/// The file name of the live log `name`.
pub fn log_file_name(name: &str) -> (r: String)
    ensures
        r@ == spec_log_file_name(name@),
{
    let mut r = string_of(name);
    push_suffix(&mut r, ArchiveKind::Raw);
    r
}

/// The file name of an archive of the log `name`.
pub fn archive_file_name(name: &str, date: LogDate, number: u32, kind: ArchiveKind) -> (r: String)
    ensures
        r@ == spec_archive_file_name(name@, date, number, kind),
{
    let mut r = string_of(name);
    push_char(&mut r, '-');
    date.push_text(&mut r);
    push_char(&mut r, '-');
    push_decimal(&mut r, number as u64);
    push_suffix(&mut r, kind);
    assert(r@ =~= spec_archive_file_name(name@, date, number, kind));
    r
}

/// The path of the live log `name` in `dir`.
pub fn log_path(dir: &str, name: &str) -> (r: String)
    ensures
        r@ == spec_join(dir@, spec_log_file_name(name@)),
{
    join_path(dir, &log_file_name(name))
}

/// The path of a rolled, uncompressed archive.
pub fn archive_path(dir: &str, name: &str, date: LogDate, number: u32) -> (r: String)
    ensures
        r@ == spec_join(dir@, spec_archive_file_name(name@, date, number, ArchiveKind::Raw)),
{
    join_path(dir, &archive_file_name(name, date, number, ArchiveKind::Raw))
}

/// The path of an archive being compressed.
pub fn archive_gz_tmp_path(dir: &str, name: &str, date: LogDate, number: u32) -> (r: String)
    ensures
        r@ == spec_join(dir@, spec_archive_file_name(name@, date, number, ArchiveKind::GzTmp)),
{
    join_path(dir, &archive_file_name(name, date, number, ArchiveKind::GzTmp))
}

/// The path of a compressed archive.
pub fn archive_gz_path(dir: &str, name: &str, date: LogDate, number: u32) -> (r: String)
    ensures
        r@ == spec_join(dir@, spec_archive_file_name(name@, date, number, ArchiveKind::Gz)),
{
    join_path(dir, &archive_file_name(name, date, number, ArchiveKind::Gz))
}

/// The date and number an archive file name of the log `name` carries, when `f` has the form
/// `<name>-<dddd>-<dd>-<dd>-<d...>` followed by the kind's suffix, with ASCII digits `d`, the
/// digits name a calendar date, and the number fits a `u32`.
pub open spec fn spec_parse_archive_name(name: Seq<char>, f: Seq<char>, kind: ArchiveKind) -> Option<(LogDate, u32)> {
    let n = name.len();
    let suffix = kind.spec_suffix();
    if f.len() < n + 13 + suffix.len() || f.subrange(0, n as int) != name || f.subrange(
        f.len() - suffix.len(),
        f.len() as int,
    ) != suffix {
        None
    } else {
        let r = f.subrange(n as int, f.len() - suffix.len());
        if r[0] == '-' && all_digits(r.subrange(1, 5)) && r[5] == '-' && all_digits(
            r.subrange(6, 8),
        ) && r[8] == '-' && all_digits(r.subrange(9, 11)) && r[11] == '-' && all_digits(
            r.subrange(12, r.len() as int),
        ) {
            let y = digits_value(r.subrange(1, 5));
            let m = digits_value(r.subrange(6, 8));
            let d = digits_value(r.subrange(9, 11));
            let num = digits_value(r.subrange(12, r.len() as int));
            let date = LogDate { year: y as i32, month: m as u32, day: d as u32 };
            if date.valid() && num <= u32::MAX {
                Some((date, num as u32))
            } else {
                None
            }
        } else {
            None
        }
    }
}

/// Finds the archives of one log among the files of a directory.
pub struct ArchiveLocator {
    name: String,
}

impl ArchiveLocator {
    /// The name of the log whose archives are found.
    pub closed spec fn spec_name(&self) -> Seq<char> {
        self.name@
    }

    /// A locator for the archives of the log `name`.
    pub fn new(name: &str) -> (r: ArchiveLocator)
        ensures
            r.spec_name() == name@,
    {
        ArchiveLocator { name: string_of(name) }
    }

    /// The date and number of an archive of the given kind, read from its file name; `None`
    /// for any other file.
    #[verifier::loop_isolation(false)]
    pub fn parse(&self, file_name: &str, kind: ArchiveKind) -> (r: Option<(LogDate, u32)>)
        ensures
            r == spec_parse_archive_name(self.spec_name(), file_name@, kind),
    {
        let f = chars_of(file_name);
        let name = chars_of(self.name.as_str());
        let suffix = kind.suffix();
        let n = name.len();
        let sl = suffix.len();
        if f.len() < 13 || f.len() - 13 < sl || f.len() - 13 - sl < n {
            return None;
        }
        let mut i: usize = 0;
        while i < n
            invariant
                i <= n,
                n == name@.len(),
                n <= f@.len(),
                name@ == self.spec_name(),
                forall|j: int| 0 <= j < i ==> f@[j] == name@[j],
            decreases n - i,
        {
            if f[i] != name[i] {
                proof {
                    assert(f@.subrange(0, n as int)[i as int] != name@[i as int]);
                    assert(f@.subrange(0, n as int) != self.spec_name());
                }
                return None;
            }
            i = i + 1;
        }
        assert(f@.subrange(0, n as int) =~= name@);
        let start = f.len() - sl;
        let mut k: usize = 0;
        while k < sl
            invariant
                k <= sl,
                sl == suffix@.len(),
                start + sl == f.len(),
                f@.len() == f.len(),
                suffix@ == kind.spec_suffix(),
                forall|j: int| 0 <= j < k ==> f@[start + j] == suffix@[j],
            decreases sl - k,
        {
            if f[start + k] != suffix[k] {
                proof {
                    assert(f@.subrange(start as int, f.len() as int)[k as int] != suffix@[k as int]);
                    assert(f@.subrange(f@.len() - kind.spec_suffix().len(), f@.len() as int) != kind.spec_suffix());
                }
                return None;
            }
            k = k + 1;
        }
        assert(f@.subrange(start as int, f.len() as int) =~= suffix@);
        let ghost r = f@.subrange(n as int, start as int);
        if f[n] != '-' || f[n + 5] != '-' || f[n + 8] != '-' || f[n + 11] != '-' {
            assert(r[0] == f@[n as int] && r[5] == f@[n + 5] && r[8] == f@[n + 8] && r[11] == f@[n + 11]);
            return None;
        }
        assert(r[0] == f@[n as int] && r[5] == f@[n + 5] && r[8] == f@[n + 8] && r[11] == f@[n + 11]);
        assert(r.subrange(1, 5) =~= f@.subrange(n + 1, n + 5));
        assert(r.subrange(6, 8) =~= f@.subrange(n + 6, n + 8));
        assert(r.subrange(9, 11) =~= f@.subrange(n + 9, n + 11));
        assert(r.subrange(12, r.len() as int) =~= f@.subrange(n + 12, start as int));
        let y = parse_digits(&f, n + 1, n + 5, 9999);
        let m = parse_digits(&f, n + 6, n + 8, 99);
        let d = parse_digits(&f, n + 9, n + 11, 99);
        let num = parse_digits(&f, n + 12, start, 4294967295);
        proof {
            if all_digits(f@.subrange(n + 1, n + 5)) {
                crate::text::lemma_digits_bounded(f@.subrange(n + 1, n + 5));
            }
            if all_digits(f@.subrange(n + 6, n + 8)) {
                crate::text::lemma_digits_bounded(f@.subrange(n + 6, n + 8));
            }
            if all_digits(f@.subrange(n + 9, n + 11)) {
                crate::text::lemma_digits_bounded(f@.subrange(n + 9, n + 11));
            }
        }
        match (y, m, d, num) {
            (Some(y), Some(m), Some(d), Some(num)) => {
                let date = LogDate { year: y as i32, month: m as u32, day: d as u32 };
                if date.is_valid() {
                    Some((date, num as u32))
                } else {
                    None
                }
            },
            _ => None,
        }
    }
}

/// An archive file name written for a date with a four-digit year reads back as that date
/// and number.
pub proof fn lemma_archive_name_round_trip(name: Seq<char>, date: LogDate, number: u32, kind: ArchiveKind)
    requires
        date.valid(),
        0 <= date.year <= 9999,
    ensures
        spec_parse_archive_name(name, spec_archive_file_name(name, date, number, kind), kind)
            == Some((date, number)),
{
    reveal_with_fuel(pow10, 5);
    crate::text::lemma_decimal_len_le(date.year as nat, 4);
    crate::text::lemma_decimal_len_le(date.month as nat, 2);
    crate::text::lemma_decimal_len_le(date.day as nat, 2);
    crate::text::lemma_zero_padded(date.year as nat, 4);
    crate::text::lemma_zero_padded(date.month as nat, 2);
    crate::text::lemma_zero_padded(date.day as nat, 2);
    crate::text::lemma_decimal_digits(number as nat);
    let y = zero_padded(date.year as nat, 4);
    let m = zero_padded(date.month as nat, 2);
    let d = zero_padded(date.day as nat, 2);
    let num = decimal(number as nat);
    let suffix = kind.spec_suffix();
    let f = spec_archive_file_name(name, date, number, kind);
    let r = seq!['-'] + y + seq!['-'] + m + seq!['-'] + d + seq!['-'] + num;
    assert(date.spec_text() == y + seq!['-'] + m + seq!['-'] + d);
    assert(f =~= name + r + suffix);
    assert(f.subrange(0, name.len() as int) =~= name);
    assert(f.subrange(f.len() - suffix.len(), f.len() as int) =~= suffix);
    assert(f.subrange(name.len() as int, f.len() - suffix.len()) =~= r);
    assert(r.subrange(1, 5) =~= y);
    assert(r.subrange(6, 8) =~= m);
    assert(r.subrange(9, 11) =~= d);
    assert(r.subrange(12, r.len() as int) =~= num);
}

/// An archived log file found in the log directory.
#[derive(Debug, Clone)]
pub struct ArchivedLog {
    pub path: String,
    pub date: LogDate,
    pub number: u32,
    pub len: u64,
}

/// The archives' order of age: by date, then number, then position in the listing.
pub open spec fn archive_key_lt(logs: Seq<ArchivedLog>, i: int, j: int) -> bool {
    let a = logs[i];
    let b = logs[j];
    ||| a.date.spec_lt(b.date)
    ||| (a.date == b.date && a.number < b.number)
    ||| (a.date == b.date && a.number == b.number && i < j)
}

/// `o` lists every archive exactly once, oldest first.
pub open spec fn is_archive_order(logs: Seq<ArchivedLog>, o: Seq<usize>) -> bool {
    &&& o.len() == logs.len()
    &&& forall|a: int| 0 <= a < o.len() ==> (#[trigger] o[a]) < logs.len()
    &&& forall|a: int, b: int| 0 <= a < b < o.len() ==> archive_key_lt(logs, #[trigger] o[a] as int, #[trigger] o[b] as int)
}

/// The archives oldest first, as `sort_by_key(|l| (l.date, l.number))` leaves them.
pub open spec fn archive_order(logs: Seq<ArchivedLog>) -> Seq<usize> {
    choose|o: Seq<usize>| is_archive_order(logs, o)
}

proof fn lemma_key_lt_order(logs: Seq<ArchivedLog>, i: int, j: int, k: int)
    ensures
        archive_key_lt(logs, i, j) && archive_key_lt(logs, j, k) ==> archive_key_lt(logs, i, k),
        !archive_key_lt(logs, i, i),
        i != j ==> (archive_key_lt(logs, i, j) || archive_key_lt(logs, j, i)),
        archive_key_lt(logs, i, j) ==> !archive_key_lt(logs, j, i),
{
}

/// A duplicate-free list of `n` indices below `n` holds every index below `n`.
proof fn lemma_indices_cover(o: Seq<usize>, n: int, x: int)
    requires
        o.len() == n,
        forall|a: int| 0 <= a < n ==> (#[trigger] o[a]) < n,
        forall|a: int, b: int| 0 <= a < b < n ==> #[trigger] o[a] != #[trigger] o[b],
        0 <= x < n,
    ensures
        exists|q: int| 0 <= q < n && o[q] == x,
{
    broadcast use vstd::set::group_set_axioms, vstd::seq_lib::seq_to_set_is_finite;
    let oi = o.map_values(|v: usize| v as int);
    assert(oi.no_duplicates()) by {
        assert forall|a: int, b: int| 0 <= a < oi.len() && 0 <= b < oi.len() && a != b implies oi[a] != oi[b] by {
            if a < b {
                assert(o[a] != o[b]);
            } else {
                assert(o[b] != o[a]);
            }
        }
    }
    oi.unique_seq_to_set();
    let full = vstd::set_lib::set_int_range(0, n);
    vstd::set_lib::lemma_int_range(0, n);
    assert(oi.to_set().subset_of(full)) by {
        assert forall|v: int| oi.to_set().contains(v) implies full.contains(v) by {
            let a = choose|a: int| 0 <= a < oi.len() && oi[a] == v;
            assert(o[a] < n);
        }
    }
    vstd::set_lib::lemma_subset_equality(oi.to_set(), full);
    assert(full.contains(x));
    assert(oi.to_set().contains(x));
    let q = choose|q: int| 0 <= q < oi.len() && oi[q] == x;
    assert(o[q] == x);
}

proof fn lemma_archive_order_prefix(logs: Seq<ArchivedLog>, o1: Seq<usize>, o2: Seq<usize>, k: int)
    requires
        is_archive_order(logs, o1),
        is_archive_order(logs, o2),
        0 <= k <= logs.len(),
        forall|a: int, b: int| 0 <= a < b < logs.len() ==> #[trigger] o1[a] != #[trigger] o1[b],
        forall|a: int, b: int| 0 <= a < b < logs.len() ==> #[trigger] o2[a] != #[trigger] o2[b],
    ensures
        forall|q: int| 0 <= q < k ==> o1[q] == o2[q],
    decreases k,
{
    if k > 0 {
        let n = logs.len() as int;
        lemma_archive_order_prefix(logs, o1, o2, k - 1);
        let j = k - 1;
        let x = o1[j];
        let y = o2[j];
        lemma_indices_cover(o2, n, x as int);
        lemma_indices_cover(o1, n, y as int);
        let q = choose|q: int| 0 <= q < n && o2[q] == x;
        let r = choose|r: int| 0 <= r < n && o1[r] == y;
        if q < j {
            assert(o1[q] == x);
        }
        if r < j {
            assert(o2[r] == y);
        }
        if q > j && r > j {
            lemma_key_lt_order(logs, x as int, y as int, x as int);
            assert(archive_key_lt(logs, y as int, x as int));
            assert(archive_key_lt(logs, x as int, y as int));
        }
    }
}

/// There is one order of age only.
pub proof fn lemma_archive_order_unique(logs: Seq<ArchivedLog>, o1: Seq<usize>, o2: Seq<usize>)
    requires
        is_archive_order(logs, o1),
        is_archive_order(logs, o2),
    ensures
        o1 == o2,
{
    let n = logs.len() as int;
    assert forall|a: int, b: int| 0 <= a < b < n implies #[trigger] o1[a] != #[trigger] o1[b] by {
        lemma_key_lt_order(logs, o1[a] as int, o1[b] as int, o1[b] as int);
    }
    assert forall|a: int, b: int| 0 <= a < b < n implies #[trigger] o2[a] != #[trigger] o2[b] by {
        lemma_key_lt_order(logs, o2[a] as int, o2[b] as int, o2[b] as int);
    }
    lemma_archive_order_prefix(logs, o1, o2, n);
    assert(o1 =~= o2);
}

fn archive_key_less(logs: &Vec<ArchivedLog>, i: usize, j: usize) -> (r: bool)
    requires
        i < logs.len(),
        j < logs.len(),
    ensures
        r == archive_key_lt(logs@, i as int, j as int),
{
    let a = &logs[i];
    let b = &logs[j];
    a.date.lt(&b.date) || (a.date.year == b.date.year && a.date.month == b.date.month
        && a.date.day == b.date.day && (a.number < b.number || (a.number == b.number && i < j)))
}

/// The positions of the archives, oldest first: by date, then number, and for equal date
/// and number in the order listed (the stable order of `sort_by_key`).
pub fn sort_archives(logs: &Vec<ArchivedLog>) -> (order: Vec<usize>)
    ensures
        is_archive_order(logs@, order@),
        order@ == archive_order(logs@),
{
    let n = logs.len();
    let mut order: Vec<usize> = Vec::new();
    let mut i: usize = 0;
    while i < n
        invariant
            i <= n,
            n == logs.len(),
            order.len() == i,
            forall|a: int| 0 <= a < order.len() ==> (#[trigger] order@[a]) < i,
            forall|a: int, b: int| 0 <= a < b < order.len() ==> archive_key_lt(logs@, #[trigger] order@[a] as int, #[trigger] order@[b] as int),
        decreases n - i,
    {
        let mut p = order.len();
        while p > 0 && archive_key_less(logs, i, order[p - 1])
            invariant
                p <= order.len(),
                i < n,
                n == logs.len(),
                order.len() == i,
                forall|a: int| 0 <= a < order.len() ==> (#[trigger] order@[a]) < i,
                forall|a: int| p <= a < order.len() ==> archive_key_lt(logs@, i as int, #[trigger] order@[a] as int),
            decreases p,
        {
            p = p - 1;
        }
        let ghost old_order = order@;
        proof {
            if p > 0 {
                lemma_key_lt_order(logs@, i as int, old_order[p - 1] as int, i as int);
                assert(archive_key_lt(logs@, old_order[p - 1] as int, i as int));
            }
            assert forall|a: int| 0 <= a < p implies archive_key_lt(logs@, #[trigger] old_order[a] as int, i as int) by {
                if a < p - 1 {
                    lemma_key_lt_order(logs@, old_order[a] as int, old_order[p - 1] as int, i as int);
                }
            }
        }
        order.insert(p, i);
        proof {
            assert forall|a: int, b: int| 0 <= a < b < order.len() implies archive_key_lt(logs@, #[trigger] order@[a] as int, #[trigger] order@[b] as int) by {
                if b < p {
                    assert(order@[a] == old_order[a] && order@[b] == old_order[b]);
                } else if b == p {
                    assert(order@[a] == old_order[a]);
                } else if a < p {
                    assert(order@[a] == old_order[a] && order@[b] == old_order[b - 1]);
                    lemma_key_lt_order(logs@, old_order[a] as int, i as int, old_order[b - 1] as int);
                } else if a == p {
                    assert(order@[b] == old_order[b - 1]);
                } else {
                    assert(order@[a] == old_order[a - 1] && order@[b] == old_order[b - 1]);
                }
            }
        }
        i = i + 1;
    }
    proof {
        assert(is_archive_order(logs@, order@));
        assert(exists|o: Seq<usize>| is_archive_order(logs@, o));
        lemma_archive_order_unique(logs@, order@, archive_order(logs@));
    }
    order
}

/// The total size of the archives at the given positions.
pub open spec fn sum_lens(logs: Seq<ArchivedLog>, o: Seq<usize>) -> int
    decreases o.len(),
{
    if o.len() == 0 {
        0
    } else {
        logs[o[0] as int].len + sum_lens(logs, o.drop_first())
    }
}

/// The total size of all archives.
pub open spec fn total_archive_size(logs: Seq<ArchivedLog>) -> int {
    sum_lens(logs, archive_order(logs))
}

/// How many of the archives at positions `o`, taken oldest first, are deleted: deletion
/// stops at the first archive that is dated on or after `cutoff` while the archives that
/// remain (it and those after it) total less than `max_size` bytes.
pub open spec fn deletion_count(logs: Seq<ArchivedLog>, o: Seq<usize>, cutoff: LogDate, max_size: int) -> nat
    decreases o.len(),
{
    if o.len() == 0 {
        0
    } else if cutoff.spec_le(logs[o[0] as int].date) && sum_lens(logs, o) < max_size {
        0
    } else {
        1 + deletion_count(logs, o.drop_first(), cutoff, max_size)
    }
}

/// The archives that clearing deletes, oldest first.
pub open spec fn spec_clear_old_archives(
    date: LogDate,
    max_archive_size: u64,
    max_archive_days: u32,
    logs: Seq<ArchivedLog>,
) -> Seq<usize> {
    let order = archive_order(logs);
    order.take(
        deletion_count(logs, order, date.days_before(max_archive_days as nat), max_archive_size as int) as int,
    )
}

proof fn lemma_sum_lens_skip(logs: Seq<ArchivedLog>, o: Seq<usize>, k: int)
    requires
        0 <= k <= o.len(),
    ensures
        0 <= sum_lens(logs, o.skip(k)) <= sum_lens(logs, o),
        k < o.len() ==> sum_lens(logs, o.skip(k)) == logs[o[k] as int].len + sum_lens(logs, o.skip(k + 1)),
    decreases k,
{
    if k > 0 {
        lemma_sum_lens_skip(logs, o.drop_first(), k - 1);
        assert(o.drop_first().skip(k - 1) =~= o.skip(k));
        if k < o.len() {
            assert(o.drop_first().skip(k) =~= o.skip(k + 1));
        }
    } else {
        assert(o.skip(0) =~= o);
        lemma_sum_lens_nonneg(logs, o);
        if o.len() > 0 {
            assert(o.drop_first() =~= o.skip(1));
            lemma_sum_lens_nonneg(logs, o.skip(1));
        }
    }
}

proof fn lemma_sum_lens_nonneg(logs: Seq<ArchivedLog>, o: Seq<usize>)
    ensures
        sum_lens(logs, o) >= 0,
    decreases o.len(),
{
    if o.len() > 0 {
        lemma_sum_lens_nonneg(logs, o.drop_first());
    }
}

proof fn lemma_deletion_count_skip(logs: Seq<ArchivedLog>, o: Seq<usize>, cutoff: LogDate, max_size: int, k: int)
    requires
        0 <= k <= o.len(),
        forall|j: int| 0 <= j < k ==> !(cutoff.spec_le(logs[o[j] as int].date) && sum_lens(logs, o.skip(j)) < max_size),
    ensures
        deletion_count(logs, o, cutoff, max_size) == k + deletion_count(logs, o.skip(k), cutoff, max_size),
    decreases k,
{
    if k > 0 {
        assert(o.skip(0) =~= o);
        assert(!(cutoff.spec_le(logs[o[0] as int].date) && sum_lens(logs, o) < max_size));
        assert forall|j: int| 0 <= j < k - 1 implies !(cutoff.spec_le(logs[o.drop_first()[j] as int].date) && sum_lens(logs, o.drop_first().skip(j)) < max_size) by {
            assert(o.drop_first().skip(j) =~= o.skip(j + 1));
        }
        lemma_deletion_count_skip(logs, o.drop_first(), cutoff, max_size, k - 1);
        assert(o.drop_first().skip(k - 1) =~= o.skip(k));
    } else {
        assert(o.skip(0) =~= o);
    }
}

/// Decides which archived logs to delete: oldest first, every archive dated before the day
/// `max_archive_days` before `date`, and then more until those left total less than
/// `max_archive_size` bytes. Returns their positions in `logs`, in order of deletion.
pub fn clear_old_archives_inner(
    date: LogDate,
    max_archive_size: u64,
    max_archive_days: u32,
    logs: &Vec<ArchivedLog>,
) -> (deleted: Vec<usize>)
    requires
        date.valid(),
        date.can_go_back(max_archive_days as nat),
        total_archive_size(logs@) <= u64::MAX,
    ensures
        deleted@ == spec_clear_old_archives(date, max_archive_size, max_archive_days, logs@),
{
    let order = sort_archives(logs);
    let n = order.len();
    let ghost o = order@;
    let mut total: u64 = 0;
    let mut k = n;
    while k > 0
        invariant
            k <= n,
            n == order.len(),
            o == order@,
            is_archive_order(logs@, o),
            total == sum_lens(logs@, o.skip(k as int)),
            sum_lens(logs@, o) <= u64::MAX,
        decreases k,
    {
        k = k - 1;
        proof {
            lemma_sum_lens_skip(logs@, o, k as int);
        }
        total = logs[order[k]].len + total;
    }
    assert(o.skip(0) =~= o);
    let cutoff = date.go_back(max_archive_days);
    let mut deleted: Vec<usize> = Vec::new();
    let mut k: usize = 0;
    while k < n
        invariant
            k <= n,
            n == order.len(),
            o == order@,
            is_archive_order(logs@, o),
            total == sum_lens(logs@, o.skip(k as int)),
            deleted@ == o.take(k as int),
            forall|j: int| 0 <= j < k ==> !(cutoff.spec_le(logs@[o[j] as int].date) && sum_lens(logs@, o.skip(j)) < max_archive_size),
        ensures
            k <= n,
            total == sum_lens(logs@, o.skip(k as int)),
            deleted@ == o.take(k as int),
            forall|j: int| 0 <= j < k ==> !(cutoff.spec_le(logs@[o[j] as int].date) && sum_lens(logs@, o.skip(j)) < max_archive_size),
            k < n ==> (cutoff.spec_le(logs@[o[k as int] as int].date) && sum_lens(logs@, o.skip(k as int)) < max_archive_size),
        decreases n - k,
    {
        let l = &logs[order[k]];
        if cutoff.le(&l.date) && total < max_archive_size {
            break;
        }
        proof {
            lemma_sum_lens_skip(logs@, o, k as int);
            lemma_sum_lens_skip(logs@, o, k + 1);
        }
        deleted.push(order[k]);
        total = total - l.len;
        k = k + 1;
        assert(deleted@ =~= o.take(k as int));
    }
    proof {
        lemma_deletion_count_skip(logs@, o, cutoff, max_archive_size as int, k as int);
        if k < n {
            assert(o.skip(k as int)[0] == o[k as int]);
            assert(deletion_count(logs@, o.skip(k as int), cutoff, max_archive_size as int) == 0);
        } else {
            assert(o.skip(k as int).len() == 0);
        }
    }
    deleted
}

/// The first position in `o`, from `a` on, of an archive newer than archive `i`.
spec fn first_newer(logs: Seq<ArchivedLog>, o: Seq<usize>, i: int, a: int) -> int
    decreases o.len() - a,
{
    if a >= o.len() || archive_key_lt(logs, i, o[a] as int) {
        a
    } else {
        first_newer(logs, o, i, a + 1)
    }
}

proof fn lemma_first_newer(logs: Seq<ArchivedLog>, o: Seq<usize>, i: int, a: int)
    requires
        0 <= a <= o.len(),
        forall|x: int, y: int| 0 <= x < y < o.len() ==> archive_key_lt(logs, #[trigger] o[x] as int, #[trigger] o[y] as int),
        forall|x: int| 0 <= x < a ==> archive_key_lt(logs, #[trigger] o[x] as int, i),
        forall|x: int| 0 <= x < o.len() ==> #[trigger] o[x] != i,
    ensures
        a <= first_newer(logs, o, i, a) <= o.len(),
        forall|x: int| 0 <= x < first_newer(logs, o, i, a) ==> archive_key_lt(logs, #[trigger] o[x] as int, i),
        forall|x: int| first_newer(logs, o, i, a) <= x < o.len() ==> archive_key_lt(logs, i, #[trigger] o[x] as int),
    decreases o.len() - a,
{
    if a < o.len() && !archive_key_lt(logs, i, o[a] as int) {
        lemma_key_lt_order(logs, i, o[a] as int, i);
        lemma_first_newer(logs, o, i, a + 1);
    } else if a < o.len() {
        assert forall|x: int| a <= x < o.len() implies archive_key_lt(logs, i, #[trigger] o[x] as int) by {
            if x > a {
                lemma_key_lt_order(logs, i, o[a] as int, o[x] as int);
            }
        }
    }
}

/// The archives always have an order of age.
pub proof fn lemma_archive_order_exists(logs: Seq<ArchivedLog>)
    requires
        logs.len() <= usize::MAX,
    ensures
        is_archive_order(logs, archive_order(logs)),
{
    let o = order_of_first(logs, logs.len() as int);
    assert(is_archive_order(logs, o));
}

/// An order of age of the first `n` archives.
proof fn order_of_first(logs: Seq<ArchivedLog>, n: int) -> (o: Seq<usize>)
    requires
        0 <= n <= logs.len(),
        logs.len() <= usize::MAX,
    ensures
        o.len() == n,
        forall|a: int| 0 <= a < n ==> (#[trigger] o[a]) < n,
        forall|a: int, b: int| 0 <= a < b < n ==> archive_key_lt(logs, #[trigger] o[a] as int, #[trigger] o[b] as int),
    decreases n,
{
    if n == 0 {
        Seq::empty()
    } else {
        let prev = order_of_first(logs, n - 1);
        let i = n - 1;
        assert forall|x: int| 0 <= x < prev.len() implies #[trigger] prev[x] != i by {}
        lemma_first_newer(logs, prev, i, 0);
        let p = first_newer(logs, prev, i, 0);
        let o = prev.insert(p, i as usize);
        assert forall|a: int, b: int| 0 <= a < b < n implies archive_key_lt(logs, #[trigger] o[a] as int, #[trigger] o[b] as int) by {
            if b < p {
                assert(o[a] == prev[a] && o[b] == prev[b]);
            } else if b == p {
                assert(o[a] == prev[a]);
            } else if a < p {
                assert(o[a] == prev[a] && o[b] == prev[b - 1]);
                lemma_key_lt_order(logs, prev[a] as int, i, prev[b - 1] as int);
            } else if a == p {
                assert(o[b] == prev[b - 1]);
            } else {
                assert(o[a] == prev[a - 1] && o[b] == prev[b - 1]);
            }
        }
        assert forall|a: int| 0 <= a < n implies (#[trigger] o[a]) < n by {
            if a < p {
                assert(o[a] == prev[a]);
            } else if a > p {
                assert(o[a] == prev[a - 1]);
            }
        }
        o
    }
}

/// Clearing keeps only what the retention rules allow, and deletes no more than it must:
/// every archive kept is dated on or after the cutoff day (`max_archive_days` before `date`);
/// the archives kept total less than `max_archive_size` bytes, unless none is kept; the
/// archives deleted are the oldest; and no archive is deleted once the archives left meet
/// both rules.
pub proof fn lemma_clear_old_archives_retains(
    date: LogDate,
    max_archive_size: u64,
    max_archive_days: u32,
    logs: Seq<ArchivedLog>,
)
    requires
        logs.len() <= usize::MAX,
    ensures
        ({
            let order = archive_order(logs);
            let cutoff = date.days_before(max_archive_days as nat);
            let c = deletion_count(logs, order, cutoff, max_archive_size as int) as int;
            &&& spec_clear_old_archives(date, max_archive_size, max_archive_days, logs) == order.take(c)
            &&& c <= order.len()
            &&& forall|k: int| c <= k < order.len() ==> cutoff.spec_le(#[trigger] logs[order[k] as int].date)
            &&& c < order.len() ==> sum_lens(logs, order.skip(c)) < max_archive_size
            &&& forall|j: int| 0 <= j < c ==> !(cutoff.spec_le(#[trigger] logs[order[j] as int].date) && sum_lens(logs, order.skip(j)) < max_archive_size)
        }),
{
    lemma_archive_order_exists(logs);
    let order = archive_order(logs);
    let cutoff = date.days_before(max_archive_days as nat);
    lemma_deletion_facts(logs, order, cutoff, max_archive_size as int);
}

proof fn lemma_deletion_facts(logs: Seq<ArchivedLog>, o: Seq<usize>, cutoff: LogDate, max_size: int)
    requires
        forall|x: int, y: int| 0 <= x < y < o.len() ==> archive_key_lt(logs, #[trigger] o[x] as int, #[trigger] o[y] as int),
    ensures
        ({
            let c = deletion_count(logs, o, cutoff, max_size) as int;
            &&& c <= o.len()
            &&& forall|k: int| c <= k < o.len() ==> cutoff.spec_le(#[trigger] logs[o[k] as int].date)
            &&& c < o.len() ==> sum_lens(logs, o.skip(c)) < max_size
            &&& forall|j: int| 0 <= j < c ==> !(cutoff.spec_le(#[trigger] logs[o[j] as int].date) && sum_lens(logs, o.skip(j)) < max_size)
        }),
    decreases o.len(),
{
    let c = deletion_count(logs, o, cutoff, max_size) as int;
    if o.len() == 0 {
    } else if cutoff.spec_le(logs[o[0] as int].date) && sum_lens(logs, o) < max_size {
        assert(o.skip(0) =~= o);
        assert forall|k: int| 0 <= k < o.len() implies cutoff.spec_le(#[trigger] logs[o[k] as int].date) by {
            if k > 0 {
                assert(archive_key_lt(logs, o[0] as int, o[k] as int));
            }
        }
    } else {
        let d = o.drop_first();
        assert forall|x: int, y: int| 0 <= x < y < d.len() implies archive_key_lt(logs, #[trigger] d[x] as int, #[trigger] d[y] as int) by {
            assert(d[x] == o[x + 1] && d[y] == o[y + 1]);
        }
        lemma_deletion_facts(logs, d, cutoff, max_size);
        assert forall|k: int| c <= k < o.len() implies cutoff.spec_le(#[trigger] logs[o[k] as int].date) by {
            assert(d[k - 1] == o[k]);
        }
        if c < o.len() {
            assert(d.skip(c - 1) =~= o.skip(c));
        }
        assert forall|j: int| 0 <= j < c implies !(cutoff.spec_le(#[trigger] logs[o[j] as int].date) && sum_lens(logs, o.skip(j)) < max_size) by {
            if j == 0 {
                assert(o.skip(0) =~= o);
            } else {
                assert(d[j - 1] == o[j]);
                assert(d.skip(j - 1) =~= o.skip(j));
            }
        }
    }
}

/// One more than the highest number an archive dated `day` uses, or 0 when none does.
pub open spec fn spec_next_archive_index(logs: Seq<ArchivedLog>, day: LogDate) -> int
    decreases logs.len(),
{
    if logs.len() == 0 {
        0
    } else {
        let rest = spec_next_archive_index(logs.drop_last(), day);
        let l = logs.last();
        if l.date == day && l.number + 1 > rest {
            l.number + 1
        } else {
            rest
        }
    }
}

/// The next number of a day is above the number of every archive of that day, and is 0 when
/// there is none or else one more than the number of one of them: it is one more than their
/// highest number, whatever the order in which they are listed.
pub proof fn lemma_next_archive_index_is_max(logs: Seq<ArchivedLog>, day: LogDate)
    ensures
        forall|i: int| 0 <= i < logs.len() && (#[trigger] logs[i]).date == day ==> logs[i].number < spec_next_archive_index(logs, day),
        spec_next_archive_index(logs, day) == 0 || exists|i: int| 0 <= i < logs.len() && (#[trigger] logs[i]).date == day && logs[i].number + 1 == spec_next_archive_index(logs, day),
        spec_next_archive_index(logs, day) >= 0,
    decreases logs.len(),
{
    if logs.len() > 0 {
        let rest = logs.drop_last();
        lemma_next_archive_index_is_max(rest, day);
        let r = spec_next_archive_index(logs, day);
        assert forall|i: int| 0 <= i < logs.len() && (#[trigger] logs[i]).date == day implies logs[i].number < r by {
            if i < logs.len() - 1 {
                assert(logs[i] == rest[i]);
            }
        }
        if r != 0 {
            if r == spec_next_archive_index(rest, day) {
                let i = choose|i: int| 0 <= i < rest.len() && (#[trigger] rest[i]).date == day && rest[i].number + 1 == spec_next_archive_index(rest, day);
                assert(logs[i] == rest[i]);
            } else {
                assert(logs[logs.len() - 1] == logs.last());
            }
        }
    }
}

/// The number the next archive of the day `today` gets: one more than the highest number
/// that an archive of that day, compressed or not, already has; 0 when there is none.
pub fn next_archive_index(archived: &Vec<ArchivedLog>, uncompressed: &Vec<ArchivedLog>, today: LogDate) -> (r: u32)
    requires
        forall|i: int| 0 <= i < archived.len() && (#[trigger] archived@[i]).date == today ==> archived@[i].number < u32::MAX,
        forall|i: int| 0 <= i < uncompressed.len() && (#[trigger] uncompressed@[i]).date == today ==> uncompressed@[i].number < u32::MAX,
    ensures
        r == spec_next_archive_index(archived@ + uncompressed@, today),
        forall|i: int| 0 <= i < archived.len() && (#[trigger] archived@[i]).date == today ==> archived@[i].number < r,
        forall|i: int| 0 <= i < uncompressed.len() && (#[trigger] uncompressed@[i]).date == today ==> uncompressed@[i].number < r,
        r == 0 || (exists|i: int| 0 <= i < archived.len() && (#[trigger] archived@[i]).date == today && archived@[i].number + 1 == r)
            || (exists|i: int| 0 <= i < uncompressed.len() && (#[trigger] uncompressed@[i]).date == today && uncompressed@[i].number + 1 == r),
{
    let ghost all = archived@ + uncompressed@;
    let mut r: u32 = 0;
    let mut i: usize = 0;
    while i < archived.len()
        invariant
            i <= archived.len(),
            all == archived@ + uncompressed@,
            r == spec_next_archive_index(all.take(i as int), today),
            forall|j: int| 0 <= j < archived.len() && (#[trigger] archived@[j]).date == today ==> archived@[j].number < u32::MAX,
        decreases archived.len() - i,
    {
        let l = &archived[i];
        assert(*l == all[i as int]);
        assert(all.take(i + 1).drop_last() =~= all.take(i as int));
        if l.date == today && l.number + 1 > r {
            r = l.number + 1;
        }
        i = i + 1;
    }
    let mut k: usize = 0;
    while k < uncompressed.len()
        invariant
            k <= uncompressed.len(),
            all == archived@ + uncompressed@,
            r == spec_next_archive_index(all.take(archived.len() + k), today),
            forall|j: int| 0 <= j < uncompressed.len() && (#[trigger] uncompressed@[j]).date == today ==> uncompressed@[j].number < u32::MAX,
        decreases uncompressed.len() - k,
    {
        let l = &uncompressed[k];
        assert(*l == all[archived.len() + k]);
        assert(all.take(archived.len() + k + 1).drop_last() =~= all.take(archived.len() + k));
        if l.date == today && l.number + 1 > r {
            r = l.number + 1;
        }
        k = k + 1;
    }
    assert(all.take(archived.len() + uncompressed.len()) =~= all);
    proof {
        lemma_next_archive_index_is_max(all, today);
        assert forall|i: int| 0 <= i < archived.len() && (#[trigger] archived@[i]).date == today implies archived@[i].number < r by {
            assert(all[i] == archived@[i]);
        }
        assert forall|i: int| 0 <= i < uncompressed.len() && (#[trigger] uncompressed@[i]).date == today implies uncompressed@[i].number < r by {
            assert(all[archived.len() + i] == uncompressed@[i]);
        }
        if r != 0 {
            let j = choose|j: int| 0 <= j < all.len() && (#[trigger] all[j]).date == today && all[j].number + 1 == r;
            if j < archived.len() {
                assert(all[j] == archived@[j]);
            } else {
                assert(all[j] == uncompressed@[j - archived.len()]);
            }
        }
    }
    r
}

/// The live log file: its size and the day it was opened on.
#[derive(Debug, Clone, Copy, PartialEq, Eq, Structural)]
pub struct CurrentFile {
    pub len: u64,
    pub date: LogDate,
}

/// What a rolling appender must do before it can take a write.
#[derive(Debug, Clone, Copy, PartialEq, Eq, Structural)]
pub enum ReadyStep {
    /// Write to the live file.
    Write,
    /// Close the live file and move it to the archive with this date and number, then open
    /// a new live file and report it with [`RollingFileAppender::rotated`].
    Rotate { date: LogDate, number: u32 },
}

/// The decisions of an appender that writes a log to a live file and rolls it into an
/// archive once it is too large or a new day has begun.
pub struct RollingFileAppender {
    live: Option<CurrentFile>,
    next_archive_index: u32,
    name: String,
    max_archive_size: u64,
    max_archive_days: u32,
}

impl RollingFileAppender {
    /// The live file, or `None` while the appender is rolling.
    pub closed spec fn spec_live(&self) -> Option<CurrentFile> {
        self.live
    }

    /// The number the next archive gets.
    pub closed spec fn spec_next_archive_index(&self) -> u32 {
        self.next_archive_index
    }

    /// The log's name.
    pub closed spec fn spec_name(&self) -> Seq<char> {
        self.name@
    }

    /// The size, in bytes, the archives may take together.
    pub closed spec fn spec_max_archive_size(&self) -> u64 {
        self.max_archive_size
    }

    /// The number of days archives are kept.
    pub closed spec fn spec_max_archive_days(&self) -> u32 {
        self.max_archive_days
    }

    /// An appender for the log `name` whose live file holds `len` bytes on `today`; the
    /// archives may take `size_limit_gb` GiB together and are kept `max_archive_days` days.
    /// The next archive number continues from the archives of `today` already present.
    pub fn new(
        name: &str,
        size_limit_gb: u32,
        max_archive_days: u32,
        len: u64,
        today: LogDate,
        archived: &Vec<ArchivedLog>,
        uncompressed: &Vec<ArchivedLog>,
    ) -> (r: RollingFileAppender)
        requires
            forall|i: int| 0 <= i < archived.len() && (#[trigger] archived@[i]).date == today ==> archived@[i].number < u32::MAX,
            forall|i: int| 0 <= i < uncompressed.len() && (#[trigger] uncompressed@[i]).date == today ==> uncompressed@[i].number < u32::MAX,
        ensures
            r.spec_live() == Some(CurrentFile { len, date: today }),
            r.spec_next_archive_index() == spec_next_archive_index(archived@ + uncompressed@, today),
            r.spec_name() == name@,
            r.spec_max_archive_size() == size_limit_gb * 1073741824,
            r.spec_max_archive_days() == max_archive_days,
    {
        let max_archive_size = (size_limit_gb as u64) * 1024 * 1024 * 1024;
        RollingFileAppender {
            live: Some(CurrentFile { len, date: today }),
            next_archive_index: next_archive_index(archived, uncompressed, today),
            name: string_of(name),
            max_archive_size,
            max_archive_days,
        }
    }

    /// The log's name.
    pub fn name(&self) -> (r: &str)
        ensures
            r@ == self.spec_name(),
    {
        self.name.as_str()
    }

    /// The size, in bytes, the archives may take together.
    pub fn max_archive_size(&self) -> (r: u64)
        ensures
            r == self.spec_max_archive_size(),
    {
        self.max_archive_size
    }

    /// The number of days archives are kept.
    pub fn max_archive_days(&self) -> (r: u32)
        ensures
            r == self.spec_max_archive_days(),
    {
        self.max_archive_days
    }

    /// The number the next archive gets.
    pub fn next_archive_number(&self) -> (r: u32)
        ensures
            r == self.spec_next_archive_index(),
    {
        self.next_archive_index
    }

    /// The live file, or `None` while the appender is rolling.
    pub fn live(&self) -> (r: Option<CurrentFile>)
        ensures
            r == self.spec_live(),
    {
        self.live
    }

    /// Decides, on `today`, whether the live file takes the next write or must be rolled
    /// first: it is rolled once it holds `MAX_LOG_SIZE` bytes or a later day has begun. A roll
    /// archives it under its own date with the next archive number; the numbering starts
    /// again from 0 when the day has changed.
    pub fn poll_ready(&mut self, today: LogDate) -> (step: ReadyStep)
        requires
            old(self).spec_live() is Some,
            !(old(self).spec_live().unwrap().len < MAX_LOG_SIZE && today.spec_le(old(self).spec_live().unwrap().date))
                && !old(self).spec_live().unwrap().date.spec_lt(today)
                ==> old(self).spec_next_archive_index() < u32::MAX,
        ensures
            final(self).spec_name() == old(self).spec_name(),
            final(self).spec_max_archive_size() == old(self).spec_max_archive_size(),
            final(self).spec_max_archive_days() == old(self).spec_max_archive_days(),
            ({
                let file = old(self).spec_live().unwrap();
                if file.len < MAX_LOG_SIZE && today.spec_le(file.date) {
                    &&& step == ReadyStep::Write
                    &&& final(self).spec_live() == old(self).spec_live()
                    &&& final(self).spec_next_archive_index() == old(self).spec_next_archive_index()
                } else {
                    &&& step == (ReadyStep::Rotate { date: file.date, number: old(self).spec_next_archive_index() })
                    &&& final(self).spec_live() is None
                    &&& final(self).spec_next_archive_index() == if file.date.spec_lt(today) {
                        0
                    } else {
                        old(self).spec_next_archive_index() + 1
                    }
                }
            }),
    {
        let file = self.live.unwrap();
        if file.len < MAX_LOG_SIZE && today.le(&file.date) {
            return ReadyStep::Write;
        }
        let number = self.next_archive_index;
        if file.date.lt(&today) {
            self.next_archive_index = 0;
        } else {
            self.next_archive_index = self.next_archive_index + 1;
        }
        self.live = None;
        ReadyStep::Rotate { date: file.date, number }
    }

    /// Records that the rolled file was archived and a new, empty live file opened on `today`.
    pub fn rotated(&mut self, today: LogDate)
        ensures
            final(self).spec_live() == Some(CurrentFile { len: 0, date: today }),
            final(self).spec_next_archive_index() == old(self).spec_next_archive_index(),
            final(self).spec_name() == old(self).spec_name(),
            final(self).spec_max_archive_size() == old(self).spec_max_archive_size(),
            final(self).spec_max_archive_days() == old(self).spec_max_archive_days(),
    {
        self.live = Some(CurrentFile { len: 0, date: today });
    }

    /// Records a write of `n` bytes to the live file.
    pub fn start_send(&mut self, n: u64)
        requires
            old(self).spec_live() is Some,
            old(self).spec_live().unwrap().len + n <= u64::MAX,
        ensures
            final(self).spec_live() == Some(CurrentFile {
                len: (old(self).spec_live().unwrap().len + n) as u64,
                date: old(self).spec_live().unwrap().date,
            }),
            final(self).spec_next_archive_index() == old(self).spec_next_archive_index(),
            final(self).spec_name() == old(self).spec_name(),
            final(self).spec_max_archive_size() == old(self).spec_max_archive_size(),
            final(self).spec_max_archive_days() == old(self).spec_max_archive_days(),
    {
        let file = self.live.unwrap();
        self.live = Some(CurrentFile { len: file.len + n, date: file.date });
    }
}

} // verus!
