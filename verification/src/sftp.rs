//! Transfer engine: directory entries, progress accounting, the
//! FileZilla-style skip/resume/overwrite decision, and the chunked,
//! cancellable transfer state machine.
//!
//! The SFTP requests themselves (stat, open, read, write, close) suspend
//! and are performed by the surrounding application; it feeds each outcome
//! into [`Transfer::on_event`], which does all the accounting and decides
//! what the transfer returns.

use vstd::prelude::*;
use vstd::string::*;
use crate::utils;
use crate::utils::spec_permission_str;
use crate::utils::spec_mtime_str;
use crate::utils::time_parts_valid;
use crate::utils::timestamp_in_chrono_range;
use crate::utils::TimeParts;

verus! {

/// The unit at which bytes are moved and progress is reported.
pub const CHUNK_SIZE: usize = 64 * 1024;

/// One directory child, remote or local.
#[derive(Debug)]
pub struct FileEntry {
    pub name: String,
    pub is_dir: bool,
    pub size: u64,
    pub permissions: Option<u32>,
    pub uid: Option<u32>,
    pub gid: Option<u32>,
    pub mtime: Option<u64>,
}

/// The mode's type bits classify the node as a directory.
pub open spec fn spec_mode_is_dir(permissions: Option<u32>) -> bool {
    match permissions {
        Some(p) => p & 0o170000 == 0o040000,
        None => false,
    }
}

impl FileEntry {
    /// Builds an entry from the plain attribute values of one stat result,
    /// deriving `is_dir` from the mode's type bits and defaulting a missing
    /// size to zero.
    pub fn from_attrs(
        name: String,
        size: Option<u64>,
        permissions: Option<u32>,
        uid: Option<u32>,
        gid: Option<u32>,
        mtime: Option<u64>,
    ) -> (e: FileEntry)
        ensures
            e.name == name,
            e.is_dir == spec_mode_is_dir(permissions),
            e.size == (match size {
                Some(s) => s,
                None => 0u64,
            }),
            e.permissions == permissions,
            e.uid == uid,
            e.gid == gid,
            e.mtime == mtime,
    {
        let is_dir = match permissions {
            Some(p) => p & 0o170000 == 0o040000,
            None => false,
        };
        let size = match size {
            Some(s) => s,
            None => 0,
        };
        FileEntry { name, is_dir, size, permissions, uid, gid, mtime }
    }

    /// The mode as `drwxr-xr-x` text; placeholders when the host reported
    /// no POSIX metadata.
    pub fn permission_str(&self) -> (s: String)
        ensures
            self.permissions matches Some(p) ==> s@ == spec_permission_str(p),
            self.permissions is None && self.is_dir ==> s@ == "d?????????"@,
            self.permissions is None && !self.is_dir ==> s@ == "----------"@,
    {
        match self.permissions {
            Some(p) => utils::permission_str(p),
            None => {
                if self.is_dir {
                    String::from_str("d?????????")
                } else {
                    String::from_str("----------")
                }
            },
        }
    }

    /// The modification time as an `ls -la` style date, `?` when absent or
    /// out of range.
    pub fn mtime_str(&self) -> (s: String)
        ensures
            self.mtime is None ==> s@ == "?"@,
            self.mtime matches Some(t) && timestamp_in_chrono_range(t)
                ==> exists|p: TimeParts, recent: bool|
                    time_parts_valid(p) && s@ == spec_mtime_str(p, recent),
            self.mtime matches Some(t) && !timestamp_in_chrono_range(t) ==> s@ == "?"@,
    {
        match self.mtime {
            Some(t) => utils::mtime_str(t),
            None => String::from_str("?"),
        }
    }
}

impl Clone for FileEntry {
    fn clone(&self) -> (r: Self)
        ensures
            r == *self,
    {
        FileEntry {
            name: self.name.clone(),
            is_dir: self.is_dir,
            size: self.size,
            permissions: self.permissions,
            uid: self.uid,
            gid: self.gid,
            mtime: self.mtime,
        }
    }
}

/// Lexicographic order on character sequences by code point — the order
/// `str` comparison gives, since UTF-8 byte order equals code-point order.
pub open spec fn lex_le(a: Seq<char>, b: Seq<char>) -> bool
    decreases a.len(),
{
    if a.len() == 0 {
        true
    } else if b.len() == 0 {
        false
    } else if a[0] == b[0] {
        lex_le(a.drop_first(), b.drop_first())
    } else {
        (a[0] as u32) < (b[0] as u32)
    }
}

proof fn lemma_lex_le_total(a: Seq<char>, b: Seq<char>)
    ensures
        lex_le(a, b) || lex_le(b, a),
    decreases a.len(),
{
    if a.len() == 0 {
    } else if b.len() == 0 {
    } else if a[0] == b[0] {
        lemma_lex_le_total(a.drop_first(), b.drop_first());
    } else {
        assert((a[0] as u32) != (b[0] as u32)) by {
            vstd::utf8::char_u32_cast(a[0], a[0] as u32);
            vstd::utf8::char_u32_cast(b[0], b[0] as u32);
        }
    }
}

proof fn lemma_lex_le_antisymmetric(a: Seq<char>, b: Seq<char>)
    requires
        lex_le(a, b),
        lex_le(b, a),
    ensures
        a == b,
    decreases a.len(),
{
    if a.len() == 0 {
        assert(b.len() == 0);
        assert(a =~= b);
    } else {
        assert(b.len() > 0);
        if a[0] != b[0] {
            assert((a[0] as u32) < (b[0] as u32));
            assert((b[0] as u32) < (a[0] as u32));
        }
        lemma_lex_le_antisymmetric(a.drop_first(), b.drop_first());
        assert(a.drop_first() =~= b.drop_first());
        assert(a.len() == b.len());
        assert forall|i: int| 0 <= i < a.len() implies a[i] == b[i] by {
            if i > 0 {
                assert(a[i] == a.drop_first()[i - 1]);
                assert(b[i] == b.drop_first()[i - 1]);
            }
        }
        assert(a =~= b);
    }
}

proof fn lemma_lex_le_transitive(a: Seq<char>, b: Seq<char>, c: Seq<char>)
    requires
        lex_le(a, b),
        lex_le(b, c),
    ensures
        lex_le(a, c),
    decreases a.len(),
{
    if a.len() == 0 || c.len() == 0 {
    } else if a[0] == b[0] && b[0] == c[0] {
        lemma_lex_le_transitive(a.drop_first(), b.drop_first(), c.drop_first());
    }
}

/// Compares two strings in code-point order.
fn str_le(a: &str, b: &str) -> (r: bool)
    ensures
        r == lex_le(a@, b@),
{
    let alen = a.unicode_len();
    let blen = b.unicode_len();
    let mut i: usize = 0;
    proof {
        assert(a@.skip(0) =~= a@);
        assert(b@.skip(0) =~= b@);
    }
    while i < alen && i < blen
        invariant
            i <= alen,
            i <= blen,
            alen == a@.len(),
            blen == b@.len(),
            lex_le(a@, b@) == lex_le(a@.skip(i as int), b@.skip(i as int)),
        decreases alen - i,
    {
        let ca = a.get_char(i);
        let cb = b.get_char(i);
        proof {
            assert(a@.skip(i as int)[0] == a@[i as int]);
            assert(b@.skip(i as int)[0] == b@[i as int]);
        }
        if ca != cb {
            return (ca as u32) < (cb as u32);
        }
        proof {
            assert(a@.skip(i as int).drop_first() =~= a@.skip(i + 1));
            assert(b@.skip(i as int).drop_first() =~= b@.skip(i + 1));
        }
        i = i + 1;
    }
    i == alen
}

/// Listing order: directories strictly before non-directories; within a
/// class, code-point order on the name.
pub open spec fn spec_entry_le(a: FileEntry, b: FileEntry) -> bool {
    if a.is_dir != b.is_dir {
        a.is_dir
    } else {
        lex_le(a.name@, b.name@)
    }
}

fn entry_le(a: &FileEntry, b: &FileEntry) -> (r: bool)
    ensures
        r == spec_entry_le(*a, *b),
{
    if a.is_dir != b.is_dir {
        a.is_dir
    } else {
        str_le(a.name.as_str(), b.name.as_str())
    }
}

proof fn lemma_entry_le_total(a: FileEntry, b: FileEntry)
    ensures
        spec_entry_le(a, b) || spec_entry_le(b, a),
{
    if a.is_dir == b.is_dir {
        lemma_lex_le_total(a.name@, b.name@);
    }
}

proof fn lemma_entry_le_transitive(a: FileEntry, b: FileEntry, c: FileEntry)
    requires
        spec_entry_le(a, b),
        spec_entry_le(b, c),
    ensures
        spec_entry_le(a, c),
{
    if a.is_dir == b.is_dir && b.is_dir == c.is_dir {
        lemma_lex_le_transitive(a.name@, b.name@, c.name@);
    }
}

/// Non-decreasing in listing order, over every pair of positions.
pub open spec fn entries_sorted(s: Seq<FileEntry>) -> bool {
    forall|i: int, j: int|
        0 <= i < j < s.len() ==> spec_entry_le(#[trigger] s[i], #[trigger] s[j])
}

/// The `.` and `..` pseudo-entries are dropped from listings.
pub open spec fn spec_keep_entry(e: FileEntry) -> bool {
    e.name@ != seq!['.'] && e.name@ != seq!['.', '.']
}

fn keep_entry(e: &FileEntry) -> (r: bool)
    ensures
        r == spec_keep_entry(*e),
{
    let n = e.name.as_str();
    let len = n.unicode_len();
    if len == 1 && n.get_char(0) == '.' {
        proof {
            assert(e.name@ =~= seq!['.']);
        }
        false
    } else if len == 2 && n.get_char(0) == '.' && n.get_char(1) == '.' {
        proof {
            assert(e.name@ =~= seq!['.', '.']);
        }
        false
    } else {
        proof {
            if e.name@ == seq!['.'] || e.name@ == seq!['.', '.'] {
                assert(false);
            }
        }
        true
    }
}

/// Inserts `e` into a sorted vector, keeping it sorted.
fn insert_sorted(out: &mut Vec<FileEntry>, e: FileEntry)
    requires
        entries_sorted(old(out)@),
    ensures
        entries_sorted(final(out)@),
        final(out)@.to_multiset() == old(out)@.to_multiset().insert(e),
        final(out)@.len() == old(out)@.len() + 1,
{
    let ghost pre = out@;
    let mut j = out.len();
    let mut searching = true;
    while searching && j > 0
        invariant
            j <= out@.len(),
            out@ == pre,
            forall|k: int| j <= k < out@.len() ==> !spec_entry_le(#[trigger] out@[k], e),
            !searching ==> j > 0 && spec_entry_le(out@[j - 1], e),
        decreases j, (if searching { 1int } else { 0int }),
    {
        if entry_le(&out[j - 1], &e) {
            searching = false;
        } else {
            j = j - 1;
        }
    }
    out.insert(j, e);
    proof {
        vstd::seq_lib::to_multiset_insert(pre, j as int, e);
        let s2 = out@;
        assert forall|x: int, y: int|
            0 <= x < y < s2.len() implies spec_entry_le(#[trigger] s2[x], #[trigger] s2[y]) by {
            if y < j {
                assert(s2[x] == pre[x] && s2[y] == pre[y]);
            } else if x > j {
                assert(s2[x] == pre[x - 1] && s2[y] == pre[y - 1]);
            } else if x < j && y == j {
                assert(s2[x] == pre[x] && s2[y] == e);
                assert(spec_entry_le(pre[j - 1], e));
                if x < j - 1 {
                    assert(spec_entry_le(pre[x], pre[j - 1]));
                    lemma_entry_le_transitive(pre[x], pre[j - 1], e);
                }
            } else if x == j && y > j {
                assert(s2[x] == e && s2[y] == pre[y - 1]);
                assert(!spec_entry_le(pre[y - 1], e));
                lemma_entry_le_total(e, pre[y - 1]);
            } else {
                assert(x < j && y > j);
                assert(s2[x] == pre[x] && s2[y] == pre[y - 1]);
                assert(spec_entry_le(pre[x], pre[y - 1]));
            }
        }
    }
}

/// Builds the final listing from raw stat results: drops the `.` and `..`
/// pseudo-entries and sorts what remains — directories first, names in
/// ascending code-point order within each class. The result holds exactly
/// the kept input entries.
pub fn build_listing(raw: Vec<FileEntry>) -> (r: Vec<FileEntry>)
    ensures
        entries_sorted(r@),
        r@.to_multiset() == raw@.filter(|e: FileEntry| spec_keep_entry(e)).to_multiset(),
        forall|i: int| 0 <= i < r@.len() ==> spec_keep_entry(#[trigger] r@[i]),
{
    let ghost pred = |e: FileEntry| spec_keep_entry(e);
    let mut kept: Vec<FileEntry> = Vec::new();
    let mut i: usize = 0;
    while i < raw.len()
        invariant
            i <= raw@.len(),
            kept@ == raw@.take(i as int).filter(|e: FileEntry| spec_keep_entry(e)),
        decreases raw@.len() - i,
    {
        let ghost prev = raw@.take(i as int);
        if keep_entry(&raw[i]) {
            kept.push(raw[i].clone());
        }
        i = i + 1;
        proof {
            reveal_with_fuel(Seq::<_>::filter, 2);
            assert(raw@.take(i as int).drop_last() =~= prev);
            assert(raw@.take(i as int).last() == raw@[i - 1]);
        }
    }
    proof {
        assert(raw@.take(raw@.len() as int) =~= raw@);
    }
    let mut out: Vec<FileEntry> = Vec::new();
    let mut j: usize = 0;
    proof {
        assert(out@ =~= kept@.take(0));
    }
    while j < kept.len()
        invariant
            j <= kept@.len(),
            entries_sorted(out@),
            out@.to_multiset() == kept@.take(j as int).to_multiset(),
            out@.len() == j,
        decreases kept@.len() - j,
    {
        let ghost prev = kept@.take(j as int);
        insert_sorted(&mut out, kept[j].clone());
        j = j + 1;
        proof {
            broadcast use vstd::seq_lib::group_to_multiset_ensures;
            assert(kept@.take(j as int) =~= prev.push(kept@[j - 1]));
        }
    }
    proof {
        broadcast use vstd::seq_lib::group_to_multiset_ensures;
        assert(kept@.take(kept@.len() as int) =~= kept@);
        assert forall|k: int| 0 <= k < out@.len() implies spec_keep_entry(#[trigger] out@[k]) by {
            assert(out@.contains(out@[k]));
            assert(out@.to_multiset().count(out@[k]) > 0);
            assert(kept@.to_multiset().count(out@[k]) > 0);
            assert(kept@.contains(out@[k]));
            let w = choose|w: int| 0 <= w < kept@.len() && kept@[w] == out@[k];
            broadcast use vstd::seq_lib::group_filter_ensures;
        }
    }
    out
}

/// What sortedness gives each listing: directories precede files, and two
/// same-class entries with different names stand in strictly ascending
/// name order.
pub proof fn lemma_listing_order(s: Seq<FileEntry>, i: int, j: int)
    requires
        entries_sorted(s),
        0 <= i < j < s.len(),
    ensures
        s[j].is_dir ==> s[i].is_dir,
        s[i].is_dir == s[j].is_dir && s[i].name@ != s[j].name@ ==> lex_le(s[i].name@, s[j].name@)
            && !lex_le(s[j].name@, s[i].name@),
{
    assert(spec_entry_le(s[i], s[j]));
    if s[i].is_dir == s[j].is_dir && s[i].name@ != s[j].name@ {
        if lex_le(s[j].name@, s[i].name@) {
            lemma_lex_le_antisymmetric(s[i].name@, s[j].name@);
        }
    }
}

/// Per-chunk progress snapshot: bytes written so far, the source size
/// captured at pre-flight, and whole milliseconds since the transfer
/// started.
#[derive(Debug, Clone, Copy, PartialEq, Eq, Structural)]
pub struct ProgressInfo {
    pub transferred: u64,
    pub total: u64,
    pub elapsed_ms: u64,
}

impl ProgressInfo {
    /// Whole percent completed, zero when the total is zero.
    pub fn percent(&self) -> (r: u64)
        requires
            self.transferred <= self.total,
        ensures
            self.total > 0 ==> r == self.transferred as int * 100 / self.total as int,
            self.total == 0 ==> r == 0,
            r <= 100,
    {
        if self.total > 0 {
            let p = (self.transferred as u128) * 100 / (self.total as u128);
            proof {
                vstd::arithmetic::div_mod::lemma_div_is_ordered(
                    self.transferred as int * 100,
                    self.total as int * 100,
                    self.total as int,
                );
                vstd::arithmetic::div_mod::lemma_div_by_multiple(100, self.total as int);
            }
            p as u64
        } else {
            0
        }
    }

    /// Mean transfer rate in bytes per second, zero before the first
    /// millisecond has elapsed; saturates at `u64::MAX`.
    pub fn speed(&self) -> (r: u64)
        ensures
            self.elapsed_ms > 0 ==> r as int == vstd::math::min(
                self.transferred as int * 1000 / self.elapsed_ms as int,
                u64::MAX as int,
            ),
            self.elapsed_ms == 0 ==> r == 0,
    {
        if self.elapsed_ms > 0 {
            let q = (self.transferred as u128) * 1000 / (self.elapsed_ms as u128);
            if q > u64::MAX as u128 {
                u64::MAX
            } else {
                q as u64
            }
        } else {
            0
        }
    }

    /// Estimated seconds to completion at the current mean rate, absent
    /// when the rate is zero; saturates at zero when already past `total`.
    pub fn eta_secs(&self) -> (r: Option<u64>)
        ensures
            r matches Some(e) ==> {
                &&& self.spec_speed() > 0
                &&& e == (if self.total >= self.transferred {
                    (self.total - self.transferred) as int
                } else {
                    0int
                }) / self.spec_speed()
            },
            r is None <==> self.spec_speed() == 0,
    {
        let speed = self.speed();
        if speed > 0 {
            let remaining = if self.total >= self.transferred {
                self.total - self.transferred
            } else {
                0
            };
            Some(remaining / speed)
        } else {
            None
        }
    }

    /// The value [`Self::speed`] returns.
    pub open spec fn spec_speed(&self) -> int {
        if self.elapsed_ms > 0 {
            vstd::math::min(self.transferred as int * 1000 / self.elapsed_ms as int, u64::MAX as int)
        } else {
            0
        }
    }
}

/// The FileZilla-style pre-flight decision for one transfer direction.
///
/// For a download the destination is the local file and the source the
/// remote one; for an upload the roles are swapped. A missing destination
/// counts as size zero, mtime zero.
#[derive(Debug, Clone, Copy, PartialEq, Eq, Structural)]
pub enum TransferDecision {
    /// Destination and source have identical size and mtime: move nothing.
    Skip,
    /// A shorter, non-empty destination exists: append from this offset.
    Resume(u64),
    /// Anything else: rewrite the destination from the start.
    Overwrite,
}

/// Skip iff size and mtime both match; resume iff the destination is
/// non-empty and strictly shorter than the source; overwrite otherwise.
pub open spec fn spec_decide(
    dest_size: u64,
    dest_mtime: u64,
    src_size: u64,
    src_mtime: u64,
) -> TransferDecision {
    if dest_size == src_size && dest_mtime == src_mtime {
        TransferDecision::Skip
    } else if 0 < dest_size < src_size {
        TransferDecision::Resume(dest_size)
    } else {
        TransferDecision::Overwrite
    }
}

/// Applies the skip / resume / overwrite rules to the two stat results.
pub fn decide_transfer(dest_size: u64, dest_mtime: u64, src_size: u64, src_mtime: u64) -> (d:
    TransferDecision)
    ensures
        d == spec_decide(dest_size, dest_mtime, src_size, src_mtime),
        d is Skip <==> dest_size == src_size && dest_mtime == src_mtime,
        d matches TransferDecision::Resume(o) ==> o == dest_size && 0 < dest_size < src_size,
{
    if dest_size == src_size && dest_mtime == src_mtime {
        TransferDecision::Skip
    } else if 0 < dest_size && dest_size < src_size {
        TransferDecision::Resume(dest_size)
    } else {
        TransferDecision::Overwrite
    }
}

impl TransferDecision {
    /// Where streaming starts: the destination size when resuming, zero
    /// otherwise.
    pub open spec fn spec_offset(self) -> u64 {
        match self {
            TransferDecision::Resume(o) => o,
            _ => 0,
        }
    }

    pub fn offset(&self) -> (r: u64)
        ensures
            r == self.spec_offset(),
    {
        match self {
            TransferDecision::Resume(o) => *o,
            _ => 0,
        }
    }

    pub fn is_resume(&self) -> (r: bool)
        ensures
            r == (self is Resume),
    {
        matches!(self, TransferDecision::Resume(_))
    }
}

/// Running a transfer again right after it completed, with the source
/// unchanged and the destination's mtime preserved, skips: once the
/// destination reports the source's own size and mtime the decision is
/// `Skip`, so no handles are opened.
pub proof fn lemma_repeat_transfer_skips(size: u64, mtime: u64)
    ensures
        spec_decide(size, mtime, size, mtime) is Skip,
{
}

/// Outcome of one `get`/`put` call.
#[derive(Debug, Clone, Copy, PartialEq, Eq, Structural)]
pub enum TransferResult {
    /// Pre-flight found identical size and mtime; no bytes moved.
    Skipped,
    /// A partial destination existed and was appended to; the payload is
    /// the destination's total size after completion.
    Resumed(u64),
    /// The whole file was moved; the payload equals the source size.
    Completed(u64),
    /// Cancellation was observed; the payload is the bytes flushed before
    /// the stop.
    Cancelled(u64),
}

/// What the application observed at one suspension point of the chunk
/// loop: a chunk of bytes arrived, the source reported end of file, or the
/// cancellation token fired first (the select is biased towards it).
#[derive(Debug, Clone, Copy, PartialEq, Eq, Structural)]
pub enum TransferEvent {
    /// One chunk of this many bytes was read and written through.
    Chunk(u64),
    /// A zero-byte read: the source is exhausted.
    Eof,
    /// The cancellation signal won the race.
    Cancel,
}

/// What the transfer does next: report progress and keep streaming, or
/// stop with a result.
#[derive(Debug, Clone, Copy, PartialEq, Eq, Structural)]
pub enum TransferStep {
    Progress(ProgressInfo),
    Done(TransferResult),
}

/// The progress reports are strictly increasing.
pub open spec fn reports_increasing(reports: Seq<u64>) -> bool {
    forall|i: int| 0 <= i && i + 1 < reports.len() ==> #[trigger] reports[i] < reports[i + 1]
}

/// Well-formedness of a running transfer's accounting: the byte counter
/// stays between the start offset and the total, each progress report lies
/// in that range too, reports grow strictly, the newest report equals the
/// counter, and no report moved more than one chunk.
pub open spec fn transfer_wf(
    start: u64,
    transferred: u64,
    total: u64,
    resumed: bool,
    reports: Seq<u64>,
) -> bool {
    &&& start <= transferred <= total
    &&& (resumed <==> start > 0)
    &&& reports_increasing(reports)
    &&& forall|i: int|
        0 <= i < reports.len() ==> start < #[trigger] reports[i] <= total
    &&& (reports.len() == 0 ==> transferred == start)
    &&& (reports.len() > 0 ==> reports[reports.len() - 1] == transferred)
    &&& transferred <= start + CHUNK_SIZE * reports.len()
}

proof fn lemma_transfer_wf_push(
    start: u64,
    transferred: u64,
    total: u64,
    resumed: bool,
    reports: Seq<u64>,
    n: u64,
)
    requires
        transfer_wf(start, transferred, total, resumed, reports),
        1 <= n <= CHUNK_SIZE,
        transferred + n <= total,
    ensures
        transfer_wf(
            start,
            (transferred + n) as u64,
            total,
            resumed,
            reports.push((transferred + n) as u64),
        ),
{
    let t2 = (transferred + n) as u64;
    let r2 = reports.push(t2);
    assert forall|i: int| 0 <= i && i + 1 < r2.len() implies #[trigger] r2[i] < r2[i + 1] by {
        if i + 1 < reports.len() {
            assert(r2[i] == reports[i] && r2[i + 1] == reports[i + 1]);
        } else {
            assert(i + 1 == reports.len() && r2[i + 1] == t2);
            assert(r2[i] == reports[i]);
            assert(reports[i] == transferred);
        }
    }
    assert forall|i: int| 0 <= i < r2.len() implies start < #[trigger] r2[i] <= total by {
        if i < reports.len() {
            assert(r2[i] == reports[i]);
        } else {
            assert(r2[i] == t2);
        }
    }
    assert(r2.len() == reports.len() + 1);
    assert(CHUNK_SIZE * r2.len() == CHUNK_SIZE * reports.len() + CHUNK_SIZE) by (nonlinear_arith)
        requires
            r2.len() == reports.len() + 1,
    {}
    assert(t2 <= start + CHUNK_SIZE * r2.len());
}

/// One running transfer: the counter starts at the resume offset, each
/// chunk advances it and yields one progress report, and the first of
/// end-of-file or cancellation finishes it.
pub struct Transfer {
    transferred: u64,
    total: u64,
    resumed: bool,
    finished: bool,
    start_offset: Ghost<u64>,
    reports: Ghost<Seq<u64>>,
}

impl Transfer {
    /// Bytes flushed to the destination so far (the resume offset counts).
    pub closed spec fn spec_transferred(&self) -> u64 {
        self.transferred
    }

    /// The source size captured at pre-flight.
    pub closed spec fn spec_total(&self) -> u64 {
        self.total
    }

    /// Whether this transfer appends to a partial destination.
    pub closed spec fn spec_resumed(&self) -> bool {
        self.resumed
    }

    /// Whether a result has been produced; a finished transfer takes no
    /// more events.
    pub closed spec fn spec_finished(&self) -> bool {
        self.finished
    }

    /// Where streaming started.
    pub closed spec fn spec_start_offset(&self) -> u64 {
        self.start_offset@
    }

    /// Every `transferred` value handed to the progress sink, in order.
    pub closed spec fn reports(&self) -> Seq<u64> {
        self.reports@
    }

    #[verifier::type_invariant]
    spec fn inv(&self) -> bool {
        transfer_wf(self.start_offset@, self.transferred, self.total, self.resumed, self.reports@)
    }

    /// Starts the streaming phase after a non-skip decision: the counter
    /// begins at the decision's offset and no progress has been reported.
    pub fn begin(d: &TransferDecision, total: u64) -> (t: Transfer)
        requires
            !(d is Skip),
            d matches TransferDecision::Resume(o) ==> 0 < *o < total,
        ensures
            t.spec_transferred() == d.spec_offset(),
            t.spec_start_offset() == d.spec_offset(),
            t.spec_total() == total,
            t.spec_resumed() == (d is Resume),
            !t.spec_finished(),
            t.reports() == Seq::<u64>::empty(),
    {
        let offset = d.offset();
        Transfer {
            transferred: offset,
            total,
            resumed: d.is_resume(),
            finished: false,
            start_offset: Ghost(offset),
            reports: Ghost(Seq::empty()),
        }
    }

    /// Bytes flushed to the destination so far.
    pub fn transferred(&self) -> (r: u64)
        ensures
            r == self.spec_transferred(),
    {
        self.transferred
    }

    /// The source size captured at pre-flight.
    pub fn total(&self) -> (r: u64)
        ensures
            r == self.spec_total(),
    {
        self.total
    }

    /// Feeds one observed event into the transfer.
    ///
    /// A chunk advances the counter and yields the progress snapshot to
    /// hand to the sink; end of file yields `Resumed` or `Completed` with
    /// the full total; cancellation yields `Cancelled` with the bytes
    /// flushed so far. The counter never passes the total, and on
    /// `Completed` it equals the total exactly.
    pub fn on_event(&mut self, ev: TransferEvent, elapsed_ms: u64) -> (step: TransferStep)
        requires
            !old(self).spec_finished(),
            ev matches TransferEvent::Chunk(n) ==> 1 <= n <= CHUNK_SIZE
                && old(self).spec_transferred() + n <= old(self).spec_total(),
            ev is Eof ==> old(self).spec_transferred() == old(self).spec_total(),
        ensures
            final(self).spec_total() == old(self).spec_total(),
            final(self).spec_start_offset() == old(self).spec_start_offset(),
            final(self).spec_resumed() == old(self).spec_resumed(),
            final(self).spec_transferred() <= final(self).spec_total(),
            reports_increasing(final(self).reports()),
            final(self).spec_transferred() <= final(self).spec_start_offset() + CHUNK_SIZE
                * final(self).reports().len(),
            ev matches TransferEvent::Chunk(n) ==> {
                &&& final(self).spec_transferred() == old(self).spec_transferred() + n
                &&& !final(self).spec_finished()
                &&& final(self).reports() == old(self).reports().push(final(self).spec_transferred())
                &&& step == TransferStep::Progress(
                    ProgressInfo {
                        transferred: (old(self).spec_transferred() + n) as u64,
                        total: old(self).spec_total(),
                        elapsed_ms,
                    },
                )
            },
            ev is Eof ==> {
                &&& final(self).spec_finished()
                &&& final(self).spec_transferred() == old(self).spec_transferred()
                &&& final(self).reports() == old(self).reports()
                &&& step == TransferStep::Done(
                    if old(self).spec_resumed() {
                        TransferResult::Resumed(old(self).spec_total())
                    } else {
                        TransferResult::Completed(old(self).spec_total())
                    },
                )
            },
            ev is Cancel ==> {
                &&& final(self).spec_finished()
                &&& final(self).spec_transferred() == old(self).spec_transferred()
                &&& final(self).reports() == old(self).reports()
                &&& step == TransferStep::Done(
                    TransferResult::Cancelled(old(self).spec_transferred()),
                )
            },
    {
        proof {
            use_type_invariant(&*self);
        }
        match ev {
            TransferEvent::Chunk(n) => {
                let new_transferred = self.transferred + n;
                let ghost new_reports = self.reports@.push(new_transferred);
                proof {
                    lemma_transfer_wf_push(
                        self.start_offset@,
                        self.transferred,
                        self.total,
                        self.resumed,
                        self.reports@,
                        n,
                    );
                }
                *self = Transfer {
                    transferred: new_transferred,
                    total: self.total,
                    resumed: self.resumed,
                    finished: false,
                    start_offset: self.start_offset,
                    reports: Ghost(new_reports),
                };
                TransferStep::Progress(
                    ProgressInfo {
                        transferred: new_transferred,
                        total: self.total,
                        elapsed_ms,
                    },
                )
            },
            TransferEvent::Eof => {
                let r = if self.resumed {
                    TransferResult::Resumed(self.total)
                } else {
                    TransferResult::Completed(self.total)
                };
                self.finished = true;
                TransferStep::Done(r)
            },
            TransferEvent::Cancel => {
                let r = TransferResult::Cancelled(self.transferred);
                self.finished = true;
                TransferStep::Done(r)
            },
        }
    }
}

} // verus!
