//! Reading session logs: bounded lines, the per-file decisions and the
//! report of an ingest run. Walking directories and reading files is the
//! application's part; it hands the bytes and facts it finds to these types.
use vstd::prelude::*;

use crate::analytics::SessionAggregate;
use crate::session::{line_record, SafeSessionParser};

verus! {

broadcast use vstd::std_specs::vec::group_vec_axioms;

/// The largest session file that is read, in bytes.
pub const MAX_SESSION_FILE_BYTES: u64 = 268435456;

/// The longest line that is handed to the parser, in bytes, its newline included.
pub const MAX_JSONL_LINE_BYTES: usize = 8388608;

/// What an ingest run did.
#[derive(Debug, Clone)]
pub struct IngestReport {
    pub files_discovered: u64,
    pub files_processed: u64,
    pub files_unchanged: u64,
    pub files_skipped: u64,
    pub sessions_upserted: u64,
    pub valid_metadata_lines: u64,
    pub invalid_or_oversized_lines: u64,
    pub analytics_rebuilt: bool,
}

impl Default for IngestReport {
    fn default() -> (report: Self)
        ensures
            report == IngestReport::zero(),
    {
        IngestReport {
            files_discovered: 0,
            files_processed: 0,
            files_unchanged: 0,
            files_skipped: 0,
            sessions_upserted: 0,
            valid_metadata_lines: 0,
            invalid_or_oversized_lines: 0,
            analytics_rebuilt: false,
        }
    }
}

/// What became of one session file found by an ingest run.
#[derive(Debug, Clone, Copy, PartialEq, Eq, Structural)]
pub enum FileOutcome {
    /// Left aside: too large, unreadable, failed, or without any timed event.
    Skipped,
    /// Its size and modification time are already recorded.
    Unchanged,
    /// Read, and its session stored.
    Stored,
}

/// The report after one more file with `outcome`.
pub open spec fn record_file_spec(r: IngestReport, outcome: FileOutcome) -> IngestReport {
    let found = IngestReport { files_discovered: inc(r.files_discovered), ..r };
    match outcome {
        FileOutcome::Skipped => IngestReport { files_skipped: inc(r.files_skipped), ..found },
        FileOutcome::Unchanged => IngestReport { files_unchanged: inc(r.files_unchanged), ..found },
        FileOutcome::Stored => IngestReport {
            files_processed: inc(r.files_processed),
            sessions_upserted: inc(r.sessions_upserted),
            ..found
        },
    }
}

/// The report after the files with `outcomes`, in order.
pub open spec fn record_files_spec(r: IngestReport, outcomes: Seq<FileOutcome>) -> IngestReport
    decreases outcomes.len(),
{
    if outcomes.len() == 0 {
        r
    } else {
        record_file_spec(record_files_spec(r, outcomes.drop_last()), outcomes.last())
    }
}

/// After any run that found fewer than `u64::MAX` files, every file found
/// was counted once, as processed, unchanged or skipped, and sessions stored
/// equal files processed.
pub proof fn lemma_report_stays_balanced(outcomes: Seq<FileOutcome>)
    requires
        outcomes.len() < u64::MAX,
    ensures
        record_files_spec(IngestReport::zero(), outcomes).balanced(),
        record_files_spec(IngestReport::zero(), outcomes).files_discovered == outcomes.len(),
    decreases outcomes.len(),
{
    if outcomes.len() > 0 {
        lemma_report_stays_balanced(outcomes.drop_last());
    }
}

/// `x + 1`, staying at `u64::MAX`.
pub open spec fn inc(x: u64) -> u64 {
    if x == u64::MAX {
        x
    } else {
        (x + 1) as u64
    }
}

fn increment(x: u64) -> (y: u64)
    ensures
        y == inc(x),
{
    if x == u64::MAX {
        x
    } else {
        x + 1
    }
}

impl IngestReport {
    pub open spec fn zero() -> IngestReport {
        IngestReport {
            files_discovered: 0,
            files_processed: 0,
            files_unchanged: 0,
            files_skipped: 0,
            sessions_upserted: 0,
            valid_metadata_lines: 0,
            invalid_or_oversized_lines: 0,
            analytics_rebuilt: false,
        }
    }

    /// Every file found is counted once, as processed, unchanged or
    /// skipped, and every processed file stored one session.
    pub open spec fn balanced(&self) -> bool {
        &&& self.files_discovered == self.files_processed + self.files_unchanged
            + self.files_skipped
        &&& self.sessions_upserted == self.files_processed
    }

    /// One more session file found, with what became of it.
    pub fn record_file(&mut self, outcome: FileOutcome)
        ensures
            *final(self) == record_file_spec(*old(self), outcome),
            old(self).balanced() && old(self).files_discovered < u64::MAX ==> final(self).balanced(),
    {
        self.files_discovered = increment(self.files_discovered);
        match outcome {
            FileOutcome::Skipped => {
                self.files_skipped = increment(self.files_skipped);
            },
            FileOutcome::Unchanged => {
                self.files_unchanged = increment(self.files_unchanged);
            },
            FileOutcome::Stored => {
                self.files_processed = increment(self.files_processed);
                self.sessions_upserted = increment(self.sessions_upserted);
            },
        }
    }

    /// Whether the run stored sessions, so that the analytics must be rebuilt.
    pub fn needs_rebuild(&self) -> (needed: bool)
        ensures
            needed == (self.sessions_upserted > 0),
    {
        self.sessions_upserted > 0
    }
}

/// Whether a file of `byte_len` bytes is small enough to read.
pub fn file_size_allowed(byte_len: u64) -> (allowed: bool)
    ensures
        allowed == (byte_len <= MAX_SESSION_FILE_BYTES),
{
    byte_len <= MAX_SESSION_FILE_BYTES
}

/// A line read with a bound on its length.
#[derive(Debug)]
pub enum BoundedLine {
    /// The end of the file: no byte was left.
    Eof,
    /// A line, without its trailing line breaks.
    Line(Vec<u8>),
    /// A line longer than the bound, which was read past and dropped.
    Oversized,
}

/// `bytes` without the `\n` and `\r` bytes at its end.
pub open spec fn strip_line_end(bytes: Seq<u8>) -> Seq<u8>
    decreases bytes.len(),
{
    if bytes.len() > 0 && (bytes.last() == 10u8 || bytes.last() == 13u8) {
        strip_line_end(bytes.drop_last())
    } else {
        bytes
    }
}

pub enum BoundedLineView {
    Eof,
    Line(Seq<u8>),
    Oversized,
}

pub open spec fn bounded_view(line: BoundedLine) -> BoundedLineView {
    match line {
        BoundedLine::Eof => BoundedLineView::Eof,
        BoundedLine::Line(bytes) => BoundedLineView::Line(bytes@),
        BoundedLine::Oversized => BoundedLineView::Oversized,
    }
}

/// The line made of the bytes `consumed` (its newline included): nothing
/// at the end of the file, dropped when longer than `limit`, else the
/// bytes without their line breaks.
pub open spec fn bounded_line_of(consumed: Seq<u8>, limit: usize) -> BoundedLineView {
    if consumed.len() == 0 {
        BoundedLineView::Eof
    } else if consumed.len() > limit {
        BoundedLineView::Oversized
    } else {
        BoundedLineView::Line(strip_line_end(consumed))
    }
}

/// Where the first newline of `buffer` is, if any.
pub open spec fn first_newline(buffer: Seq<u8>) -> Option<int> {
    if exists|i: int| 0 <= i < buffer.len() && buffer[i] == 10u8 {
        Some(choose|i: int| 0 <= i < buffer.len() && buffer[i] == 10u8 && forall|j: int| 0 <= j < i ==> buffer[j] != 10u8)
    } else {
        None
    }
}

/// How much of `buffer` belongs to the current line: up to and including its first newline.
pub open spec fn line_part(buffer: Seq<u8>) -> int {
    match first_newline(buffer) {
        Some(i) => i + 1,
        None => buffer.len() as int,
    }
}

/// Collects one line from the chunks a buffered reader hands out, keeping
/// at most its limit in memory.
pub struct LineAccumulator {
    output: Vec<u8>,
    oversized: bool,
    limit: usize,
    consumed: Ghost<Seq<u8>>,
}

impl LineAccumulator {
    /// The bytes of the line taken so far, newline included.
    pub closed spec fn consumed(&self) -> Seq<u8> {
        self.consumed@
    }

    /// The longest line kept, in bytes, its newline included.
    pub closed spec fn limit(&self) -> usize {
        self.limit
    }

    pub closed spec fn wf(&self) -> bool {
        &&& self.oversized == (self.consumed@.len() > self.limit)
        &&& !self.oversized ==> self.output@ == self.consumed@
    }

    /// An accumulator for session log lines (at most `MAX_JSONL_LINE_BYTES`).
    pub fn new() -> (acc: Self)
        ensures
            acc.wf(),
            acc.consumed() == Seq::<u8>::empty(),
            acc.limit() == MAX_JSONL_LINE_BYTES,
    {
        Self::with_limit(MAX_JSONL_LINE_BYTES)
    }

    /// An accumulator for lines of at most `limit` bytes.
    pub fn with_limit(limit: usize) -> (acc: Self)
        ensures
            acc.wf(),
            acc.consumed() == Seq::<u8>::empty(),
            acc.limit() == limit,
    {
        LineAccumulator { output: Vec::new(), oversized: false, limit, consumed: Ghost(Seq::empty()) }
    }

    /// Whether the line taken so far is already longer than the limit.
    pub fn oversized(&self) -> (over: bool)
        requires
            self.wf(),
        ensures
            over == (self.consumed().len() > self.limit()),
    {
        self.oversized
    }

    /// Takes the part of `buffer` that belongs to the line: up to and
    /// including the first newline, or all of it. Returns how many bytes
    /// it took and whether the line ended there.
    pub fn take(&mut self, buffer: &[u8]) -> (result: (usize, bool))
        requires
            old(self).wf(),
        ensures
            final(self).wf(),
            final(self).limit() == old(self).limit(),
            result.0 == line_part(buffer@),
            result.0 <= buffer@.len(),
            result.1 == first_newline(buffer@).is_some(),
            result.1 ==> result.0 >= 1 && buffer@[result.0 - 1] == 10u8,
            !result.1 ==> result.0 == buffer@.len(),
            final(self).consumed() == old(self).consumed() + buffer@.take(result.0 as int),
    {
        let mut k: usize = 0;
        while k < buffer.len() && buffer[k] != 10u8
            invariant
                k <= buffer@.len(),
                forall|j: int| 0 <= j < k ==> buffer@[j] != 10u8,
            decreases buffer@.len() - k,
        {
            k = k + 1;
        }
        let ended: bool = k < buffer.len();
        let taken: usize = if ended {
            k + 1
        } else {
            k
        };
        proof {
            if ended {
                assert(exists|i: int| 0 <= i < buffer@.len() && buffer@[i] == 10u8);
                let c = choose|i: int|
                    0 <= i < buffer@.len() && buffer@[i] == 10u8 && forall|j: int|
                        0 <= j < i ==> buffer@[j] != 10u8;
                assert(buffer@[k as int] == 10u8);
                if c < k {
                    assert(buffer@[c] != 10u8);
                }
                if c > k {
                    assert(buffer@[k as int] != 10u8);
                }
                assert(first_newline(buffer@) == Some(k as int));
            } else {
                assert(!exists|i: int| 0 <= i < buffer@.len() && buffer@[i] == 10u8);
            }
        }
        let ghost before = self.consumed@;
        self.consumed = Ghost(self.consumed@ + buffer@.take(taken as int));
        let fits: bool = !self.oversized && taken <= self.limit && self.output.len()
            <= self.limit - taken;
        let ghost limit = self.limit;
        if fits {
            let mut m: usize = 0;
            while m < taken
                invariant
                    m <= taken <= buffer@.len(),
                    self.output@ == before + buffer@.take(m as int),
                    self.consumed@ == before + buffer@.take(taken as int),
                    !self.oversized,
                    self.limit == limit,
                    before.len() + taken <= limit,
                decreases taken - m,
            {
                self.output.push(buffer[m]);
                m = m + 1;
                assert(self.output@ =~= before + buffer@.take(m as int));
            }
        } else {
            self.oversized = true;
            self.output.clear();
        }
        (taken, ended)
    }

    /// The line collected.
    pub fn finish(self) -> (line: BoundedLine)
        requires
            self.wf(),
        ensures
            bounded_view(line) == bounded_line_of(self.consumed(), self.limit()),
    {
        if self.oversized {
            return BoundedLine::Oversized;
        }
        if self.output.len() == 0 {
            return BoundedLine::Eof;
        }
        let mut output = self.output;
        while output.len() > 0 && (output[output.len() - 1] == 10u8 || output[output.len() - 1]
            == 13u8)
            invariant
                strip_line_end(output@) == strip_line_end(self.consumed@),
            decreases output@.len(),
        {
            let ghost before = output@;
            output.pop();
            assert(output@ =~= before.drop_last());
        }
        BoundedLine::Line(output)
    }
}

/// Whether every byte of `line` is ASCII white space (`u8::is_ascii_whitespace`).
pub open spec fn is_blank(line: Seq<u8>) -> bool {
    forall|i: int|
        0 <= i < line.len() ==> (#[trigger] line[i] == 32u8 || line[i] == 9u8 || line[i] == 10u8
            || line[i] == 12u8 || line[i] == 13u8)
}

pub fn blank_line(line: &[u8]) -> (blank: bool)
    ensures
        blank == is_blank(line@),
{
    let mut k: usize = 0;
    while k < line.len()
        invariant
            k <= line@.len(),
            forall|i: int|
                0 <= i < k ==> (#[trigger] line@[i] == 32u8 || line@[i] == 9u8 || line@[i] == 10u8
                    || line@[i] == 12u8 || line@[i] == 13u8),
        decreases line@.len() - k,
    {
        let b: u8 = line[k];
        if !(b == 32u8 || b == 9u8 || b == 10u8 || b == 12u8 || b == 13u8) {
            return false;
        }
        k = k + 1;
    }
    true
}

/// One session file being read: its parser and the line counts.
pub struct SessionFile {
    parser: SafeSessionParser,
    valid_lines: u64,
    invalid_lines: u64,
}

impl SessionFile {
    /// The lines the parser accepted.
    pub closed spec fn valid(&self) -> u64 {
        self.valid_lines
    }

    /// The lines that were oversized or refused by the parser.
    pub closed spec fn invalid(&self) -> u64 {
        self.invalid_lines
    }

    pub fn valid_lines(&self) -> (count: u64)
        ensures
            count == self.valid(),
    {
        self.valid_lines
    }

    pub fn invalid_lines(&self) -> (count: u64)
        ensures
            count == self.invalid(),
    {
        self.invalid_lines
    }

    pub closed spec fn parser_view(&self) -> crate::session::ParserView {
        self.parser@
    }

    pub closed spec fn wf(&self) -> bool {
        self.parser.wf()
    }

    /// A file whose session is named by `source_hash` until its log names it.
    pub fn new(source_hash: String, windows_paths: bool) -> (file: Self)
        ensures
            file.wf(),
            file.parser_view() == crate::session::initial_view(source_hash@, windows_paths),
            file.valid() == 0,
            file.invalid() == 0,
    {
        SessionFile {
            parser: SafeSessionParser::with_path_style(source_hash, windows_paths),
            valid_lines: 0,
            invalid_lines: 0,
        }
    }

    /// A line of the file: an oversized line counts as invalid, a blank one
    /// is passed over, any other goes to the parser and counts as valid
    /// exactly when the parser accepts it.
    pub fn read(&mut self, line: BoundedLine)
        requires
            old(self).wf(),
        ensures
            final(self).wf(),
            match bounded_view(line) {
                BoundedLineView::Eof => final(self).parser_view() == old(self).parser_view()
                    && final(self).valid() == old(self).valid() && final(self).invalid() == old(
                    self,
                ).invalid(),
                BoundedLineView::Oversized => final(self).parser_view() == old(self).parser_view()
                    && final(self).valid() == old(self).valid() && final(self).invalid() == inc(
                    old(self).invalid(),
                ),
                BoundedLineView::Line(bytes) => if is_blank(bytes) {
                    final(self).parser_view() == old(self).parser_view() && final(self).valid()
                        == old(self).valid() && final(self).invalid() == old(self).invalid()
                } else {
                    final(self).parser_view() == crate::session::ingest_spec(
                        old(self).parser_view(),
                        bytes,
                    ) && if line_record(bytes).is_some() {
                        final(self).valid() == inc(old(self).valid()) && final(self).invalid()
                            == old(self).invalid()
                    } else {
                        final(self).valid() == old(self).valid() && final(self).invalid() == inc(
                            old(self).invalid(),
                        )
                    }
                },
            },
    {
        match line {
            BoundedLine::Eof => {},
            BoundedLine::Oversized => {
                self.invalid_lines = increment(self.invalid_lines);
            },
            BoundedLine::Line(bytes) => {
                if blank_line(bytes.as_slice()) {
                    return;
                }
                if self.parser.ingest_line(bytes.as_slice()) {
                    self.valid_lines = increment(self.valid_lines);
                } else {
                    self.invalid_lines = increment(self.invalid_lines);
                }
            },
        }
    }

    /// The session of the file, when at least one of its lines carried an
    /// instant; a file without one is left aside.
    pub fn finish(self) -> (session: Option<SessionAggregate>)
        requires
            self.wf(),
        ensures
            match session {
                Some(s) => self.parser_view().session.started_at.is_some()
                    && crate::session::session_view(s) == self.parser_view().session
                    && crate::order::strictly_sorted(crate::session::skill_names(s.skills@))
                    && crate::session::skills_map(s.skills@) == self.parser_view().skills,
                None => self.parser_view().session.started_at.is_none(),
            },
    {
        let session = self.parser.finish();
        if session.started_at.is_none() {
            None
        } else {
            Some(session)
        }
    }
}

/// The text whose digest names a session file: its path, lowercased on Windows.
pub open spec fn path_hash_text(path: Seq<char>, windows: bool) -> Seq<char> {
    if windows {
        crate::text::unicode_lowercase(path)
    } else {
        path
    }
}

/// The digest that names a session file, from the text of its path.
pub fn hash_path_text(path: &str, windows: bool) -> (hash: String)
    ensures
        hash@ == crate::digest::sha256_hex(path_hash_text(path@, windows)),
{
    if windows {
        let lower: String = crate::text::to_lowercase(path);
        crate::digest::digest_hex(lower.as_str())
    } else {
        crate::digest::digest_hex(path)
    }
}

/// Where session logs are looked for.
pub struct SessionIngestor {
    roots: Vec<std::path::PathBuf>,
}

impl SessionIngestor {
    pub closed spec fn root_paths(&self) -> Seq<std::path::PathBuf> {
        self.roots@
    }

    /// An ingestor for the logs under one directory.
    pub fn from_root(root: std::path::PathBuf) -> (ingestor: Self)
        ensures
            ingestor.root_paths() == seq![root],
    {
        let mut roots: Vec<std::path::PathBuf> = Vec::new();
        roots.push(root);
        assert(roots@ =~= seq![root]);
        SessionIngestor { roots }
    }

    /// An ingestor for the logs under the given directories.
    pub fn from_roots(roots: Vec<std::path::PathBuf>) -> (ingestor: Self)
        ensures
            ingestor.root_paths() == roots@,
    {
        SessionIngestor { roots }
    }

    /// The directories searched, in order.
    pub fn roots(&self) -> (roots: &Vec<std::path::PathBuf>)
        ensures
            roots@ == self.root_paths(),
    {
        &self.roots
    }
}

} // verus!
