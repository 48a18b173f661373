//! On-demand installation of a browser archive chosen by the operator.
//!
//! The archive (`.tar.gz` or `.zip`, told apart by its first bytes) is
//! downloaded, hashed, checked against the expected SHA-256 where one is
//! given, unpacked into a staging directory and moved to its place.

use vstd::prelude::*;
use vstd::utf8::encode_utf8;

use crate::hash::digest;
use crate::hash::sha256;
use crate::hash::sha256_hex;
use crate::hash::ContentHasher;
use crate::number::decimal;
use crate::number::hex;
use crate::number::lemma_hex_digits;
use crate::number::to_decimal;
use crate::text::chars_of;
use crate::text::concat;
use crate::text::hex_digit;
use crate::text::push_repeated;
use crate::text::repeated;
use crate::text::same_text;
use crate::text::text_of;
use crate::text::text_of_ref;

verus! {

/// Volume where archives are installed, one directory per archive URL.
pub const INSTALL_ROOT: &'static str = "/opt/browsers";

/// Milliseconds that a download may take.
pub const DOWNLOAD_TIMEOUT: u64 = 600_000;

/// Permission bits of the browser executable.
pub const CHROME_MODE: u32 = 0o755;

// ---------------------------------------------------------------------------
// Errors
// ---------------------------------------------------------------------------

/// Why an archive could not be installed.
#[derive(Debug)]
pub enum InstallError {
    Download(String),
    Checksum { expected: String, actual: String },
    Archive(String),
    Io(String),
}

/// An `InstallError` with its texts as characters.
pub enum InstallErrorView {
    Download(Seq<char>),
    Checksum { expected: Seq<char>, actual: Seq<char> },
    Archive(Seq<char>),
    Io(Seq<char>),
}

impl View for InstallError {
    type V = InstallErrorView;

    open spec fn view(&self) -> InstallErrorView {
        match *self {
            InstallError::Download(s) => InstallErrorView::Download(s@),
            InstallError::Checksum { expected, actual } => InstallErrorView::Checksum {
                expected: expected@,
                actual: actual@,
            },
            InstallError::Archive(s) => InstallErrorView::Archive(s@),
            InstallError::Io(s) => InstallErrorView::Io(s@),
        }
    }
}

impl InstallErrorView {
    /// The error in words.
    pub open spec fn text(self) -> Seq<char> {
        match self {
            InstallErrorView::Download(s) => "download failed: "@ + s,
            InstallErrorView::Checksum { expected, actual } => {
                "archive checksum mismatch: expected "@ + expected + ", got "@ + actual
            },
            InstallErrorView::Archive(s) => "archive extraction failed: "@ + s,
            InstallErrorView::Io(s) => "io error: "@ + s,
        }
    }
}

impl InstallError {
    /// The error in words.
    pub fn message(&self) -> (r: String)
        ensures
            r@ == self@.text(),
    {
        match self {
            InstallError::Download(s) => concat("download failed: ", s.as_str()),
            InstallError::Checksum { expected, actual } => {
                let mut r = concat("archive checksum mismatch: expected ", expected.as_str());
                r.append(", got ");
                r.append(actual.as_str());
                r
            },
            InstallError::Archive(s) => concat("archive extraction failed: ", s.as_str()),
            InstallError::Io(s) => concat("io error: ", s.as_str()),
        }
    }
}

// ---------------------------------------------------------------------------
// Paths
// ---------------------------------------------------------------------------

/// `name` inside the directory `base`.
pub open spec fn inside(base: Seq<char>, name: Seq<char>) -> Seq<char> {
    if base.len() == 0 || base.last() == '/' {
        base + name
    } else {
        base + "/"@ + name
    }
}

/// Install directory name: a prefix of the SHA-256 of the URL.
pub open spec fn key_of(url: Seq<char>) -> Seq<char> {
    sha256_hex(encode_utf8(url)).take(16)
}

/// The executable inside the install directory `key`.
pub open spec fn executable(root: Seq<char>, key: Seq<char>) -> Seq<char> {
    inside(inside(root, key), "chrome"@)
}

/// Where the executable of an archive is installed.
pub open spec fn binary_of(root: Seq<char>, url: Seq<char>) -> Seq<char> {
    executable(root, key_of(url))
}

/// `name`, a relative path, inside the directory `base`.
fn join_path(base: &str, name: &str) -> (r: String)
    ensures
        r@ == inside(base@, name@),
{
    let cs = chars_of(base);
    let mut r = base.to_owned();
    if cs.len() > 0 && cs[cs.len() - 1] != '/' {
        r.append("/");
    }
    r.append(name);
    r
}

/// Install directory name: a prefix of the SHA-256 of the URL, long enough to
/// be unique in practice and short enough to read in logs. Changing the URL
/// installs the new archive next to the previous one.
pub fn install_key(url: &str) -> (r: String)
    ensures
        r@ == key_of(url@),
        r@.len() == 16,
        forall|i: int| 0 <= i < 16 ==> hex_digit(#[trigger] r@[i]),
{
    let hash = digest(url.as_bytes());
    proof {
        let bytes = sha256(encode_utf8(url@));
        assert forall|i: int| 0 <= i < 16 implies hex_digit(#[trigger] key_of(url@)[i]) by {
            lemma_hex_digits(bytes, i);
        }
    }
    hash.as_str().substring_char(0, 16).to_owned()
}

/// Where the `chrome` executable of the archive is installed under `root`.
pub fn binary_path(root: &str, url: &str) -> (r: String)
    ensures
        r@ == binary_of(root@, url@),
{
    let key = install_key(url);
    let dir = join_path(root, key.as_str());
    join_path(dir.as_str(), "chrome")
}

/// Archives with different keys are installed next to each other: under one
/// root, no two install directory names lead to the same executable.
pub proof fn law_one_executable_per_key(root: Seq<char>, key: Seq<char>, other: Seq<char>)
    requires
        key.len() == 16,
        other.len() == 16,
        forall|i: int| 0 <= i < 16 ==> hex_digit(#[trigger] key[i]),
        forall|i: int| 0 <= i < 16 ==> hex_digit(#[trigger] other[i]),
    ensures
        executable(root, key) == executable(root, other) <==> key == other,
{
    reveal_strlit("/");
    let head = if root.len() == 0 || root.last() == '/' {
        root
    } else {
        root + "/"@
    };
    assert(inside(root, key) =~= head + key);
    assert(inside(root, other) =~= head + other);
    assert(hex_digit(key[15]) && hex_digit(other[15]));
    assert((head + key).last() == key[15]);
    assert((head + other).last() == other[15]);
    let n = head.len() as int;
    assert(executable(root, key).subrange(n, n + 16) =~= key);
    assert(executable(root, other).subrange(n, n + 16) =~= other);
}

// ---------------------------------------------------------------------------
// Download
// ---------------------------------------------------------------------------

/// How far a download has come. `total` is 0 when the size is not known.
pub struct Progress {
    pub total: u64,
    pub downloaded: u64,
    /// Percentage from which on the next line is due.
    pub next_report: u64,
}

/// Percentage of `total` that `downloaded` makes up.
pub open spec fn percent(downloaded: nat, total: nat) -> nat {
    downloaded * 100 / total
}

/// The first multiple of ten above a percentage.
pub open spec fn next_ten(percent: nat) -> nat {
    (percent / 10 + 1) * 10
}

/// Cells of the progress bar that are filled, of 20.
pub open spec fn filled(percent: nat) -> nat {
    if percent / 5 < 20 {
        percent / 5
    } else {
        20
    }
}

/// `s` with spaces in front, to a width of at least 3.
pub open spec fn padded(s: Seq<char>) -> Seq<char> {
    if s.len() < 3 {
        repeated(' ', (3 - s.len()) as nat) + s
    } else {
        s
    }
}

/// The progress line: a bar, the percentage, and the megabytes.
pub open spec fn progress_line(downloaded: nat, total: nat) -> Seq<char> {
    let p = percent(downloaded, total);
    "["@ + repeated('#', filled(p)) + repeated('-', (20 - filled(p)) as nat) + "] "@ + padded(
        decimal(p),
    ) + "% "@ + decimal(downloaded / 1048576) + "/"@ + decimal(total / 1048576) + " MB"@
}

/// A line is due once the percentage reaches the mark.
pub open spec fn line_due(downloaded: nat, total: nat, mark: nat) -> bool {
    total > 0 && percent(downloaded, total) >= mark
}

impl Progress {
    /// Nothing downloaded yet; the first line is due at 10%.
    pub fn new(total: u64) -> (r: Progress)
        ensures
            r.total == total,
            r.downloaded == 0,
            r.next_report == 10,
    {
        Progress { total, downloaded: 0, next_report: 10 }
    }

    /// Counts a chunk and returns the progress line that is due with it, if
    /// any. One line is due per 10% step.
    pub fn record(&mut self, chunk_len: u64) -> (r: Option<String>)
        requires
            (old(self).downloaded + chunk_len) * 100 <= u64::MAX,
        ensures
            final(self).total == old(self).total,
            final(self).downloaded == old(self).downloaded + chunk_len,
            ({
                let d = final(self).downloaded as nat;
                let t = final(self).total as nat;
                if line_due(d, t, old(self).next_report as nat) {
                    &&& text_of(r) == Some(progress_line(d, t))
                    &&& final(self).next_report == next_ten(percent(d, t))
                } else {
                    &&& r is None
                    &&& final(self).next_report == old(self).next_report
                }
            }),
    {
        self.downloaded = self.downloaded + chunk_len;
        if self.total == 0 {
            return None;
        }
        let p: u64 = self.downloaded * 100 / self.total;
        proof {
            lemma_percent_bound(self.downloaded as nat, self.total as nat);
        }
        if p < self.next_report {
            return None;
        }
        self.next_report = p - p % 10 + 10;
        let cells: usize = if p / 5 < 20 {
            (p / 5) as usize
        } else {
            20
        };
        let mut line = String::new();
        line.append("[");
        push_repeated(&mut line, '#', cells);
        push_repeated(&mut line, '-', 20 - cells);
        line.append("] ");
        let shown = to_decimal(p);
        let digits: usize = shown.as_str().unicode_len();
        if digits < 3 {
            push_repeated(&mut line, ' ', 3 - digits);
        }
        line.append(shown.as_str());
        line.append("% ");
        line.append(to_decimal(self.downloaded / 1048576).as_str());
        line.append("/");
        line.append(to_decimal(self.total / 1048576).as_str());
        line.append(" MB");
        assert(line@ =~= progress_line(self.downloaded as nat, self.total as nat));
        Some(line)
    }
}

proof fn lemma_percent_bound(downloaded: nat, total: nat)
    requires
        total > 0,
        downloaded * 100 <= u64::MAX,
    ensures
        percent(downloaded, total) <= downloaded * 100,
        percent(downloaded, total) <= u64::MAX - 15,
{
    let x = downloaded * 100;
    assert(x <= u64::MAX - 15);
    assert(x / total <= x) by (nonlinear_arith)
        requires
            total > 0,
    ;
}

/// No two lines fall into the same 10% step: after a line at one percentage,
/// the next is due only at a percentage of a higher ten.
pub proof fn law_one_line_per_step(first: nat, downloaded: nat, total: nat)
    requires
        line_due(downloaded, total, next_ten(first)),
    ensures
        percent(downloaded, total) / 10 > first / 10,
{
}

/// A download under way: its contents so far are hashed and counted.
pub struct Download {
    pub hasher: ContentHasher,
    pub progress: Progress,
}

impl Download {
    /// Starts a download of `total` bytes, 0 when that is not known.
    pub fn new(total: u64) -> (r: Download)
        ensures
            r.hasher@ == Seq::<u8>::empty(),
            r.progress.total == total,
            r.progress.downloaded == 0,
            r.progress.next_report == 10,
    {
        Download { hasher: ContentHasher::new(), progress: Progress::new(total) }
    }

    /// Takes in a chunk and returns the progress line that is due with it.
    pub fn receive(&mut self, chunk: &[u8]) -> (r: Option<String>)
        requires
            (old(self).progress.downloaded + chunk@.len()) * 100 <= u64::MAX,
        ensures
            final(self).hasher@ == old(self).hasher@ + chunk@,
            final(self).progress.total == old(self).progress.total,
            final(self).progress.downloaded == old(self).progress.downloaded + chunk@.len(),
            ({
                let d = final(self).progress.downloaded as nat;
                let t = final(self).progress.total as nat;
                if line_due(d, t, old(self).progress.next_report as nat) {
                    &&& text_of(r) == Some(progress_line(d, t))
                    &&& final(self).progress.next_report == next_ten(percent(d, t))
                } else {
                    &&& r is None
                    &&& final(self).progress.next_report == old(self).progress.next_report
                }
            }),
    {
        self.hasher.update(chunk);
        self.progress.record(chunk.len() as u64)
    }

    /// The SHA-256 of what was downloaded, in hexadecimal notation.
    pub fn finish(self) -> (r: String)
        ensures
            r@ == sha256_hex(self.hasher@),
            r@.len() == 64,
    {
        self.hasher.finish()
    }
}

/// Accepts an answer with a success status (200 to 299) and fails the
/// download for any other; `shown` is the status as it is displayed.
pub fn check_status(code: u16, shown: &str) -> (r: Result<(), InstallError>)
    ensures
        r is Ok <==> 200 <= code < 300,
        r matches Err(e) ==> e@ == InstallErrorView::Download("HTTP "@ + shown@),
{
    if 200 <= code && code < 300 {
        Ok(())
    } else {
        Err(InstallError::Download(concat("HTTP ", shown)))
    }
}

// ---------------------------------------------------------------------------
// Unpacking
// ---------------------------------------------------------------------------

/// The archive formats that can be unpacked.
#[derive(Clone, Copy, Debug, PartialEq, Eq, Structural)]
pub enum ArchiveFormat {
    TarGz,
    Zip,
}

/// The format that the first bytes of a file (at most four) tell.
pub open spec fn format_of(magic: Seq<u8>) -> Option<ArchiveFormat> {
    if magic.len() >= 2 && magic[0] == 0x1f && magic[1] == 0x8b {
        Some(ArchiveFormat::TarGz)
    } else if magic == seq![0x50u8, 0x4b, 0x03, 0x04] || magic == seq![0x50u8, 0x4b, 0x05, 0x06] {
        Some(ArchiveFormat::Zip)
    } else {
        None
    }
}

/// Tells the archive format from the first bytes of the file (four, or fewer
/// in a shorter file) rather than from the URL, since download links do not
/// always end with the file extension.
pub fn detect_format(magic: &[u8]) -> (r: Result<ArchiveFormat, InstallError>)
    ensures
        match r {
            Ok(f) => format_of(magic@) == Some(f),
            Err(e) => format_of(magic@) is None && e@ == InstallErrorView::Archive(
                "unrecognized archive format, expected a .tar.gz or .zip file"@,
            ),
        },
{
    let n: usize = magic.len();
    if n >= 2 && magic[0] == 0x1f && magic[1] == 0x8b {
        return Ok(ArchiveFormat::TarGz);
    }
    if n == 4 && magic[0] == 0x50 && magic[1] == 0x4b && ((magic[2] == 0x03 && magic[3] == 0x04)
        || (magic[2] == 0x05 && magic[3] == 0x06)) {
        assert(magic@ =~= seq![0x50u8, 0x4b, 0x03, 0x04] || magic@ =~= seq![
            0x50u8,
            0x4b,
            0x05,
            0x06,
        ]);
        return Ok(ArchiveFormat::Zip);
    }
    Err(
        InstallError::Archive(
            "unrecognized archive format, expected a .tar.gz or .zip file".to_owned(),
        ),
    )
}

/// An entry at the top of the staging directory.
pub struct StagedEntry {
    pub path: String,
    /// Its permission bits.
    pub mode: u32,
    pub is_dir: bool,
    /// It is a directory with a `chrome` file in it.
    pub has_chrome: bool,
}

/// The directory that holds `chrome` after unpacking, with its permission bits:
/// the staging directory itself, or else its single entry.
pub open spec fn chrome_dir(
    staging_dir: (Seq<char>, u32),
    at_root: bool,
    entries: Seq<StagedEntry>,
) -> Option<(Seq<char>, u32)> {
    if at_root {
        Some(staging_dir)
    } else if entries.len() == 1 && entries[0].is_dir && entries[0].has_chrome {
        Some((entries[0].path@, entries[0].mode))
    } else {
        None
    }
}

/// The directory that holds `chrome`, and what becomes of it.
pub struct ChromeDir {
    pub path: String,
    /// The permission bits to give the directory.
    pub mode: u32,
}

/// Picks the directory that holds `chrome` (the archive may wrap everything
/// in one top-level folder) and makes it, like all directories below it,
/// accessible to all. `staging_mode` is what the staging directory has for
/// permission bits.
pub fn extract_archive(
    staging_dir: &str,
    staging_mode: u32,
    at_root: bool,
    entries: &Vec<StagedEntry>,
) -> (r: Result<ChromeDir, InstallError>)
    ensures
        match r {
            Ok(dir) => chrome_dir((staging_dir@, staging_mode), at_root, entries@) matches Some(
                (path, mode),
            ) && dir.path@ == path && dir.mode == readable_mode(mode, true),
            Err(e) => chrome_dir((staging_dir@, staging_mode), at_root, entries@) is None && e@
                == InstallErrorView::Archive(
                "no chrome executable found at the archive root or in its single top-level directory"@,
            ),
        },
{
    let (path, mode) = if at_root {
        (staging_dir.to_owned(), staging_mode)
    } else if entries.len() == 1 && entries[0].is_dir && entries[0].has_chrome {
        (entries[0].path.clone(), entries[0].mode)
    } else {
        return Err(
            InstallError::Archive(
                "no chrome executable found at the archive root or in its single top-level directory".to_owned(),
            ),
        );
    };
    Ok(ChromeDir { path, mode: make_world_readable(mode, true) })
}

/// Permission bits for an unpacked entry: readable by all, and executable by
/// all for directories and for what anyone may execute.
pub open spec fn readable_mode(mode: u32, is_dir: bool) -> u32 {
    if is_dir || mode & 0o111 != 0 {
        mode | 0o444 | 0o111
    } else {
        mode | 0o444
    }
}

/// The permission bits to give an unpacked entry with permission bits `mode`.
pub fn make_world_readable(mode: u32, is_dir: bool) -> (r: u32)
    ensures
        r == readable_mode(mode, is_dir),
{
    let readable: u32 = mode | 0o444;
    assert((mode | 0o444) & 0o111 == mode & 0o111) by (bit_vector);
    if is_dir || readable & 0o111 != 0 {
        readable | 0o111
    } else {
        readable
    }
}

/// No permission is taken away, all may read, all may enter directories and
/// execute what anyone may execute, nothing else becomes executable, and doing
/// it twice changes nothing more.
pub proof fn law_readable_mode(mode: u32, is_dir: bool)
    ensures
        readable_mode(mode, is_dir) & mode == mode,
        readable_mode(mode, is_dir) & 0o444 == 0o444,
        is_dir || mode & 0o111 != 0 ==> readable_mode(mode, is_dir) & 0o111 == 0o111,
        mode & 0o111 == 0 && !is_dir ==> readable_mode(mode, is_dir) & 0o111 == 0,
        readable_mode(readable_mode(mode, is_dir), is_dir) == readable_mode(mode, is_dir),
{
    assert((mode | 0o444) & mode == mode) by (bit_vector);
    assert((mode | 0o444 | 0o111) & mode == mode) by (bit_vector);
    assert((mode | 0o444) & 0o444 == 0o444) by (bit_vector);
    assert((mode | 0o444 | 0o111) & 0o444 == 0o444) by (bit_vector);
    assert((mode | 0o444 | 0o111) & 0o111 == 0o111) by (bit_vector);
    assert((mode | 0o444) & 0o111 == mode & 0o111) by (bit_vector);
    assert(((mode | 0o444) | 0o444) == mode | 0o444) by (bit_vector);
    assert(((mode | 0o444 | 0o111) | 0o444 | 0o111) == mode | 0o444 | 0o111) by (bit_vector);
}

/// All may enter the directory that `chrome` is found in, whatever permission
/// bits it was unpacked with, and run `chrome` itself.
pub proof fn law_chrome_is_accessible(mode: u32)
    ensures
        readable_mode(mode, true) & 0o555 == 0o555,
        CHROME_MODE & 0o555 == 0o555,
{
    assert((mode | 0o444 | 0o111) & 0o555 == 0o555) by (bit_vector);
    assert(0o755u32 & 0o555 == 0o555) by (bit_vector);
}

// ---------------------------------------------------------------------------
// Installation
// ---------------------------------------------------------------------------

/// What to do next to install an archive.
pub enum InstallStep {
    /// Find out whether the executable is a file already.
    Probe,
    /// Create the install root.
    CreateRoot,
    /// Prepare the HTTP client.
    BuildClient,
    /// Download the archive and hash it.
    Download,
    /// Unpack the archive into the staging directory.
    Extract,
    /// Move this directory to the install directory.
    Publish(String),
    /// Remove the downloaded file and the staging directory; the installation
    /// then ends with the outcome given.
    CleanUp(Result<(), InstallError>),
    /// Nothing is left to do.
    Ended(Result<(), InstallError>),
}

/// What came of a step.
pub enum InstallEvent {
    /// Whether the executable is a file (of `Probe`).
    Present(bool),
    /// The step succeeded (of `CreateRoot`, `BuildClient`, `Publish`, `CleanUp`).
    Completed,
    /// The SHA-256 of the downloaded file (of `Download`).
    Downloaded(String),
    /// The directory with the executable (of `Extract`).
    Extracted(String),
    /// The directory could not be moved, and whether the executable is a file
    /// nonetheless (of `Publish`).
    NotMoved { present: bool, error: String },
    /// The step failed.
    Failed(InstallError),
}

/// An outcome with its error as a view.
pub open spec fn outcome_view(r: Result<(), InstallError>) -> Result<(), InstallErrorView> {
    match r {
        Ok(_) => Ok(()),
        Err(e) => Err(e@),
    }
}

/// An `InstallStep` with its texts as characters.
pub enum InstallStepView {
    Probe,
    CreateRoot,
    BuildClient,
    Download,
    Extract,
    Publish(Seq<char>),
    CleanUp(Result<(), InstallErrorView>),
    Ended(Result<(), InstallErrorView>),
}

/// An `InstallEvent` with its texts as characters.
pub enum InstallEventView {
    Present(bool),
    Completed,
    Downloaded(Seq<char>),
    Extracted(Seq<char>),
    NotMoved { present: bool, error: Seq<char> },
    Failed(InstallErrorView),
}

impl View for InstallStep {
    type V = InstallStepView;

    open spec fn view(&self) -> InstallStepView {
        match *self {
            InstallStep::Probe => InstallStepView::Probe,
            InstallStep::CreateRoot => InstallStepView::CreateRoot,
            InstallStep::BuildClient => InstallStepView::BuildClient,
            InstallStep::Download => InstallStepView::Download,
            InstallStep::Extract => InstallStepView::Extract,
            InstallStep::Publish(dir) => InstallStepView::Publish(dir@),
            InstallStep::CleanUp(r) => InstallStepView::CleanUp(outcome_view(r)),
            InstallStep::Ended(r) => InstallStepView::Ended(outcome_view(r)),
        }
    }
}

impl View for InstallEvent {
    type V = InstallEventView;

    open spec fn view(&self) -> InstallEventView {
        match *self {
            InstallEvent::Present(p) => InstallEventView::Present(p),
            InstallEvent::Completed => InstallEventView::Completed,
            InstallEvent::Downloaded(h) => InstallEventView::Downloaded(h@),
            InstallEvent::Extracted(d) => InstallEventView::Extracted(d@),
            InstallEvent::NotMoved { present, error } => InstallEventView::NotMoved {
                present,
                error: error@,
            },
            InstallEvent::Failed(e) => InstallEventView::Failed(e@),
        }
    }
}

/// The hash of a download is acceptable.
pub open spec fn hash_accepted(expected: Option<Seq<char>>, actual: Seq<char>) -> bool {
    expected matches Some(e) ==> e == actual
}

/// The step that follows. A download whose hash is not the expected one ends
/// the installation with a checksum error. When the directory cannot be moved
/// but the executable is there, another replica has installed it, and the
/// installation succeeds. What does not belong to the step changes nothing.
pub open spec fn install_next(
    step: InstallStepView,
    event: InstallEventView,
    expected: Option<Seq<char>>,
) -> InstallStepView {
    match (step, event) {
        (InstallStepView::Probe, InstallEventView::Present(true)) => InstallStepView::Ended(
            Ok(()),
        ),
        (InstallStepView::Probe, InstallEventView::Present(false)) => InstallStepView::CreateRoot,
        (InstallStepView::CreateRoot, InstallEventView::Completed) => InstallStepView::BuildClient,
        (InstallStepView::CreateRoot, InstallEventView::Failed(e)) => InstallStepView::Ended(
            Err(e),
        ),
        (InstallStepView::BuildClient, InstallEventView::Completed) => InstallStepView::Download,
        (InstallStepView::BuildClient, InstallEventView::Failed(e)) => InstallStepView::Ended(
            Err(e),
        ),
        (InstallStepView::Download, InstallEventView::Downloaded(actual)) => if hash_accepted(
            expected,
            actual,
        ) {
            InstallStepView::Extract
        } else {
            InstallStepView::CleanUp(
                Err(InstallErrorView::Checksum { expected: expected->0, actual }),
            )
        },
        (InstallStepView::Extract, InstallEventView::Extracted(dir)) => InstallStepView::Publish(
            dir,
        ),
        (InstallStepView::Publish(_), InstallEventView::Completed) => InstallStepView::CleanUp(
            Ok(()),
        ),
        (
            InstallStepView::Publish(_),
            InstallEventView::NotMoved { present, error },
        ) => InstallStepView::CleanUp(
            if present {
                Ok(())
            } else {
                Err(InstallErrorView::Io(error))
            },
        ),
        (InstallStepView::Download, InstallEventView::Failed(e)) => InstallStepView::CleanUp(
            Err(e),
        ),
        (InstallStepView::Extract, InstallEventView::Failed(e)) => InstallStepView::CleanUp(
            Err(e),
        ),
        (InstallStepView::Publish(_), InstallEventView::Failed(e)) => InstallStepView::CleanUp(
            Err(e),
        ),
        (InstallStepView::CleanUp(r), InstallEventView::Completed) => InstallStepView::Ended(r),
        _ => step,
    }
}

/// The installation of one archive.
pub struct Installation {
    pub url: String,
    pub expected_sha256: Option<String>,
    /// Where the executable will be.
    pub binary: String,
    /// The directory that the archive is installed as.
    pub install_dir: String,
    /// Where the archive is downloaded to.
    pub archive_path: String,
    /// Where the archive is unpacked.
    pub staging_dir: String,
    pub step: InstallStep,
}

/// What the temporaries of a process are named after.
pub open spec fn temporary_tag(url: Seq<char>, process_id: u32) -> Seq<char> {
    key_of(url) + "-"@ + decimal(process_id as nat)
}

/// Starts the installation of the archive at `url` under `root`, by the
/// process `process_id`. `expected_sha256`, when given, must match the
/// downloaded file.
pub fn ensure_installed(
    root: &str,
    url: &str,
    expected_sha256: Option<&str>,
    process_id: u32,
) -> (r: Installation)
    ensures
        r.url@ == url@,
        text_of(r.expected_sha256) == text_of_ref(expected_sha256),
        r.binary@ == binary_of(root@, url@),
        r.install_dir@ == inside(root@, key_of(url@)),
        r.archive_path@ == inside(
            root@,
            ".download-"@ + temporary_tag(url@, process_id) + ".archive"@,
        ),
        r.staging_dir@ == inside(root@, ".staging-"@ + temporary_tag(url@, process_id)),
        r.step@ == InstallStepView::Probe,
{
    let key = install_key(url);
    let mut tag = concat(key.as_str(), "-");
    tag.append(to_decimal(process_id as u64).as_str());
    let mut archive_name = concat(".download-", tag.as_str());
    archive_name.append(".archive");
    let staging_name = concat(".staging-", tag.as_str());
    Installation {
        url: url.to_owned(),
        expected_sha256: match expected_sha256 {
            Some(s) => Some(s.to_owned()),
            None => None,
        },
        binary: binary_path(root, url),
        install_dir: join_path(root, key.as_str()),
        archive_path: join_path(root, archive_name.as_str()),
        staging_dir: join_path(root, staging_name.as_str()),
        step: InstallStep::Probe,
    }
}

/// Compares the hash of a download with the expected one, where there is one.
pub fn verify_hash(expected: &Option<String>, actual: String) -> (r: Result<(), InstallError>)
    ensures
        r is Ok <==> hash_accepted(text_of(*expected), actual@),
        r matches Err(e) ==> *expected matches Some(x) && e@ == (InstallErrorView::Checksum {
            expected: x@,
            actual: actual@,
        }),
{
    match expected {
        Some(e) => {
            if same_text(e.as_str(), actual.as_str()) {
                Ok(())
            } else {
                Err(InstallError::Checksum { expected: e.clone(), actual })
            }
        },
        None => Ok(()),
    }
}

impl Installation {
    /// Takes in what came of the current step and moves on to the next one.
    pub fn install(self, event: InstallEvent) -> (r: Installation)
        ensures
            r.step@ == install_next(self.step@, event@, text_of(self.expected_sha256)),
            r.url == self.url,
            r.expected_sha256 == self.expected_sha256,
            r.binary == self.binary,
            r.install_dir == self.install_dir,
            r.archive_path == self.archive_path,
            r.staging_dir == self.staging_dir,
    {
        let step = match (self.step, event) {
            (InstallStep::Probe, InstallEvent::Present(true)) => InstallStep::Ended(Ok(())),
            (InstallStep::Probe, InstallEvent::Present(false)) => InstallStep::CreateRoot,
            (InstallStep::CreateRoot, InstallEvent::Completed) => InstallStep::BuildClient,
            (InstallStep::CreateRoot, InstallEvent::Failed(e)) => InstallStep::Ended(Err(e)),
            (InstallStep::BuildClient, InstallEvent::Completed) => InstallStep::Download,
            (InstallStep::BuildClient, InstallEvent::Failed(e)) => InstallStep::Ended(Err(e)),
            (InstallStep::Download, InstallEvent::Downloaded(actual)) => {
                match verify_hash(&self.expected_sha256, actual) {
                    Ok(_) => InstallStep::Extract,
                    Err(e) => InstallStep::CleanUp(Err(e)),
                }
            },
            (InstallStep::Download, InstallEvent::Failed(e)) => InstallStep::CleanUp(Err(e)),
            (InstallStep::Extract, InstallEvent::Extracted(dir)) => InstallStep::Publish(dir),
            (InstallStep::Extract, InstallEvent::Failed(e)) => InstallStep::CleanUp(Err(e)),
            (InstallStep::Publish(_), InstallEvent::Completed) => InstallStep::CleanUp(Ok(())),
            (InstallStep::Publish(_), InstallEvent::NotMoved { present, error }) => {
                if present {
                    InstallStep::CleanUp(Ok(()))
                } else {
                    InstallStep::CleanUp(Err(InstallError::Io(error)))
                }
            },
            (InstallStep::Publish(_), InstallEvent::Failed(e)) => InstallStep::CleanUp(Err(e)),
            (InstallStep::CleanUp(r), InstallEvent::Completed) => InstallStep::Ended(r),
            (step, _) => step,
        };
        Installation {
            url: self.url,
            expected_sha256: self.expected_sha256,
            binary: self.binary,
            install_dir: self.install_dir,
            archive_path: self.archive_path,
            staging_dir: self.staging_dir,
            step,
        }
    }
}

// ---------------------------------------------------------------------------
// Laws of the installation
// ---------------------------------------------------------------------------

/// The step after a series of events.
pub open spec fn install_run(
    step: InstallStepView,
    events: Seq<InstallEventView>,
    expected: Option<Seq<char>>,
) -> InstallStepView
    decreases events.len(),
{
    if events.len() == 0 {
        step
    } else {
        install_next(install_run(step, events.drop_last(), expected), events.last(), expected)
    }
}

/// A checksum mismatch aborts the install: after a download with another hash
/// than the expected one nothing is unpacked or published, whatever follows,
/// and the only way on is to clean up and end with the checksum error.
pub proof fn law_mismatch_aborts(
    expected: Seq<char>,
    actual: Seq<char>,
    events: Seq<InstallEventView>,
)
    requires
        expected != actual,
    ensures
        ({
            let fault = InstallErrorView::Checksum { expected, actual };
            let after = install_next(
                InstallStepView::Download,
                InstallEventView::Downloaded(actual),
                Some(expected),
            );
            let end = install_run(after, events, Some(expected));
            end == InstallStepView::CleanUp(Err(fault)) || end == InstallStepView::Ended(Err(fault))
        }),
    decreases events.len(),
{
    if events.len() > 0 {
        law_mismatch_aborts(expected, actual, events.drop_last());
    }
}

/// Steps at which temporaries may exist.
pub open spec fn has_temporaries(step: InstallStepView) -> bool {
    ||| step is Download
    ||| step is Extract
    ||| step is Publish
    ||| step is CleanUp
}

/// Temporaries are removed whatever the outcome: once there may be any, the
/// installation ends only by way of the clean-up step, with its outcome.
pub proof fn law_temporaries_removed(
    step: InstallStepView,
    event: InstallEventView,
    expected: Option<Seq<char>>,
)
    requires
        has_temporaries(step),
    ensures
        has_temporaries(install_next(step, event, expected)) || (step matches
            InstallStepView::CleanUp(r) && install_next(step, event, expected)
            == InstallStepView::Ended(r)),
{
}

/// An archive is unpacked only when it came from a download whose hash was
/// accepted.
pub proof fn law_only_accepted_archives_unpacked(
    step: InstallStepView,
    event: InstallEventView,
    expected: Option<Seq<char>>,
)
    requires
        !(step is Extract),
        install_next(step, event, expected) is Extract,
    ensures
        step is Download,
        event matches InstallEventView::Downloaded(actual) && hash_accepted(expected, actual),
{
}

// ---------------------------------------------------------------------------
// Laws of paths, progress and contents
// ---------------------------------------------------------------------------

/// Inside a directory there is one slash between the directory and the name,
/// whether or not the directory is written with one at its end, and none where
/// there is no directory.
pub proof fn law_one_slash(base: Seq<char>, name: Seq<char>)
    requires
        base.len() > 0 ==> base.last() != '/',
    ensures
        base.len() > 0 ==> inside(base, name) == base + "/"@ + name,
        base.len() > 0 ==> inside(base + "/"@, name) == base + "/"@ + name,
        base.len() == 0 ==> inside(base, name) == name,
{
    reveal_strlit("/");
    assert((base + "/"@).last() == '/');
    if base.len() == 0 {
        assert(base + name =~= name);
    }
}

/// An archive is installed under the first 16 hexadecimal digits of the SHA-256 of
/// its URL, with its executable in that directory; temporaries carry the process
/// that made them.
pub proof fn law_install_paths(root: Seq<char>, url: Seq<char>, key: Seq<char>, process_id: u32)
    requires
        root.len() > 0,
        root.last() != '/',
        key.len() > 0,
        hex_digit(key.last()),
    ensures
        executable(root, key) == root + "/"@ + key + "/chrome"@,
        key_of(url) == hex(sha256(encode_utf8(url))).take(16),
        binary_of(root, url) == executable(root, key_of(url)),
        temporary_tag(url, process_id) == hex(sha256(encode_utf8(url))).take(16) + "-"@ + decimal(
            process_id as nat,
        ),
{
    reveal_strlit("/");
    reveal_strlit("chrome");
    reveal_strlit("/chrome");
    let dir = root + "/"@ + key;
    assert(dir.last() == key.last());
    assert("/"@ + "chrome"@ =~= "/chrome"@);
    assert(dir + "/"@ + "chrome"@ =~= dir + ("/"@ + "chrome"@));
}

/// The percentage is the largest that the downloaded part has reached, a line is
/// due once it has come to the mark, and the next mark is the next multiple of
/// ten.
pub proof fn law_percentage(downloaded: nat, total: nat, mark: nat)
    ensures
        total > 0 ==> percent(downloaded, total) * total <= downloaded * 100 < (percent(
            downloaded,
            total,
        ) + 1) * total,
        line_due(downloaded, total, mark) <==> total > 0 && mark <= percent(downloaded, total),
        mark < next_ten(mark) <= mark + 10,
        next_ten(mark) % 10 == 0,
{
    if total > 0 {
        let x = downloaded * 100;
        assert(x / total * total <= x < (x / total + 1) * total) by (nonlinear_arith)
            requires
                total > 0,
        ;
    }
}

/// The bar has twenty cells, one for each five percent, and is full from a hundred
/// percent on.
pub proof fn law_progress_bar(p: nat)
    ensures
        filled(p) <= 20,
        p >= 100 <==> filled(p) == 20,
        p < 100 ==> 5 * filled(p) <= p < 5 * filled(p) + 5,
{
}

/// A progress line shows the bar, the percentage, at least three characters wide,
/// and the megabytes that are there and that are to come.
pub proof fn law_progress_line(downloaded: nat, total: nat, digits: Seq<char>)
    ensures
        ({
            let p = percent(downloaded, total);
            progress_line(downloaded, total) == "["@ + repeated('#', filled(p)) + repeated(
                '-',
                (20 - filled(p)) as nat,
            ) + "] "@ + padded(decimal(p)) + "% "@ + decimal(downloaded / 0x10_0000) + "/"@
                + decimal(total / 0x10_0000) + " MB"@
        }),
        padded(digits).len() >= 3,
        digits.len() >= 3 ==> padded(digits) == digits,
        digits.len() < 3 ==> padded(digits).len() == 3 && padded(digits).skip(3 - digits.len())
            == digits && padded(digits).take(3 - digits.len()) == repeated(
            ' ',
            (3 - digits.len()) as nat,
        ),
{
    if digits.len() < 3 {
        assert(padded(digits).skip(3 - digits.len()) =~= digits);
        assert(padded(digits).take(3 - digits.len()) =~= repeated(
            ' ',
            (3 - digits.len()) as nat,
        ));
    }
}

/// The first bytes tell the format: 1f 8b begins a gzip stream, whatever follows,
/// and `PK` with 3 and 4 or with 5 and 6 behind it a zip file. Nothing else is an
/// archive.
pub proof fn law_formats(magic: Seq<u8>)
    ensures
        format_of(magic) == Some(ArchiveFormat::TarGz) <==> magic.len() >= 2 && magic[0] == 0x1f
            && magic[1] == 0x8b,
        format_of(magic) == Some(ArchiveFormat::Zip) <==> magic.len() == 4 && magic[0] == 'P' as u8
            && magic[1] == 'K' as u8 && ((magic[2] == 3 && magic[3] == 4) || (magic[2] == 5
            && magic[3] == 6)),
{
    if magic.len() == 4 {
        assert(magic =~= seq![magic[0], magic[1], magic[2], magic[3]]);
    }
}

/// The browser is in the staging directory when `chrome` is at its top, else in its
/// one entry when that is a directory with `chrome` in it, and nowhere otherwise.
pub proof fn law_chrome_dir(staging: (Seq<char>, u32), entries: Seq<StagedEntry>, e: StagedEntry)
    ensures
        chrome_dir(staging, true, entries) == Some(staging),
        e.is_dir && e.has_chrome ==> chrome_dir(staging, false, seq![e]) == Some((e.path@, e.mode)),
        !(e.is_dir && e.has_chrome) ==> chrome_dir(staging, false, seq![e]) is None,
        entries.len() != 1 ==> chrome_dir(staging, false, entries) is None,
{
}

/// Permissions other than reading and executing stay as they are.
pub proof fn law_other_permissions_kept(mode: u32, is_dir: bool)
    ensures
        readable_mode(mode, is_dir) & !0o555u32 == mode & !0o555u32,
{
    assert((mode | 0o444 | 0o111) & !0o555u32 == mode & !0o555u32) by (bit_vector);
    assert((mode | 0o444) & !0o555u32 == mode & !0o555u32) by (bit_vector);
}

/// Archives go to `/opt/browsers`, a download has ten minutes, and the executable
/// may be run by all and written by its owner.
pub proof fn law_install_limits()
    ensures
        INSTALL_ROOT@ == "/opt/browsers"@,
        DOWNLOAD_TIMEOUT == 600_000,
        CHROME_MODE == 0o755,
{
}

/// Errors, steps and events keep their kind and what they carry when they are
/// viewed, and each error says what went wrong.
pub proof fn law_install_views(
    s: String,
    t: String,
    e: InstallError,
    r: Result<(), InstallError>,
    present: bool,
)
    ensures
        InstallError::Download(s)@ == InstallErrorView::Download(s@),
        (InstallError::Checksum { expected: s, actual: t })@ == (InstallErrorView::Checksum {
            expected: s@,
            actual: t@,
        }),
        InstallError::Archive(s)@ == InstallErrorView::Archive(s@),
        InstallError::Io(s)@ == InstallErrorView::Io(s@),
        InstallError::Download(s)@.text() == "download failed: "@ + s@,
        (InstallError::Checksum { expected: s, actual: t })@.text()
            == "archive checksum mismatch: expected "@ + s@ + ", got "@ + t@,
        InstallError::Archive(s)@.text() == "archive extraction failed: "@ + s@,
        InstallError::Io(s)@.text() == "io error: "@ + s@,
        outcome_view(Ok(())) == Ok::<(), InstallErrorView>(()),
        outcome_view(Err(e)) == Err::<(), InstallErrorView>(e@),
        InstallStep::Probe@ == InstallStepView::Probe,
        InstallStep::CreateRoot@ == InstallStepView::CreateRoot,
        InstallStep::BuildClient@ == InstallStepView::BuildClient,
        InstallStep::Download@ == InstallStepView::Download,
        InstallStep::Extract@ == InstallStepView::Extract,
        InstallStep::Publish(s)@ == InstallStepView::Publish(s@),
        InstallStep::CleanUp(r)@ == InstallStepView::CleanUp(outcome_view(r)),
        InstallStep::Ended(r)@ == InstallStepView::Ended(outcome_view(r)),
        InstallEvent::Present(present)@ == InstallEventView::Present(present),
        InstallEvent::Completed@ == InstallEventView::Completed,
        InstallEvent::Downloaded(s)@ == InstallEventView::Downloaded(s@),
        InstallEvent::Extracted(s)@ == InstallEventView::Extracted(s@),
        (InstallEvent::NotMoved { present, error: s })@ == (InstallEventView::NotMoved {
            present,
            error: s@,
        }),
        InstallEvent::Failed(e)@ == InstallEventView::Failed(e@),
{
}

/// An installation that goes well runs through: an archive that is not there is
/// downloaded, unpacked, moved to its place and cleaned up after, and ends well;
/// one that is there already ends at once. A download is taken without an expected
/// hash and with the very hash that is expected, and with no other.
pub proof fn law_installation_runs_through(
    expected: Option<Seq<char>>,
    actual: Seq<char>,
    dir: Seq<char>,
)
    ensures
        install_next(InstallStepView::Probe, InstallEventView::Present(true), expected)
            == InstallStepView::Ended(Ok(())),
        expected is None || expected == Some(actual) ==> install_run(
            InstallStepView::Probe,
            seq![
                InstallEventView::Present(false),
                InstallEventView::Completed,
                InstallEventView::Completed,
                InstallEventView::Downloaded(actual),
                InstallEventView::Extracted(dir),
            ],
            expected,
        ) == InstallStepView::Publish(dir),
        install_next(InstallStepView::Publish(dir), InstallEventView::Completed, expected)
            == InstallStepView::CleanUp(Ok(())),
        forall|r: Result<(), InstallErrorView>| #[trigger]
            install_next(InstallStepView::CleanUp(r), InstallEventView::Completed, expected)
                == InstallStepView::Ended(r),
        hash_accepted(expected, actual) <==> expected is None || expected == Some(actual),
{
    reveal_with_fuel(install_run, 6);
    let events = seq![
        InstallEventView::Present(false),
        InstallEventView::Completed,
        InstallEventView::Completed,
        InstallEventView::Downloaded(actual),
        InstallEventView::Extracted(dir),
    ];
    let e4 = events.drop_last();
    let e3 = e4.drop_last();
    let e2 = e3.drop_last();
    let e1 = e2.drop_last();
    assert(e1.drop_last().len() == 0);
    assert(install_run(InstallStepView::Probe, e1, expected) == InstallStepView::CreateRoot);
    assert(install_run(InstallStepView::Probe, e2, expected) == InstallStepView::BuildClient);
    assert(install_run(InstallStepView::Probe, e3, expected) == InstallStepView::Download);
    if expected is None || expected == Some(actual) {
        assert(install_run(InstallStepView::Probe, e4, expected) == InstallStepView::Extract);
    }
}

/// A step that fails ends the installation with that error: at once before there
/// is anything to clean up, and by way of the clean-up afterwards. A directory that
/// cannot be moved is no failure when the executable is there nonetheless.
pub proof fn law_failed_installation(
    expected: Option<Seq<char>>,
    dir: Seq<char>,
    why: Seq<char>,
    e: InstallErrorView,
)
    ensures
        install_next(InstallStepView::CreateRoot, InstallEventView::Failed(e), expected)
            == InstallStepView::Ended(Err(e)),
        install_next(InstallStepView::BuildClient, InstallEventView::Failed(e), expected)
            == InstallStepView::Ended(Err(e)),
        install_next(InstallStepView::Download, InstallEventView::Failed(e), expected)
            == InstallStepView::CleanUp(Err(e)),
        install_next(InstallStepView::Extract, InstallEventView::Failed(e), expected)
            == InstallStepView::CleanUp(Err(e)),
        install_next(InstallStepView::Publish(dir), InstallEventView::Failed(e), expected)
            == InstallStepView::CleanUp(Err(e)),
        install_next(
            InstallStepView::Publish(dir),
            InstallEventView::NotMoved { present: true, error: why },
            expected,
        ) == InstallStepView::CleanUp(Ok(())),
        install_next(
            InstallStepView::Publish(dir),
            InstallEventView::NotMoved { present: false, error: why },
            expected,
        ) == InstallStepView::CleanUp(Err(InstallErrorView::Io(why))),
{
}

/// What does not belong to a step changes nothing, and an installation that has
/// ended stays so.
pub proof fn law_stray_install_events(
    step: InstallStepView,
    event: InstallEventView,
    expected: Option<Seq<char>>,
)
    requires
        match step {
            InstallStepView::Probe => !(event is Present),
            InstallStepView::CreateRoot => !(event is Completed) && !(event is Failed),
            InstallStepView::BuildClient => !(event is Completed) && !(event is Failed),
            InstallStepView::Download => !(event is Downloaded) && !(event is Failed),
            InstallStepView::Extract => !(event is Extracted) && !(event is Failed),
            InstallStepView::Publish(_) => !(event is Completed) && !(event is NotMoved) && !(event
                is Failed),
            InstallStepView::CleanUp(_) => !(event is Completed),
            InstallStepView::Ended(_) => true,
        },
    ensures
        install_next(step, event, expected) == step,
{
}

} // verus!
