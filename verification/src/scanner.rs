//! The offline loudness scan: which stems it needs and where they are found,
//! which sources it accepts, and when it takes readings and reports progress
//! while a stem is decoded from end to end.

use crate::source::{is_wav_header, looks_like_wav, SourceReport};
use crate::stem_decoder::PacketEvent;
use crate::text::{eq_ignore_ascii_case, eq_ignoring_ascii_case, str_is_blank, trim, trimmed};
use vstd::prelude::*;
use vstd::string::*;

verus! {

/// Number of stems a scan covers.
pub const CANONICAL_STEM_COUNT: usize = 3;

/// Seconds of decoded audio between two progress reports.
pub const STEM_SCAN_PROGRESS_INTERVAL_SECS: u64 = 5;

/// Why a scan failed.
#[derive(Debug, Clone)]
pub enum ScannerError {
    InvalidConfig(&'static str),
    MissingStemPath { stem: &'static str },
    MissingStemFile { stem: String, path: String },
    InvalidStemFormat { stem: String, path: String },
    Probe(String),
    Decode { stem: String, message: String },
    Meter(String),
    ThreadJoin(String),
}

/// A [`ScannerError`] with its texts as sequences of characters.
pub enum ScanFailure {
    InvalidConfig(Seq<char>),
    MissingStemPath { stem: Seq<char> },
    MissingStemFile { stem: Seq<char>, path: Seq<char> },
    InvalidStemFormat { stem: Seq<char>, path: Seq<char> },
    Probe(Seq<char>),
    Decode { stem: Seq<char>, message: Seq<char> },
    Meter(Seq<char>),
    ThreadJoin(Seq<char>),
}

impl View for ScannerError {
    type V = ScanFailure;

    open spec fn view(&self) -> ScanFailure {
        match self {
            ScannerError::InvalidConfig(msg) => ScanFailure::InvalidConfig(msg@),
            ScannerError::MissingStemPath { stem } => ScanFailure::MissingStemPath { stem: stem@ },
            ScannerError::MissingStemFile { stem, path } => ScanFailure::MissingStemFile {
                stem: stem@,
                path: path@,
            },
            ScannerError::InvalidStemFormat { stem, path } => ScanFailure::InvalidStemFormat {
                stem: stem@,
                path: path@,
            },
            ScannerError::Probe(msg) => ScanFailure::Probe(msg@),
            ScannerError::Decode { stem, message } => ScanFailure::Decode {
                stem: stem@,
                message: message@,
            },
            ScannerError::Meter(msg) => ScanFailure::Meter(msg@),
            ScannerError::ThreadJoin(msg) => ScanFailure::ThreadJoin(msg@),
        }
    }
}

impl ScanFailure {
    /// What the failure says to a reader.
    pub open spec fn text(self) -> Seq<char> {
        match self {
            ScanFailure::InvalidConfig(msg) => "Invalid scanner config: "@ + msg,
            ScanFailure::MissingStemPath { stem } => "Missing required stem path for "@ + stem,
            ScanFailure::MissingStemFile { stem, path } => "Missing stem file for "@ + stem
                + ": "@ + path,
            ScanFailure::InvalidStemFormat { stem, path } => "Stem file for "@ + stem
                + " is not a valid WAV file: "@ + path,
            ScanFailure::Probe(msg) => "Unable to probe stem: "@ + msg,
            ScanFailure::Decode { stem, message } => "Decode failure in "@ + stem + ": "@
                + message,
            ScanFailure::Meter(msg) => "EBU R128 meter failure: "@ + msg,
            ScanFailure::ThreadJoin(msg) => "Thread join failure: "@ + msg,
        }
    }
}

impl ScannerError {
    /// The error as a line of text.
    pub fn describe(&self) -> (text: String)
        ensures
            text@ == self@.text(),
    {
        match self {
            ScannerError::InvalidConfig(msg) => {
                let mut text = String::from_str("Invalid scanner config: ");
                text.append(msg);
                text
            },
            ScannerError::MissingStemPath { stem } => {
                let mut text = String::from_str("Missing required stem path for ");
                text.append(stem);
                text
            },
            ScannerError::MissingStemFile { stem, path } => {
                let mut text = String::from_str("Missing stem file for ");
                text.append(stem.as_str());
                text.append(": ");
                text.append(path.as_str());
                text
            },
            ScannerError::InvalidStemFormat { stem, path } => {
                let mut text = String::from_str("Stem file for ");
                text.append(stem.as_str());
                text.append(" is not a valid WAV file: ");
                text.append(path.as_str());
                text
            },
            ScannerError::Probe(msg) => {
                let mut text = String::from_str("Unable to probe stem: ");
                text.append(msg.as_str());
                text
            },
            ScannerError::Decode { stem, message } => {
                let mut text = String::from_str("Decode failure in ");
                text.append(stem.as_str());
                text.append(": ");
                text.append(message.as_str());
                text
            },
            ScannerError::Meter(msg) => {
                let mut text = String::from_str("EBU R128 meter failure: ");
                text.append(msg.as_str());
                text
            },
            ScannerError::ThreadJoin(msg) => {
                let mut text = String::from_str("Thread join failure: ");
                text.append(msg.as_str());
                text
            },
        }
    }
}

/// What a scan tells its caller while it runs. Time is given in samples of
/// the stem at its own rate.
#[derive(Debug, Clone)]
pub enum ScanEvent {
    StemStarted { stem: String },
    StemProgress { stem: String, samples_scanned: u64, sample_rate: u32 },
    StemFinished { stem: String },
}

/// The loudness of one stem over its whole length, and its momentary and
/// short-term loudness at regular intervals.
#[derive(Debug, Clone)]
pub struct StemLufsProfile<T> {
    pub integrated: T,
    pub loudness_range_lu: T,
    pub momentary: Vec<T>,
    pub short_term: Vec<T>,
}

/// Scanner that takes `points_per_second` readings for each second of audio.
#[derive(Debug, Clone, Copy, PartialEq, Eq, Structural)]
pub struct OfflineLoudnessScanner {
    pub points_per_second: u32,
}

/// The name of the `i`-th stem a scan needs.
pub open spec fn canonical_stem(i: int) -> Seq<char> {
    if i == 0 {
        "DX"@
    } else if i == 1 {
        "Music"@
    } else {
        "Effects"@
    }
}

/// Number of other names under which the `i`-th stem is looked for.
pub open spec fn alias_count(i: int) -> int {
    if 0 <= i < 3 {
        3
    } else {
        0
    }
}

/// The `k`-th other name of the `i`-th stem.
pub open spec fn stem_alias(i: int, k: int) -> Seq<char> {
    if i == 0 {
        if k == 0 {
            "dialogue_raw"@
        } else if k == 1 {
            "dx_raw"@
        } else {
            "dialogue"@
        }
    } else if i == 1 {
        if k == 0 {
            "music_raw"@
        } else if k == 1 {
            "background_raw"@
        } else {
            "music"@
        }
    } else {
        if k == 0 {
            "effects_raw"@
        } else if k == 1 {
            "effects"@
        } else {
            "background_raw"@
        }
    }
}

/// Index of the first entry whose label is `name` up to ASCII case, or the
/// number of entries where there is none.
pub open spec fn first_labelled(entries: Seq<(String, String)>, name: Seq<char>) -> int
    decreases entries.len(),
{
    if entries.len() == 0 {
        0
    } else if eq_ignoring_ascii_case(entries[0].0@, name) {
        0
    } else {
        1 + first_labelled(entries.drop_first(), name)
    }
}

/// Index of the entry that gives the `i`-th stem's path after trying its
/// first `tried` other names, or the number of entries where none does.
pub open spec fn first_by_alias(entries: Seq<(String, String)>, i: int, tried: int) -> int
    decreases alias_count(i) - tried,
{
    if tried >= alias_count(i) {
        entries.len() as int
    } else if first_labelled(entries, stem_alias(i, tried)) < entries.len() {
        first_labelled(entries, stem_alias(i, tried))
    } else {
        first_by_alias(entries, i, tried + 1)
    }
}

/// Index of the entry that gives the `i`-th stem's path: the first entry
/// under the stem's own name, else the first under the first of its other
/// names that labels any. The number of entries where there is none.
pub open spec fn stem_entry(entries: Seq<(String, String)>, i: int) -> int {
    if first_labelled(entries, canonical_stem(i)) < entries.len() {
        first_labelled(entries, canonical_stem(i))
    } else {
        first_by_alias(entries, i, 0)
    }
}

/// The `i`-th stem has a path: an entry gives one that is not blank.
pub open spec fn stem_resolves(entries: Seq<(String, String)>, i: int) -> bool {
    &&& stem_entry(entries, i) < entries.len()
    &&& trimmed(entries[stem_entry(entries, i)].1@).len() > 0
}

/// The first entry under a label is the `k`-th if none before it has the
/// label and it has, or if `k` is the number of entries and none has.
proof fn lemma_first_labelled(entries: Seq<(String, String)>, name: Seq<char>, k: int)
    requires
        0 <= k <= entries.len(),
        forall|j: int| 0 <= j < k ==> !eq_ignoring_ascii_case(#[trigger] entries[j].0@, name),
        k < entries.len() ==> eq_ignoring_ascii_case(entries[k].0@, name),
    ensures
        first_labelled(entries, name) == k,
    decreases k,
{
    if k > 0 {
        let rest = entries.drop_first();
        assert forall|j: int| 0 <= j < k - 1 implies !eq_ignoring_ascii_case(
            #[trigger] rest[j].0@,
            name,
        ) by {
            assert(rest[j] == entries[j + 1]);
        }
        if k - 1 < rest.len() {
            assert(rest[k - 1] == entries[k]);
        }
        assert(!eq_ignoring_ascii_case(entries[0].0@, name));
        lemma_first_labelled(rest, name, k - 1);
    }
}

/// The first entry under a label, by index.
pub fn find_labelled(entries: &Vec<(String, String)>, name: &str) -> (found: usize)
    ensures
        found == first_labelled(entries@, name@),
        found <= entries@.len(),
{
    let mut k: usize = 0;
    while k < entries.len()
        invariant
            k <= entries@.len(),
            forall|j: int| 0 <= j < k ==> !eq_ignoring_ascii_case(#[trigger] entries@[j].0@, name@),
        decreases entries@.len() - k,
    {
        if eq_ignore_ascii_case(entries[k].0.as_str(), name) {
            proof {
                lemma_first_labelled(entries@, name@, k as int);
            }
            return k;
        }
        k = k + 1;
    }
    proof {
        lemma_first_labelled(entries@, name@, k as int);
    }
    k
}

/// The name of the `i`-th stem a scan needs.
pub fn canonical_stem_name(i: usize) -> (name: &'static str)
    requires
        i < CANONICAL_STEM_COUNT,
    ensures
        name@ == canonical_stem(i as int),
{
    if i == 0 {
        "DX"
    } else if i == 1 {
        "Music"
    } else {
        "Effects"
    }
}

fn stem_alias_name(i: usize, k: usize) -> (name: &'static str)
    requires
        i < 3,
        k < 3,
    ensures
        name@ == stem_alias(i as int, k as int),
{
    if i == 0 {
        if k == 0 {
            "dialogue_raw"
        } else if k == 1 {
            "dx_raw"
        } else {
            "dialogue"
        }
    } else if i == 1 {
        if k == 0 {
            "music_raw"
        } else if k == 1 {
            "background_raw"
        } else {
            "music"
        }
    } else {
        if k == 0 {
            "effects_raw"
        } else if k == 1 {
            "effects"
        } else {
            "background_raw"
        }
    }
}

/// Finds the entry that gives the `i`-th stem's path.
pub fn lookup_stem_path(entries: &Vec<(String, String)>, i: usize) -> (found: Option<usize>)
    requires
        i < CANONICAL_STEM_COUNT,
    ensures
        match found {
            Some(k) => k == stem_entry(entries@, i as int) && k < entries@.len(),
            None => stem_entry(entries@, i as int) >= entries@.len(),
        },
{
    let direct = find_labelled(entries, canonical_stem_name(i));
    if direct < entries.len() {
        return Some(direct);
    }
    let mut tried: usize = 0;
    while tried < 3
        invariant
            i < 3,
            tried <= 3,
            first_labelled(entries@, canonical_stem(i as int)) >= entries@.len(),
            first_by_alias(entries@, i as int, 0) == first_by_alias(
                entries@,
                i as int,
                tried as int,
            ),
        decreases 3 - tried,
    {
        let k = find_labelled(entries, stem_alias_name(i, tried));
        if k < entries.len() {
            return Some(k);
        }
        tried = tried + 1;
    }
    None
}

/// The first stem, in scan order, that has no path; 3 where all have one.
pub open spec fn first_unresolved(entries: Seq<(String, String)>) -> int {
    if !stem_resolves(entries, 0) {
        0
    } else if !stem_resolves(entries, 1) {
        1
    } else if !stem_resolves(entries, 2) {
        2
    } else {
        3
    }
}

/// Index of the first entry whose label is exactly `name`, or the number of
/// entries where there is none.
pub open spec fn first_named(entries: Seq<(String, String)>, name: Seq<char>) -> int
    decreases entries.len(),
{
    if entries.len() == 0 {
        0
    } else if entries[0].0@ == name {
        0
    } else {
        1 + first_named(entries.drop_first(), name)
    }
}

/// The first stem, in scan order, that `stem_paths` does not name; 3 where
/// it names all.
pub open spec fn first_unnamed(stem_paths: Seq<(String, String)>) -> int {
    if first_named(stem_paths, canonical_stem(0)) >= stem_paths.len() {
        0
    } else if first_named(stem_paths, canonical_stem(1)) >= stem_paths.len() {
        1
    } else if first_named(stem_paths, canonical_stem(2)) >= stem_paths.len() {
        2
    } else {
        3
    }
}

/// The first entry under a name is the `k`-th if none before it has the
/// name and it has, or if `k` is the number of entries and none has.
proof fn lemma_first_named(entries: Seq<(String, String)>, name: Seq<char>, k: int)
    requires
        0 <= k <= entries.len(),
        forall|j: int| 0 <= j < k ==> #[trigger] entries[j].0@ != name,
        k < entries.len() ==> entries[k].0@ == name,
    ensures
        first_named(entries, name) == k,
    decreases k,
{
    if k > 0 {
        let rest = entries.drop_first();
        assert forall|j: int| 0 <= j < k - 1 implies #[trigger] rest[j].0@ != name by {
            assert(rest[j] == entries[j + 1]);
        }
        if k - 1 < rest.len() {
            assert(rest[k - 1] == entries[k]);
        }
        assert(entries[0].0@ != name);
        lemma_first_named(rest, name, k - 1);
    }
}

/// The first entry under exactly this label, by index.
pub fn find_named(entries: &Vec<(String, String)>, name: &str) -> (found: usize)
    ensures
        found == first_named(entries@, name@),
        found <= entries@.len(),
{
    let wanted: String = String::from_str(name);
    let mut k: usize = 0;
    while k < entries.len()
        invariant
            k <= entries@.len(),
            wanted@ == name@,
            forall|j: int| 0 <= j < k ==> #[trigger] entries@[j].0@ != name@,
        decreases entries@.len() - k,
    {
        if entries[k].0 == wanted {
            proof {
                lemma_first_named(entries@, name@, k as int);
            }
            return k;
        }
        k = k + 1;
    }
    proof {
        lemma_first_named(entries@, name@, k as int);
    }
    k
}

impl Default for OfflineLoudnessScanner {
    fn default() -> (scanner: Self)
        ensures
            scanner.points_per_second == 2,
    {
        OfflineLoudnessScanner { points_per_second: 2 }
    }
}

impl OfflineLoudnessScanner {
    /// A scanner that takes one or two readings per second.
    pub fn new(points_per_second: u32) -> (made: Result<Self, ScannerError>)
        ensures
            made is Ok <==> 1 <= points_per_second <= 2,
            made matches Ok(scanner) ==> scanner.points_per_second == points_per_second,
            made matches Err(error) ==> error@ == ScanFailure::InvalidConfig(
                "points_per_second must be 1 or 2"@,
            ),
    {
        if points_per_second < 1 || points_per_second > 2 {
            return Err(ScannerError::InvalidConfig("points_per_second must be 1 or 2"));
        }
        Ok(OfflineLoudnessScanner { points_per_second })
    }

    /// Finds the path of every stem a scan needs among labelled paths.
    ///
    /// A stem is looked for under its own name, then under its other names
    /// in turn, each time ignoring ASCII case and taking the first entry
    /// that fits. Its path is the entry's text without surrounding white
    /// space. The first stem without an entry, or with a blank one, fails
    /// the whole.
    pub fn resolve_required_stems(stem_paths: &Vec<(String, String)>) -> (resolved: Result<
        Vec<(String, String)>,
        ScannerError,
    >)
        ensures
            match resolved {
                Ok(paths) => {
                    &&& first_unresolved(stem_paths@) == 3
                    &&& paths@.len() == 3
                    &&& forall|i: int|
                        0 <= i < 3 ==> (#[trigger] paths@[i]).0@ == canonical_stem(i)
                            && paths@[i].1@ == trimmed(
                            stem_paths@[stem_entry(stem_paths@, i)].1@,
                        )
                },
                Err(error) => {
                    &&& first_unresolved(stem_paths@) < 3
                    &&& error@ == (ScanFailure::MissingStemPath {
                        stem: canonical_stem(first_unresolved(stem_paths@)),
                    })
                },
            },
    {
        let mut paths: Vec<(String, String)> = Vec::new();
        let mut i: usize = 0;
        while i < CANONICAL_STEM_COUNT
            invariant
                i <= 3,
                paths@.len() == i,
                forall|j: int| 0 <= j < i ==> stem_resolves(stem_paths@, j),
                forall|j: int|
                    0 <= j < i ==> (#[trigger] paths@[j]).0@ == canonical_stem(j) && paths@[j].1@
                        == trimmed(stem_paths@[stem_entry(stem_paths@, j)].1@),
            decreases 3 - i,
        {
            let stem = canonical_stem_name(i);
            let value: &str = match lookup_stem_path(stem_paths, i) {
                Some(k) => trim(stem_paths[k].1.as_str()),
                None => {
                    return Err(ScannerError::MissingStemPath { stem });
                },
            };
            if value.unicode_len() == 0 {
                return Err(ScannerError::MissingStemPath { stem });
            }
            paths.push((String::from_str(stem), String::from_str(value)));
            i = i + 1;
        }
        Ok(paths)
    }

    /// Lists the stems to scan with their paths, in scan order. Each must be
    /// named, exactly, by an entry of `stem_paths`; the first entry under a
    /// name counts.
    pub fn scan_jobs(&self, stem_paths: &Vec<(String, String)>) -> (jobs: Result<
        Vec<(String, String)>,
        ScannerError,
    >)
        ensures
            match jobs {
                Ok(listed) => {
                    &&& first_unnamed(stem_paths@) == 3
                    &&& listed@.len() == 3
                    &&& forall|i: int|
                        0 <= i < 3 ==> (#[trigger] listed@[i]).0@ == canonical_stem(i)
                            && listed@[i].1@ == stem_paths@[first_named(
                            stem_paths@,
                            canonical_stem(i),
                        )].1@
                },
                Err(error) => {
                    &&& first_unnamed(stem_paths@) < 3
                    &&& error@ == (ScanFailure::MissingStemPath {
                        stem: canonical_stem(first_unnamed(stem_paths@)),
                    })
                },
            },
    {
        let mut listed: Vec<(String, String)> = Vec::new();
        let mut i: usize = 0;
        while i < CANONICAL_STEM_COUNT
            invariant
                i <= 3,
                listed@.len() == i,
                forall|j: int|
                    0 <= j < i ==> first_named(stem_paths@, canonical_stem(j))
                        < stem_paths@.len(),
                forall|j: int|
                    0 <= j < i ==> (#[trigger] listed@[j]).0@ == canonical_stem(j)
                        && listed@[j].1@ == stem_paths@[first_named(
                        stem_paths@,
                        canonical_stem(j),
                    )].1@,
            decreases 3 - i,
        {
            let stem = canonical_stem_name(i);
            let k = find_named(stem_paths, stem);
            if k >= stem_paths.len() {
                return Err(ScannerError::MissingStemPath { stem });
            }
            listed.push((String::from_str(stem), stem_paths[k].1.clone()));
            i = i + 1;
        }
        Ok(listed)
    }
}

/// The reason a source cannot be scanned, or `None` where it can. The
/// checks come in the order in which a file is opened.
pub open spec fn scan_failure(stem: Seq<char>, path: Seq<char>, report: SourceReport) -> Option<
    ScanFailure,
> {
    if !report.exists {
        Some(ScanFailure::MissingStemFile { stem, path })
    } else if report.header_error is Some {
        Some(ScanFailure::Decode { stem: path, message: report.header_error->0@ })
    } else if !is_wav_header(report.header@) {
        Some(ScanFailure::InvalidStemFormat { stem, path })
    } else if report.open_error is Some {
        Some(ScanFailure::Decode { stem, message: report.open_error->0@ })
    } else if report.probe_error is Some {
        Some(ScanFailure::Probe(report.probe_error->0@))
    } else if !report.has_track {
        Some(ScanFailure::Decode { stem, message: "No decodable audio track found"@ })
    } else if report.sample_rate is None {
        Some(ScanFailure::Decode { stem, message: "Missing sample-rate metadata"@ })
    } else if report.codec_error is Some {
        Some(ScanFailure::Decode { stem, message: report.codec_error->0@ })
    } else {
        None
    }
}

/// Decides from what is known of a source whether it can be scanned, and
/// gives its sample rate if so.
pub fn admit_scan_source(stem_name: &str, path: &str, report: &SourceReport) -> (admitted: Result<
    u32,
    ScannerError,
>)
    ensures
        match admitted {
            Ok(rate) => scan_failure(stem_name@, path@, *report) is None && report.sample_rate
                == Some(rate),
            Err(error) => scan_failure(stem_name@, path@, *report) == Some(error@),
        },
{
    if !report.exists {
        return Err(
            ScannerError::MissingStemFile {
                stem: String::from_str(stem_name),
                path: String::from_str(path),
            },
        );
    }
    if let Some(message) = &report.header_error {
        return Err(
            ScannerError::Decode { stem: String::from_str(path), message: message.clone() },
        );
    }
    if !looks_like_wav(report.header.as_slice()) {
        return Err(
            ScannerError::InvalidStemFormat {
                stem: String::from_str(stem_name),
                path: String::from_str(path),
            },
        );
    }
    if let Some(message) = &report.open_error {
        return Err(
            ScannerError::Decode { stem: String::from_str(stem_name), message: message.clone() },
        );
    }
    if let Some(message) = &report.probe_error {
        return Err(ScannerError::Probe(message.clone()));
    }
    if !report.has_track {
        return Err(
            ScannerError::Decode {
                stem: String::from_str(stem_name),
                message: String::from_str("No decodable audio track found"),
            },
        );
    }
    let rate: u32 = match report.sample_rate {
        Some(rate) => rate,
        None => {
            return Err(
                ScannerError::Decode {
                    stem: String::from_str(stem_name),
                    message: String::from_str("Missing sample-rate metadata"),
                },
            );
        },
    };
    if let Some(message) = &report.codec_error {
        return Err(
            ScannerError::Decode { stem: String::from_str(stem_name), message: message.clone() },
        );
    }
    Ok(rate)
}

/// How one worker of a scan ended.
#[derive(Debug, Clone)]
pub enum WorkerOutcome<P> {
    /// It returned the profile of this stem.
    Profile(String, P),
    /// It returned an error.
    Failed(ScannerError),
    /// It panicked.
    Panicked,
}

/// Index of the first outcome that is no profile, or the number of outcomes.
pub open spec fn first_failure<P>(outcomes: Seq<WorkerOutcome<P>>) -> int
    decreases outcomes.len(),
{
    if outcomes.len() == 0 {
        0
    } else if !(outcomes[0] is Profile) {
        0
    } else {
        1 + first_failure(outcomes.drop_first())
    }
}

/// The first failure is the `k`-th outcome if all before it are profiles
/// and it is none, or if `k` is the number of outcomes and all are.
proof fn lemma_first_failure<P>(outcomes: Seq<WorkerOutcome<P>>, k: int)
    requires
        0 <= k <= outcomes.len(),
        forall|j: int| 0 <= j < k ==> #[trigger] outcomes[j] is Profile,
        k < outcomes.len() ==> !(outcomes[k] is Profile),
    ensures
        first_failure(outcomes) == k,
    decreases k,
{
    if k > 0 {
        let rest = outcomes.drop_first();
        assert forall|j: int| 0 <= j < k - 1 implies #[trigger] rest[j] is Profile by {
            assert(rest[j] == outcomes[j + 1]);
        }
        if k - 1 < rest.len() {
            assert(rest[k - 1] == outcomes[k]);
        }
        assert(outcomes[0] is Profile);
        lemma_first_failure(rest, k - 1);
    }
}

/// Gathers the profiles of the workers, in their order. The first worker
/// that failed fails the scan with its error; one that panicked, with a
/// thread-join error.
pub fn collect_profiles<P>(outcomes: Vec<WorkerOutcome<P>>) -> (collected: Result<
    Vec<(String, P)>,
    ScannerError,
>)
    ensures
        match collected {
            Ok(profiles) => {
                &&& first_failure(outcomes@) == outcomes@.len()
                &&& profiles@.len() == outcomes@.len()
                &&& forall|i: int|
                    0 <= i < profiles@.len() ==> outcomes@[i] == WorkerOutcome::Profile(
                        (#[trigger] profiles@[i]).0,
                        profiles@[i].1,
                    )
            },
            Err(error) => {
                &&& first_failure(outcomes@) < outcomes@.len()
                &&& match outcomes@[first_failure(outcomes@)] {
                    WorkerOutcome::Failed(cause) => error == cause,
                    _ => error@ == ScanFailure::ThreadJoin("scanner worker thread panicked"@),
                }
            },
        },
{
    let ghost all: Seq<WorkerOutcome<P>> = outcomes@;
    let mut rest = outcomes;
    let mut profiles: Vec<(String, P)> = Vec::new();
    while rest.len() > 0
        invariant
            all == outcomes@,
            profiles@.len() + rest@.len() == all.len(),
            rest@ == all.skip(profiles@.len() as int),
            forall|i: int| 0 <= i < profiles@.len() ==> #[trigger] all[i] is Profile,
            forall|i: int|
                0 <= i < profiles@.len() ==> all[i] == WorkerOutcome::Profile(
                    (#[trigger] profiles@[i]).0,
                    profiles@[i].1,
                ),
        decreases rest@.len(),
    {
        let ghost k: int = profiles@.len() as int;
        let outcome = rest.remove(0);
        assert(outcome == all[k]);
        match outcome {
            WorkerOutcome::Profile(stem, profile) => {
                profiles.push((stem, profile));
                assert(rest@ =~= all.skip(profiles@.len() as int));
            },
            WorkerOutcome::Failed(cause) => {
                proof {
                    lemma_first_failure(all, k);
                }
                return Err(cause);
            },
            WorkerOutcome::Panicked => {
                proof {
                    lemma_first_failure(all, k);
                }
                return Err(
                    ScannerError::ThreadJoin(String::from_str("scanner worker thread panicked")),
                );
            },
        }
    }
    proof {
        lemma_first_failure(all, all.len() as int);
    }
    Ok(profiles)
}

/// Progress of the scan of one stem.
#[derive(Debug, Clone, Copy, PartialEq, Eq, Structural)]
pub struct StemScan {
    pub points_per_second: u32,
    pub sample_rate: u32,
    /// Samples decoded so far.
    pub processed_samples: u64,
    /// Readings taken so far.
    pub captures: u128,
    /// Seconds of audio at which the next progress report is due.
    pub next_progress_secs: u128,
}

/// What the caller does after reporting a packet to a scan.
#[derive(Debug, Clone)]
pub enum ScanStep<T> {
    /// Nothing: go on with the next packet.
    Continue,
    /// Reset the codec, then go on.
    ResetCodec,
    /// The stem is read to its end.
    Finish,
    /// Feed `samples` to the meter, then store its momentary and short-term
    /// readings `captures_due` times over, then report progress if
    /// `progress` gives the number of samples scanned.
    Measure { samples: Vec<T>, captures_due: u128, progress: Option<u64> },
}

/// Number of readings due once `processed` samples are decoded: one at
/// every whole multiple of `sample_rate / points_per_second` samples from
/// zero up to `processed`.
pub open spec fn captures_by(processed: int, points_per_second: int, sample_rate: int) -> int {
    processed * points_per_second / sample_rate + 1
}

impl StemScan {
    pub open spec fn wf(&self) -> bool {
        &&& 1 <= self.points_per_second <= 2
        &&& self.sample_rate > 0
        &&& if self.processed_samples == 0 {
            self.captures == 0
        } else {
            self.captures == captures_by(
                self.processed_samples as int,
                self.points_per_second as int,
                self.sample_rate as int,
            )
        }
        &&& self.next_progress_secs >= STEM_SCAN_PROGRESS_INTERVAL_SECS
        &&& (self.next_progress_secs - STEM_SCAN_PROGRESS_INTERVAL_SECS) * self.sample_rate
            <= self.processed_samples
    }

    /// A progress report is due once `processed` samples are decoded.
    pub open spec fn progress_due(&self, processed: int) -> bool {
        processed >= self.next_progress_secs * self.sample_rate
    }

    /// The scan after `count` more samples, `count` being positive.
    pub open spec fn after_samples(&self, count: int) -> StemScan {
        let processed = self.processed_samples + count;
        StemScan {
            processed_samples: processed as u64,
            captures: captures_by(
                processed,
                self.points_per_second as int,
                self.sample_rate as int,
            ) as u128,
            next_progress_secs: if self.progress_due(processed) {
                (self.next_progress_secs + STEM_SCAN_PROGRESS_INTERVAL_SECS) as u128
            } else {
                self.next_progress_secs
            },
            ..*self
        }
    }

    /// Takes in what one attempt to read and decode a packet has brought.
    ///
    /// The end of the source ends the scan; a packet of another track, a
    /// corrupt packet and an empty one are passed over; a failure is handed
    /// back as a decode error. Decoded samples are counted, and with them
    /// the readings and the progress report that have become due.
    pub fn accept<T>(&mut self, stem_name: &str, event: PacketEvent<T>) -> (next: Result<
        ScanStep<T>,
        ScannerError,
    >)
        requires
            old(self).wf(),
            event matches PacketEvent::Decoded(mono) ==> old(self).processed_samples
                + mono@.len() <= u64::MAX,
        ensures
            final(self).wf(),
            match event {
                PacketEvent::EndOfStream => next matches Ok(ScanStep::Finish) && *final(self)
                    == *old(self),
                PacketEvent::ResetRequired => next matches Ok(ScanStep::ResetCodec) && *final(self) == *old(self),
                PacketEvent::OtherTrack | PacketEvent::Corrupt => next matches Ok(
                    ScanStep::Continue,
                ) && *final(self) == *old(self),
                PacketEvent::Failed(message) => {
                    &&& next matches Err(error)
                    &&& error@ == (ScanFailure::Decode { stem: stem_name@, message: message@ })
                    &&& *final(self) == *old(self)
                },
                PacketEvent::Decoded(mono) => if mono@.len() == 0 {
                    next matches Ok(ScanStep::Continue) && *final(self) == *old(self)
                } else {
                    &&& next matches Ok(ScanStep::Measure { samples, captures_due, progress })
                    &&& samples == mono
                    &&& *final(self) == old(self).after_samples(mono@.len() as int)
                    &&& captures_due == final(self).captures - old(self).captures
                    &&& progress == if old(self).progress_due(
                        old(self).processed_samples + mono@.len(),
                    ) {
                        Some(final(self).processed_samples)
                    } else {
                        None
                    }
                },
            },
    {
        match event {
            PacketEvent::EndOfStream => Ok(ScanStep::Finish),
            PacketEvent::ResetRequired => Ok(ScanStep::ResetCodec),
            PacketEvent::OtherTrack => Ok(ScanStep::Continue),
            PacketEvent::Corrupt => Ok(ScanStep::Continue),
            PacketEvent::Failed(message) => Err(
                ScannerError::Decode { stem: String::from_str(stem_name), message },
            ),
            PacketEvent::Decoded(mono) => {
                let count: usize = mono.len();
                if count == 0 {
                    return Ok(ScanStep::Continue);
                }
                let processed: u64 = self.processed_samples + count as u64;
                let pps: u128 = self.points_per_second as u128;
                let rate: u128 = self.sample_rate as u128;
                proof {
                    assert(processed * pps <= u64::MAX * 2) by (nonlinear_arith)
                        requires
                            processed <= u64::MAX,
                            0 <= pps <= 2,
                    ;
                    lemma_captures_grow(
                        self.processed_samples as int,
                        processed as int,
                        pps as int,
                        rate as int,
                    );
                    assert(self.next_progress_secs * rate <= (u64::MAX + 5 * u32::MAX)) by (nonlinear_arith)
                        requires
                            (self.next_progress_secs - 5) * rate <= self.processed_samples,
                            self.processed_samples <= u64::MAX,
                            rate <= u32::MAX,
                    ;
                    assert(self.next_progress_secs <= u64::MAX + 5) by (nonlinear_arith)
                        requires
                            (self.next_progress_secs - 5) * rate <= self.processed_samples,
                            self.processed_samples <= u64::MAX,
                            rate >= 1,
                    ;
                }
                let captures: u128 = processed as u128 * pps / rate + 1;
                let captures_due: u128 = captures - self.captures;
                let due: bool = processed as u128 >= self.next_progress_secs * rate;
                let progress: Option<u64> = if due {
                    Some(processed)
                } else {
                    None
                };
                self.processed_samples = processed;
                self.captures = captures;
                if due {
                    self.next_progress_secs = self.next_progress_secs
                        + STEM_SCAN_PROGRESS_INTERVAL_SECS as u128;
                }
                Ok(ScanStep::Measure { samples: mono, captures_due, progress })
            },
        }
    }
}

impl OfflineLoudnessScanner {
    /// Begins the scan of a stem at `sample_rate`. There is none to begin
    /// at rate zero, or with a scanner of other than one or two readings per
    /// second.
    pub fn begin_stem(&self, sample_rate: u32) -> (scan: Option<StemScan>)
        ensures
            scan is Some <==> sample_rate > 0 && 1 <= self.points_per_second <= 2,
            scan matches Some(begun) ==> begun.wf() && begun == (StemScan {
                points_per_second: self.points_per_second,
                sample_rate,
                processed_samples: 0,
                captures: 0,
                next_progress_secs: STEM_SCAN_PROGRESS_INTERVAL_SECS as u128,
            }),
    {
        if sample_rate == 0 || self.points_per_second < 1 || self.points_per_second > 2 {
            return None;
        }
        Some(
            StemScan {
                points_per_second: self.points_per_second,
                sample_rate,
                processed_samples: 0,
                captures: 0,
                next_progress_secs: STEM_SCAN_PROGRESS_INTERVAL_SECS as u128,
            },
        )
    }
}

/// Readings never get fewer as samples come in, and the first samples bring
/// at least one.
pub proof fn lemma_captures_grow(before: int, after: int, points_per_second: int, sample_rate: int)
    requires
        0 <= before <= after,
        points_per_second >= 1,
        sample_rate >= 1,
    ensures
        captures_by(before, points_per_second, sample_rate) <= captures_by(
            after,
            points_per_second,
            sample_rate,
        ),
        captures_by(before, points_per_second, sample_rate) >= 1,
{
    assert(before * points_per_second <= after * points_per_second) by (nonlinear_arith)
        requires
            before <= after,
            points_per_second >= 1,
    ;
    assert(0 <= before * points_per_second) by (nonlinear_arith)
        requires
            0 <= before,
            points_per_second >= 1,
    ;
    vstd::arithmetic::div_mod::lemma_div_is_ordered(
        before * points_per_second,
        after * points_per_second,
        sample_rate,
    );
    vstd::arithmetic::div_mod::lemma_div_pos_is_pos(before * points_per_second, sample_rate);
}

/// A stem of `seconds` whole seconds yields `seconds * points_per_second + 1`
/// readings of each kind, however it is cut into packets: one at the start
/// of every interval and one at the very end.
pub proof fn lemma_capture_count(scan: StemScan, seconds: int)
    requires
        scan.wf(),
        seconds >= 1,
        scan.processed_samples == seconds * scan.sample_rate,
    ensures
        scan.captures == seconds * scan.points_per_second + 1,
{
    let pps = scan.points_per_second as int;
    let rate = scan.sample_rate as int;
    let processed = scan.processed_samples as int;
    assert(processed > 0) by (nonlinear_arith)
        requires
            processed == seconds * rate,
            seconds >= 1,
            rate >= 1,
    ;
    assert(processed * pps == rate * (seconds * pps)) by (nonlinear_arith)
        requires
            processed == seconds * rate,
    ;
    vstd::arithmetic::div_mod::lemma_div_multiples_vanish(seconds * pps, rate);
}

} // verus!
