//! The registry: where a crate's index file lives, what its latest entry
//! holds, and the cache that remembers it.

use crate::map::index_of;
use crate::map::lemma_index_of;
use crate::map::list_texts;
use crate::map::NameMap;
use crate::parse::NEWLINE;
use vstd::prelude::*;
use vstd::string::StrSliceExecFns;
use vstd::string::StringExecFns;

verus! {

pub const REGISTRY_URL: &'static str = "https://index.crates.io";

pub const API_URL: &'static str = "https://crates.io/api/v1/crates";

pub const DOCS_RS_URL: &'static str = "https://docs.rs";

/// Why a crate could not be resolved.
#[derive(Debug)]
pub enum Error {
    /// The registry could not be reached, or answered without success.
    Request { url: String },
    /// The registry answered, but not with an index that can be read.
    Parse { name: String },
}

impl Error {
    /// The text of this error.
    pub open spec fn message_of(self) -> Seq<char> {
        match self {
            Error::Request { url } => "failed to fetch `"@ + url@ + "`"@,
            Error::Parse { name } => "failed to parse body of the index of crate `"@ + name@
                + "`"@,
        }
    }

    /// Describes this error for a reader.
    pub fn message(&self) -> (out: String)
        ensures
            out@ == self.message_of(),
    {
        match self {
            Error::Request { url } => {
                let mut out = String::from_str("failed to fetch `");
                out.append(url.as_str());
                out.append("`");
                out
            },
            Error::Parse { name } => {
                let mut out = String::from_str("failed to parse body of the index of crate `");
                out.append(name.as_str());
                out.append("`");
                out
            },
        }
    }
}

/// The path of a crate's index file below the registry's root. Names of one,
/// two and three characters have directories of their own; longer names lie
/// under their first two and their next two characters.
pub open spec fn index_path(name: Seq<char>) -> Seq<char> {
    if name.len() == 1 {
        "1/"@ + name
    } else if name.len() == 2 {
        "2/"@ + name
    } else if name.len() == 3 {
        "3/"@ + name.subrange(0, 1) + "/"@ + name
    } else {
        name.subrange(0, 2) + "/"@ + name.subrange(2, 4) + "/"@ + name
    }
}

/// The address of a crate's index file.
pub open spec fn index_url_of(name: Seq<char>) -> Seq<char> {
    REGISTRY_URL@ + "/"@ + index_path(name)
}

/// The address of a crate's metadata.
pub open spec fn api_url_of(name: Seq<char>) -> Seq<char> {
    API_URL@ + "/"@ + name
}

/// Builds the address of the index file of the crate `name`.
pub fn index_url(name: &str) -> (url: String)
    requires
        name@.len() > 0,
    ensures
        url@ == index_url_of(name@),
{
    let len = name.unicode_len();
    let mut url = String::from_str(REGISTRY_URL);
    url.append("/");
    if len == 1 {
        url.append("1/");
    } else if len == 2 {
        url.append("2/");
    } else if len == 3 {
        url.append("3/");
        url.append(name.substring_char(0, 1));
        url.append("/");
    } else {
        url.append(name.substring_char(0, 2));
        url.append("/");
        url.append(name.substring_char(2, 4));
        url.append("/");
    }
    url.append(name);
    url
}

/// Builds the address of the metadata of the crate `name`.
pub fn api_url(name: &str) -> (url: String)
    ensures
        url@ == api_url_of(name@),
{
    let mut url = String::from_str(API_URL);
    url.append("/");
    url.append(name);
    url
}

/// What an index entry means where it does not say whether default features
/// are switched on.
pub fn return_true() -> (b: bool)
    ensures
        b,
{
    true
}

/// What an index entry means where it does not say whether a dependency is
/// optional.
pub fn return_false() -> (b: bool)
    ensures
        !b,
{
    false
}

/// The schema version of an index entry that names none.
pub fn return_1() -> (v: u32)
    ensures
        v == 1,
{
    1
}

/// The numeral of a digit.
pub open spec fn digit(d: nat) -> Seq<char> {
    if d == 0 {
        "0"@
    } else if d == 1 {
        "1"@
    } else if d == 2 {
        "2"@
    } else if d == 3 {
        "3"@
    } else if d == 4 {
        "4"@
    } else if d == 5 {
        "5"@
    } else if d == 6 {
        "6"@
    } else if d == 7 {
        "7"@
    } else if d == 8 {
        "8"@
    } else {
        "9"@
    }
}

/// A number written in decimal, without leading zeros.
pub open spec fn decimal(n: nat) -> Seq<char>
    decreases n,
{
    if n < 10 {
        digit(n)
    } else {
        decimal(n / 10) + digit(n % 10)
    }
}

fn digit_str(d: u64) -> (out: &'static str)
    requires
        d < 10,
    ensures
        out@ == digit(d as nat),
{
    if d == 0 {
        "0"
    } else if d == 1 {
        "1"
    } else if d == 2 {
        "2"
    } else if d == 3 {
        "3"
    } else if d == 4 {
        "4"
    } else if d == 5 {
        "5"
    } else if d == 6 {
        "6"
    } else if d == 7 {
        "7"
    } else if d == 8 {
        "8"
    } else {
        "9"
    }
}

/// Writes a number in decimal.
pub fn decimal_string(n: u64) -> (out: String)
    ensures
        out@ == decimal(n as nat),
    decreases n,
{
    if n < 10 {
        String::from_str(digit_str(n))
    } else {
        let mut out = decimal_string(n / 10);
        out.append(digit_str(n % 10));
        out
    }
}

/// A semantic version: three numbers, and the pre-release and build
/// identifiers, each empty where the version has none.
#[derive(Debug)]
pub struct Version {
    pub major: u64,
    pub minor: u64,
    pub patch: u64,
    pub pre: String,
    pub build: String,
}

/// What a `Version` holds.
pub struct VersionView {
    pub major: u64,
    pub minor: u64,
    pub patch: u64,
    pub pre: Seq<char>,
    pub build: Seq<char>,
}

impl View for Version {
    type V = VersionView;

    open spec fn view(&self) -> VersionView {
        VersionView {
            major: self.major,
            minor: self.minor,
            patch: self.patch,
            pre: self.pre@,
            build: self.build@,
        }
    }
}

/// `-` and the identifiers where there are any.
pub open spec fn suffix(mark: Seq<char>, identifiers: Seq<char>) -> Seq<char> {
    if identifiers.len() == 0 {
        Seq::empty()
    } else {
        mark + identifiers
    }
}

/// `major.minor.patch`.
pub open spec fn triple_text(major: u64, minor: u64, patch: u64) -> Seq<char> {
    decimal(major as nat) + "."@ + decimal(minor as nat) + "."@ + decimal(patch as nat)
}

/// A version as it is written: `major.minor.patch`, then `-` and the
/// pre-release, then `+` and the build, where it has them.
pub open spec fn version_text(version: VersionView) -> Seq<char> {
    triple_text(version.major, version.minor, version.patch) + suffix("-"@, version.pre) + suffix(
        "+"@,
        version.build,
    )
}

impl Version {
    /// A copy of this version.
    pub fn duplicate(&self) -> (copy: Self)
        ensures
            copy@ == self@,
    {
        Version {
            major: self.major,
            minor: self.minor,
            patch: self.patch,
            pre: self.pre.clone(),
            build: self.build.clone(),
        }
    }

    /// Writes the version out.
    pub fn to_string(&self) -> (out: String)
        ensures
            out@ == version_text(self@),
    {
        let mut out = decimal_string(self.major);
        out.append(".");
        out.append(decimal_string(self.minor).as_str());
        out.append(".");
        out.append(decimal_string(self.patch).as_str());
        if !self.pre.as_str().is_empty() {
            out.append("-");
            out.append(self.pre.as_str());
        }
        if !self.build.as_str().is_empty() {
            out.append("+");
            out.append(self.build.as_str());
        }
        out
    }
}

/// The version that a text stands for, if it stands for one.
pub uninterp spec fn parsed_version(text: Seq<char>) -> Option<VersionView>;

/// Parses a semantic version with `semver::Version::parse` and copies out
/// its three numbers and the texts of its pre-release and build. The same
/// text gives the same version; a text that is none gives `None`.
#[verifier::external_body]
fn parse_version(text: &str) -> (version: Option<Version>)
    ensures
        match parsed_version(text@) {
            Some(view) => version matches Some(found) && found@ == view,
            None => version is None,
        },
{
    match semver::Version::parse(text) {
        Ok(v) => Some(
            Version {
                major: v.major,
                minor: v.minor,
                patch: v.patch,
                pre: v.pre.as_str().to_owned(),
                build: v.build.as_str().to_owned(),
            },
        ),
        Err(_) => None,
    }
}

/// The features of a crate: each name with what it enables.
pub struct FeaturesView {
    pub names: Seq<Seq<char>>,
    pub enables: Seq<Seq<Seq<char>>>,
}

/// What a feature map holds.
pub open spec fn features_view(features: Option<NameMap<Vec<String>>>) -> Option<FeaturesView> {
    match features {
        Some(map) => Some(FeaturesView { names: map.keys(), enables: list_texts(map.values()) }),
        None => None,
    }
}

/// What an optional text holds.
pub open spec fn text_view(text: Option<String>) -> Option<Seq<char>> {
    match text {
        Some(text) => Some(text@),
        None => None,
    }
}

/// The latest published state of a crate.
#[derive(Debug)]
pub struct Latest {
    pub version: Version,
    pub features: Option<NameMap<Vec<String>>>,
    pub description: Option<String>,
}

/// What a `Latest` holds.
pub struct LatestView {
    pub version: VersionView,
    pub features: Option<FeaturesView>,
    pub description: Option<Seq<char>>,
}

impl View for Latest {
    type V = LatestView;

    open spec fn view(&self) -> LatestView {
        LatestView {
            version: self.version@,
            features: features_view(self.features),
            description: text_view(self.description),
        }
    }
}

/// A copy of an optional feature map.
pub fn duplicate_features(features: &Option<NameMap<Vec<String>>>) -> (copy: Option<
    NameMap<Vec<String>>,
>)
    requires
        features matches Some(map) ==> map.wf(),
    ensures
        features_view(copy) == features_view(*features),
        copy matches Some(map) ==> map.wf(),
{
    match features {
        Some(map) => Some(map.duplicate()),
        None => None,
    }
}

impl Latest {
    /// The feature map of this entry, where it has one, is well formed.
    pub open spec fn wf(&self) -> bool {
        self.features matches Some(map) ==> map.wf()
    }

    /// A copy of this entry.
    pub fn duplicate(&self) -> (copy: Self)
        requires
            self.wf(),
        ensures
            copy@ == self@,
            copy.wf(),
    {
        Latest {
            version: self.version.duplicate(),
            features: duplicate_features(&self.features),
            description: match &self.description {
                Some(text) => Some(text.clone()),
                None => None,
            },
        }
    }
}

/// What a dependency of a published version is needed for.
#[derive(Clone, Copy, Debug, PartialEq, Eq, Structural)]
pub enum DependencyKind {
    Dev,
    Build,
    Normal,
}

impl Default for DependencyKind {
    fn default() -> (kind: Self)
        ensures
            kind == DependencyKind::Normal,
    {
        Self::Normal
    }
}

/// A dependency of a published version, as the index records it.
#[derive(Debug)]
pub struct Dependency {
    pub name: String,
    pub req: String,
    pub features: Option<Vec<String>>,
    pub optional: bool,
    pub default_features: bool,
    pub target: Option<String>,
    pub kind: DependencyKind,
    pub registry: Option<String>,
    pub package: Option<String>,
}

/// One published version, as one line of the index records it.
#[derive(Debug)]
pub struct Entry {
    pub name: String,
    pub vers: String,
    pub deps: Vec<Dependency>,
    pub cksum: String,
    pub features: Option<NameMap<Vec<String>>>,
    pub yanked: bool,
    pub links: Option<String>,
    /// The schema version of this entry.
    pub v: u32,
    /// Features in the extended syntax, used from schema version 2 on.
    pub features2: Option<NameMap<Vec<String>>>,
    pub rust_version: Option<String>,
}

impl Entry {
    /// The feature maps of this entry are well formed.
    pub open spec fn wf(&self) -> bool {
        &&& self.features matches Some(map) ==> map.wf()
        &&& self.features2 matches Some(map) ==> map.wf()
    }

    /// The features that count: those in the extended syntax from schema
    /// version 2 on, else the plain ones.
    pub open spec fn chosen_features(&self) -> Option<NameMap<Vec<String>>> {
        if self.v >= 2 {
            self.features2
        } else {
            self.features
        }
    }
}

/// The entries of a crate's index file, oldest first.
#[derive(Debug)]
pub struct Index {
    pub entries: Vec<Entry>,
}

/// Whether every line of an index was read.
pub open spec fn all_read(lines: Seq<Option<Entry>>) -> bool {
    forall|i: int| 0 <= i < lines.len() ==> (#[trigger] lines[i]) is Some
}

impl Index {
    /// Every entry is well formed.
    pub open spec fn wf(&self) -> bool {
        forall|i: int| 0 <= i < self.entries.len() ==> (#[trigger] self.entries[i]).wf()
    }

    /// Collects the entries that the lines of an index file were read as.
    /// One line that could not be read fails the whole index.
    pub fn parse(name: &str, lines: Vec<Option<Entry>>) -> (parsed: Result<Self, Error>)
        ensures
            all_read(lines@) ==> (parsed matches Ok(index) && index.entries.len() == lines.len()
                && forall|i: int|
                0 <= i < lines.len() ==> lines[i] == Some(#[trigger] index.entries[i])),
            !all_read(lines@) ==> (parsed matches Err(Error::Parse { name: failed }) && failed@
                == name@),
    {
        let mut slots = lines;
        let mut entries: Vec<Entry> = Vec::new();
        let count = slots.len();
        let mut i: usize = 0;
        while i < count
            invariant
                i <= count,
                count == lines.len(),
                slots.len() == count,
                entries.len() == i,
                forall|k: int| i <= k < count ==> slots[k] == lines[k],
                forall|k: int| 0 <= k < i ==> lines[k] == Some(#[trigger] entries[k]),
            decreases count - i,
        {
            let mut slot: Option<Entry> = None;
            core::mem::swap(&mut slots[i], &mut slot);
            match slot {
                Some(entry) => {
                    entries.push(entry);
                },
                None => {
                    return Err(Error::Parse { name: name.to_owned() });
                },
            }
            i = i + 1;
        }
        assert forall|k: int| 0 <= k < lines.len() implies (#[trigger] lines[k]) is Some by {
            assert(lines[k] == Some(entries[k]));
        }
        Ok(Index { entries })
    }
}

/// The byte that may stand before a newline and then belongs to the line
/// ending.
pub const CARRIAGE_RETURN: u8 = 13;

/// Where the content of the line from `start` to the newline at `end`
/// stops: before a carriage return that stands right before the newline.
pub open spec fn content_end(bytes: Seq<u8>, start: int, end: int) -> int {
    if start < end <= bytes.len() && bytes[end - 1] == CARRIAGE_RETURN {
        end - 1
    } else {
        end
    }
}

/// The lines of a text, each as the byte range of its content, found by a
/// scan that has come to offset `i` in a line that begins at `start`. A
/// line ends with a newline, or with a carriage return and a newline; the
/// last line may go without. No line follows the last ending.
pub open spec fn lines_scan(bytes: Seq<u8>, start: int, i: int) -> Seq<(int, int)>
    decreases bytes.len() - i,
{
    if i < 0 || i >= bytes.len() {
        if start < bytes.len() {
            seq![(start, bytes.len() as int)]
        } else {
            Seq::empty()
        }
    } else if bytes[i] == NEWLINE {
        seq![(start, content_end(bytes, start, i))] + lines_scan(bytes, i + 1, i + 1)
    } else {
        lines_scan(bytes, start, i + 1)
    }
}

/// The lines of a text, each as the byte range of its content.
pub open spec fn lines_of(bytes: Seq<u8>) -> Seq<(int, int)> {
    lines_scan(bytes, 0, 0)
}

/// The two ends of each range of a list.
pub open spec fn range_ends(ranges: Seq<core::ops::Range<usize>>) -> Seq<(int, int)> {
    Seq::new(ranges.len(), |i: int| (ranges[i].start as int, ranges[i].end as int))
}

/// Frames an index file: the byte range of the content of each line.
pub fn line_ranges(bytes: &[u8]) -> (ranges: Vec<core::ops::Range<usize>>)
    ensures
        range_ends(ranges@) == lines_of(bytes@),
        forall|i: int|
            0 <= i < ranges.len() ==> (#[trigger] ranges[i]).start <= ranges[i].end <= bytes.len(),
{
    let mut ranges: Vec<core::ops::Range<usize>> = Vec::new();
    let len = bytes.len();
    let mut start: usize = 0;
    let mut i: usize = 0;
    while i < len
        invariant
            len == bytes.len(),
            start <= i <= len,
            range_ends(ranges@) + lines_scan(bytes@, start as int, i as int) =~= lines_of(bytes@),
            forall|k: int|
                0 <= k < ranges.len() ==> (#[trigger] ranges[k]).start <= ranges[k].end <= len,
        decreases len - i,
    {
        if bytes[i] == NEWLINE {
            let stop: usize = if start < i && bytes[i - 1] == CARRIAGE_RETURN {
                i - 1
            } else {
                i
            };
            ranges.push(start..stop);
            start = i + 1;
        }
        i = i + 1;
    }
    if start < len {
        ranges.push(start..len);
    }
    ranges
}

/// What came back from a request: the status of the answer, if there was
/// one, and its body, if it could be read.
#[derive(Debug)]
pub struct Reply {
    pub status: Option<u16>,
    pub body: Option<String>,
}

/// Whether a status reports success.
pub open spec fn is_success(status: Option<u16>) -> bool {
    status matches Some(code) && 200 <= code < 300
}

/// Judges the answer of an endpoint: no answer and an answer without
/// success both fail the request for `url`.
pub fn fetch_endpoint(url: &str, status: Option<u16>) -> (checked: Result<(), Error>)
    ensures
        is_success(status) ==> checked is Ok,
        !is_success(status) ==> (checked matches Err(Error::Request { url: failed }) && failed@
            == url@),
{
    match status {
        Some(code) => {
            if 200 <= code && code < 300 {
                Ok(())
            } else {
                Err(Error::Request { url: url.to_owned() })
            }
        },
        None => Err(Error::Request { url: url.to_owned() }),
    }
}

/// The body of a successful answer; a failed request for `url` otherwise.
pub fn fetch_content(url: &str, reply: Reply) -> (content: Result<String, Error>)
    ensures
        is_success(reply.status) && reply.body is Some ==> content == Ok::<String, Error>(
            reply.body->0,
        ),
        !(is_success(reply.status) && reply.body is Some) ==> (content matches Err(
            Error::Request { url: failed },
        ) && failed@ == url@),
{
    match fetch_endpoint(url, reply.status) {
        Ok(()) => match reply.body {
            Some(body) => Ok(body),
            None => Err(Error::Request { url: url.to_owned() }),
        },
        Err(error) => Err(error),
    }
}

/// The latest state that the newest entry of an index stands for, once its
/// version is read. The description is not part of the index.
pub open spec fn latest_view(entry: Entry, version: VersionView) -> LatestView {
    LatestView { version, features: features_view(entry.chosen_features()), description: None }
}

/// What an index resolves to: its last entry, which is the newest, with the
/// version that the entry's text stands for. An index without entries
/// resolves to nothing, and so does one whose last entry names no version.
pub open spec fn resolved(index: Index) -> Option<LatestView> {
    if index.entries.len() == 0 {
        None
    } else {
        match parsed_version(index.entries@.last().vers@) {
            Some(version) => Some(latest_view(index.entries@.last(), version)),
            None => None,
        }
    }
}

impl Latest {
    /// The latest state that `entry` stands for, given its version.
    pub fn from_entry(entry: &Entry, version: Version) -> (latest: Self)
        requires
            entry.wf(),
        ensures
            latest@ == latest_view(*entry, version@),
            latest.wf(),
    {
        let features = if entry.v >= 2 {
            duplicate_features(&entry.features2)
        } else {
            duplicate_features(&entry.features)
        };
        Latest { version, features, description: None }
    }
}

/// Resolves the index of the crate `name` to its latest state.
pub fn latest_of(name: &str, index: &Index) -> (latest: Result<Latest, Error>)
    requires
        index.wf(),
    ensures
        match resolved(*index) {
            Some(view) => latest matches Ok(found) && found@ == view && found.wf(),
            None => latest matches Err(Error::Parse { name: failed }) && failed@ == name@,
        },
{
    let count = index.entries.len();
    if count == 0 {
        return Err(Error::Parse { name: name.to_owned() });
    }
    let newest = &index.entries[count - 1];
    match parse_version(newest.vers.as_str()) {
        Some(version) => Ok(Latest::from_entry(newest, version)),
        None => Err(Error::Parse { name: name.to_owned() }),
    }
}

/// The least time, in nanoseconds, between two requests for metadata.
pub const API_INTERVAL: u64 = 1_000_000_000;

/// Whether a request for metadata may go out at `now`, the last one having
/// gone out at `last`: not before the interval has passed. Times are
/// nanoseconds on a clock that does not run backwards.
pub open spec fn allows(last: u64, now: u64) -> bool {
    now >= last && now - last >= API_INTERVAL
}

/// The time of the last request that went out, after one was asked for at
/// `now`.
pub open spec fn allowed_at(last: u64, now: u64) -> u64 {
    if allows(last, now) {
        now
    } else {
        last
    }
}

/// Decides whether a request for metadata may go out at `now`.
pub fn request_allowed(last: u64, now: u64) -> (allowed: bool)
    ensures
        allowed == allows(last, now),
{
    now >= last && now - last >= API_INTERVAL
}

/// Of two requests less than the interval apart, at most one is allowed; a
/// third that comes when the interval has passed since the last allowed one
/// is allowed.
pub proof fn lemma_rate_limit(last: u64, first: u64, second: u64, third: u64)
    requires
        first <= second,
        second - first < API_INTERVAL,
    ensures
        !(allows(last, first) && allows(allowed_at(last, first), second)),
        third >= allowed_at(allowed_at(last, first), second) && third - allowed_at(
            allowed_at(last, first),
            second,
        ) >= API_INTERVAL ==> allows(allowed_at(allowed_at(last, first), second), third),
{
}

/// What to do next for a crate that is to be resolved.
#[derive(Debug)]
pub enum Action {
    /// Nothing is to be fetched: this is the answer.
    Return(Latest),
    /// Fetch the crate's metadata from `url` and report its description.
    FetchDescription { url: String },
    /// Fetch the crate's index file from `url` and report its entries.
    FetchIndex { url: String },
}

/// What an `Action` holds.
pub enum ActionView {
    Return(LatestView),
    FetchDescription { url: Seq<char> },
    FetchIndex { url: Seq<char> },
}

impl View for Action {
    type V = ActionView;

    open spec fn view(&self) -> ActionView {
        match *self {
            Action::Return(latest) => ActionView::Return(latest@),
            Action::FetchDescription { url } => ActionView::FetchDescription { url: url@ },
            Action::FetchIndex { url } => ActionView::FetchIndex { url: url@ },
        }
    }
}

/// Whether resolving asks for metadata: the crate is known, its description
/// is not.
pub open spec fn wants_description(cached: Option<LatestView>) -> bool {
    cached matches Some(entry) && entry.description is None
}

/// What resolving `name` does next. A crate that is not known has its index
/// fetched. One that is known is answered from the cache, unless its
/// description is missing and a request for metadata is allowed.
pub open spec fn next_action(cached: Option<LatestView>, allowed: bool, name: Seq<char>)
    -> ActionView {
    match cached {
        Some(entry) => if entry.description is None && allowed {
            ActionView::FetchDescription { url: api_url_of(name) }
        } else {
            ActionView::Return(entry)
        },
        None => ActionView::FetchIndex { url: index_url_of(name) },
    }
}

/// An entry with the description that was fetched for it, if one was.
pub open spec fn with_description(entry: LatestView, fetched: Option<Seq<char>>) -> LatestView {
    LatestView {
        version: entry.version,
        features: entry.features,
        description: match fetched {
            Some(text) => Some(text),
            None => entry.description,
        },
    }
}

/// A known crate is never fetched from the index again: resolving it twice
/// fetches its index once.
pub proof fn lemma_known_crate_is_not_fetched(entry: LatestView, allowed: bool, name: Seq<char>)
    ensures
        !(next_action(Some(entry), allowed, name) is FetchIndex),
{
}

/// Whether a crate exists, as far as the cache can tell.
#[derive(Debug)]
pub enum Probe {
    /// The crate is known.
    Available,
    /// The crate is not known: it exists if its index file at `url` does.
    Ask { url: String },
}

impl Probe {
    /// Whether the crate exists, given how the request for its index file
    /// went: a crate that is known exists; one that is not exists if the
    /// request succeeded. A request that failed in any way says that it
    /// does not.
    pub fn answer(&self, status: Option<u16>) -> (available: bool)
        ensures
            available == (*self is Available || is_success(status)),
    {
        match self {
            Probe::Available => true,
            Probe::Ask { url } => fetch_endpoint(url.as_str(), status).is_ok(),
        }
    }
}

/// Every entry of the list is well formed.
pub open spec fn all_latest_wf(entries: Seq<Latest>) -> bool {
    forall|i: int| 0 <= i < entries.len() ==> (#[trigger] entries[i]).wf()
}

/// A cache of the latest state of crates, with the time of the last request
/// for metadata. It grows and never forgets.
#[derive(Debug)]
pub struct RegistryCache {
    crates: NameMap<Latest>,
    last_api_request: u64,
}

impl RegistryCache {
    /// Each crate is cached once, and each entry is well formed. Every cache
    /// that the functions of this type hand out is well formed.
    pub closed spec fn wf(&self) -> bool {
        self.crates.wf() && all_latest_wf(self.crates.values())
    }

    /// The names of the cached crates, in the order in which they came.
    pub closed spec fn names(&self) -> Seq<Seq<char>> {
        self.crates.keys()
    }

    /// What is cached for `name`.
    pub closed spec fn cached(&self, name: Seq<char>) -> Option<LatestView> {
        match self.crates.value_of(name) {
            Some(latest) => Some(latest@),
            None => None,
        }
    }

    /// When the last request for metadata went out.
    pub closed spec fn last_request(&self) -> u64 {
        self.last_api_request
    }

    /// A crate that is cached has exactly one entry.
    pub proof fn lemma_one_entry(&self, name: Seq<char>)
        requires
            self.wf(),
            self.cached(name) is Some,
        ensures
            exists|i: int|
                0 <= i < self.names().len() && self.names()[i] == name && forall|j: int|
                    0 <= j < self.names().len() && self.names()[j] == name ==> j == i,
    {
        self.crates.lemma_wf();
        lemma_index_of(self.crates.keys(), name);
        let i = index_of(self.crates.keys(), name)->0;
        assert forall|j: int| 0 <= j < self.names().len() && self.names()[j] == name implies j
            == i by {}
    }

    /// An empty cache, made at the time `now`. The first request for
    /// metadata has to wait as if one had gone out then.
    pub fn new(now: u64) -> (cache: Self)
        ensures
            cache.wf(),
            cache.names() == Seq::<Seq<char>>::empty(),
            forall|name: Seq<char>| cache.cached(name) is None,
            cache.last_request() == now,
    {
        RegistryCache { crates: NameMap::new(), last_api_request: now }
    }

    /// The address of the metadata of `name`, if a request may go out at
    /// `now`; it then counts as gone out.
    fn fetch_description_rated(&mut self, name: &str, now: u64) -> (url: Option<String>)
        ensures
            allows(old(self).last_request(), now) ==> (url matches Some(address) && address@
                == api_url_of(name@)),
            !allows(old(self).last_request(), now) ==> url is None,
            final(self).last_request() == allowed_at(old(self).last_request(), now),
            final(self).crates == old(self).crates,
    {
        if request_allowed(self.last_api_request, now) {
            self.last_api_request = now;
            Some(api_url(name))
        } else {
            None
        }
    }

    /// Begins to resolve the crate `name` at the time `now`: answers from
    /// the cache, or says what to fetch.
    pub fn fetch(&mut self, name: &str, now: u64) -> (action: Action)
        requires
            old(self).wf(),
            name@.len() > 0,
        ensures
            final(self).wf(),
            action@ == next_action(
                old(self).cached(name@),
                allows(old(self).last_request(), now),
                name@,
            ),
            action matches Action::Return(latest) ==> latest.wf(),
            final(self).last_request() == if wants_description(old(self).cached(name@)) {
                allowed_at(old(self).last_request(), now)
            } else {
                old(self).last_request()
            },
            final(self).names() == old(self).names(),
            forall|other: Seq<char>| final(self).cached(other) == old(self).cached(other),
    {
        proof {
            lemma_index_of(self.crates.keys(), name@);
            self.crates.lemma_wf();
        }
        let known = match self.crates.get(name) {
            Some(entry) => Some(entry.duplicate()),
            None => None,
        };
        match known {
            Some(entry) => {
                if entry.description.is_some() {
                    Action::Return(entry)
                } else {
                    match self.fetch_description_rated(name, now) {
                        Some(url) => Action::FetchDescription { url },
                        None => Action::Return(entry),
                    }
                }
            },
            None => Action::FetchIndex { url: index_url(name) },
        }
    }

    /// Takes in the description that was fetched for `name`, or that none
    /// could be had, and answers with the entry. `None` for a crate that is
    /// not cached.
    pub fn description_fetched(&mut self, name: &str, description: Option<String>) -> (latest:
        Option<Latest>)
        requires
            old(self).wf(),
        ensures
            final(self).wf(),
            match old(self).cached(name@) {
                Some(entry) => latest matches Some(found) && found@ == with_description(
                    entry,
                    text_view(description),
                ) && found.wf() && final(self).cached(name@) == Some(found@),
                None => latest is None && final(self).cached(name@) is None,
            },
            final(self).names() == old(self).names(),
            final(self).last_request() == old(self).last_request(),
            forall|other: Seq<char>|
                other != name@ ==> final(self).cached(other) == old(self).cached(other),
    {
        proof {
            lemma_index_of(self.crates.keys(), name@);
            self.crates.lemma_wf();
        }
        let known = match self.crates.get(name) {
            Some(entry) => Some(entry.duplicate()),
            None => None,
        };
        match known {
            Some(entry) => {
                let mut updated = entry;
                if let Some(text) = description {
                    updated.description = Some(text);
                }
                let answer = updated.duplicate();
                self.crates.insert(name.to_owned(), updated);
                Some(answer)
            },
            None => None,
        }
    }

    /// Takes in the index that was fetched for `name`: caches what it
    /// resolves to and answers with it. An index that resolves to nothing
    /// leaves the cache as it was.
    pub fn index_fetched(&mut self, name: &str, index: &Index) -> (latest: Result<Latest, Error>)
        requires
            old(self).wf(),
            index.wf(),
        ensures
            final(self).wf(),
            match resolved(*index) {
                Some(view) => latest matches Ok(found) && found@ == view && found.wf()
                    && final(self).cached(name@) == Some(view) && final(self).names() == (if old(
                    self,
                ).cached(name@) is Some {
                    old(self).names()
                } else {
                    old(self).names().push(name@)
                }) && forall|other: Seq<char>|
                    other != name@ ==> final(self).cached(other) == old(self).cached(other),
                None => latest matches Err(Error::Parse { name: failed }) && failed@ == name@
                    && final(self).names() == old(self).names() && forall|other: Seq<char>|
                    final(self).cached(other) == old(self).cached(other),
            },
            final(self).last_request() == old(self).last_request(),
    {
        match latest_of(name, index) {
            Ok(latest) => {
                let answer = latest.duplicate();
                proof {
                    lemma_index_of(self.crates.keys(), name@);
                    self.crates.lemma_wf();
                }
                self.crates.insert(name.to_owned(), latest);
                Ok(answer)
            },
            Err(error) => Err(error),
        }
    }

    /// Whether the crate `name` exists: it does if it is cached; else the
    /// answer lies with its index file.
    pub fn is_availabe(&self, name: &str) -> (probe: Probe)
        requires
            self.wf(),
            name@.len() > 0,
        ensures
            self.cached(name@) is Some ==> probe is Available,
            self.cached(name@) is None ==> (probe matches Probe::Ask { url } && url@
                == index_url_of(name@)),
    {
        if self.crates.contains_key(name) {
            Probe::Available
        } else {
            Probe::Ask { url: index_url(name) }
        }
    }
}

} // verus!
