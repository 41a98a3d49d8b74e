//! Commit watching, workspace naming and the per-commit run.

pub mod dispatch;
pub mod svc;

use crate::generate_conf::file_struct::{Commit, ConfigFile};
use crate::text::{
    adjoin, adjoined, int_decimal, lemma_count_of_concat, lemma_int_decimal_differs,
    lemma_nat_decimal, lemma_split_on_concat, lemma_split_on_len, lemma_split_on_pieces,
    lemma_split_on_whole, push_int_decimal, slash_join, slash_joined, split, split_on,
    str_views, string_views,
};
use vstd::prelude::*;
use vstd::string::*;

verus! {

/// Why no workspace name could be produced.
#[derive(Debug, Clone, Copy, PartialEq, Eq, Structural)]
pub enum FolderFormatError {
    /// The name has fewer than four pieces between underscores.
    FailedToFormat,
    /// Every counter up to the largest one is already in use.
    Exhausted,
}

impl FolderFormatError {
    /// The text shown for this error.
    pub fn message(&self) -> (text: String)
        ensures
            text@ == match *self {
                FolderFormatError::FailedToFormat =>
                    "FolderFormatError: Failed to format folder name. Try removing all repeating folders or try again in a minute."@,
                FolderFormatError::Exhausted =>
                    "FolderFormatError: Every folder index is taken. Try removing all repeating folders."@,
            },
    {
        match self {
            FolderFormatError::FailedToFormat =>
                "FolderFormatError: Failed to format folder name. Try removing all repeating folders or try again in a minute.".to_owned(),
            FolderFormatError::Exhausted =>
                "FolderFormatError: Every folder index is taken. Try removing all repeating folders.".to_owned(),
        }
    }
}

/// The pieces of a workspace name: day, month, year, time, and whatever follows.
pub open spec fn segments(path: Seq<char>) -> Seq<Seq<char>> {
    split_on(path, '_')
}

/// A workspace name is well formed when it has at least the four pieces
/// day, month, year and time.
pub open spec fn well_formed(path: Seq<char>) -> bool {
    segments(path).len() >= 4
}

/// The first four pieces, joined by underscores again.
pub open spec fn base_name(parts: Seq<Seq<char>>) -> Seq<char> {
    parts[0] + seq!['_'] + parts[1] + seq!['_'] + parts[2] + seq!['_'] + parts[3]
}

/// The counter as it is appended to a name: an underscore, then the number
/// in decimal, with a zero in front of a number below ten.
pub open spec fn counter_suffix(index: int) -> Seq<char> {
    seq!['_'] + (if index < 10 {
        seq!['0']
    } else {
        Seq::<char>::empty()
    }) + int_decimal(index)
}

/// The name tried for counter `index`: the first four pieces of `path`
/// followed by the counter. An earlier counter on `path` is replaced, not kept.
pub open spec fn candidate(path: Seq<char>, index: int) -> Seq<char> {
    base_name(segments(path)) + counter_suffix(index)
}

/// The pieces of four texts without underscore, joined by underscores and
/// followed by an underscore and anything else, begin with those four.
proof fn lemma_segments_of_joined(
    day: Seq<char>,
    month: Seq<char>,
    year: Seq<char>,
    time: Seq<char>,
    tail: Seq<char>,
)
    requires
        !day.contains('_'),
        !month.contains('_'),
        !year.contains('_'),
        !time.contains('_'),
    ensures
        segments(base_name(seq![day, month, year, time]) + seq!['_'] + tail) == seq![
            day,
            month,
            year,
            time,
        ] + segments(tail),
{
    let under = seq!['_'];
    lemma_split_on_whole(day, '_');
    lemma_split_on_whole(month, '_');
    lemma_split_on_whole(year, '_');
    lemma_split_on_whole(time, '_');
    lemma_split_on_concat(day, month, '_');
    lemma_split_on_concat(day + under + month, year, '_');
    lemma_split_on_concat(day + under + month + under + year, time, '_');
    lemma_split_on_concat(base_name(seq![day, month, year, time]), tail, '_');
    assert(seq![day] + seq![month] + seq![year] + seq![time] =~= seq![day, month, year, time]);
}

/// The counter replaces an earlier one and is never put behind it: the
/// candidates of a candidate are the candidates of the name it was made from.
pub proof fn lemma_counter_is_replaced(path: Seq<char>, first: int, second: int)
    requires
        well_formed(path),
    ensures
        well_formed(candidate(path, first)),
        candidate(candidate(path, first), second) == candidate(path, second),
{
    let parts = segments(path);
    let tail = (if first < 10 {
        seq!['0']
    } else {
        Seq::<char>::empty()
    }) + int_decimal(first);
    lemma_split_on_pieces(path, '_');
    lemma_segments_of_joined(parts[0], parts[1], parts[2], parts[3], tail);
    lemma_split_on_len(tail, '_');
    let four = seq![parts[0], parts[1], parts[2], parts[3]];
    assert(base_name(four) == base_name(parts));
    assert(candidate(path, first) =~= base_name(four) + seq!['_'] + tail);
    let again = segments(candidate(path, first));
    assert(again == four + segments(tail));
    assert(again[0] == parts[0] && again[1] == parts[1] && again[2] == parts[2] && again[3]
        == parts[3]);
    assert(base_name(again) == base_name(parts));
}

/// Different counters give different names, so the names tried for one
/// workspace never repeat.
pub proof fn lemma_candidates_differ(path: Seq<char>, first: int, second: int)
    requires
        first != second,
    ensures
        candidate(path, first) != candidate(path, second),
{
    let base = base_name(segments(path));
    let one = counter_suffix(first);
    let other = counter_suffix(second);
    assert((base + one).skip(base.len() as int) =~= one);
    assert((base + other).skip(base.len() as int) =~= other);
    lemma_int_decimal_differs(first, second);
    if first >= 0 {
        lemma_nat_decimal(first as nat);
    }
    if second >= 0 {
        lemma_nat_decimal(second as nat);
    }
    let a = int_decimal(first);
    let b = int_decimal(second);
    if first < 10 && second < 10 {
        assert(one.skip(2) =~= a);
        assert(other.skip(2) =~= b);
    } else if first >= 10 && second >= 10 {
        assert(one.skip(1) =~= a);
        assert(other.skip(1) =~= b);
    } else if first < 10 {
        assert(one[1] == '0');
        assert(other[1] == b[0]);
    } else {
        assert(other[1] == '0');
        assert(one[1] == a[0]);
    }
}

/// Whether `update_destination` hands `path` back as it is: the name is
/// well formed and nothing exists under it.
pub open spec fn kept_as_it_is(exists: bool, path: Seq<char>) -> bool {
    well_formed(path) && !exists
}

/// A name that was picked once is kept when it is handed in again and found
/// not to exist: resolving a resolved name changes nothing.
pub proof fn lemma_resolved_name_is_kept(path: Seq<char>, index: int)
    requires
        well_formed(path),
    ensures
        kept_as_it_is(false, candidate(path, index)),
{
    lemma_counter_is_replaced(path, index, index);
}

/// Rewrites `path` as the first four of `base_path`, joined by underscores,
/// followed by the counter `index` (`01_Jan_2025_1046_01`).
///
/// With fewer than four pieces nothing is written and the call fails.
pub fn destination_fmt(base_path: &[&str], path: &mut String, index: i32) -> (r: Result<
    (),
    FolderFormatError,
>)
    ensures
        base_path@.len() < 4 ==> r == Err::<(), _>(FolderFormatError::FailedToFormat)
            && final(path)@ == old(path)@,
        base_path@.len() >= 4 ==> r is Ok && final(path)@ == base_name(str_views(base_path@))
            + counter_suffix(index as int),
{
    if base_path.len() < 4 {
        return Err(FolderFormatError::FailedToFormat);
    }
    proof {
        reveal_strlit("_");
        reveal_strlit("0");
    }
    let mut name = String::new();
    name.append(base_path[0]);
    name.append("_");
    name.append(base_path[1]);
    name.append("_");
    name.append(base_path[2]);
    name.append("_");
    name.append(base_path[3]);
    assert(name@ =~= base_name(str_views(base_path@)));
    let ghost base = name@;
    name.append("_");
    if index < 10 {
        name.append("0");
    }
    push_int_decimal(&mut name, index);
    assert(name@ =~= base + counter_suffix(index as int));
    *path = name;
    Ok(())
}

/// Asks the file system whether anything exists at `path`
/// (`std::path::Path::exists`). The answer depends on the disk at the moment
/// of the call, so nothing is claimed of it.
#[verifier::external_body]
pub(crate) fn check_existence(path: &str) -> (found: bool) {
    std::path::Path::new(path).exists()
}

/// What follows one look at a candidate.
#[derive(Debug, Clone, Copy, PartialEq, Eq, Structural)]
pub enum Probe {
    /// Nothing is there: the candidate is taken.
    Take,
    /// The candidate is in use: the one with this counter is tried next.
    Try(i32),
    /// The candidate is in use and no larger counter is left.
    GiveUp,
}

/// The search after the candidate with counter `counter` was looked at and
/// `found` says whether it is in use: a free one is taken, one in use sends
/// the search on to the next counter, and the last counter ends it.
pub open spec fn probe_verdict(found: bool, counter: i32) -> Probe {
    if !found {
        Probe::Take
    } else if counter == i32::MAX {
        Probe::GiveUp
    } else {
        Probe::Try((counter + 1) as i32)
    }
}

/// Decides how the search goes on after one candidate was looked at.
pub fn after_probe(found: bool, counter: i32) -> (next: Probe)
    ensures
        next == probe_verdict(found, counter),
{
    if !found {
        Probe::Take
    } else if counter == i32::MAX {
        Probe::GiveUp
    } else {
        Probe::Try(counter + 1)
    }
}

/// Picks the directory a clone goes to when `path` may already be in use.
///
/// A `path` with fewer than four pieces between underscores is refused
/// whatever `exists` says. Otherwise a `path` that does not exist is kept.
/// One that exists is replaced by the first of the names
/// `candidate(path, index)`, `candidate(path, index + 1)`, ... that the file
/// system does not hold when it is asked; the search gives up only when the
/// counter cannot grow any further.
pub fn update_destination(exists: bool, path: String, index: i32) -> (r: Result<
    String,
    FolderFormatError,
>)
    ensures
        !well_formed(path@) ==> r == Err::<String, _>(FolderFormatError::FailedToFormat),
        kept_as_it_is(exists, path@) ==> r == Ok::<_, FolderFormatError>(path),
        well_formed(path@) && exists ==> match r {
            Ok(p) => exists|k: int| index <= k <= i32::MAX && p@ == candidate(path@, k),
            Err(e) => e == FolderFormatError::Exhausted,
        },
        r matches Ok(p) ==> well_formed(p@),
{
    let parts = split(path.as_str(), '_');
    if parts.len() < 4 {
        return Err(FolderFormatError::FailedToFormat);
    }
    if !exists {
        return Ok(path);
    }
    let mut name = String::new();
    let mut counter = index;
    loop
        invariant
            exists,
            index <= counter,
            str_views(parts@) == segments(path@),
            parts@.len() >= 4,
        decreases i32::MAX - counter,
    {
        let _ = destination_fmt(parts.as_slice(), &mut name, counter);
        assert(name@ == candidate(path@, counter as int));
        let found = check_existence(name.as_str());
        match after_probe(found, counter) {
            Probe::Take => {
                proof {
                    lemma_counter_is_replaced(path@, counter as int, counter as int);
                }
                return Ok(name);
            },
            Probe::GiveUp => {
                return Err(FolderFormatError::Exhausted);
            },
            Probe::Try(next) => {
                counter = next;
            },
        }
    }
}

/// Whether `name` is one of `taken`.
pub open spec fn occupied(taken: Seq<String>, name: Seq<char>) -> bool {
    string_views(taken).contains(name)
}

/// Whether `name` is one of `taken`.
pub fn is_occupied(taken: &Vec<String>, name: &String) -> (found: bool)
    ensures
        found == occupied(taken@, name@),
{
    let mut i: usize = 0;
    while i < taken.len()
        invariant
            i <= taken.len(),
            forall|j: int| 0 <= j < i ==> taken@[j]@ != name@,
        decreases taken.len() - i,
    {
        if taken[i] == *name {
            assert(string_views(taken@)[i as int] == name@);
            return true;
        }
        i += 1;
    }
    false
}

/// `k` is the smallest counter from `index` on whose candidate is not among `taken`.
pub open spec fn first_free(taken: Seq<String>, path: Seq<char>, index: int, k: int) -> bool {
    &&& index <= k
    &&& !occupied(taken, candidate(path, k))
    &&& forall|j: int| index <= j < k ==> occupied(taken, #[trigger] candidate(path, j))
}

/// Every candidate with a counter from `index` up to `last` is among `taken`.
pub open spec fn all_occupied(taken: Seq<String>, path: Seq<char>, index: int, last: int) -> bool {
    forall|j: int| index <= j <= last ==> occupied(taken, #[trigger] candidate(path, j))
}

/// The search of `update_destination` against a known list of names in use
/// instead of the file system: the result is the candidate with the smallest
/// counter from `index` on that is not among `taken`.
pub fn resolve_destination(exists: bool, path: String, index: i32, taken: &Vec<String>) -> (r:
    Result<String, FolderFormatError>)
    ensures
        !well_formed(path@) ==> r == Err::<String, _>(FolderFormatError::FailedToFormat),
        kept_as_it_is(exists, path@) ==> r == Ok::<_, FolderFormatError>(path),
        r matches Ok(p) ==> well_formed(p@),
        well_formed(path@) && exists ==> match r {
            Ok(p) => exists|k: int|
                k <= i32::MAX && p@ == candidate(path@, k) && #[trigger] first_free(
                    taken@,
                    path@,
                    index as int,
                    k,
                ),
            Err(e) => e == FolderFormatError::Exhausted && all_occupied(
                taken@,
                path@,
                index as int,
                i32::MAX as int,
            ),
        },
{
    let parts = split(path.as_str(), '_');
    if parts.len() < 4 {
        return Err(FolderFormatError::FailedToFormat);
    }
    if !exists {
        return Ok(path);
    }
    let mut name = String::new();
    let mut counter = index;
    loop
        invariant
            exists,
            index <= counter,
            str_views(parts@) == segments(path@),
            parts@.len() >= 4,
            forall|j: int| index <= j < counter ==> occupied(taken@, #[trigger] candidate(path@, j)),
        decreases i32::MAX - counter,
    {
        let _ = destination_fmt(parts.as_slice(), &mut name, counter);
        assert(name@ == candidate(path@, counter as int));
        let found = is_occupied(taken, &name);
        match after_probe(found, counter) {
            Probe::Take => {
                proof {
                    lemma_counter_is_replaced(path@, counter as int, counter as int);
                }
                assert(first_free(taken@, path@, index as int, counter as int));
                return Ok(name);
            },
            Probe::GiveUp => {
                return Err(FolderFormatError::Exhausted);
            },
            Probe::Try(next) => {
                counter = next;
            },
        }
    }
}

/// The repository that is watched.
pub struct RepositoryInfo<'a> {
    /// Where the host answers for the latest commit.
    pub url: String,
    pub author: &'a str,
    pub name: &'a str,
}

/// What the reconciliation of one service needs to know.
pub struct ServiceInfo<'a> {
    pub name: &'a str,
    pub filename: &'a str,
    pub sys_dir: &'a str,
    pub file_contents: &'a [String],
}

/// One request to the repository host: where to, and the headers to send,
/// each a name and a value.
#[derive(Debug, Clone, PartialEq, Eq)]
pub struct PollRequest {
    pub url: String,
    pub headers: Vec<(String, String)>,
}

/// The headers of a poll: the token as authorization, and a user agent.
pub open spec fn poll_headers(token: Seq<char>) -> Seq<(Seq<char>, Seq<char>)> {
    seq![("Authorization"@, "token "@ + token), ("User-Agent"@, "request"@)]
}

/// The views of a list of headers.
pub open spec fn header_views(headers: Seq<(String, String)>) -> Seq<(Seq<char>, Seq<char>)> {
    Seq::new(headers.len(), |i: int| (headers[i].0@, headers[i].1@))
}

/// The request that asks the host at `url` for the latest commit.
pub fn send_request(url: &str, token: &str) -> (request: PollRequest)
    ensures
        request.url@ == url@,
        header_views(request.headers@) == poll_headers(token@),
{
    let mut fmt_token = "token ".to_owned();
    fmt_token.append(token);
    let mut headers: Vec<(String, String)> = Vec::new();
    headers.push(("Authorization".to_owned(), fmt_token));
    headers.push(("User-Agent".to_owned(), "request".to_owned()));
    assert(header_views(headers@) =~= poll_headers(token@));
    PollRequest { url: url.to_owned(), headers }
}

/// Seconds between two polls.
pub const POLL_INTERVAL: u64 = 60;

/// How a run for one commit ended.
#[derive(Debug, Clone, Copy, PartialEq, Eq, Structural)]
pub enum RunOutcome {
    /// Every service was gone through.
    Completed,
    /// A hard failure ended the run; the services after it were skipped.
    Aborted,
    /// No workspace name could be formatted.
    Fatal,
}

/// What the watcher is told.
#[derive(Debug, Clone, PartialEq, Eq)]
pub enum WatchEvent {
    /// The daemon has started, or the pause between two polls is over.
    Wake,
    /// The host answered the poll with this HTTP status.
    Answered(u16),
    /// The body of a successful answer names this commit.
    Latest(Commit),
    /// The request or the reading of its answer failed, or the body names no commit.
    Broken,
    /// The run that was asked for is over.
    RunEnded(RunOutcome),
}

/// Why the watcher stops for good.
#[derive(Debug, Clone, Copy, PartialEq, Eq, Structural)]
pub enum StopReason {
    /// The host refused the token.
    Unauthorized,
    /// The host could not be reached or understood.
    Broken,
    /// A run could not format its workspace name.
    Fatal,
}

/// What the watcher asks for next.
#[derive(Debug, Clone, PartialEq, Eq)]
pub enum WatchAction {
    /// Send the request, then report `Answered` or `Broken`.
    Poll(PollRequest),
    /// Read the body of the answer, then report `Latest` or `Broken`.
    ReadBody,
    /// Run the pipeline for this commit, then report `RunEnded`.
    Run(Commit),
    /// Pause for so many seconds, then report `Wake`.
    Sleep(u64),
    /// End the process.
    Stop(StopReason),
}

/// Whether an HTTP status reports success.
pub open spec fn is_success(status: u16) -> bool {
    200 <= status < 300
}

/// One step of the commit watcher: what to do after `event`, with
/// `last_commit` the commit of the last run that was begun.
///
/// A run is asked for exactly when a commit is reported that differs from
/// `last_commit`. A refused token, an unreadable answer and a run that could
/// not name its workspace end the watcher; every other answer is waited out.
pub fn ping<'a>(
    last_commit: &String,
    config: &ConfigFile,
    repository: &RepositoryInfo<'a>,
    event: WatchEvent,
) -> (action: WatchAction)
    ensures
        action is Run <==> (event matches WatchEvent::Latest(commit) && commit.sha@
            != last_commit@),
        match event {
            WatchEvent::Wake => action matches WatchAction::Poll(request) && request.url@
                == repository.url@ && header_views(request.headers@) == poll_headers(
                config.token@,
            ),
            WatchEvent::Answered(status) => if is_success(status) {
                action is ReadBody
            } else if status == 401 {
                action matches WatchAction::Stop(reason) && reason == StopReason::Unauthorized
            } else {
                action matches WatchAction::Sleep(pause) && pause == POLL_INTERVAL
            },
            WatchEvent::Latest(commit) => if commit.sha@ != last_commit@ {
                action matches WatchAction::Run(next) && next == commit
            } else {
                action matches WatchAction::Sleep(pause) && pause == POLL_INTERVAL
            },
            WatchEvent::Broken => action matches WatchAction::Stop(reason) && reason
                == StopReason::Broken,
            WatchEvent::RunEnded(outcome) => if outcome == RunOutcome::Fatal {
                action matches WatchAction::Stop(reason) && reason == StopReason::Fatal
            } else {
                action matches WatchAction::Sleep(pause) && pause == POLL_INTERVAL
            },
        },
{
    match event {
        WatchEvent::Wake => WatchAction::Poll(
            send_request(repository.url.as_str(), config.token.as_str()),
        ),
        WatchEvent::Answered(status) => {
            if 200 <= status && status < 300 {
                WatchAction::ReadBody
            } else if status == 401 {
                WatchAction::Stop(StopReason::Unauthorized)
            } else {
                WatchAction::Sleep(POLL_INTERVAL)
            }
        },
        WatchEvent::Latest(commit) => {
            if commit.sha != *last_commit {
                WatchAction::Run(commit)
            } else {
                WatchAction::Sleep(POLL_INTERVAL)
            }
        },
        WatchEvent::Broken => WatchAction::Stop(StopReason::Broken),
        WatchEvent::RunEnded(outcome) => match outcome {
            RunOutcome::Fatal => WatchAction::Stop(StopReason::Fatal),
            _ => WatchAction::Sleep(POLL_INTERVAL),
        },
    }
}

/// The moment `seconds` after the start of 1970 (UTC), as a clock `offset`
/// seconds east of UTC shows it: day, month name, year and hour with minute,
/// joined by underscores (`01_Sep_2024_1308`). The text is what
/// `chrono::DateTime::from_timestamp`, `chrono::FixedOffset::east_opt`,
/// `chrono::DateTime::with_timezone` and `chrono::DateTime::format` with
/// `%d_%b_%Y_%H%M` give.
///
/// There is no text where `chrono` has no date for `seconds` or takes
/// `offset` for a day or more. Of a text only the shape is claimed: none of
/// the four items is written with an underscore, so it has exactly four
/// pieces between underscores.
#[verifier::external_body]
fn get_time(seconds: i64, offset: i32) -> (stamp: Option<String>)
    ensures
        stamp matches Some(text) ==> segments(text@).len() == 4,
{
    let utc = chrono::DateTime::from_timestamp(seconds, 0)?;
    let zone = chrono::FixedOffset::east_opt(offset)?;
    Some(utc.with_timezone(&zone).format("%d_%b_%Y_%H%M").to_string())
}

/// What the caller is asked to clone, and where to.
#[derive(Debug, Clone, PartialEq, Eq)]
pub struct CloneRequest {
    pub url: String,
    pub root_dir: String,
    /// The user name to authenticate with.
    pub username: String,
    /// The password that goes with the user name.
    pub token: String,
}

/// The address a repository is cloned from.
pub open spec fn clone_url(author: Seq<char>, name: Seq<char>) -> Seq<char> {
    "https://github.com/"@ + author + seq!['/'] + name + ".git"@
}

/// A name that ends in a well-formed name is well formed itself.
pub proof fn lemma_well_formed_under(dir: Seq<char>, stamp: Seq<char>)
    requires
        well_formed(stamp),
    ensures
        well_formed(slash_joined(dir, stamp)),
{
    lemma_split_on_len(stamp, '_');
    lemma_split_on_len(slash_joined(dir, stamp), '_');
    lemma_count_of_concat(dir + seq!['/'], stamp, '_');
}

/// `request` asks for the clone of `repository` into the workspace named
/// `stamp` under the configured directory, with the configured token as the
/// password of the user `x-access-token`.
pub open spec fn asks_for_clone(
    request: CloneRequest,
    config: ConfigFile,
    repository: RepositoryInfo,
    stamp: Seq<char>,
) -> bool {
    &&& request.url@ == clone_url(repository.author@, repository.name@)
    &&& request.root_dir@ == slash_joined(config.pull_dir@, stamp)
    &&& request.username@ == "x-access-token"@
    &&& request.token@ == config.token@
}

/// The clone of `repository` into the workspace named `stamp` under the
/// configured directory.
pub fn clone_request<'a>(config: &ConfigFile, repository: &RepositoryInfo<'a>, stamp: &str) -> (request:
    CloneRequest)
    ensures
        asks_for_clone(request, *config, *repository, stamp@),
{
    proof {
        reveal_strlit("/");
    }
    let mut url = "https://github.com/".to_owned();
    url.append(repository.author);
    url.append("/");
    url.append(repository.name);
    url.append(".git");
    assert(url@ =~= clone_url(repository.author@, repository.name@));
    CloneRequest {
        url,
        root_dir: slash_join(config.pull_dir.as_str(), stamp),
        username: "x-access-token".to_owned(),
        token: config.token.clone(),
    }
}

/// Begins the run for the commit `response` at the moment `seconds` after
/// the start of 1970, on a clock `offset` seconds east of UTC: records the
/// commit as the last one begun, whatever becomes of the run, and names the
/// clone to make.
///
/// The workspace is named after that moment, so its name is well formed.
/// Where the moment cannot be written as a date, no name can be formatted.
pub fn pull_logic<'a>(
    last_commit: &mut String,
    config: &ConfigFile,
    response: &Commit,
    repository: &RepositoryInfo<'a>,
    seconds: i64,
    offset: i32,
) -> (begun: Result<CloneRequest, FolderFormatError>)
    ensures
        final(last_commit)@ == response.sha@,
        match begun {
            Ok(request) => well_formed(request.root_dir@) && exists|stamp: Seq<char>|
                segments(stamp).len() == 4 && #[trigger] asks_for_clone(
                    request,
                    *config,
                    *repository,
                    stamp,
                ),
            Err(e) => e == FolderFormatError::FailedToFormat,
        },
{
    *last_commit = response.sha.clone();
    match get_time(seconds, offset) {
        Some(stamp) => {
            proof {
                lemma_well_formed_under(config.pull_dir@, stamp@);
            }
            Ok(clone_request(config, repository, stamp.as_str()))
        },
        None => Err(FolderFormatError::FailedToFormat),
    }
}

/// How an attempt to clone ended.
#[derive(Debug, Clone, PartialEq, Eq)]
pub enum CloneOutcome {
    Cloned,
    /// The destination is already there; the text is the failure's own.
    AlreadyExists(String),
    /// Any other failure, with its text.
    Failed(String),
}

/// What follows an attempt to clone.
#[derive(Debug, Clone, PartialEq, Eq)]
pub enum CloneVerdict {
    /// The workspace is ready at this path.
    Ready(String),
    /// Clone once more, into this path.
    Retry(String),
    /// The run ends with this failure.
    Abort(String),
    /// No other name could be formatted.
    Fatal(FolderFormatError),
}

/// Decides what follows an attempt to clone into `destination`; `retried`
/// says that this was already the second attempt.
///
/// A first attempt that finds `destination` in use is repeated once under
/// the name that `update_destination` picks, counting from 1. Every other
/// failure ends the run, as does any failure of the second attempt.
pub fn pull_repository(destination: &str, retried: bool, outcome: CloneOutcome) -> (verdict:
    CloneVerdict)
    ensures
        match outcome {
            CloneOutcome::Cloned => verdict matches CloneVerdict::Ready(path) && path@
                == destination@,
            CloneOutcome::AlreadyExists(reason) => if retried {
                verdict matches CloneVerdict::Abort(text) && text == reason
            } else {
                match verdict {
                    CloneVerdict::Retry(path) => well_formed(destination@) && exists|k: int|
                        1 <= k <= i32::MAX && path@ == candidate(destination@, k),
                    CloneVerdict::Fatal(e) => e == if well_formed(destination@) {
                        FolderFormatError::Exhausted
                    } else {
                        FolderFormatError::FailedToFormat
                    },
                    _ => false,
                }
            },
            CloneOutcome::Failed(reason) => verdict matches CloneVerdict::Abort(text) && text
                == reason,
        },
{
    match outcome {
        CloneOutcome::Cloned => CloneVerdict::Ready(destination.to_owned()),
        CloneOutcome::AlreadyExists(reason) => {
            if retried {
                CloneVerdict::Abort(reason)
            } else {
                match update_destination(true, destination.to_owned(), 1) {
                    Ok(new_dest) => CloneVerdict::Retry(new_dest),
                    Err(e) => CloneVerdict::Fatal(e),
                }
            }
        },
        CloneOutcome::Failed(reason) => CloneVerdict::Abort(reason),
    }
}

/// The directory of a service's project: the workspace itself, or `dir`
/// adjoined to it.
pub fn fmt_dir(path: &str, dir: Option<&String>) -> (project: String)
    ensures
        project@ == match dir {
            Some(d) => adjoined(path@, d@),
            None => path@,
        },
{
    match dir {
        Some(d) => adjoin(path, d.as_str()),
        None => path.to_owned(),
    }
}

/// Everything one service's part of a run works on.
pub struct ServiceJob<'a> {
    /// The directory that is searched for the project's manifest.
    pub service_path: String,
    /// The directory the build output is deployed under.
    pub build_dir: &'a str,
    pub svc: ServiceInfo<'a>,
}

/// `job` is the work on the service at `index` of `config` in the workspace
/// `pull_path`: the project lies in the workspace, or in the service's own
/// directory adjoined to it, and everything else is as configured.
pub open spec fn is_job_of(job: ServiceJob, config: ConfigFile, pull_path: Seq<char>, index: int) -> bool {
    let service = config.services@[index];
    &&& job.service_path@ == match service.custom_dir {
        Some(d) => adjoined(pull_path, d@),
        None => pull_path,
    }
    &&& job.build_dir@ == service.build_dir@
    &&& job.svc.name@ == service.name@
    &&& job.svc.filename@ == service.svc_filename@
    &&& job.svc.sys_dir@ == config.sys_svc_dir@
    &&& job.svc.file_contents@ == service.svc_file_contents@
}

/// The part of the run that deals with the service at `index`, in the
/// workspace `pull_path`; none when the configuration holds no such service.
pub fn service_job<'a>(config: &'a ConfigFile, pull_path: &str, index: usize) -> (job: Option<
    ServiceJob<'a>,
>)
    ensures
        index >= config.services@.len() ==> job is None,
        index < config.services@.len() ==> (job matches Some(j) && is_job_of(
            j,
            *config,
            pull_path@,
            index as int,
        )),
{
    if index >= config.services.len() {
        return None;
    }
    let service = &config.services[index];
    let service_path = fmt_dir(pull_path, service.custom_dir.as_ref());
    Some(
        ServiceJob {
            service_path,
            build_dir: service.build_dir.as_str(),
            svc: ServiceInfo {
                name: service.name.as_str(),
                filename: service.svc_filename.as_str(),
                sys_dir: config.sys_svc_dir.as_str(),
                file_contents: service.svc_file_contents.as_slice(),
            },
        },
    )
}

/// The steps one service goes through, in this order.
#[derive(Debug, Clone, Copy, PartialEq, Eq, Structural)]
pub enum Stage {
    /// Find the project's manifest.
    Detect,
    /// Run the build command.
    Build,
    /// Put the build output in the place of the deployed one.
    Relocate,
    /// Start or restart the unit.
    Reconcile,
}

/// How a command, or a step made of commands, ended.
#[derive(Debug, Clone, Copy, PartialEq, Eq, Structural)]
pub enum StageOutcome {
    /// The step was done, and every command of it reported success.
    Succeeded,
    /// A command ran and reported failure, or ended without a status.
    ExitFailure,
    /// A command could not be started.
    SpawnFailure,
    /// The step itself failed: nothing was found, or something could not be
    /// read or written.
    Failure,
}

/// What follows one command of a plan.
#[derive(Debug, Clone, Copy, PartialEq, Eq, Structural)]
pub enum PlanStep {
    /// Run the command at this position next.
    Run(usize),
    /// The plan is over, with this outcome.
    Ended(StageOutcome),
}

/// How a plan of `commands` commands goes on after the one at `position`
/// ended with `outcome`: only a command that succeeded is followed by the
/// next one, and the plan succeeds when its last command did. Any other
/// outcome ends the plan at once and is the plan's own.
pub open spec fn plan_step(commands: int, position: int, outcome: StageOutcome) -> PlanStep {
    if outcome != StageOutcome::Succeeded {
        PlanStep::Ended(outcome)
    } else if 0 <= position + 1 < commands {
        PlanStep::Run((position + 1) as usize)
    } else {
        PlanStep::Ended(StageOutcome::Succeeded)
    }
}

/// How a plan begins: with its first command, or, where it has none, with
/// its end.
pub fn first_command(commands: usize) -> (step: PlanStep)
    ensures
        step == if commands > 0 {
            PlanStep::Run(0)
        } else {
            PlanStep::Ended(StageOutcome::Succeeded)
        },
{
    if commands > 0 {
        PlanStep::Run(0)
    } else {
        PlanStep::Ended(StageOutcome::Succeeded)
    }
}

/// Decides what follows the command at `position` of a plan of `commands`
/// commands, once it has ended with `outcome`.
pub fn after_command(commands: usize, position: usize, outcome: StageOutcome) -> (step: PlanStep)
    ensures
        step == plan_step(commands as int, position as int, outcome),
{
    match outcome {
        StageOutcome::Succeeded => {
            if position < commands && position + 1 < commands {
                PlanStep::Run(position + 1)
            } else {
                PlanStep::Ended(StageOutcome::Succeeded)
            }
        },
        _ => PlanStep::Ended(outcome),
    }
}

/// The outcome of a plan whose commands, were they run, would end with
/// `outcomes`, when it is gone through from `position` on: that of the
/// first command that does not succeed, or success when there is none.
pub open spec fn plan_outcome(outcomes: Seq<StageOutcome>, position: int) -> StageOutcome
    decreases outcomes.len() - position,
{
    if position < 0 || position >= outcomes.len() {
        StageOutcome::Succeeded
    } else if outcomes[position] != StageOutcome::Succeeded {
        outcomes[position]
    } else {
        plan_outcome(outcomes, position + 1)
    }
}

/// Going through a plan command by command, as `plan_step` says, comes to
/// `plan_outcome`.
pub proof fn lemma_plan_follows_its_steps(outcomes: Seq<StageOutcome>, position: int)
    requires
        0 <= position < outcomes.len() <= usize::MAX,
    ensures
        plan_outcome(outcomes, position) == match plan_step(
            outcomes.len() as int,
            position,
            outcomes[position],
        ) {
            PlanStep::Run(next) => plan_outcome(outcomes, next as int),
            PlanStep::Ended(outcome) => outcome,
        },
{
    if outcomes[position] == StageOutcome::Succeeded && position + 1 >= outcomes.len() {
        assert(plan_outcome(outcomes, position + 1) == StageOutcome::Succeeded);
    }
}

/// A plan succeeds only when every one of its commands did. Otherwise its
/// outcome is that of the first command that did not succeed, and no
/// command after that one is run.
pub proof fn lemma_plan_stops_at_first_failure(outcomes: Seq<StageOutcome>, position: int)
    requires
        0 <= position <= outcomes.len(),
    ensures
        plan_outcome(outcomes, position) == StageOutcome::Succeeded <==> forall|i: int|
            position <= i < outcomes.len() ==> outcomes[i] == StageOutcome::Succeeded,
        plan_outcome(outcomes, position) != StageOutcome::Succeeded ==> exists|i: int|
            position <= i < outcomes.len() && outcomes[i] == plan_outcome(outcomes, position)
                && forall|j: int| position <= j < i ==> outcomes[j] == StageOutcome::Succeeded,
    decreases outcomes.len() - position,
{
    if position < outcomes.len() {
        if outcomes[position] == StageOutcome::Succeeded {
            lemma_plan_stops_at_first_failure(outcomes, position + 1);
            if plan_outcome(outcomes, position) != StageOutcome::Succeeded {
                let i = choose|i: int|
                    position + 1 <= i < outcomes.len() && outcomes[i] == plan_outcome(
                        outcomes,
                        position + 1,
                    ) && forall|j: int|
                        position + 1 <= j < i ==> outcomes[j] == StageOutcome::Succeeded;
                assert(position <= i < outcomes.len() && outcomes[i] == plan_outcome(
                    outcomes,
                    position,
                ) && forall|j: int| position <= j < i ==> outcomes[j] == StageOutcome::Succeeded);
            }
        } else {
            assert(position <= position < outcomes.len() && outcomes[position] == plan_outcome(
                outcomes,
                position,
            ) && forall|j: int|
                position <= j < position ==> outcomes[j] == StageOutcome::Succeeded);
        }
    }
}

/// What follows a step.
#[derive(Debug, Clone, Copy, PartialEq, Eq, Structural)]
pub enum Next {
    /// Go on with this step of the same service.
    Continue(Stage),
    /// This service is done; the next one may begin.
    ServiceDone,
    /// The run ends here; the services that are left are skipped.
    AbortRun,
}

/// The order of the steps and the weight of their failures.
///
/// A project that cannot be detected ends the run, and so does a build
/// whose output cannot be named. A build command that fails or cannot be
/// started does not keep the output from being moved. An output that was
/// not put in place ends the run: the unit is reconciled only after a move
/// of which every command succeeded, so that the deployed directory is the
/// new output and nothing else. Whatever becomes of the unit, the service
/// counts as done.
pub open spec fn after(stage: Stage, outcome: StageOutcome) -> Next {
    match stage {
        Stage::Detect => if outcome == StageOutcome::Succeeded {
            Next::Continue(Stage::Build)
        } else {
            Next::AbortRun
        },
        Stage::Build => if outcome == StageOutcome::Failure {
            Next::AbortRun
        } else {
            Next::Continue(Stage::Relocate)
        },
        Stage::Relocate => if outcome == StageOutcome::Succeeded {
            Next::Continue(Stage::Reconcile)
        } else {
            Next::AbortRun
        },
        Stage::Reconcile => Next::ServiceDone,
    }
}

/// Decides what follows the step `stage` of a service once it has ended
/// with `outcome`.
pub fn build_logic(stage: Stage, outcome: StageOutcome) -> (next: Next)
    ensures
        next == after(stage, outcome),
{
    match stage {
        Stage::Detect => match outcome {
            StageOutcome::Succeeded => Next::Continue(Stage::Build),
            _ => Next::AbortRun,
        },
        Stage::Build => match outcome {
            StageOutcome::Failure => Next::AbortRun,
            _ => Next::Continue(Stage::Relocate),
        },
        Stage::Relocate => match outcome {
            StageOutcome::Succeeded => Next::Continue(Stage::Reconcile),
            _ => Next::AbortRun,
        },
        Stage::Reconcile => Next::ServiceDone,
    }
}

/// A service whose steps all succeed goes through detection, build, move
/// and reconciliation in this order and is then done; a build command that
/// fails or cannot be started changes nothing of that.
pub proof fn lemma_steps_in_order(build: StageOutcome)
    requires
        build != StageOutcome::Failure,
    ensures
        after(Stage::Detect, StageOutcome::Succeeded) == Next::Continue(Stage::Build),
        after(Stage::Build, build) == Next::Continue(Stage::Relocate),
        after(Stage::Relocate, StageOutcome::Succeeded) == Next::Continue(Stage::Reconcile),
        after(Stage::Reconcile, StageOutcome::Succeeded) == Next::ServiceDone,
{
}

/// A move that did not succeed in full ends the run: the unit of that
/// service is not touched, and the services after it are skipped. The unit
/// is reconciled only after a move whose commands all succeeded.
pub proof fn lemma_failed_move_ends_run(outcomes: Seq<StageOutcome>)
    ensures
        after(Stage::Relocate, plan_outcome(outcomes, 0)) == Next::Continue(Stage::Reconcile)
            <==> forall|i: int| 0 <= i < outcomes.len() ==> outcomes[i] == StageOutcome::Succeeded,
        after(Stage::Relocate, plan_outcome(outcomes, 0)) != Next::Continue(Stage::Reconcile)
            ==> after(Stage::Relocate, plan_outcome(outcomes, 0)) == Next::AbortRun,
{
    lemma_plan_stops_at_first_failure(outcomes, 0);
}

/// What follows one service of a run.
#[derive(Debug, Clone, Copy, PartialEq, Eq, Structural)]
pub enum RunStep {
    /// Work on the service at this index of the configuration.
    Service(usize),
    /// The run is over, with this outcome.
    Ended(RunOutcome),
}

/// How a run over `services` services goes on once `next` was decided for
/// the service at `index`: the services are taken in the order of the
/// configuration, each only when the one before it is done; the run is
/// complete after the last, and it ends at once where a service ends it.
pub open spec fn run_step(services: usize, index: usize, next: Next) -> RunStep {
    match next {
        Next::Continue(_) => RunStep::Service(index),
        Next::ServiceDone => if index + 1 < services {
            RunStep::Service((index + 1) as usize)
        } else {
            RunStep::Ended(RunOutcome::Completed)
        },
        Next::AbortRun => RunStep::Ended(RunOutcome::Aborted),
    }
}

/// How a run over `services` services begins: with the first service, or,
/// where there is none, with its end.
pub fn first_service(services: usize) -> (step: RunStep)
    ensures
        step == if services > 0 {
            RunStep::Service(0)
        } else {
            RunStep::Ended(RunOutcome::Completed)
        },
{
    if services > 0 {
        RunStep::Service(0)
    } else {
        RunStep::Ended(RunOutcome::Completed)
    }
}

/// Decides how a run over `services` services goes on once `next` was
/// decided for the service at `index`.
pub fn after_service(services: usize, index: usize, next: Next) -> (step: RunStep)
    ensures
        step == run_step(services, index, next),
{
    match next {
        Next::Continue(_) => RunStep::Service(index),
        Next::ServiceDone => {
            if index < services && index + 1 < services {
                RunStep::Service(index + 1)
            } else {
                RunStep::Ended(RunOutcome::Completed)
            }
        },
        Next::AbortRun => RunStep::Ended(RunOutcome::Aborted),
    }
}

/// The outcome of a run in which the service at each index is done when
/// `done` holds `true` there and ends the run otherwise, gone through from
/// `index` on.
pub open spec fn run_outcome(done: Seq<bool>, index: int) -> RunOutcome
    decreases done.len() - index,
{
    if index < 0 || index >= done.len() {
        RunOutcome::Completed
    } else if !done[index] {
        RunOutcome::Aborted
    } else {
        run_outcome(done, index + 1)
    }
}

/// The verdict on a service that is done, or that ends the run.
pub open spec fn verdict_of(done: bool) -> Next {
    if done {
        Next::ServiceDone
    } else {
        Next::AbortRun
    }
}

/// Going through a run service by service, as `run_step` says, comes to
/// `run_outcome`: after a service that is done the next index follows, and
/// no other.
pub proof fn lemma_run_follows_its_steps(done: Seq<bool>, index: usize)
    requires
        index < done.len() <= usize::MAX,
    ensures
        run_outcome(done, index as int) == match run_step(
            done.len() as usize,
            index,
            verdict_of(done[index as int]),
        ) {
            RunStep::Service(next) => run_outcome(done, next as int),
            RunStep::Ended(outcome) => outcome,
        },
        run_step(done.len() as usize, index, verdict_of(done[index as int])) matches RunStep::Service(
            next,
        ) ==> next == index + 1,
{
    if done[index as int] && index + 1 >= done.len() {
        assert(run_outcome(done, index + 1) == RunOutcome::Completed);
    }
}

/// A run is complete exactly when every service from `index` on was done;
/// otherwise it is aborted at the first that was not, and no service after
/// that one is begun.
pub proof fn lemma_run_takes_services_in_order(done: Seq<bool>, index: int)
    requires
        0 <= index <= done.len(),
    ensures
        run_outcome(done, index) == RunOutcome::Completed <==> forall|i: int|
            index <= i < done.len() ==> done[i],
        run_outcome(done, index) != RunOutcome::Completed ==> run_outcome(done, index)
            == RunOutcome::Aborted,
    decreases done.len() - index,
{
    if index < done.len() && done[index] {
        lemma_run_takes_services_in_order(done, index + 1);
    }
}

} // verus!
