use vstd::prelude::*;

use crate::api::{ApiError, ApiErrorKind, SearchRequest, ThinkRequest};
use crate::text::{decimal, push_decimal};

verus! {

/// The thinking budget of a search when none is given.
pub const DEFAULT_SEARCH_BUDGET: i32 = 100;

/// The token limit of a search's results when none is given.
pub const DEFAULT_MAX_TOKENS: i32 = 4096;

/// The thinking budget of a think call when none is given.
pub const DEFAULT_THINK_BUDGET: i32 = 50;

/// The record types a search covers when none are given: all three known ones.
pub fn default_fact_types() -> (r: Vec<String>)
    ensures
        r@.len() == 3,
        r@[0]@ == "world"@,
        r@[1]@ == "agent"@,
        r@[2]@ == "opinion"@,
{
    let mut v: Vec<String> = Vec::new();
    v.push(String::from_str("world"));
    v.push(String::from_str("agent"));
    v.push(String::from_str("opinion"));
    v
}

/// The record types a search asked for, or all three known ones when none were named.
pub fn fact_types_or_default(given: Vec<String>) -> (r: Vec<String>)
    ensures
        given@.len() > 0 ==> r == given,
        given@.len() == 0 ==> r@.len() == 3 && r@[0]@ == "world"@ && r@[1]@ == "agent"@ && r@[2]@
            == "opinion"@,
{
    if given.len() > 0 {
        given
    } else {
        default_fact_types()
    }
}

impl SearchRequest {
    /// A search for `query` on behalf of `agent_id`.
    pub fn new(
        agent_id: String,
        query: String,
        fact_type: Vec<String>,
        thinking_budget: i32,
        max_tokens: i32,
        trace: bool,
    ) -> (r: SearchRequest)
        ensures
            r.agent_id == agent_id,
            r.query == query,
            r.fact_type == fact_type,
            r.thinking_budget == thinking_budget,
            r.max_tokens == max_tokens,
            r.trace == trace,
    {
        SearchRequest { query, fact_type, agent_id, thinking_budget, max_tokens, trace }
    }
}

impl ThinkRequest {
    /// A think call on `query` as `agent_id`.
    pub fn new(agent_id: String, query: String, thinking_budget: i32) -> (r: ThinkRequest)
        ensures
            r.agent_id == agent_id,
            r.query == query,
            r.thinking_budget == thinking_budget,
    {
        ThinkRequest { query, agent_id, thinking_budget }
    }
}

/// The kind of a one-line message to the user.
#[derive(Debug, Clone, Copy, PartialEq, Eq, Structural)]
pub enum NoticeKind {
    Success,
    Info,
    Warning,
    Failure,
}

/// A one-line message to the user.
#[derive(Debug, Clone)]
pub struct Notice {
    pub kind: NoticeKind,
    pub text: String,
}

pub open spec fn notices_view(v: Seq<Notice>) -> Seq<(NoticeKind, Seq<char>)> {
    v.map_values(|n: Notice| (n.kind, n.text@))
}

pub open spec fn job_notice(job_id: Option<String>) -> Seq<(NoticeKind, Seq<char>)> {
    match job_id {
        Some(j) => seq![(NoticeKind::Info, "Job ID: "@ + j@)],
        None => Seq::empty(),
    }
}

/// What a finished import reports: the number of files, and the job id of a
/// background store.
pub open spec fn import_report_view(count: nat, background: bool, job_id: Option<String>) -> Seq<
    (NoticeKind, Seq<char>),
> {
    if background {
        seq![(NoticeKind::Success, "Queued "@ + decimal(count) + " files for background processing"@)]
            + job_notice(job_id)
    } else {
        seq![(NoticeKind::Success, "Successfully stored "@ + decimal(count) + " memories"@)]
    }
}

fn push_notice(out: &mut Vec<Notice>, kind: NoticeKind, text: String)
    ensures
        notices_view(final(out)@) == notices_view(old(out)@).push((kind, text@)),
{
    let ghost t = text@;
    out.push(Notice { kind, text });
    proof {
        assert(notices_view(final(out)@) =~= notices_view(old(out)@).push((kind, t)));
    }
}

/// The job id of a background store, when the service gave one.
pub fn job_notices(job_id: &Option<String>) -> (r: Vec<Notice>)
    ensures
        notices_view(r@) == job_notice(*job_id),
{
    let mut out: Vec<Notice> = Vec::new();
    if let Some(j) = job_id {
        let mut s = String::from_str("Job ID: ");
        s.append(j.as_str());
        push_notice(&mut out, NoticeKind::Info, s);
    }
    proof {
        assert(notices_view(out@) =~= job_notice(*job_id));
    }
    out
}

/// What a finished import of `count` files reports.
pub fn import_report(count: usize, background: bool, job_id: &Option<String>) -> (r: Vec<Notice>)
    ensures
        notices_view(r@) == import_report_view(count as nat, background, *job_id),
{
    let mut out: Vec<Notice> = Vec::new();
    if background {
        let mut s = String::from_str("Queued ");
        push_decimal(&mut s, count as u64);
        s.append(" files for background processing");
        push_notice(&mut out, NoticeKind::Success, s);
        let mut more = job_notices(job_id);
        let ghost first = notices_view(out@);
        out.append(&mut more);
        proof {
            assert(notices_view(out@) =~= first + job_notice(*job_id));
        }
    } else {
        let mut s = String::from_str("Successfully stored ");
        push_decimal(&mut s, count as u64);
        s.append(" memories");
        push_notice(&mut out, NoticeKind::Success, s);
    }
    proof {
        assert(notices_view(out@) =~= import_report_view(count as nat, background, *job_id));
    }
    out
}

/// The message before an import of `count` files is read.
pub fn import_found_notice(count: usize) -> (r: Notice)
    ensures
        r.kind == NoticeKind::Info,
        r.text@ == "Found "@ + decimal(count as nat) + " files to import"@,
{
    let mut s = String::from_str("Found ");
    push_decimal(&mut s, count as u64);
    s.append(" files to import");
    Notice { kind: NoticeKind::Info, text: s }
}

/// The message of an import that found no file to read.
pub fn nothing_to_import_notice() -> (r: Notice)
    ensures
        r.kind == NoticeKind::Warning,
        r.text@ == "No .txt or .md files found"@,
{
    Notice { kind: NoticeKind::Warning, text: String::from_str("No .txt or .md files found") }
}

/// The one line the user is told of a failed call: the cause, then the status
/// and the body of the answer where one came and the cause does not already
/// hold them, then the URL of the call.
pub open spec fn failure_text(e: ApiError) -> Seq<char> {
    e.message@ + match e.response_status {
        Some(st) => if e.kind != ApiErrorKind::Status {
            " (status "@ + decimal(st as nat) + ")"@
        } else {
            Seq::empty()
        },
        None => Seq::empty(),
    } + match e.response_body {
        Some(b) => if e.kind != ApiErrorKind::Status && e.kind != ApiErrorKind::Parse {
            ": "@ + b@
        } else {
            Seq::empty()
        },
        None => Seq::empty(),
    } + " ["@ + e.url@ + "]"@
}

/// The report of a failed call: a single failure line.
pub fn failure_notice(e: &ApiError) -> (r: Notice)
    ensures
        r.kind == NoticeKind::Failure,
        r.text@ == failure_text(*e),
{
    let mut s = e.message.clone();
    if let Some(st) = e.response_status {
        if e.kind != ApiErrorKind::Status {
            s.append(" (status ");
            push_decimal(&mut s, st as u64);
            s.append(")");
        }
    }
    if let Some(b) = &e.response_body {
        if e.kind != ApiErrorKind::Status && e.kind != ApiErrorKind::Parse {
            s.append(": ");
            s.append(b.as_str());
        }
    }
    s.append(" [");
    s.append(e.url.as_str());
    s.append("]");
    proof {
        assert(s@ =~= failure_text(*e));
    }
    Notice { kind: NoticeKind::Failure, text: s }
}

/// The characters Unicode calls white space.
pub open spec fn is_white_space(c: char) -> bool {
    let u = c as u32;
    ||| 0x9 <= u <= 0xD
    ||| u == 0x20 || u == 0x85 || u == 0xA0 || u == 0x1680
    ||| 0x2000 <= u <= 0x200A
    ||| u == 0x2028 || u == 0x2029 || u == 0x202F || u == 0x205F || u == 0x3000
}

/// `s` without its leading white space.
pub open spec fn trim_start_of(s: Seq<char>) -> Seq<char>
    decreases s.len(),
{
    if s.len() > 0 && is_white_space(s[0]) {
        trim_start_of(s.drop_first())
    } else {
        s
    }
}

/// `s` without its trailing white space.
pub open spec fn trim_end_of(s: Seq<char>) -> Seq<char>
    decreases s.len(),
{
    if s.len() > 0 && is_white_space(s.last()) {
        trim_end_of(s.drop_last())
    } else {
        s
    }
}

/// `s` without its leading and trailing white space.
pub open spec fn trim_of(s: Seq<char>) -> Seq<char> {
    trim_end_of(trim_start_of(s))
}

fn is_white_space_char(c: char) -> (r: bool)
    ensures
        r == is_white_space(c),
{
    let u = c as u32;
    (0x9 <= u && u <= 0xD) || u == 0x20 || u == 0x85 || u == 0xA0 || u == 0x1680 || (0x2000 <= u && u
        <= 0x200A) || u == 0x2028 || u == 0x2029 || u == 0x202F || u == 0x205F || u == 0x3000
}

/// `s` without its leading and trailing white space.
pub fn trimmed(s: &str) -> (r: &str)
    ensures
        r@ == trim_of(s@),
{
    let n = s.unicode_len();
    proof {
        assert(s@.subrange(0, n as int) =~= s@);
    }
    let mut i: usize = 0;
    while i < n && is_white_space_char(s.get_char(i))
        invariant
            n == s@.len(),
            i <= n,
            trim_start_of(s@) == trim_start_of(s@.subrange(i as int, n as int)),
        decreases n - i,
    {
        proof {
            let sub = s@.subrange(i as int, n as int);
            assert(sub.drop_first() =~= s@.subrange(i + 1, n as int));
        }
        i = i + 1;
    }
    proof {
        let sub = s@.subrange(i as int, n as int);
        if i == n {
            assert(sub.len() == 0);
        }
        assert(trim_start_of(s@) == sub);
    }
    let mut j: usize = n;
    while j > i && is_white_space_char(s.get_char(j - 1))
        invariant
            n == s@.len(),
            i <= j <= n,
            trim_of(s@) == trim_end_of(s@.subrange(i as int, j as int)),
        decreases j - i,
    {
        proof {
            let sub = s@.subrange(i as int, j as int);
            assert(sub.drop_last() =~= s@.subrange(i as int, j - 1));
        }
        j = j - 1;
    }
    s.substring_char(i, j)
}

/// `y` or `yes`, in any ASCII letter case.
pub open spec fn is_yes(t: Seq<char>) -> bool {
    ||| t.len() == 1 && (t[0] == 'y' || t[0] == 'Y')
    ||| t.len() == 3 && (t[0] == 'y' || t[0] == 'Y') && (t[1] == 'e' || t[1] == 'E') && (t[2] == 's'
        || t[2] == 'S')
}

/// Whether a typed answer, trimmed, is `y` or `yes` in any ASCII letter case.
pub fn is_affirmative(answer: &str) -> (r: bool)
    ensures
        r == is_yes(trim_of(answer@)),
{
    let t = trimmed(answer);
    let n = t.unicode_len();
    if n == 1 {
        let c = t.get_char(0);
        c == 'y' || c == 'Y'
    } else if n == 3 {
        let a = t.get_char(0);
        let b = t.get_char(1);
        let c = t.get_char(2);
        (a == 'y' || a == 'Y') && (b == 'e' || b == 'E') && (c == 's' || c == 'S')
    } else {
        false
    }
}

} // verus!
