//! Helpers for the session and project listings the host builds from
//! on-disk logs.  The scanning itself is plain file I/O and stays with
//! the host; what is verified here is the pure text and time logic it
//! leans on.

use vstd::prelude::*;

verus! {

use vstd::string::StrSliceExecFns;
use vstd::string::StringExecFns;
use crate::text::{has_prefix, starts_with_from, str_eq};

/// One discovered session, as the listing reports it.
pub struct SessionInfo {
    /// The session identifier (the log file's stem).
    pub id: String,
    /// The project the session belongs to.
    pub project_id: String,
    /// The session's creation timestamp, as recorded in its log.
    pub created_at: Option<String>,
    /// The log file's modification time, in Unix milliseconds.
    pub updated_at: Option<u64>,
    /// The first user message, trimmed and truncated for display.
    pub first_message: Option<String>,
    /// The git branch recorded at creation.
    pub git_branch: Option<String>,
    /// The working directory recorded in the log.
    pub cwd: Option<String>,
}

/// One discovered project, as the listing reports it.
pub struct ProjectInfo {
    /// The project directory's name.
    pub id: String,
    /// The project's working directory, when one is known.
    pub path: String,
    /// The name shown for the project.
    pub display_name: String,
    /// How many session logs the project holds.
    pub session_count: usize,
    /// The newest session log's modification time, in Unix
    /// milliseconds.
    pub last_activity: Option<u64>,
}

#[verifier::external_type_specification]
#[verifier::external_body]
pub struct ExSystemTime(std::time::SystemTime);

/// The number of whole milliseconds from the Unix epoch to the
/// instant `t`, or `None` for an instant before the epoch.  Its value
/// is pinned only through the contract of the wrapper below.
pub uninterp spec fn unix_millis_of(t: std::time::SystemTime) -> Option<u128>;

/// Relies on `SystemTime::duration_since` (against `UNIX_EPOCH`) and
/// `Duration::as_millis`: whole milliseconds from the epoch to the
/// instant, `None` before the epoch — a function of the instant
/// alone.
#[verifier::external_body]
fn millis_since_epoch(t: &std::time::SystemTime) -> (r: Option<u128>)
    ensures
        r == unix_millis_of(*t),
{
    match t.duration_since(std::time::SystemTime::UNIX_EPOCH) {
        Ok(d) => Some(d.as_millis()),
        Err(_) => None,
    }
}

/// Milliseconds from the Unix epoch to `t`, truncated to 64 bits as
/// the listings record it; `None` for an instant before the epoch.
pub fn system_time_to_unix_ms(t: std::time::SystemTime) -> (r: Option<u64>)
    ensures
        r == match unix_millis_of(t) {
            Some(ms) => Some(ms as u64),
            None => None::<u64>,
        },
{
    match millis_since_epoch(&t) {
        Some(ms) => Some(#[verifier::truncate] (ms as u64)),
        None => None,
    }
}

/// `s` shortened to `max` characters, with a three-dot ellipsis
/// appended whenever something was cut.
pub open spec fn truncate_spec(s: Seq<char>, max: int) -> Seq<char> {
    if s.len() <= max {
        s
    } else {
        s.take(max) + "..."@
    }
}

/// Shortens `s` for display to at most `max_chars` characters,
/// appending an ellipsis when it was longer.
pub fn truncate(s: &str, max_chars: usize) -> (r: String)
    ensures
        r@ == truncate_spec(s@, max_chars as int),
{
    let n = s.unicode_len();
    if n <= max_chars {
        String::from_str(s)
    } else {
        let head = s.substring_char(0, max_chars);
        let mut r = String::from_str(head);
        r.append("...");
        r
    }
}

/// Whether `c` has the Unicode White_Space property.  Its value is
/// pinned only through the contract of the wrapper below.
pub uninterp spec fn is_unicode_ws(c: char) -> bool;

/// Relies on `char::is_whitespace`: the Unicode White_Space property
/// of the character — a function of the character alone.  The ASCII
/// blank, tab and line-break characters plainly have it.
#[verifier::external_body]
fn char_is_ws(c: char) -> (r: bool)
    ensures
        r == is_unicode_ws(c),
        c == ' ' ==> r,
        c == '\t' ==> r,
        c == '\n' ==> r,
        c == '\r' ==> r,
{
    c.is_whitespace()
}

/// `s` with its leading whitespace removed.
pub open spec fn trim_start_spec(s: Seq<char>) -> Seq<char>
    decreases s.len(),
{
    if s.len() > 0 && is_unicode_ws(s[0]) {
        trim_start_spec(s.drop_first())
    } else {
        s
    }
}

/// `s` with its trailing whitespace removed.
pub open spec fn trim_end_spec(s: Seq<char>) -> Seq<char>
    decreases s.len(),
{
    if s.len() > 0 && is_unicode_ws(s.last()) {
        trim_end_spec(s.drop_last())
    } else {
        s
    }
}

/// `s` with whitespace removed from both ends.
pub open spec fn trim_spec(s: Seq<char>) -> Seq<char> {
    trim_end_spec(trim_start_spec(s))
}

/// Skipping a fully-whitespace prefix is exactly what trimming the
/// start does.
proof fn lemma_trim_start_skip(s: Seq<char>, i: int)
    requires
        0 <= i <= s.len(),
        forall|j: int| 0 <= j < i ==> is_unicode_ws(s[j]),
        i == s.len() || !is_unicode_ws(s[i]),
    ensures
        trim_start_spec(s) == s.skip(i),
    decreases i,
{
    if i == 0 {
        assert(s.skip(0) =~= s);
    } else {
        assert(is_unicode_ws(s[0]));
        lemma_trim_start_skip(s.drop_first(), i - 1);
        assert(s.drop_first().skip(i - 1) =~= s.skip(i));
    }
}

/// Taking everything before a fully-whitespace suffix is exactly what
/// trimming the end does.
proof fn lemma_trim_end_take(s: Seq<char>, m: int)
    requires
        0 <= m <= s.len(),
        forall|j: int| m <= j < s.len() ==> is_unicode_ws(s[j]),
        m == 0 || !is_unicode_ws(s[m - 1]),
    ensures
        trim_end_spec(s) == s.take(m),
    decreases s.len() - m,
{
    if m == s.len() {
        assert(s.take(m) =~= s);
        if s.len() > 0 && is_unicode_ws(s.last()) {
            assert(!is_unicode_ws(s[m - 1]));
        }
    } else {
        assert(is_unicode_ws(s.last()));
        lemma_trim_end_take(s.drop_last(), m);
        assert(s.drop_last().take(m) =~= s.take(m));
    }
}

/// The number of leading whitespace characters of `s`.
fn ws_prefix_len(s: &str) -> (i: usize)
    ensures
        i <= s@.len(),
        forall|j: int| 0 <= j < i ==> is_unicode_ws(s@[j]),
        i == s@.len() || !is_unicode_ws(s@[i as int]),
        trim_start_spec(s@) == s@.skip(i as int),
{
    let n = s.unicode_len();
    let mut i: usize = 0;
    while i < n && char_is_ws(s.get_char(i))
        invariant
            0 <= i <= n,
            n == s@.len(),
            forall|j: int| 0 <= j < i ==> is_unicode_ws(s@[j]),
        decreases n - i,
    {
        i += 1;
    }
    proof {
        lemma_trim_start_skip(s@, i as int);
    }
    i
}

/// Trims whitespace from both ends of `s`.
pub fn trim_str(s: &str) -> (r: String)
    ensures
        r@ == trim_spec(s@),
{
    let n = s.unicode_len();
    let i = ws_prefix_len(s);
    let mut j: usize = n;
    while j > i && char_is_ws(s.get_char(j - 1))
        invariant
            i <= j <= n,
            n == s@.len(),
            i <= s@.len(),
            forall|k: int| j <= k < n ==> is_unicode_ws(s@[k]),
        decreases j,
    {
        j -= 1;
    }
    let out = s.substring_char(i, j);
    proof {
        let mid = s@.skip(i as int);
        assert(trim_start_spec(s@) == mid);
        assert forall|k: int| j - i <= k < mid.len() implies is_unicode_ws(mid[k]) by {
            assert(mid[k] == s@[k + i]);
        }
        if j > i {
            assert(!is_unicode_ws(mid[j - i - 1]));
        }
        lemma_trim_end_take(mid, j - i);
        assert(mid.take(j - i) =~= s@.subrange(i as int, j as int));
    }
    String::from_str(out)
}

/// The command-like markup prefixes that disqualify a message from
/// being shown as a session's first message, tested after leading
/// whitespace.
pub open spec fn is_command_content_spec(t: Seq<char>) -> bool {
    has_prefix(trim_start_spec(t), "<command-message>"@) || has_prefix(
        trim_start_spec(t),
        "<command-name>"@,
    ) || has_prefix(trim_start_spec(t), "<local-command-"@)
}

/// Whether `text` starts (after leading whitespace) with command-like
/// markup that should be skipped in the listings.
pub fn is_command_content(text: &str) -> (r: bool)
    ensures
        r == is_command_content_spec(text@),
{
    let i = ws_prefix_len(text);
    starts_with_from(text, i, "<command-message>") || starts_with_from(text, i, "<command-name>")
        || starts_with_from(text, i, "<local-command-")
}


/// One block of a structured message content array, as far as the
/// listing reads it: its type tag and its text, where it carries one.
pub struct ContentBlock {
    /// The block's type tag.
    pub kind: String,
    /// The block's text field, where it is a string.
    pub text: Option<String>,
}

/// A message's content field, as far as the listing reads it: a
/// plain string, an array of typed blocks, or any other shape.
pub enum MessageContent {
    /// The content was a single string.
    Text(String),
    /// The content was an array of blocks.
    Blocks(Vec<ContentBlock>),
    /// Any other shape carries no text.
    Other,
}

/// The display form of a candidate text: trimmed, and kept only when
/// something remains, shortened to 120 characters.
pub open spec fn display_text_spec(s: Seq<char>) -> Option<Seq<char>> {
    if trim_spec(s).len() == 0 {
        None
    } else {
        Some(truncate_spec(trim_spec(s), 120))
    }
}

/// The text of the first block that is tagged `text` and carries a
/// string with something left after trimming; blocks before it are
/// skipped.
pub open spec fn blocks_text_spec(bs: Seq<ContentBlock>) -> Option<Seq<char>>
    decreases bs.len(),
{
    if bs.len() == 0 {
        None
    } else {
        let b = bs.first();
        match b.text {
            Some(t) => if b.kind@ == "text"@ && trim_spec(t@).len() > 0 {
                Some(truncate_spec(trim_spec(t@), 120))
            } else {
                blocks_text_spec(bs.drop_first())
            },
            None => blocks_text_spec(bs.drop_first()),
        }
    }
}

/// What a message content field displays as a first message.
pub open spec fn extract_text_spec(c: MessageContent) -> Option<Seq<char>> {
    match c {
        MessageContent::Text(s) => display_text_spec(s@),
        MessageContent::Blocks(bs) => blocks_text_spec(bs@),
        MessageContent::Other => None,
    }
}

/// Extracts the displayable text of a message content field: a plain
/// string is trimmed and truncated; an array yields the first
/// `text`-tagged block whose trimmed text is non-empty; anything
/// else, or only empty candidates, yields nothing.
pub fn extract_text_from_content(content: MessageContent) -> (r: Option<String>)
    ensures
        extract_text_spec(content) matches Some(t) ==> (r matches Some(s) && s@ == t),
        extract_text_spec(content) is None ==> r is None,
{
    match content {
        MessageContent::Text(s) => {
            let trimmed = trim_str(s.as_str());
            if trimmed.as_str().unicode_len() == 0 {
                None
            } else {
                Some(truncate(trimmed.as_str(), 120))
            }
        },
        MessageContent::Blocks(bs) => {
            let n = bs.len();
            let mut i: usize = 0;
            proof {
                assert(bs@.skip(0) =~= bs@);
            }
            while i < n
                invariant
                    0 <= i <= n,
                    n == bs@.len(),
                    content == MessageContent::Blocks(bs),
                    blocks_text_spec(bs@.skip(i as int)) == blocks_text_spec(bs@),
                decreases n - i,
            {
                proof {
                    assert(bs@.skip(i as int).first() == bs@[i as int]);
                    assert(bs@.skip(i as int).drop_first() =~= bs@.skip(i as int + 1));
                }
                let b = &bs[i];
                if str_eq(b.kind.as_str(), "text") {
                    match &b.text {
                        Some(t) => {
                            let trimmed = trim_str(t.as_str());
                            if trimmed.as_str().unicode_len() > 0 {
                                let out = truncate(trimmed.as_str(), 120);
                                proof {
                                    assert(bs@.skip(i as int).len() > 0);
                                    assert(bs@.skip(i as int).first().text == Some(*t));
                                    assert(blocks_text_spec(bs@.skip(i as int)) == Some(
                                        truncate_spec(trim_spec(t@), 120),
                                    ));
                                }
                                return Some(out);
                            }
                        },
                        None => {},
                    }
                }
                i += 1;
            }
            proof {
                assert(bs@.skip(n as int) =~= Seq::<ContentBlock>::empty());
            }
            None
        },
        MessageContent::Other => None,
    }
}


/// The characters after the last `/` of `p`; all of `p` when it has
/// none.
pub open spec fn last_segment_spec(p: Seq<char>) -> Seq<char>
    decreases p.len(),
{
    if p.len() == 0 {
        p
    } else if p.last() == '/' {
        Seq::<char>::empty()
    } else {
        last_segment_spec(p.drop_last()).push(p.last())
    }
}

/// The suffix after a `/` at index `k - 1` (or from the start, for
/// `k == 0`), with no `/` in it, is the last segment.
proof fn lemma_last_segment_skip(p: Seq<char>, k: int)
    requires
        0 <= k <= p.len(),
        forall|j: int| k <= j < p.len() ==> p[j] != '/',
        k == 0 || p[k - 1] == '/',
    ensures
        last_segment_spec(p) == p.skip(k),
    decreases p.len(),
{
    if p.len() == 0 {
        assert(p.skip(0) =~= p);
    } else if p.last() == '/' {
        assert(k == p.len());
        assert(p.skip(k) =~= Seq::<char>::empty());
    } else {
        assert(k < p.len());
        lemma_last_segment_skip(p.drop_last(), k);
        assert(p.drop_last().skip(k).push(p.last()) =~= p.skip(k));
    }
}

/// `s` with every leading `-` removed.
pub open spec fn strip_dashes_spec(s: Seq<char>) -> Seq<char>
    decreases s.len(),
{
    if s.len() > 0 && s[0] == '-' {
        strip_dashes_spec(s.drop_first())
    } else {
        s
    }
}

/// Skipping a prefix of dashes is exactly what stripping them does.
proof fn lemma_strip_dashes_skip(s: Seq<char>, i: int)
    requires
        0 <= i <= s.len(),
        forall|j: int| 0 <= j < i ==> s[j] == '-',
        i == s.len() || s[i] != '-',
    ensures
        strip_dashes_spec(s) == s.skip(i),
    decreases i,
{
    if i == 0 {
        assert(s.skip(0) =~= s);
    } else {
        assert(s[0] == '-');
        lemma_strip_dashes_skip(s.drop_first(), i - 1);
        assert(s.drop_first().skip(i - 1) =~= s.skip(i));
    }
}

/// The path and the display name a project is listed under: with a
/// known working directory, the directory itself and its last `/`
/// separated segment; without one, an empty path and the project
/// directory's name with its leading dashes removed.
pub fn project_display(cwd: Option<String>, dir_name: &str) -> (r: (String, String))
    ensures
        cwd matches Some(p) ==> r.0@ == p@ && r.1@ == last_segment_spec(p@),
        cwd is None ==> r.0@.len() == 0 && r.1@ == strip_dashes_spec(dir_name@),
{
    match cwd {
        Some(p) => {
            let n = p.as_str().unicode_len();
            let mut k: usize = n;
            while k > 0 && p.as_str().get_char(k - 1) != '/'
                invariant
                    0 <= k <= n,
                    n == p@.len(),
                    forall|j: int| k <= j < n ==> p@[j] != '/',
                decreases k,
            {
                k -= 1;
            }
            let name = String::from_str(p.as_str().substring_char(k, n));
            proof {
                lemma_last_segment_skip(p@, k as int);
                assert(p@.subrange(k as int, n as int) =~= p@.skip(k as int));
            }
            (p, name)
        },
        None => {
            let n = dir_name.unicode_len();
            let mut i: usize = 0;
            while i < n && dir_name.get_char(i) == '-'
                invariant
                    0 <= i <= n,
                    n == dir_name@.len(),
                    forall|j: int| 0 <= j < i ==> dir_name@[j] == '-',
                decreases n - i,
            {
                i += 1;
            }
            let name = String::from_str(dir_name.substring_char(i, n));
            proof {
                lemma_strip_dashes_skip(dir_name@, i as int);
                assert(dir_name@.subrange(i as int, n as int) =~= dir_name@.skip(i as int));
            }
            (String::new(), name)
        },
    }
}


/// `s` with every trailing `.jsonl` removed: the session identifier
/// a log file's name carries.
pub open spec fn strip_log_ext_spec(s: Seq<char>) -> Seq<char>
    decreases s.len(),
{
    if s.len() >= 6 && s.skip(s.len() - 6) == ".jsonl"@ {
        strip_log_ext_spec(s.take(s.len() - 6))
    } else {
        s
    }
}

/// The session identifier of a log file name: the name with every
/// trailing `.jsonl` extension removed.
pub fn session_id_from_filename(name: &str) -> (r: String)
    ensures
        r@ == strip_log_ext_spec(name@),
{
    let n = name.unicode_len();
    let mut k: usize = n;
    proof {
        reveal_strlit(".jsonl");
        assert(name@.take(n as int) =~= name@);
    }
    while k >= 6 && starts_with_from(name, k - 6, ".jsonl")
        invariant
            0 <= k <= n,
            n == name@.len(),
            strip_log_ext_spec(name@) == strip_log_ext_spec(name@.take(k as int)),
        decreases k,
    {
        proof {
            reveal_strlit(".jsonl");
            let cur = name@.take(k as int);
            assert(name@.skip(k as int - 6).take(6) =~= cur.skip(k as int - 6));
            assert(cur.skip(k as int - 6) == ".jsonl"@);
            assert(cur.take(k as int - 6) =~= name@.take(k as int - 6));
        }
        k -= 6;
    }
    proof {
        reveal_strlit(".jsonl");
        let cur = name@.take(k as int);
        if cur.len() >= 6 && cur.skip(k as int - 6) == ".jsonl"@ {
            assert(k >= 6);
            assert(name@.skip(k as int - 6).take(6) =~= cur.skip(k as int - 6));
            assert(crate::text::has_prefix(name@.skip(k as int - 6), ".jsonl"@));
        }
        assert(strip_log_ext_spec(cur) == cur);
    }
    let out = name.substring_char(0, k);
    proof {
        assert(name@.subrange(0, k as int) =~= name@.take(k as int));
    }
    String::from_str(out)
}


/// Newest-first ordering of optional millisecond timestamps: a known
/// time sorts before an unknown one, and later times before earlier
/// ones.
pub open spec fn opt_ms_ge(a: Option<u64>, b: Option<u64>) -> bool {
    match b {
        None => true,
        Some(y) => match a {
            Some(x) => x >= y,
            None => false,
        },
    }
}

/// Decides [`opt_ms_ge`].
fn opt_ms_ge_exec(a: Option<u64>, b: Option<u64>) -> (r: bool)
    ensures
        r == opt_ms_ge(a, b),
{
    match b {
        None => true,
        Some(y) => match a {
            Some(x) => x >= y,
            None => false,
        },
    }
}

/// The sessions are ordered newest first by their update time.
pub open spec fn sessions_sorted_desc(s: Seq<SessionInfo>) -> bool {
    forall|i: int, j: int|
        0 <= i < j < s.len() ==> opt_ms_ge(
            (#[trigger] s[i]).updated_at,
            (#[trigger] s[j]).updated_at,
        )
}

/// Sorts a session listing newest first by update time.  The result
/// is a reordering of the input: the same sessions, as a multiset.
pub fn sort_sessions_newest_first(sessions: Vec<SessionInfo>) -> (r: Vec<SessionInfo>)
    ensures
        r@.to_multiset() == sessions@.to_multiset(),
        sessions_sorted_desc(r@),
{
    broadcast use vstd::seq_lib::group_to_multiset_ensures;

    let mut rest = sessions;
    let mut out: Vec<SessionInfo> = Vec::new();
    proof {
        assert(rest@.to_multiset().add(out@.to_multiset()) =~= rest@.to_multiset());
    }
    while rest.len() > 0
        invariant
            rest@.to_multiset().add(out@.to_multiset()) == sessions@.to_multiset(),
            sessions_sorted_desc(out@),
        decreases rest@.len(),
    {
        let ghost rest_pre = rest@;
        let item = rest.pop().unwrap();
        let key = item.updated_at;
        let n = out.len();
        let mut pos: usize = 0;
        while pos < n && opt_ms_ge_exec(out[pos].updated_at, key)
            invariant
                0 <= pos <= n,
                n == out@.len(),
                forall|a: int| 0 <= a < pos ==> opt_ms_ge((#[trigger] out@[a]).updated_at, key),
            decreases n - pos,
        {
            pos += 1;
        }
        let ghost out_pre = out@;
        proof {
            out_pre.insert_ensures(pos as int, item);
        }
        out.insert(pos, item);
        proof {
            broadcast use vstd::seq_lib::group_to_multiset_ensures;

            let p = pos as int;
            assert(rest_pre =~= rest@.push(item));
            assert(rest@.push(item).to_multiset() == rest@.to_multiset().insert(item));
            assert(out@ == out_pre.insert(p, item));
            assert(out@.to_multiset() == out_pre.to_multiset().insert(item));
            assert(rest@.to_multiset().add(out@.to_multiset()) =~= sessions@.to_multiset());
            assert forall|i: int, j: int| 0 <= i < j < out@.len() implies opt_ms_ge(
                (#[trigger] out@[i]).updated_at,
                (#[trigger] out@[j]).updated_at,
            ) by {
                if j < p {
                    assert(out@[i] == out_pre[i] && out@[j] == out_pre[j]);
                } else if j == p {
                    assert(out@[i] == out_pre[i] && out@[j] == item);
                } else {
                    assert(out@[j] == out_pre[j - 1]);
                    if i < p {
                        assert(out@[i] == out_pre[i]);
                        assert(i < j - 1 || i == j - 1);
                        if i == j - 1 {
                            assert(opt_ms_ge(out_pre[i].updated_at, key));
                            assert(!opt_ms_ge(out_pre[p].updated_at, key) || p == n);
                        }
                    } else if i == p {
                        assert(out@[i] == item);
                        assert(p < n);
                        assert(!opt_ms_ge(out_pre[p].updated_at, key));
                        assert(opt_ms_ge(key, out_pre[p].updated_at));
                        assert(opt_ms_ge(out_pre[p].updated_at, out_pre[j - 1].updated_at));
                    } else {
                        assert(out@[i] == out_pre[i - 1]);
                    }
                }
            }
        }
    }
    out
}

/// The projects are ordered newest first by their last activity.
pub open spec fn projects_sorted_desc(s: Seq<ProjectInfo>) -> bool {
    forall|i: int, j: int|
        0 <= i < j < s.len() ==> opt_ms_ge(
            (#[trigger] s[i]).last_activity,
            (#[trigger] s[j]).last_activity,
        )
}

/// Sorts a project listing newest first by last activity.  The
/// result is a reordering of the input: the same projects, as a
/// multiset.
pub fn sort_projects_newest_first(projects: Vec<ProjectInfo>) -> (r: Vec<ProjectInfo>)
    ensures
        r@.to_multiset() == projects@.to_multiset(),
        projects_sorted_desc(r@),
{
    broadcast use vstd::seq_lib::group_to_multiset_ensures;

    let mut rest = projects;
    let mut out: Vec<ProjectInfo> = Vec::new();
    proof {
        assert(rest@.to_multiset().add(out@.to_multiset()) =~= rest@.to_multiset());
    }
    while rest.len() > 0
        invariant
            rest@.to_multiset().add(out@.to_multiset()) == projects@.to_multiset(),
            projects_sorted_desc(out@),
        decreases rest@.len(),
    {
        let ghost rest_pre = rest@;
        let item = rest.pop().unwrap();
        let key = item.last_activity;
        let n = out.len();
        let mut pos: usize = 0;
        while pos < n && opt_ms_ge_exec(out[pos].last_activity, key)
            invariant
                0 <= pos <= n,
                n == out@.len(),
                forall|a: int| 0 <= a < pos ==> opt_ms_ge((#[trigger] out@[a]).last_activity, key),
            decreases n - pos,
        {
            pos += 1;
        }
        let ghost out_pre = out@;
        proof {
            out_pre.insert_ensures(pos as int, item);
        }
        out.insert(pos, item);
        proof {
            broadcast use vstd::seq_lib::group_to_multiset_ensures;

            let p = pos as int;
            assert(rest_pre =~= rest@.push(item));
            assert(rest@.push(item).to_multiset() == rest@.to_multiset().insert(item));
            assert(out@ == out_pre.insert(p, item));
            assert(out@.to_multiset() == out_pre.to_multiset().insert(item));
            assert(rest@.to_multiset().add(out@.to_multiset()) =~= projects@.to_multiset());
            assert forall|i: int, j: int| 0 <= i < j < out@.len() implies opt_ms_ge(
                (#[trigger] out@[i]).last_activity,
                (#[trigger] out@[j]).last_activity,
            ) by {
                if j < p {
                    assert(out@[i] == out_pre[i] && out@[j] == out_pre[j]);
                } else if j == p {
                    assert(out@[i] == out_pre[i] && out@[j] == item);
                } else {
                    assert(out@[j] == out_pre[j - 1]);
                    if i < p {
                        assert(out@[i] == out_pre[i]);
                        if i == j - 1 {
                            assert(opt_ms_ge(out_pre[i].last_activity, key));
                            assert(!opt_ms_ge(out_pre[p].last_activity, key) || p == n);
                        }
                    } else if i == p {
                        assert(out@[i] == item);
                        assert(p < n);
                        assert(!opt_ms_ge(out_pre[p].last_activity, key));
                        assert(opt_ms_ge(key, out_pre[p].last_activity));
                        assert(opt_ms_ge(out_pre[p].last_activity, out_pre[j - 1].last_activity));
                    } else {
                        assert(out@[i] == out_pre[i - 1]);
                    }
                }
            }
        }
    }
    out
}


/// One log line of a session, as far as the metadata scan reads it:
/// plain fields the host lifts out of the parsed record.
pub struct LineRecord {
    /// The record's type tag is `user`.
    pub is_user: bool,
    /// The record carries an explicitly null parent: a root record.
    pub parent_null: bool,
    /// The record is marked as meta.
    pub is_meta: bool,
    /// The record's working directory, where it is a string.
    pub cwd: Option<String>,
    /// The record's timestamp, where it is a string.
    pub timestamp: Option<String>,
    /// The record's git branch, where it is a string.
    pub git_branch: Option<String>,
    /// The record's message content, where it has one.
    pub content: Option<MessageContent>,
}

/// The state of a session-log metadata scan.
pub struct ScanState {
    /// A working directory has been taken.
    pub found_cwd: bool,
    /// A first message has been taken.
    pub found_first_message: bool,
    /// The creation timestamp, once a root record carried one.
    pub created_at: Option<String>,
    /// The first displayable user message.
    pub first_message: Option<String>,
    /// The branch recorded at creation.
    pub git_branch: Option<String>,
    /// The working directory recorded in the log.
    pub cwd: Option<String>,
}

/// The scan before any line: nothing found.
pub fn scan_start() -> (st: ScanState)
    ensures
        !st.found_cwd,
        !st.found_first_message,
        st.created_at is None,
        st.first_message is None,
        st.git_branch is None,
        st.cwd is None,
{
    ScanState {
        found_cwd: false,
        found_first_message: false,
        created_at: None,
        first_message: None,
        git_branch: None,
        cwd: None,
    }
}

/// This line contributes the first message: a root, non-meta user
/// record whose content shows displayable text that is not command
/// markup, met before any other did.
pub open spec fn takes_first_message(st: ScanState, line: LineRecord) -> bool {
    &&& line.is_user
    &&& line.parent_null
    &&& !line.is_meta
    &&& !st.found_first_message
    &&& match line.content {
        Some(c) => match extract_text_spec(c) {
            Some(t) => !is_command_content_spec(t),
            None => false,
        },
        None => false,
    }
}

/// The first message after this line, by characters.
pub open spec fn first_message_after(st: ScanState, line: LineRecord) -> Option<Seq<char>> {
    if takes_first_message(st, line) {
        match line.content {
            Some(c) => extract_text_spec(c),
            None => None,
        }
    } else {
        match st.first_message {
            Some(m) => Some(m@),
            None => None,
        }
    }
}

/// One step of the metadata scan over a session log.  A non-user
/// line changes nothing.  A user line contributes its working
/// directory (the first one seen, meta or not); a root user line
/// met before any creation timestamp contributes its timestamp and,
/// while no branch is known, its branch; and a root, non-meta user
/// line with displayable non-command text contributes the first
/// message, once.
pub fn scan_step(st: ScanState, line: LineRecord) -> (r: ScanState)
    ensures
        r.found_cwd == (st.found_cwd || (line.is_user && line.cwd is Some)),
        r.cwd == (if line.is_user && !st.found_cwd && line.cwd is Some {
            line.cwd
        } else {
            st.cwd
        }),
        r.created_at == (if line.is_user && line.parent_null && st.created_at is None
            && line.timestamp is Some {
            line.timestamp
        } else {
            st.created_at
        }),
        r.git_branch == (if line.is_user && line.parent_null && st.created_at is None
            && st.git_branch is None && line.git_branch is Some {
            line.git_branch
        } else {
            st.git_branch
        }),
        r.found_first_message == (st.found_first_message || takes_first_message(st, line)),
        (match r.first_message {
            Some(m) => first_message_after(st, line) matches Some(t) && m@ == t,
            None => first_message_after(st, line) is None,
        }),
{
    if !line.is_user {
        return st;
    }
    let mut r = st;
    if !r.found_cwd && line.cwd.is_some() {
        r.cwd = line.cwd;
        r.found_cwd = true;
    }
    if line.parent_null {
        if r.created_at.is_none() {
            if r.git_branch.is_none() && line.git_branch.is_some() {
                r.git_branch = line.git_branch;
            }
            if line.timestamp.is_some() {
                r.created_at = line.timestamp;
            }
        }
        if !line.is_meta && !r.found_first_message {
            match line.content {
                Some(c) => {
                    match extract_text_from_content(c) {
                        Some(text) => {
                            if !is_command_content(text.as_str()) {
                                r.first_message = Some(text);
                                r.found_first_message = true;
                            }
                        },
                        None => {},
                    }
                },
                None => {},
            }
        }
    }
    r
}

/// Whether the scan has everything a session listing shows, so the
/// host can stop reading the log.
pub fn scan_done(st: &ScanState) -> (r: bool)
    ensures
        r == (st.found_cwd && st.found_first_message && st.created_at is Some),
{
    st.found_cwd && st.found_first_message && st.created_at.is_some()
}


/// The newest of a set of optional modification times: the largest
/// known time, or nothing when none is known.
pub fn latest_activity(mtimes: &Vec<Option<u64>>) -> (r: Option<u64>)
    ensures
        r is None <==> (forall|i: int| 0 <= i < mtimes@.len() ==> mtimes@[i] is None),
        r matches Some(m) ==> (exists|i: int| 0 <= i < mtimes@.len() && mtimes@[i] == Some(m))
            && (forall|i: int| 0 <= i < mtimes@.len() ==> opt_ms_ge(Some(m), #[trigger] mtimes@[i])),
{
    let mut best: Option<u64> = None;
    let n = mtimes.len();
    let mut i: usize = 0;
    while i < n
        invariant
            0 <= i <= n,
            n == mtimes@.len(),
            best is None <==> (forall|j: int| 0 <= j < i ==> mtimes@[j] is None),
            best matches Some(m) ==> (exists|j: int| 0 <= j < i && mtimes@[j] == Some(m)) && (
            forall|j: int| 0 <= j < i ==> opt_ms_ge(Some(m), #[trigger] mtimes@[j])),
        decreases n - i,
    {
        match mtimes[i] {
            Some(mt) => {
                best = match best {
                    Some(prev) => if prev >= mt {
                        Some(prev)
                    } else {
                        Some(mt)
                    },
                    None => Some(mt),
                };
            },
            None => {},
        }
        i += 1;
    }
    best
}

} // verus!
