//! What the repository collaborator reports: branches, commits and reflog
//! entries, as plain values.

use crate::order::{is_stable_order, keys_view, stable_order};
use crate::search::{occurs_in, text_matches};
use crate::text::{
    chars_of, decimal, decimal_chars, lowercase, push_decimal, push_range, push_text, same_text,
    string_of_range,
};
use vstd::prelude::*;

verus! {

/// A local branch, and whether it is checked out.
#[derive(Debug)]
pub struct BranchInfo {
    pub name: String,
    pub is_head: bool,
}

/// A commit as the log shows it.
#[derive(Debug)]
pub struct CommitInfo {
    pub short_hash: String,
    pub author: String,
    pub date: String,
    pub message: String,
}

/// An entry of the reflog.
#[derive(Debug)]
pub struct ReflogEntry {
    pub short_hash: String,
    pub full_hash: String,
    pub selector: String,
    pub action: String,
    pub message: String,
}

/// The whole days of a count of seconds, rounded towards zero.
pub open spec fn whole_days(epoch: int) -> int {
    if epoch >= 0 {
        epoch / 86400
    } else {
        -((-epoch) / 86400)
    }
}

/// The civil date (year, month, day) of a day counted from 1 March of the
/// year 0 of the proleptic Gregorian calendar.
pub open spec fn civil_from_shifted(z: int) -> (int, int, int) {
    let era = z / 146097;
    let doe = z - era * 146097;
    let yoe = (doe - doe / 1460 + doe / 36524 - doe / 146096) / 365;
    let doy = doe - (365 * yoe + yoe / 4 - yoe / 100);
    let mp = (5 * doy + 2) / 153;
    let d = doy - (153 * mp + 2) / 5 + 1;
    let m = if mp < 10 {
        mp + 3
    } else {
        mp - 9
    };
    let y = yoe + era * 400;
    (
        if m <= 2 {
            y + 1
        } else {
            y
        },
        m,
        d,
    )
}

/// The civil date of a count of seconds since 1 January 1970.
pub open spec fn civil_date(epoch: int) -> (int, int, int) {
    civil_from_shifted(whole_days(epoch) + 719468)
}

/// A number in decimal, filled with zeros to at least `width` characters;
/// the sign of a negative number counts as one of them.
pub open spec fn zero_filled(value: int, width: int) -> Seq<char> {
    let digits = decimal(
        (if value < 0 {
            -value
        } else {
            value
        }) as nat,
    );
    let sign = if value < 0 {
        seq!['-']
    } else {
        Seq::empty()
    };
    let fill = width - sign.len() - digits.len();
    sign + Seq::new(
        (if fill > 0 {
            fill
        } else {
            0
        }) as nat,
        |i: int| '0',
    ) + digits
}

/// The date as text: year, month and day with hyphens between them.
pub open spec fn date_text(epoch: int) -> Seq<char> {
    let date = civil_date(epoch);
    zero_filled(date.0, 4) + seq!['-'] + zero_filled(date.1, 2) + seq!['-'] + zero_filled(
        date.2,
        2,
    )
}

fn push_zero_filled(out: &mut String, value: i64, width: usize)
    requires
        value > i64::MIN,
    ensures
        final(out)@ == old(out)@ + zero_filled(value as int, width as int),
{
    let magnitude: u64 = if value < 0 {
        (-value) as u64
    } else {
        value as u64
    };
    let digits = decimal_chars(magnitude);
    let sign_len: usize = if value < 0 {
        1
    } else {
        0
    };
    let room = if width > digits.len() {
        width - digits.len()
    } else {
        0
    };
    let zeros = if room > sign_len {
        room - sign_len
    } else {
        0
    };
    if value < 0 {
        out.push('-');
    }
    let ghost signed = out@;
    let mut k: usize = 0;
    assert(out@ =~= signed + Seq::new(0nat, |i: int| '0'));
    while k < zeros
        invariant
            k <= zeros,
            out@ == signed + Seq::new(k as nat, |i: int| '0'),
        decreases zeros - k,
    {
        out.push('0');
        assert(Seq::new((k + 1) as nat, |i: int| '0') =~= Seq::new(k as nat, |i: int| '0').push(
            '0',
        ));
        k += 1;
    }
    push_range(out, &digits, 0, digits.len());
    proof {
        assert(digits@.subrange(0, digits.len() as int) =~= digits@);
        assert(out@ =~= old(out)@ + zero_filled(value as int, width as int));
    }
}

fn shifted_days(epoch: i64) -> (z: i64)
    ensures
        z == whole_days(epoch as int) + 719468,
        -106751991167301 <= z - 719468 <= 106751991167301,
{
    let days: i64 = if epoch >= 0 {
        epoch / 86400
    } else if epoch == i64::MIN {
        -106751991167300
    } else {
        -((-epoch) / 86400)
    };
    days + 719468
}

fn era_of(z: i64) -> (era: i64)
    requires
        -106751991167301 <= z - 719468 <= 106751991167301,
    ensures
        era == z as int / 146097,
        0 <= z - era * 146097 <= 146096,
        -1_000_000_000 <= era <= 1_000_000_000,
{
    if z >= 0 {
        z / 146097
    } else {
        let up = (146096 - z) / 146097;
        assert(-up == z as int / 146097) by {
            assert(146097 * up <= 146096 - z < 146097 * up + 146097);
        }
        -up
    }
}

#[verifier::spinoff_prover]
#[verifier::rlimit(100)]
fn year_of_era(doe: i64) -> (yoe: i64)
    requires
        0 <= doe <= 146096,
    ensures
        yoe == (doe - doe / 1460 + doe / 36524 - doe / 146096) / 365,
        0 <= yoe <= 399,
        0 <= doe - (365 * yoe + yoe / 4 - yoe / 100) <= 365,
{
    let yoe = (doe - doe / 1460 + doe / 36524 - doe / 146096) / 365;
    assert(0 <= yoe <= 399);
    assert(0 <= doe - (365 * yoe + yoe / 4 - yoe / 100) <= 365) by {
        let a = doe / 1460;
        let b = doe / 36524;
        let c = doe / 146096;
        let q = yoe / 4;
        let h = yoe / 100;
        assert(1460 * a <= doe < 1460 * a + 1460);
        assert(36524 * b <= doe < 36524 * b + 36524);
        assert(4 * q <= yoe < 4 * q + 4);
        assert(100 * h <= yoe < 100 * h + 100);
    }
    yoe
}

fn month_and_day(doy: i64) -> (r: (i64, i64))
    requires
        0 <= doy <= 365,
    ensures
        r.0 == {
            let mp = (5 * doy + 2) / 153;
            if mp < 10 {
                mp + 3
            } else {
                mp - 9
            }
        },
        r.1 == doy - (153 * ((5 * doy + 2) / 153) + 2) / 5 + 1,
        1 <= r.0 <= 12,
        1 <= r.1 <= 31,
{
    let mp: i64 = (5 * doy + 2) / 153;
    let d: i64 = doy - (153 * mp + 2) / 5 + 1;
    let m: i64 = if mp < 10 {
        mp + 3
    } else {
        mp - 9
    };
    (m, d)
}

/// The civil date of a count of seconds since 1 January 1970, as
/// `YYYY-MM-DD`. A negative count is rounded towards zero to whole days.
pub fn epoch_to_date(epoch: i64) -> (r: String)
    ensures
        r@ == date_text(epoch as int),
{
    let z = shifted_days(epoch);
    let era = era_of(z);
    let doe: i64 = z - era * 146097;
    let yoe = year_of_era(doe);
    let doy: i64 = doe - (365 * yoe + yoe / 4 - yoe / 100);
    let (m, d) = month_and_day(doy);
    let y0: i64 = yoe + era * 400;
    let y: i64 = if m <= 2 {
        y0 + 1
    } else {
        y0
    };
    let mut r = String::new();
    push_zero_filled(&mut r, y, 4);
    r.push('-');
    push_zero_filled(&mut r, m, 2);
    r.push('-');
    push_zero_filled(&mut r, d, 2);
    assert(r@ =~= date_text(epoch as int));
    r
}

/// The short form of a hash: its first seven characters.
pub open spec fn short_form(hash: Seq<char>) -> Seq<char> {
    if hash.len() >= 7 {
        hash.take(7)
    } else {
        hash
    }
}

/// Shortens a hash to seven characters.
pub fn short_hash(hash: &str) -> (r: String)
    ensures
        r@ == short_form(hash@),
{
    let chars = chars_of(hash);
    let to = if chars.len() >= 7 {
        7
    } else {
        chars.len()
    };
    let r = string_of_range(&chars, 0, to);
    assert(chars@.subrange(0, to as int) =~= short_form(hash@));
    r
}

/// The index of the first `": "` in a text from `from` on, or the length.
pub open spec fn first_colon_blank(s: Seq<char>, from: int) -> int
    decreases s.len() - from,
{
    if from < 0 || from + 1 >= s.len() {
        s.len() as int
    } else if s[from] == ':' && s[from + 1] == ' ' {
        from
    } else {
        first_colon_blank(s, from + 1)
    }
}

/// The action and the message of a reflog line: what stands before and
/// behind its first `": "`; a line without one is both.
pub open spec fn reflog_parts(raw: Seq<char>) -> (Seq<char>, Seq<char>) {
    let at = first_colon_blank(raw, 0);
    if at < raw.len() {
        (raw.take(at), raw.skip(at + 2))
    } else {
        (raw, raw)
    }
}

/// The selector of the reflog entry at a position: `HEAD@{position}`.
pub open spec fn selector_text(index: usize) -> Seq<char> {
    "HEAD@{"@ + decimal(index as nat) + "}"@
}

/// Makes the reflog entry at a position from the hash it points to and
/// its line.
pub fn reflog_entry(index: usize, full_hash: String, raw_message: &str) -> (entry: ReflogEntry)
    ensures
        entry.full_hash == full_hash,
        entry.short_hash@ == short_form(full_hash@),
        entry.selector@ == selector_text(index),
        (entry.action@, entry.message@) == reflog_parts(raw_message@),
{
    let chars = chars_of(raw_message);
    let mut at: usize = 0;
    let mut found = false;
    while !found && chars.len() >= 2 && at < chars.len() - 1
        invariant
            at <= chars.len(),
            !found ==> first_colon_blank(chars@, at as int) == first_colon_blank(chars@, 0),
            found ==> at + 1 < chars.len() && first_colon_blank(chars@, 0) == at,
        decreases chars.len() - at + if found {
            0int
        } else {
            1int
        },
    {
        if chars[at] == ':' && chars[at + 1] == ' ' {
            found = true;
        } else {
            at += 1;
        }
    }
    let (action, message) = if found {
        let a = string_of_range(&chars, 0, at);
        let m = string_of_range(&chars, at + 2, chars.len());
        assert(chars@.subrange(0, at as int) =~= chars@.take(at as int));
        assert(chars@.subrange(at + 2, chars.len() as int) =~= chars@.skip(at + 2));
        (a, m)
    } else {
        let a = string_of_range(&chars, 0, chars.len());
        let m = string_of_range(&chars, 0, chars.len());
        assert(chars@.subrange(0, chars.len() as int) =~= chars@);
        (a, m)
    };
    let mut selector = "HEAD@{".to_owned();
    push_decimal(&mut selector, index as u64);
    push_text(&mut selector, "}");
    let short = short_hash(full_hash.as_str());
    ReflogEntry { short_hash: short, full_hash, selector, action, message }
}

/// The key a branch is listed by: the current branch first, then by name.
pub open spec fn branch_key(branch: BranchInfo) -> (Seq<char>, Seq<char>) {
    (
        if branch.is_head {
            Seq::empty()
        } else {
            seq!['-']
        },
        branch.name@,
    )
}

/// The keys of the branches, in their order.
pub open spec fn branch_keys(branches: Seq<BranchInfo>) -> Seq<(Seq<char>, Seq<char>)> {
    Seq::new(branches.len(), |i: int| branch_key(branches[i]))
}

/// The order in which branches are listed: the current branch first, the
/// others by name.
pub fn branch_order(branches: &Vec<BranchInfo>) -> (order: Vec<usize>)
    ensures
        is_stable_order(branch_keys(branches@), order@),
{
    let mut keys: Vec<(Vec<char>, Vec<char>)> = Vec::new();
    let mut i: usize = 0;
    while i < branches.len()
        invariant
            i <= branches.len(),
            keys.len() == i,
            forall|m: int|
                0 <= m < i ==> ((#[trigger] keys@[m]).0@, keys@[m].1@) == branch_key(branches@[m]),
        decreases branches.len() - i,
    {
        let mut rank: Vec<char> = Vec::new();
        if !branches[i].is_head {
            rank.push('-');
        }
        assert(rank@ =~= branch_key(branches@[i as int]).0);
        keys.push((rank, chars_of(branches[i].name.as_str())));
        i += 1;
    }
    assert(keys_view(keys@) =~= branch_keys(branches@));
    stable_order(&keys)
}

/// Whether a path, given by its components, lies inside the repository's
/// own directory and is none of the files that tell of a change worth
/// showing: the index, the refs, the packed refs.
pub open spec fn git_internal(parts: Seq<Seq<char>>) -> bool {
    let n = parts.len() as int;
    let in_git = exists|i: int| 0 <= i < n && #[trigger] parts[i] == ".git"@;
    let is_index = n >= 2 && parts[n - 2] == ".git"@ && parts[n - 1] == "index"@;
    let is_refs = exists|i: int|
        0 <= i && i + 1 < n && #[trigger] parts[i] == ".git"@ && parts[i + 1] == "refs"@;
    let is_packed_refs = n >= 1 && parts[n - 1] == "packed-refs"@;
    in_git && !is_index && !is_refs && !is_packed_refs
}

/// Tells whether a changed path is the repository's own business.
pub fn is_git_internal(parts: &Vec<String>) -> (r: bool)
    ensures
        r == git_internal(parts.deep_view()),
{
    let ghost view = parts.deep_view();
    let n = parts.len();
    let mut in_git = false;
    let mut is_refs = false;
    let mut i: usize = 0;
    while i < n
        invariant
            i <= n,
            n == parts.len(),
            view == parts.deep_view(),
            in_git == exists|k: int| 0 <= k < i && #[trigger] view[k] == ".git"@,
            is_refs == exists|k: int|
                0 <= k && k + 1 < n && k < i && #[trigger] view[k] == ".git"@ && view[k + 1]
                    == "refs"@,
        decreases n - i,
    {
        assert(view[i as int] == parts[i as int]@);
        if same_text(parts[i].as_str(), ".git") {
            in_git = true;
            if i + 1 < n {
                assert(view[i + 1] == parts[i + 1]@);
                if same_text(parts[i + 1].as_str(), "refs") {
                    is_refs = true;
                }
            }
        }
        i += 1;
    }
    let is_index = if n >= 2 {
        assert(view[n - 2] == parts[n - 2]@);
        assert(view[n - 1] == parts[n - 1]@);
        same_text(parts[n - 2].as_str(), ".git") && same_text(parts[n - 1].as_str(), "index")
    } else {
        false
    };
    let is_packed_refs = if n >= 1 {
        assert(view[n - 1] == parts[n - 1]@);
        same_text(parts[n - 1].as_str(), "packed-refs")
    } else {
        false
    };
    in_git && !is_index && !is_refs && !is_packed_refs
}

/// Whether a batch of changed paths calls for reading the diff again: it
/// does unless every path is the repository's own business.
pub fn needs_refresh(paths: &Vec<Vec<String>>) -> (r: bool)
    ensures
        r == exists|i: int| 0 <= i < paths.len() && !git_internal((#[trigger] paths[i]).deep_view()),
{
    let mut i: usize = 0;
    while i < paths.len()
        invariant
            i <= paths.len(),
            forall|k: int| 0 <= k < i ==> git_internal((#[trigger] paths[k]).deep_view()),
        decreases paths.len() - i,
    {
        if !is_git_internal(&paths[i]) {
            return true;
        }
        i += 1;
    }
    false
}

/// What went wrong with an update, as far as its message tells.
#[derive(Debug, Clone, Copy, PartialEq, Eq, Structural)]
pub enum UpdateFailure {
    /// The rate limit of the release server was hit.
    RateLimit,
    /// The release server could not be reached.
    Connection,
    /// Anything else.
    Other,
}

/// The kind of failure that a message tells of, read without regard to
/// case: a rate limit first, then a failed connection.
pub open spec fn failure_kind(message: Seq<char>) -> UpdateFailure {
    let text = lowercase(message);
    if occurs_in(text, lowercase("rate limit"@)) {
        UpdateFailure::RateLimit
    } else if occurs_in(text, lowercase("could not resolve"@)) || occurs_in(
        text,
        lowercase("failed to connect"@),
    ) || occurs_in(text, lowercase("connection"@)) {
        UpdateFailure::Connection
    } else {
        UpdateFailure::Other
    }
}

/// Classifies the failure of an update by its message.
pub fn update_failure(message: &str) -> (r: UpdateFailure)
    ensures
        r == failure_kind(message@),
{
    let rate = chars_of("rate limit".to_lowercase().as_str());
    let resolve = chars_of("could not resolve".to_lowercase().as_str());
    let connect = chars_of("failed to connect".to_lowercase().as_str());
    let connection = chars_of("connection".to_lowercase().as_str());
    if text_matches(message, &rate) {
        UpdateFailure::RateLimit
    } else if text_matches(message, &resolve) || text_matches(message, &connect) || text_matches(
        message,
        &connection,
    ) {
        UpdateFailure::Connection
    } else {
        UpdateFailure::Other
    }
}

} // verus!
