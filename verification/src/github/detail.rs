//! What the detail pane works out before it draws: dates cut to the day,
//! check names split into job and parameters, run times, the order of the
//! checks, the reviews worth showing, and label colours.

use crate::github::types::{GhPrDetail, GhReview, GhStatusCheck};
use crate::order::{is_stable_order, keys_view, stable_order};
use crate::text::{chars_of, decimal, is_space, push_decimal, same_text, string_of_range};
use crate::view::Tint;
use vstd::prelude::*;

verus! {

/// The day of a timestamp: its first ten characters; a shorter text as it is.
pub open spec fn day_of(iso: Seq<char>) -> Seq<char> {
    if iso.len() >= 10 {
        iso.take(10)
    } else {
        iso
    }
}

/// Cuts a timestamp to its day.
pub fn format_date(iso: &str) -> (r: String)
    ensures
        r@ == day_of(iso@),
{
    let chars = chars_of(iso);
    let to = if chars.len() >= 10 {
        10
    } else {
        chars.len()
    };
    let r = string_of_range(&chars, 0, to);
    assert(chars@.subrange(0, to as int) =~= day_of(iso@));
    r
}

/// The first index at or after `from` that holds no white space.
pub open spec fn trim_start_at(s: Seq<char>, from: int) -> int
    decreases s.len() - from,
{
    if 0 <= from < s.len() && is_space(s[from]) {
        trim_start_at(s, from + 1)
    } else {
        from
    }
}

/// The end of the text before `to` once trailing white space is dropped,
/// not going below `from`.
pub open spec fn trim_end_at(s: Seq<char>, from: int, to: int) -> int
    decreases to - from,
{
    if from < to <= s.len() && is_space(s[to - 1]) {
        trim_end_at(s, from, to - 1)
    } else {
        to
    }
}

/// The part `from..to` of a text without white space at its ends.
pub open spec fn trimmed(s: Seq<char>, from: int, to: int) -> Seq<char> {
    let a = trim_start_at(s.take(to), from);
    let b = trim_end_at(s, a, to);
    if a <= b {
        s.subrange(a, b)
    } else {
        Seq::empty()
    }
}

/// The end of the text once all closing parentheses at its end are dropped.
pub open spec fn strip_parens_end(s: Seq<char>, from: int, to: int) -> int
    decreases to - from,
{
    if from < to <= s.len() && s[to - 1] == ')' {
        strip_parens_end(s, from, to - 1)
    } else {
        to
    }
}

/// The index of the first opening parenthesis, or the length.
pub open spec fn first_paren(s: Seq<char>, from: int) -> int
    decreases s.len() - from,
{
    if from < 0 || from >= s.len() {
        s.len() as int
    } else if s[from] == '(' {
        from
    } else {
        first_paren(s, from + 1)
    }
}

/// A check's name split into the job and its parameters: what stands
/// before the first opening parenthesis, and what stands behind it without
/// the closing parentheses at the end, both without white space around
/// them. A name without a parenthesis is all job.
pub open spec fn check_name_parts(name: Seq<char>) -> (Seq<char>, Seq<char>) {
    let p = first_paren(name, 0);
    if p < name.len() {
        (trimmed(name, 0, p), trimmed(name, p + 1, strip_parens_end(name, p + 1, name.len() as int)))
    } else {
        (trimmed(name, 0, name.len() as int), Seq::empty())
    }
}

fn trim_range(chars: &Vec<char>, from: usize, to: usize) -> (r: String)
    requires
        from <= to <= chars.len(),
    ensures
        r@ == trimmed(chars@, from as int, to as int),
{
    let mut a = from;
    while a < to && chars[a].is_whitespace()
        invariant
            from <= a <= to <= chars.len(),
            trim_start_at(chars@.take(to as int), a as int) == trim_start_at(
                chars@.take(to as int),
                from as int,
            ),
        decreases to - a,
    {
        assert(chars@.take(to as int)[a as int] == chars@[a as int]);
        a += 1;
    }
    assert(a < to ==> chars@.take(to as int)[a as int] == chars@[a as int]);
    let mut b = to;
    while b > a && chars[b - 1].is_whitespace()
        invariant
            a <= b <= to <= chars.len(),
            trim_end_at(chars@, a as int, b as int) == trim_end_at(chars@, a as int, to as int),
        decreases b - a,
    {
        b -= 1;
    }
    string_of_range(chars, a, b)
}

/// Splits the name of a check into the job and its parameters.
pub fn parse_check_name(name: &str) -> (r: (String, String))
    ensures
        (r.0@, r.1@) == check_name_parts(name@),
{
    let chars = chars_of(name);
    let mut p: usize = 0;
    while p < chars.len() && chars[p] != '('
        invariant
            p <= chars.len(),
            first_paren(chars@, p as int) == first_paren(chars@, 0),
        decreases chars.len() - p,
    {
        p += 1;
    }
    if p < chars.len() {
        let job = trim_range(&chars, 0, p);
        let mut end = chars.len();
        while end > p + 1 && chars[end - 1] == ')'
            invariant
                p + 1 <= end <= chars.len(),
                strip_parens_end(chars@, p + 1, end as int) == strip_parens_end(
                    chars@,
                    p + 1,
                    chars.len() as int,
                ),
            decreases end - p,
        {
            end -= 1;
        }
        let params = trim_range(&chars, p + 1, end);
        (job, params)
    } else {
        (trim_range(&chars, 0, chars.len()), String::new())
    }
}

/// The value of a decimal digit character, if it is one.
pub open spec fn digit_value(c: char) -> Option<int> {
    if c == '0' {
        Some(0int)
    } else if c == '1' {
        Some(1int)
    } else if c == '2' {
        Some(2int)
    } else if c == '3' {
        Some(3int)
    } else if c == '4' {
        Some(4int)
    } else if c == '5' {
        Some(5int)
    } else if c == '6' {
        Some(6int)
    } else if c == '7' {
        Some(7int)
    } else if c == '8' {
        Some(8int)
    } else if c == '9' {
        Some(9int)
    } else {
        None
    }
}

/// The number that the digits `from..to` of a text spell, if they are all
/// digits.
pub open spec fn digits_value(s: Seq<char>, from: int, to: int) -> Option<int>
    decreases to - from,
{
    if to <= from {
        Some(0int)
    } else {
        match (digits_value(s, from, to - 1), digit_value(s[to - 1])) {
            (Some(high), Some(low)) => Some(high * 10 + low),
            _ => None,
        }
    }
}

/// The number that the characters `from..to` of a text spell: digits,
/// with or without a sign before them. At least one digit is needed.
pub open spec fn field_value(s: Seq<char>, from: int, to: int) -> Option<int> {
    if to <= from {
        None
    } else if s[from] == '-' || s[from] == '+' {
        if to - from < 2 {
            None
        } else {
            match digits_value(s, from + 1, to) {
                Some(v) => Some(
                    if s[from] == '-' {
                        -v
                    } else {
                        v
                    },
                ),
                None => None,
            }
        }
    } else {
        digits_value(s, from, to)
    }
}

/// The seconds that a timestamp of the form `YYYY-MM-DDTHH:MM:SS` counts
/// on a clock whose years have 365 days and whose months have 30: enough to
/// tell how long a check ran. None where the text is shorter than 19
/// characters or a field is no number.
pub open spec fn clock_seconds(iso: Seq<char>) -> Option<int> {
    if iso.len() < 19 {
        None
    } else {
        match (
            field_value(iso, 0, 4),
            field_value(iso, 5, 7),
            field_value(iso, 8, 10),
            field_value(iso, 11, 13),
            field_value(iso, 14, 16),
            field_value(iso, 17, 19),
        ) {
            (Some(y), Some(mo), Some(d), Some(h), Some(mi), Some(se)) => Some(
                ((y * 365 + mo * 30 + d) * 86400) + h * 3600 + mi * 60 + se,
            ),
            _ => None,
        }
    }
}

/// A span of seconds as `5s` or `1m05s`.
pub open spec fn duration_text(seconds: int) -> Seq<char> {
    let mins = seconds / 60;
    let secs = seconds % 60;
    if mins > 0 {
        decimal(mins as nat) + seq!['m'] + (if secs < 10 {
            seq!['0']
        } else {
            Seq::empty()
        }) + decimal(secs as nat) + seq!['s']
    } else {
        decimal(secs as nat) + seq!['s']
    }
}

/// How long a check ran, as text: the span between its two timestamps,
/// and no less than nothing. Empty where a timestamp is missing or cannot
/// be read.
pub open spec fn run_time(started: Option<Seq<char>>, completed: Option<Seq<char>>) -> Seq<char> {
    match (started, completed) {
        (Some(s), Some(c)) => match (clock_seconds(s), clock_seconds(c)) {
            (Some(a), Some(b)) => duration_text(
                if b - a > 0 {
                    b - a
                } else {
                    0
                },
            ),
            _ => Seq::empty(),
        },
        _ => Seq::empty(),
    }
}

fn digit_of_char(c: char) -> (r: Option<i64>)
    ensures
        match r {
            Some(v) => digit_value(c) == Some(v as int) && 0 <= v <= 9,
            None => digit_value(c) is None,
        },
{
    if c == '0' {
        Some(0)
    } else if c == '1' {
        Some(1)
    } else if c == '2' {
        Some(2)
    } else if c == '3' {
        Some(3)
    } else if c == '4' {
        Some(4)
    } else if c == '5' {
        Some(5)
    } else if c == '6' {
        Some(6)
    } else if c == '7' {
        Some(7)
    } else if c == '8' {
        Some(8)
    } else if c == '9' {
        Some(9)
    } else {
        None
    }
}

fn parse_digits(chars: &Vec<char>, from: usize, to: usize) -> (r: Option<i64>)
    requires
        from <= to <= chars.len(),
        to - from <= 4,
    ensures
        match r {
            Some(v) => digits_value(chars@, from as int, to as int) == Some(v as int) && 0 <= v
                <= 9999,
            None => digits_value(chars@, from as int, to as int) is None,
        },
{
    let mut value: i64 = 0;
    let mut i: usize = from;
    while i < to
        invariant
            from <= i <= to <= chars.len(),
            to - from <= 4,
            digits_value(chars@, from as int, i as int) == Some(value as int),
            i - from == 0 ==> value == 0,
            i - from == 1 ==> 0 <= value <= 9,
            i - from == 2 ==> 0 <= value <= 99,
            i - from == 3 ==> 0 <= value <= 999,
            i - from == 4 ==> 0 <= value <= 9999,
        decreases to - i,
    {
        match digit_of_char(chars[i]) {
            Some(d) => {
                value = value * 10 + d;
            },
            None => {
                proof {
                    lemma_digits_none(chars@, from as int, i + 1, to as int);
                }
                return None;
            },
        }
        i += 1;
    }
    Some(value)
}

proof fn lemma_digits_none(s: Seq<char>, from: int, mid: int, to: int)
    requires
        from < mid <= to,
        digits_value(s, from, mid) is None,
    ensures
        digits_value(s, from, to) is None,
    decreases to - mid,
{
    if mid < to {
        lemma_digits_none(s, from, mid, to - 1);
    }
}

fn parse_field(chars: &Vec<char>, from: usize, to: usize) -> (r: Option<i64>)
    requires
        from < to <= chars.len(),
        to - from <= 4,
    ensures
        match r {
            Some(v) => field_value(chars@, from as int, to as int) == Some(v as int) && -9999 <= v
                <= 9999,
            None => field_value(chars@, from as int, to as int) is None,
        },
{
    let first = chars[from];
    if first == '-' || first == '+' {
        if to - from < 2 {
            return None;
        }
        match parse_digits(chars, from + 1, to) {
            Some(v) => Some(
                if first == '-' {
                    -v
                } else {
                    v
                },
            ),
            None => None,
        }
    } else {
        parse_digits(chars, from, to)
    }
}

fn parse_clock(iso: &str) -> (r: Option<i64>)
    ensures
        match r {
            Some(v) => clock_seconds(iso@) == Some(v as int) && -400_000_000_000 <= v
                <= 400_000_000_000,
            None => clock_seconds(iso@) is None,
        },
{
    let chars = chars_of(iso);
    if chars.len() < 19 {
        return None;
    }
    let y = match parse_field(&chars, 0, 4) {
        Some(v) => v,
        None => {
            return None;
        },
    };
    let mo = match parse_field(&chars, 5, 7) {
        Some(v) => v,
        None => {
            return None;
        },
    };
    let d = match parse_field(&chars, 8, 10) {
        Some(v) => v,
        None => {
            return None;
        },
    };
    let h = match parse_field(&chars, 11, 13) {
        Some(v) => v,
        None => {
            return None;
        },
    };
    let mi = match parse_field(&chars, 14, 16) {
        Some(v) => v,
        None => {
            return None;
        },
    };
    let se = match parse_field(&chars, 17, 19) {
        Some(v) => v,
        None => {
            return None;
        },
    };
    Some(((y * 365 + mo * 30 + d) * 86400) + h * 3600 + mi * 60 + se)
}

/// Tells how long a check ran.
pub fn format_duration(started: Option<&str>, completed: Option<&str>) -> (r: String)
    ensures
        r@ == run_time(
            match started {
                Some(s) => Some(s@),
                None => None,
            },
            match completed {
                Some(c) => Some(c@),
                None => None,
            },
        ),
{
    let (s, c) = match (started, completed) {
        (Some(s), Some(c)) => (s, c),
        _ => {
            return String::new();
        },
    };
    let a = match parse_clock(s) {
        Some(v) => v,
        None => {
            return String::new();
        },
    };
    let b = match parse_clock(c) {
        Some(v) => v,
        None => {
            return String::new();
        },
    };
    let diff: u64 = if b - a > 0 {
        (b - a) as u64
    } else {
        0
    };
    let mins = diff / 60;
    let secs = diff % 60;
    let mut r = String::new();
    if mins > 0 {
        push_decimal(&mut r, mins);
        r.push('m');
        if secs < 10 {
            r.push('0');
        }
        push_decimal(&mut r, secs);
        r.push('s');
    } else {
        push_decimal(&mut r, secs);
        r.push('s');
    }
    assert(r@ =~= duration_text(diff as int));
    r
}

/// Whether a review is worth showing: it has a text, or it is more than a
/// mere comment.
pub open spec fn is_meaningful(review: GhReview) -> bool {
    review.body@.len() > 0 || review.state@ != "COMMENTED"@
}

/// The positions of the reviews worth showing among the first `n`.
pub open spec fn meaningful_positions(reviews: Seq<GhReview>, n: int) -> Seq<int>
    decreases n,
{
    if n <= 0 {
        Seq::empty()
    } else if is_meaningful(reviews[n - 1]) {
        meaningful_positions(reviews, n - 1).push(n - 1)
    } else {
        meaningful_positions(reviews, n - 1)
    }
}

/// The reviews worth showing, in their order.
pub fn meaningful_reviews(reviews: &Vec<GhReview>) -> (r: Vec<&GhReview>)
    ensures
        r@.len() == meaningful_positions(reviews@, reviews@.len() as int).len(),
        forall|k: int|
            0 <= k < r@.len() ==> *(#[trigger] r@[k]) == reviews@[meaningful_positions(
                reviews@,
                reviews@.len() as int,
            )[k]],
{
    let mut r: Vec<&GhReview> = Vec::new();
    let mut i: usize = 0;
    while i < reviews.len()
        invariant
            i <= reviews.len(),
            r@.len() == meaningful_positions(reviews@, i as int).len(),
            forall|k: int|
                0 <= k < r@.len() ==> *(#[trigger] r@[k]) == reviews@[meaningful_positions(
                    reviews@,
                    i as int,
                )[k]],
        decreases reviews.len() - i,
    {
        let review = &reviews[i];
        if !review.body.as_str().is_empty() || !same_text(review.state.as_str(), "COMMENTED") {
            r.push(review);
        }
        i += 1;
    }
    r
}

/// The two hex digits' value.
pub open spec fn hex_value(c: char) -> Option<int> {
    if digit_value(c) is Some {
        digit_value(c)
    } else if c == 'a' || c == 'A' {
        Some(10int)
    } else if c == 'b' || c == 'B' {
        Some(11int)
    } else if c == 'c' || c == 'C' {
        Some(12int)
    } else if c == 'd' || c == 'D' {
        Some(13int)
    } else if c == 'e' || c == 'E' {
        Some(14int)
    } else if c == 'f' || c == 'F' {
        Some(15int)
    } else {
        None
    }
}

/// The byte that two characters spell in hexadecimal: two hex digits, or
/// a plus sign and one hex digit.
pub open spec fn hex_pair(high: char, low: char) -> Option<int> {
    match (hex_value(high), hex_value(low)) {
        (Some(h), Some(l)) => Some(h * 16 + l),
        (None, Some(l)) => if high == '+' {
            Some(l)
        } else {
            None
        },
        _ => None,
    }
}

/// The number of `#` characters at the start of a text.
pub open spec fn hashes_at_start(s: Seq<char>, from: int) -> int
    decreases s.len() - from,
{
    if 0 <= from < s.len() && s[from] == '#' {
        hashes_at_start(s, from + 1)
    } else {
        from
    }
}

/// The colour of a label from its hex code (with or without `#` before
/// it); white where the code is not six characters that spell three bytes.
pub open spec fn label_tint(hex: Seq<char>) -> Tint {
    let at = hashes_at_start(hex, 0);
    if hex.len() - at == 6 {
        match (
            hex_pair(hex[at], hex[at + 1]),
            hex_pair(hex[at + 2], hex[at + 3]),
            hex_pair(hex[at + 4], hex[at + 5]),
        ) {
            (Some(r), Some(g), Some(b)) => Tint::Rgb(r as u8, g as u8, b as u8),
            _ => Tint::White,
        }
    } else {
        Tint::White
    }
}

fn hex_digit(c: char) -> (r: Option<u8>)
    ensures
        match r {
            Some(v) => hex_value(c) == Some(v as int) && v < 16,
            None => hex_value(c) is None,
        },
{
    match digit_of_char(c) {
        Some(v) => Some(v as u8),
        None => {
            if c == 'a' || c == 'A' {
                Some(10)
            } else if c == 'b' || c == 'B' {
                Some(11)
            } else if c == 'c' || c == 'C' {
                Some(12)
            } else if c == 'd' || c == 'D' {
                Some(13)
            } else if c == 'e' || c == 'E' {
                Some(14)
            } else if c == 'f' || c == 'F' {
                Some(15)
            } else {
                None
            }
        },
    }
}

fn hex_byte(high: char, low: char) -> (r: Option<u8>)
    ensures
        match r {
            Some(v) => hex_pair(high, low) == Some(v as int),
            None => hex_pair(high, low) is None,
        },
{
    match (hex_digit(high), hex_digit(low)) {
        (Some(h), Some(l)) => Some(h * 16 + l),
        (None, Some(l)) => {
            if high == '+' {
                Some(l)
            } else {
                None
            }
        },
        _ => None,
    }
}

/// Works out the colour of a label.
pub fn label_to_color(hex: &str) -> (t: Tint)
    ensures
        t == label_tint(hex@),
{
    let chars = chars_of(hex);
    let mut at: usize = 0;
    while at < chars.len() && chars[at] == '#'
        invariant
            at <= chars.len(),
            hashes_at_start(chars@, at as int) == hashes_at_start(chars@, 0),
        decreases chars.len() - at,
    {
        at += 1;
    }
    if chars.len() - at == 6 {
        match (
            hex_byte(chars[at], chars[at + 1]),
            hex_byte(chars[at + 2], chars[at + 3]),
            hex_byte(chars[at + 4], chars[at + 5]),
        ) {
            (Some(r), Some(g), Some(b)) => Tint::Rgb(r, g, b),
            _ => Tint::White,
        }
    } else {
        Tint::White
    }
}

/// The colour of text on a badge: black on a bright background, white on
/// a dark one or on one that is no colour given by its parts.
pub open spec fn badge_text_tint(bg: Tint) -> Tint {
    match bg {
        Tint::Rgb(r, g, b) => if (r * 299 + g * 587 + b * 114) / 1000 > 128 {
            Tint::Black
        } else {
            Tint::White
        },
        _ => Tint::White,
    }
}

/// Picks the colour of text on a badge.
pub fn badge_fg(bg: Tint) -> (t: Tint)
    ensures
        t == badge_text_tint(bg),
{
    match bg {
        Tint::Rgb(r, g, b) => {
            let r: u32 = r.into();
            let g: u32 = g.into();
            let b: u32 = b.into();
            if (r * 299 + g * 587 + b * 114) / 1000 > 128 {
                Tint::Black
            } else {
                Tint::White
            }
        },
        _ => Tint::White,
    }
}

/// The texts a check is ordered by: its workflow (or nothing), then its name.
pub open spec fn check_key(check: GhStatusCheck) -> (Seq<char>, Seq<char>) {
    (
        match check.workflow_name {
            Some(w) => w@,
            None => Seq::empty(),
        },
        check.name@,
    )
}

/// The keys of the checks, in their order.
pub open spec fn check_keys(checks: Seq<GhStatusCheck>) -> Seq<(Seq<char>, Seq<char>)> {
    Seq::new(checks.len(), |i: int| check_key(checks[i]))
}

/// The checks of a pull request in the order in which they are shown: by
/// workflow, then by name; checks that agree in both keep their order.
pub fn sorted_checks(detail: &GhPrDetail) -> (sorted: Vec<&GhStatusCheck>)
    ensures
        match detail.status_check_rollup {
            Some(checks) => exists|order: Seq<usize>|
                {
                    &&& is_stable_order(check_keys(checks@), order)
                    &&& sorted@.len() == order.len()
                    &&& forall|k: int|
                        0 <= k < sorted@.len() ==> *(#[trigger] sorted@[k]) == checks@[order[k] as int]
                },
            None => sorted@.len() == 0,
        },
{
    let checks = match &detail.status_check_rollup {
        Some(checks) => checks,
        None => {
            return Vec::new();
        },
    };
    let mut keys: Vec<(Vec<char>, Vec<char>)> = Vec::new();
    let mut i: usize = 0;
    while i < checks.len()
        invariant
            i <= checks.len(),
            keys.len() == i,
            forall|m: int|
                0 <= m < i ==> ((#[trigger] keys@[m]).0@, keys@[m].1@) == check_key(checks@[m]),
        decreases checks.len() - i,
    {
        let workflow = match &checks[i].workflow_name {
            Some(w) => chars_of(w.as_str()),
            None => Vec::new(),
        };
        keys.push((workflow, chars_of(checks[i].name.as_str())));
        i += 1;
    }
    assert(keys_view(keys@) =~= check_keys(checks@));
    let order = stable_order(&keys);
    let mut sorted: Vec<&GhStatusCheck> = Vec::new();
    let mut k: usize = 0;
    while k < order.len()
        invariant
            k <= order.len(),
            is_stable_order(check_keys(checks@), order@),
            sorted@.len() == k,
            forall|m: int| 0 <= m < k ==> *(#[trigger] sorted@[m]) == checks@[order@[m] as int],
        decreases order.len() - k,
    {
        sorted.push(&checks[order[k]]);
        k += 1;
    }
    sorted
}

} // verus!
