//! Splitting a sleep-duration token.
//!
//! A token such as `1.5m` is a numeric multiplier followed by a unit letter:
//! seconds, minutes, hours or days, with seconds when no letter follows the
//! digits. The split and the unit lookup are decided here; reading the
//! multiplier as a floating-point number stays outside.
use vstd::prelude::*;
use vstd::string::*;

use crate::chars::{char_is_numeric, numeric};

verus! {

/// The milliseconds one unit letter stands for.
pub open spec fn unit_millis(c: char) -> Option<u64> {
    if c == 's' {
        Some(1000u64)
    } else if c == 'm' {
        Some(60000u64)
    } else if c == 'h' {
        Some(3600000u64)
    } else if c == 'd' {
        Some(86400000u64)
    } else {
        None
    }
}

/// The numeric prefix of a token (numeric characters and dots) and the
/// milliseconds of the character that stops the scan: the unit letter's
/// value, seconds when the token is all numeric, nothing when the stopping
/// character is no unit letter. Characters after the stopping one are
/// ignored.
pub open spec fn spec_split_duration(s: Seq<char>) -> (Seq<char>, Option<u64>)
    decreases s.len(),
{
    if s.len() == 0 {
        (Seq::<char>::empty(), Some(1000u64))
    } else if numeric(s[0]) || s[0] == '.' {
        let rest = spec_split_duration(s.drop_first());
        (seq![s[0]] + rest.0, rest.1)
    } else {
        (Seq::<char>::empty(), unit_millis(s[0]))
    }
}

/// Why a duration token was rejected: its stopping character is not a unit
/// letter. Carries the token.
#[derive(Debug)]
pub enum SleepError {
    InvalidInterval(String),
}

fn scan_numeric_prefix(st: &str) -> (r: usize)
    ensures
        r <= st@.len(),
        forall|j: int| 0 <= j < r ==> numeric(st@[j]) || st@[j] == '.',
        r < st@.len() ==> !(numeric(st@[r as int]) || st@[r as int] == '.'),
{
    let n = st.unicode_len();
    let mut i: usize = 0;
    while i < n
        invariant
            i <= n,
            n == st@.len(),
            forall|j: int| 0 <= j < i ==> numeric(st@[j]) || st@[j] == '.',
        decreases n - i,
    {
        let c = st.get_char(i);
        let is_num = char_is_numeric(c);
        if !(is_num || c == '.') {
            return i;
        }
        i = i + 1;
    }
    i
}

proof fn lemma_split_prefix(s: Seq<char>, i: int)
    requires
        0 <= i <= s.len(),
        forall|j: int| 0 <= j < i ==> numeric(s[j]) || s[j] == '.',
        i < s.len() ==> !(numeric(s[i]) || s[i] == '.'),
    ensures
        spec_split_duration(s).0 == s.subrange(0, i),
        spec_split_duration(s).1 == (if i == s.len() {
            Some(1000u64)
        } else {
            unit_millis(s[i])
        }),
    decreases s.len(),
{
    if s.len() == 0 {
        assert(s.subrange(0, 0) =~= Seq::<char>::empty());
    } else if i == 0 {
        assert(s.subrange(0, 0) =~= Seq::<char>::empty());
    } else {
        let tail = s.drop_first();
        assert(forall|j: int| 0 <= j < i - 1 ==> (numeric(#[trigger] tail[j]) || tail[j] == '.'))
            by {
            assert(forall|j: int| 0 <= j < i - 1 ==> tail[j] == s[j + 1]);
        }
        lemma_split_prefix(tail, i - 1);
        assert(spec_split_duration(s).0 =~= s.subrange(0, i));
    }
}

/// Split a duration token into its numeric prefix (to be read as the
/// multiplier) and the milliseconds of its unit, exactly as
/// `spec_split_duration` says; an unknown unit letter is the
/// invalid-interval error carrying the token.
pub fn split_duration(dur: &String) -> (r: (String, Result<u64, SleepError>))
    ensures
        r.0@ == spec_split_duration(dur@).0,
        match spec_split_duration(dur@).1 {
            Some(v) => r.1 == Ok::<u64, SleepError>(v),
            None => (r.1 matches Err(SleepError::InvalidInterval(t)) && t@ == dur@),
        },
{
    let st = dur.as_str();
    let n = st.unicode_len();
    let i = scan_numeric_prefix(st);
    let prefix = String::from_str(st.substring_char(0, i));
    proof {
        lemma_split_prefix(dur@, i as int);
        assert(prefix@ =~= spec_split_duration(dur@).0);
    }
    if i == n {
        (prefix, Ok(1000))
    } else {
        let c = st.get_char(i);
        if c == 's' {
            (prefix, Ok(1000))
        } else if c == 'm' {
            (prefix, Ok(60000))
        } else if c == 'h' {
            (prefix, Ok(3600000))
        } else if c == 'd' {
            (prefix, Ok(86400000))
        } else {
            (prefix, Err(SleepError::InvalidInterval(dur.clone())))
        }
    }
}

} // verus!
