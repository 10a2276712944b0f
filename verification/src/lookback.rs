//! The historical-lookback window of a step, and its conversion into the
//! execution engine's native representation.

use vstd::prelude::*;

use crate::error::{DecodeError, DecodeErrorKind};
use crate::outside::{duration_of, parse_age_token, parsed_age};
use crate::raw::{find_field, get_field, RawNode};

use fluvio_smartmodule::dataplane::smartmodule::Lookback as NativeLookback;

verus! {

/// An elapsed-time bound: whole seconds and a sub-second nanosecond part.
#[derive(Debug, Clone, Copy, PartialEq, Eq)]
pub struct AgeDuration {
    secs: u64,
    nanos: u32,
}

impl View for AgeDuration {
    type V = (u64, u32);

    closed spec fn view(&self) -> (u64, u32) {
        (self.secs, self.nanos)
    }
}

impl AgeDuration {
    #[verifier::type_invariant]
    spec fn inv(self) -> bool {
        self.nanos < 1000000000
    }

    /// A duration of `secs` whole seconds and `nanos` further nanoseconds.
    pub fn new(secs: u64, nanos: u32) -> (r: Self)
        requires
            nanos < 1000000000,
        ensures
            r@ == (secs, nanos),
    {
        AgeDuration { secs, nanos }
    }

    /// The whole-second part.
    pub fn secs(&self) -> (r: u64)
        ensures
            r == self@.0,
    {
        self.secs
    }

    /// The sub-second nanosecond part, below one billion.
    pub fn subsec_nanos(&self) -> (r: u32)
        ensures
            r == self@.1,
            r < 1000000000,
    {
        proof {
            use_type_invariant(&*self);
        }
        self.nanos
    }
}

/// A historical window: a count of recent records, and an optional
/// elapsed-time bound.  Both absent fields default to "none requested".
#[derive(Debug, Clone, Copy, PartialEq, Eq)]
pub struct Lookback {
    /// How many recent records to consider; 0 when none was requested.
    pub last: u64,
    /// The elapsed-time bound, or `None` where none was requested.
    pub age: Option<AgeDuration>,
}

/// The mathematical content of a lookback window.
pub struct LookView {
    pub last: u64,
    pub age: Option<(u64, u32)>,
}

impl View for Lookback {
    type V = LookView;

    open spec fn view(&self) -> LookView {
        LookView {
            last: self.last,
            age: match self.age {
                Some(a) => Some(a@),
                None => None,
            },
        }
    }
}

/// The numeric value of an ASCII decimal digit.
pub open spec fn digit_val(c: char) -> int {
    (c as int) - ('0' as int)
}

/// Whether `c` is an ASCII decimal digit.
pub open spec fn is_decimal_digit(c: char) -> bool {
    ('0' as int) <= (c as int) <= ('9' as int)
}

/// The sum of the values of all maximal decimal digit runs in `s` from
/// position `i` on, where `cur` is the value of the run in progress and
/// `acc` the sum of the finished runs.
pub open spec fn digit_run_sum(s: Seq<char>, i: int, cur: int, acc: int) -> int
    decreases s.len() - i,
{
    if !(0 <= i < s.len()) {
        acc + cur
    } else if is_decimal_digit(s[i]) {
        digit_run_sum(s, i + 1, cur * 10 + digit_val(s[i]), acc)
    } else {
        digit_run_sum(s, i + 1, 0, acc + cur)
    }
}

/// An age token is admitted to the duration parser only when its numeric
/// parts sum below this bound.  Every span's contribution to the parsed
/// seconds is at most its numeric value times the largest unit multiplier
/// (31557600, a year), so a bounded token's total stays far below the
/// largest representable second count and the parser's final carry cannot
/// overflow.
pub open spec fn age_token_bounded(s: Seq<char>) -> bool {
    digit_run_sum(s, 0, 0, 0) < 500000000000
}

/// The digit-run sum never falls below the accumulator and the run in
/// progress.
proof fn lemma_digit_run_sum_lower(s: Seq<char>, i: int, cur: int, acc: int)
    requires
        0 <= cur,
        0 <= acc,
    ensures
        digit_run_sum(s, i, cur, acc) >= acc + cur,
    decreases s.len() - i,
{
    if 0 <= i < s.len() {
        if is_decimal_digit(s[i]) {
            lemma_digit_run_sum_lower(s, i + 1, cur * 10 + digit_val(s[i]), acc);
        } else {
            lemma_digit_run_sum_lower(s, i + 1, 0, acc + cur);
        }
    }
}

/// Decides whether an age token's numeric parts stay within the admitted
/// bound.
pub fn age_token_in_range(s: &str) -> (r: bool)
    ensures
        r == age_token_bounded(s@),
{
    let n: usize = s.unicode_len();
    let mut i: usize = 0;
    let mut cur: u64 = 0;
    let mut acc: u64 = 0;
    #[verifier::loop_isolation(false)]
    while i < n
        invariant
            i <= n,
            n == s@.len(),
            cur < 500000000000,
            acc < 500000000000,
            digit_run_sum(s@, i as int, cur as int, acc as int) == digit_run_sum(s@, 0, 0, 0),
        decreases n - i,
    {
        let c = s.get_char(i);
        if c >= '0' && c <= '9' {
            let d: u64 = ((c as u32) - ('0' as u32)) as u64;
            let next: u64 = cur * 10 + d;
            if next >= 500000000000 {
                proof {
                    lemma_digit_run_sum_lower(s@, i as int + 1, next as int, acc as int);
                }
                return false;
            }
            cur = next;
        } else {
            let sum: u64 = acc + cur;
            if sum >= 500000000000 {
                proof {
                    lemma_digit_run_sum_lower(s@, i as int + 1, 0, sum as int);
                }
                return false;
            }
            acc = sum;
            cur = 0;
        }
        i = i + 1;
    }
    acc + cur < 500000000000
}

/// What decoding a lookback mapping yields: `last` defaults to 0, `age` to
/// absent; a present `age` token must parse as a duration.
pub open spec fn spec_lookback(n: RawNode) -> Result<LookView, DecodeErrorKind> {
    match n {
        RawNode::MapNode(entries, _) => {
            let last_r: Result<u64, DecodeErrorKind> = match find_field(entries@, "last"@) {
                Option::None => Ok(0u64),
                Option::Some(RawNode::Uint(u)) => Ok(u),
                Option::Some(_) => Err(DecodeErrorKind::LastNotInteger),
            };
            let age_r: Result<Option<(u64, u32)>, DecodeErrorKind> = match find_field(
                entries@,
                "age"@,
            ) {
                Option::None => Ok(Option::None),
                Option::Some(RawNode::Null) => Ok(Option::None),
                Option::Some(RawNode::Text(t)) => if !age_token_bounded(t@) {
                    Err(DecodeErrorKind::BadAge(t@))
                } else {
                    match parsed_age(t@) {
                        Option::Some(p) => Ok(Option::Some(p)),
                        Option::None => Err(DecodeErrorKind::BadAge(t@)),
                    }
                },
                Option::Some(_) => Err(DecodeErrorKind::AgeNotString),
            };
            match last_r {
                Err(k) => Err(k),
                Ok(last) => match age_r {
                    Err(k) => Err(k),
                    Ok(age) => Ok(LookView { last, age }),
                },
            }
        },
        _ => Err(DecodeErrorKind::LookbackNotMapping),
    }
}

/// Decodes one lookback mapping node.
pub fn decode_lookback(n: &RawNode) -> (r: Result<Lookback, DecodeError>)
    ensures
        match r {
            Ok(lb) => spec_lookback(*n) == Ok::<LookView, DecodeErrorKind>(lb@),
            Err(e) => spec_lookback(*n) == Err::<LookView, DecodeErrorKind>(e@),
        },
{
    match n {
        RawNode::MapNode(entries, _) => {
            let last: u64 = match get_field(entries, "last") {
                Option::None => 0,
                Option::Some(RawNode::Uint(u)) => *u,
                Option::Some(_) => {
                    return Err(DecodeError::LastNotInteger);
                },
            };
            let age: Option<AgeDuration> = match get_field(entries, "age") {
                Option::None => Option::None,
                Option::Some(RawNode::Null) => Option::None,
                Option::Some(RawNode::Text(t)) => {
                    if !age_token_in_range(t.as_str()) {
                        return Err(DecodeError::BadAge(t.clone()));
                    }
                    match parse_age_token(t.as_str()) {
                        Ok(p) => Option::Some(AgeDuration::new(p.0, p.1)),
                        Err(_) => {
                            return Err(DecodeError::BadAge(t.clone()));
                        },
                    }
                },
                Option::Some(_) => {
                    return Err(DecodeError::AgeNotString);
                },
            };
            Ok(Lookback { last, age })
        },
        _ => Err(DecodeError::LookbackNotMapping),
    }
}

/// A lookback mapping with only a count and no age token decodes with the
/// elapsed-time bound absent, not as a zero duration.
pub proof fn lemma_lookback_last_only(
    n: RawNode,
    entries: Vec<(String, RawNode)>,
    enc: Result<String, String>,
    u: u64,
)
    requires
        n == RawNode::MapNode(entries, enc),
        find_field(entries@, "last"@) == Some(RawNode::Uint(u)),
        find_field(entries@, "age"@) is None,
    ensures
        spec_lookback(n) == Ok::<LookView, DecodeErrorKind>(
            LookView { last: u, age: Option::None },
        ),
{
}

impl Lookback {
    /// The execution engine's native lookback representation: the count is
    /// copied, and the elapsed-time bound is present exactly where one was
    /// requested.
    pub fn to_native(&self) -> (r: NativeLookback)
        ensures
            r.last == self.last,
            r.age is Some <==> self@.age is Some,
            self@.age matches Some(p) ==> r.age == Some(duration_of(p.0, p.1)),
    {
        let age = match &self.age {
            Option::Some(a) => Option::Some(
                core::time::Duration::new(a.secs(), a.subsec_nanos()),
            ),
            Option::None => Option::None,
        };
        NativeLookback { last: self.last, age }
    }
}

} // verus!
