//! Fields that never reach any output: the duplicate channels of a
//! multi-input device, and the fields that identify the device or its owner.

use vstd::prelude::*;
use crate::decimal::{decimal, digit_of, is_digit};
use crate::text::{chars_of, matches_at, same_text};

verus! {

/// `name` is `prefix` with a channel index behind it, or the unit field of
/// such a name: `prefix1` to `prefix39`, `prefix1Str` to `prefix39Str`.
pub open spec fn is_channel_of(name: Seq<char>, prefix: Seq<char>) -> bool {
    exists|i: int|
        1 <= i <= 39 && (name == prefix + #[trigger] decimal(i as nat) || name == prefix + decimal(
            i as nat,
        ) + "Str"@)
}

/// `name` is a duplicate channel: a per-input current, power or voltage with
/// an index from 1 to 39. Only the channel without an index is kept.
pub open spec fn is_channel_duplicate(name: Seq<char>) -> bool {
    ||| is_channel_of(name, "iPv"@)
    ||| is_channel_of(name, "mpptIpv"@)
    ||| is_channel_of(name, "mpptPow"@)
    ||| is_channel_of(name, "mpptUpv"@)
    ||| is_channel_of(name, "pow"@)
    ||| is_channel_of(name, "uPv"@)
}

/// `name` identifies the device or its owner: the serial number, the
/// station's serial number, the user's id.
pub open spec fn is_secret(name: Seq<char>) -> bool {
    name == "sn"@ || name == "sno"@ || name == "userId"@
}

/// `name` is dropped before anything else looks at the detail.
pub open spec fn is_noise(name: Seq<char>) -> bool {
    is_channel_duplicate(name) || is_secret(name)
}

/// A channel index as text: one digit from 1 to 9, or two digits from 10 to
/// 39.
pub open spec fn is_index_text(s: Seq<char>) -> bool {
    ||| s.len() == 1 && '1' <= s[0] && s[0] <= '9'
    ||| s.len() == 2 && '1' <= s[0] && s[0] <= '3' && is_digit(s[1])
}

/// The decimal text of a channel index is an index text.
pub proof fn lemma_index_text(i: int)
    requires
        1 <= i <= 39,
    ensures
        is_index_text(decimal(i as nat)),
{
    reveal_with_fuel(decimal, 2);
}

/// An index text is the decimal text of a channel index.
pub proof fn lemma_index_text_value(s: Seq<char>) -> (i: int)
    requires
        is_index_text(s),
    ensures
        1 <= i <= 39,
        decimal(i as nat) == s,
{
    reveal_with_fuel(decimal, 2);
    if s.len() == 1 {
        let i = s[0] as int - '0' as int;
        i
    } else {
        let hi = s[0] as int - '0' as int;
        let lo = s[1] as int - '0' as int;
        let i = hi * 10 + lo;
        i
    }
}

/// Is `s[from..to]` a channel index?
fn index_text_at(s: &Vec<char>, from: usize, to: usize) -> (r: bool)
    requires
        from <= to <= s.len(),
    ensures
        r == is_index_text(s@.subrange(from as int, to as int)),
{
    if to - from == 1 {
        s[from] >= '1' && s[from] <= '9'
    } else if to - from == 2 {
        s[from] >= '1' && s[from] <= '3' && digit_of(s[from + 1]).is_some()
    } else {
        false
    }
}

/// Is `name` an indexed channel of `prefix`?
fn channel_of(name: &Vec<char>, prefix: &str) -> (r: bool)
    ensures
        r == is_channel_of(name@, prefix@),
{
    let p = chars_of(prefix);
    let unit = chars_of("Str");
    proof {
        reveal_strlit("Str");
    }
    if !matches_at(name, &p, 0) {
        assert forall|i: int| 1 <= i <= 39 implies !(name@ == p@ + #[trigger] decimal(i as nat)
            || name@ == p@ + decimal(i as nat) + unit@) by {
            if name@ == p@ + decimal(i as nat) {
                assert(name@.subrange(0, p@.len() as int) =~= p@);
            }
            if name@ == p@ + decimal(i as nat) + unit@ {
                assert(name@.subrange(0, p@.len() as int) =~= p@);
            }
        }
        return false;
    }
    let n = name.len();
    let has_unit = n - p.len() > 3 && matches_at(name, &unit, n - 3);
    let end = if has_unit {
        n - 3
    } else {
        n
    };
    let r = index_text_at(name, p.len(), end);
    let ghost digits = name@.subrange(p.len() as int, end as int);
    proof {
        if r {
            let i = lemma_index_text_value(digits);
            if has_unit {
                assert(name@ =~= p@ + decimal(i as nat) + unit@);
            } else {
                assert(name@ =~= p@ + decimal(i as nat));
            }
        } else {
            assert forall|i: int| 1 <= i <= 39 implies !(name@ == p@ + #[trigger] decimal(i as nat)
                || name@ == p@ + decimal(i as nat) + unit@) by {
                lemma_index_text(i);
                let d = decimal(i as nat);
                if name@ == p@ + d + unit@ {
                    assert(name@.subrange(n - 3, n as int) =~= unit@);
                }
            }
        }
    }
    r
}

/// Is `name` dropped before anything else looks at the detail?
pub fn is_noise_name(name: &str) -> (r: bool)
    ensures
        r == is_noise(name@),
{
    if same_text(name, "sn") || same_text(name, "sno") || same_text(name, "userId") {
        return true;
    }
    let v = chars_of(name);
    channel_of(&v, "iPv") || channel_of(&v, "mpptIpv") || channel_of(&v, "mpptPow") || channel_of(
        &v,
        "mpptUpv",
    ) || channel_of(&v, "pow") || channel_of(&v, "uPv")
}

} // verus!
