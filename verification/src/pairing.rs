//! Values and their units. A field `X` that comes with a field `XStr`, or
//! failing that `XUnit`, is a value with its unit: the two form a pair.

use vstd::prelude::*;
use vstd::string::*;
use crate::text::{
    contains_text, drop_suffix, ends_with, has_infix, has_suffix, joined, same_text, trimmed,
};
use crate::value::{has_name, value_of, FieldView, RawDetail, ScalarView};

verus! {

/// `name` can be the value of a pair: it is no unit field (it does not end in
/// `Str`) and no time (it holds no `Time`).
pub open spec fn is_value_name(name: Seq<char>) -> bool {
    !has_suffix(name, "Str"@) && !has_infix(name, "Time"@)
}

/// The field that holds the unit of `name`: `nameStr` where there is one,
/// else `nameUnit` where there is one.
pub open spec fn companion(w: Seq<FieldView>, name: Seq<char>) -> Option<Seq<char>> {
    if has_name(w, name + "Str"@) {
        Some(name + "Str"@)
    } else if has_name(w, name + "Unit"@) {
        Some(name + "Unit"@)
    } else {
        None
    }
}

/// `name` is the value of a pair in `w`: a field of `w` that can be a value
/// and has a companion. Where a field could be both the unit of a shorter
/// name and a value with a companion of its own, it is the unit.
pub open spec fn is_pair_value(w: Seq<FieldView>, name: Seq<char>) -> bool
    decreases name.len(),
{
    &&& has_name(w, name)
    &&& is_value_name(name)
    &&& companion(w, name) is Some
    &&& !(name.len() >= 4 && has_suffix(name, "Unit"@) && is_pair_value(w, trimmed(name, 4))
        && companion(w, trimmed(name, 4)) == Some(name))
}

/// `name` is the unit of a pair in `w`.
pub open spec fn is_pair_unit(w: Seq<FieldView>, name: Seq<char>) -> bool {
    ||| name.len() >= 3 && has_suffix(name, "Str"@) && is_pair_value(w, trimmed(name, 3))
        && companion(w, trimmed(name, 3)) == Some(name)
    ||| name.len() >= 4 && has_suffix(name, "Unit"@) && is_pair_value(w, trimmed(name, 4))
        && companion(w, trimmed(name, 4)) == Some(name)
}

/// The name of the value that a unit field belongs to.
pub open spec fn base_of_unit(name: Seq<char>) -> Seq<char> {
    if has_suffix(name, "Str"@) {
        trimmed(name, 3)
    } else {
        trimmed(name, 4)
    }
}

/// What the companion of `name` holds.
pub open spec fn unit_of(w: Seq<FieldView>, name: Seq<char>) -> ScalarView {
    value_of(w, companion(w, name).unwrap())
}

/// No field is both the value of one pair and the unit of another.
pub proof fn lemma_value_or_unit(w: Seq<FieldView>, name: Seq<char>)
    ensures
        !(is_pair_value(w, name) && is_pair_unit(w, name)),
{
}

/// No name ends both in `Str` and in `Unit`.
pub proof fn lemma_one_suffix(name: Seq<char>)
    ensures
        !(has_suffix(name, "Str"@) && has_suffix(name, "Unit"@)),
{
    reveal_strlit("Str");
    reveal_strlit("Unit");
    if has_suffix(name, "Str"@) && has_suffix(name, "Unit"@) {
        let n = name.len() as int;
        assert(name.subrange(n - 3, n)[2] == name[n - 1]);
        assert(name.subrange(n - 4, n)[3] == name[n - 1]);
    }
}

/// The unit of a pair belongs to the value it is named after.
pub proof fn lemma_unit_base(w: Seq<FieldView>, name: Seq<char>)
    requires
        is_pair_unit(w, name),
    ensures
        is_pair_value(w, base_of_unit(name)),
        companion(w, base_of_unit(name)) == Some(name),
        has_name(w, name),
{
    lemma_one_suffix(name);
}

/// Can `name` be the value of a pair?
pub fn can_be_value(name: &str) -> (r: bool)
    ensures
        r == is_value_name(name@),
{
    !ends_with(name, "Str") && !contains_text(name, "Time")
}

/// The name of the field that holds the unit of `name`.
pub fn companion_of(w: &RawDetail, name: &str) -> (r: Option<String>)
    ensures
        r is Some <==> companion(w@, name@) is Some,
        r matches Some(c) ==> companion(w@, name@) == Some(c@),
{
    let with_str = joined(name, "Str");
    if w.contains(with_str.as_str()) {
        return Some(with_str);
    }
    let with_unit = joined(name, "Unit");
    if w.contains(with_unit.as_str()) {
        return Some(with_unit);
    }
    None
}

/// Is `name` the value of a pair in `w`?
pub fn pairs_as_value(w: &RawDetail, name: &str) -> (r: bool)
    ensures
        r == is_pair_value(w@, name@),
    decreases name@.len(),
{
    if !w.contains(name) || !can_be_value(name) {
        return false;
    }
    if companion_of(w, name).is_none() {
        return false;
    }
    proof {
        reveal_strlit("Unit");
    }
    if ends_with(name, "Unit") {
        let base = drop_suffix(name, 4);
        if pairs_as_value(w, base.as_str()) {
            match companion_of(w, base.as_str()) {
                Some(c) => {
                    if same_text(c.as_str(), name) {
                        return false;
                    }
                },
                None => {},
            }
        }
    }
    true
}

/// Is `name` the unit of a pair in `w`?
pub fn pairs_as_unit(w: &RawDetail, name: &str) -> (r: bool)
    ensures
        r == is_pair_unit(w@, name@),
{
    proof {
        reveal_strlit("Unit");
        reveal_strlit("Str");
    }
    if ends_with(name, "Str") {
        let base = drop_suffix(name, 3);
        if pairs_as_value(w, base.as_str()) {
            match companion_of(w, base.as_str()) {
                Some(c) => {
                    if same_text(c.as_str(), name) {
                        return true;
                    }
                },
                None => {},
            }
        }
    }
    if ends_with(name, "Unit") {
        let base = drop_suffix(name, 4);
        if pairs_as_value(w, base.as_str()) {
            match companion_of(w, base.as_str()) {
                Some(c) => {
                    if same_text(c.as_str(), name) {
                        return true;
                    }
                },
                None => {},
            }
        }
    }
    false
}

} // verus!
