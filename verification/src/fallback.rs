//! The fallback mapper: what the classifier did not claim is passed on under
//! a canonical key, its value as text.

use vstd::prelude::*;
use vstd::string::*;
use crate::naming::{snake_case, to_snake};
use crate::text::{
    chars_of, contains_text, drop_suffix, ends_with, has_infix, has_suffix, joined, lowered,
    same_text, to_lower, trimmed,
};
use crate::value::{
    distinct_names, field_views, has_name, lemma_place_of, rendered, text_in, value_of,
    FieldView, RawDetail, Scalar,
};

verus! {

/// One field as the fallback mapper passes it on.
#[derive(Debug, PartialEq, Eq)]
pub struct FallbackEntry {
    pub key: String,
    pub value: String,
}

/// What a [`FallbackEntry`] holds.
pub struct EntryView {
    pub key: Seq<char>,
    pub value: Seq<char>,
}

impl View for FallbackEntry {
    type V = EntryView;

    open spec fn view(&self) -> EntryView {
        EntryView { key: self.key@, value: self.value@ }
    }
}

impl Clone for FallbackEntry {
    fn clone(&self) -> (r: Self)
        ensures
            r@ == self@,
    {
        FallbackEntry { key: self.key.clone(), value: self.value.clone() }
    }
}

/// The views of a run of entries.
pub open spec fn entry_views(entries: Seq<FallbackEntry>) -> Seq<EntryView> {
    entries.map_values(|e: FallbackEntry| e@)
}

/// An ASCII letter or digit.
pub open spec fn is_alnum(c: char) -> bool {
    ('0' <= c && c <= '9') || ('a' <= c && c <= 'z') || ('A' <= c && c <= 'Z')
}

/// Keeps a character if it is an ASCII letter or digit.
pub open spec fn keep_alnum() -> spec_fn(char) -> Option<char> {
    |c: char|
        if is_alnum(c) {
            Some(c)
        } else {
            None
        }
}

/// The ASCII letters and digits of `unit`, in their order.
pub open spec fn sanitized(unit: Seq<char>) -> Seq<char> {
    unit.filter_map(keep_alnum())
}

/// `name` looks like the unit of the field before it: it ends in `Str`, holds
/// no `Time`, holds a string with a letter or digit in it, and the field it
/// is named after is there.
pub open spec fn is_unit_like(r: Seq<FieldView>, name: Seq<char>) -> bool {
    &&& has_name(r, name)
    &&& name.len() >= 3
    &&& has_suffix(name, "Str"@)
    &&& !has_infix(name, "Time"@)
    &&& value_of(r, name) is Text
    &&& sanitized(text_in(value_of(r, name))).len() > 0
    &&& has_name(r, trimmed(name, 3))
}

/// `name` is the unit of a value of `r`. A field that is itself the unit of
/// the field before it is not the value of the field after it.
pub open spec fn is_fallback_unit(r: Seq<FieldView>, name: Seq<char>) -> bool
    decreases name.len(),
{
    is_unit_like(r, name) && !is_fallback_unit(r, trimmed(name, 3))
}

/// `name` is a value of `r` that has a unit.
pub open spec fn is_fallback_value(r: Seq<FieldView>, name: Seq<char>) -> bool {
    has_name(r, name) && is_fallback_unit(r, name + "Str"@)
}

/// The key of a value with a unit: the snake-case name of the value, an
/// underscore, the letters and digits of the unit in lower case.
pub open spec fn unit_key(base: Seq<char>, unit: Seq<char>) -> Seq<char> {
    snake_case(base) + "_"@ + lowered(sanitized(unit))
}

/// What becomes of one field of `r`: a unit gives the entry of its value, a
/// value with a unit gives nothing of its own, any other field gives an entry
/// under its snake-case name.
pub open spec fn fallback_entry(r: Seq<FieldView>, f: FieldView) -> Option<EntryView> {
    if is_fallback_unit(r, f.name) {
        Some(
            EntryView {
                key: unit_key(trimmed(f.name, 3), text_in(f.value)),
                value: rendered(value_of(r, trimmed(f.name, 3))),
            },
        )
    } else if is_fallback_value(r, f.name) {
        None
    } else {
        Some(EntryView { key: snake_case(f.name), value: rendered(f.value) })
    }
}

/// Passes one field of `r` on, or not.
pub open spec fn fallback_step(r: Seq<FieldView>) -> spec_fn(FieldView) -> Option<EntryView> {
    |f: FieldView| fallback_entry(r, f)
}

/// The entries that the fallback mapper makes of `r`, in the order of its
/// fields.
pub open spec fn fallback_of(r: Seq<FieldView>) -> Seq<EntryView> {
    r.filter_map(fallback_step(r))
}

/// The ASCII letters and digits of `unit`, in their order.
pub fn sanitize(unit: &str) -> (r: String)
    ensures
        r@ == sanitized(unit@),
{
    let v = chars_of(unit);
    let mut out = String::new();
    let mut i: usize = 0;
    while i < v.len()
        invariant
            i <= v.len(),
            out@ == v@.take(i as int).filter_map(keep_alnum()),
        decreases v.len() - i,
    {
        proof {
            v@.lemma_filter_map_take_succ(keep_alnum(), i as int);
        }
        let c = v[i];
        if (c >= '0' && c <= '9') || (c >= 'a' && c <= 'z') || (c >= 'A' && c <= 'Z') {
            out.push(c);
        }
        i = i + 1;
    }
    assert(v@.take(i as int) =~= v@);
    out
}

/// Is `name` the unit of a value of `r`?
pub fn is_unit_field(r: &RawDetail, name: &str) -> (b: bool)
    ensures
        b == is_fallback_unit(r@, name@),
    decreases name@.len(),
{
    proof {
        reveal_strlit("Str");
    }
    if !ends_with(name, "Str") || contains_text(name, "Time") {
        return false;
    }
    let unit_ok = match r.get(name) {
        Some(Scalar::Text(unit)) => sanitize(unit.as_str()).as_str().unicode_len() > 0,
        _ => false,
    };
    if !unit_ok {
        return false;
    }
    let base = drop_suffix(name, 3);
    if !r.contains(base.as_str()) {
        return false;
    }
    !is_unit_field(r, base.as_str())
}

/// The entries that the fallback mapper makes of `detail`.
///
/// A field `XStr` that holds a unit, beside a field `X`, gives one entry for
/// the two: the key is the snake-case name of `X`, an underscore, and the
/// letters and digits of the unit in lower case; the value is that of `X`. A
/// unit without a letter or digit leaves the two fields as they are. Every
/// other field gives an entry under its snake-case name. Values are passed
/// on as text: a number by its literal, unchanged.
pub fn map_detail(detail: &RawDetail) -> (entries: Vec<FallbackEntry>)
    ensures
        entry_views(entries@) == fallback_of(detail@),
{
    let fields = detail.fields();
    let mut entries: Vec<FallbackEntry> = Vec::new();
    let mut i: usize = 0;
    while i < fields.len()
        invariant
            i <= fields.len(),
            field_views(fields@) == detail@,
            distinct_names(detail@),
            entry_views(entries@) == detail@.take(i as int).filter_map(fallback_step(detail@)),
        decreases fields.len() - i,
    {
        let name = fields[i].name.as_str();
        proof {
            detail@.lemma_filter_map_take_succ(fallback_step(detail@), i as int);
            lemma_place_of(detail@, i as int);
            reveal_strlit("Str");
        }
        if is_unit_field(detail, name) {
            let base = drop_suffix(name, 3);
            let unit = match &fields[i].value {
                Scalar::Text(unit) => to_lower(sanitize(unit.as_str()).as_str()),
                _ => String::new(),
            };
            let mut key = to_snake(base.as_str());
            key.append("_");
            key.append(unit.as_str());
            let value = match detail.get(base.as_str()) {
                Some(v) => v.render(),
                None => String::new(),
            };
            entries.push(FallbackEntry { key, value });
        } else {
            let with_unit = joined(name, "Str");
            if !is_unit_field(detail, with_unit.as_str()) {
                entries.push(
                    FallbackEntry { key: to_snake(name), value: fields[i].value.render() },
                );
            }
        }
        i = i + 1;
    }
    assert(detail@.take(i as int) =~= detail@);
    entries
}


/// The text of a zero: an integer's or a real's.
pub open spec fn is_zero_text(value: Seq<char>) -> bool {
    value == "0"@ || value == "0.0"@
}

/// Keeps an entry unless it is a zero under a key that is not in `seen`.
pub open spec fn keep_known(seen: Set<Seq<char>>) -> spec_fn(EntryView) -> Option<EntryView> {
    |e: EntryView|
        if is_zero_text(e.value) && !seen.contains(e.key) {
            None
        } else {
            Some(e)
        }
}

/// The entries that stay when zeros under keys outside `seen` are dropped.
pub open spec fn sifted(entries: Seq<EntryView>, seen: Set<Seq<char>>) -> Seq<EntryView> {
    entries.filter_map(keep_known(seen))
}

/// The keys under which `entries` hold something other than a zero.
pub open spec fn nonzero_keys(entries: Seq<EntryView>) -> Set<Seq<char>> {
    Set::new(
        |key: Seq<char>|
            exists|i: int|
                0 <= i < entries.len() && (#[trigger] entries[i]).key == key && !is_zero_text(
                    entries[i].value,
                ),
    )
}

/// The policy on zeros, with what it has seen so far.
///
/// Where it is on, an entry whose value is `0` or `0.0` is dropped unless its
/// key has held something else in an earlier batch. Where it is off, every
/// entry stays and nothing is remembered.
#[derive(Debug)]
pub struct ZeroSuppressor {
    enabled: bool,
    seen: Vec<String>,
}

impl ZeroSuppressor {
    /// Is the policy on?
    pub closed spec fn enabled(&self) -> bool {
        self.enabled
    }

    /// The keys that have held something other than a zero.
    pub closed spec fn seen(&self) -> Set<Seq<char>> {
        Set::new(|key: Seq<char>| exists|i: int| 0 <= i < self.seen@.len() && (#[trigger] self.seen@[i])@ == key)
    }

    /// The policy switched off: the default.
    pub fn off() -> (r: ZeroSuppressor)
        ensures
            !r.enabled(),
            r.seen() == Set::<Seq<char>>::empty(),
    {
        let r = ZeroSuppressor { enabled: false, seen: Vec::new() };
        r
    }

    /// The policy switched on, with nothing seen yet.
    pub fn on() -> (r: ZeroSuppressor)
        ensures
            r.enabled(),
            r.seen() == Set::<Seq<char>>::empty(),
    {
        let r = ZeroSuppressor { enabled: true, seen: Vec::new() };
        r
    }

    /// Is the policy on?
    pub fn is_enabled(&self) -> (r: bool)
        ensures
            r == self.enabled(),
    {
        self.enabled
    }

    /// Has `key` held something other than a zero?
    pub fn has_seen(&self, key: &str) -> (r: bool)
        ensures
            r == self.seen().contains(key@),
    {
        let mut i: usize = 0;
        while i < self.seen.len()
            invariant
                i <= self.seen.len(),
                forall|k: int| 0 <= k < i ==> (#[trigger] self.seen@[k])@ != key@,
            decreases self.seen.len() - i,
        {
            if same_text(self.seen[i].as_str(), key) {
                return true;
            }
            i = i + 1;
        }
        false
    }

    /// Applies the policy to one batch of entries, and remembers the keys
    /// under which the batch holds something other than a zero. A zero stays
    /// only where its key was seen before this batch.
    pub fn sift(&mut self, entries: Vec<FallbackEntry>) -> (kept: Vec<FallbackEntry>)
        ensures
            final(self).enabled() == old(self).enabled(),
            !old(self).enabled() ==> entry_views(kept@) == entry_views(entries@),
            !old(self).enabled() ==> final(self).seen() == old(self).seen(),
            old(self).enabled() ==> entry_views(kept@) == sifted(
                entry_views(entries@),
                old(self).seen(),
            ),
            old(self).enabled() ==> final(self).seen() == old(self).seen().union(
                nonzero_keys(entry_views(entries@)),
            ),
    {
        if !self.enabled {
            return entries;
        }
        let ghost all = entry_views(entries@);
        let ghost before = self.seen();
        let mut kept: Vec<FallbackEntry> = Vec::new();
        let mut fresh: Vec<String> = Vec::new();
        let mut i: usize = 0;
        while i < entries.len()
            invariant
                i <= entries.len(),
                all == entry_views(entries@),
                before == self.seen(),
                self.enabled,
                entry_views(kept@) == all.take(i as int).filter_map(keep_known(before)),
                forall|k: int|
                    0 <= k < fresh.len() ==> nonzero_keys(all).contains((#[trigger] fresh@[k])@),
                forall|k: int|
                    0 <= k < i && !is_zero_text((#[trigger] all[k]).value) ==> exists|j: int|
                        0 <= j < fresh.len() && (#[trigger] fresh@[j])@ == all[k].key,
            decreases entries.len() - i,
        {
            let ghost found = fresh@;
            proof {
                all.lemma_filter_map_take_succ(keep_known(before), i as int);
            }
            let entry = &entries[i];
            let zero = same_text(entry.value.as_str(), "0") || same_text(
                entry.value.as_str(),
                "0.0",
            );
            if !zero {
                fresh.push(entry.key.clone());
                proof {
                    assert forall|k: int|
                        0 <= k < i + 1 && !is_zero_text((#[trigger] all[k]).value) implies exists|
                        j: int,
                    |
                        0 <= j < fresh.len() && (#[trigger] fresh@[j])@ == all[k].key by {
                        if k < i {
                            let j = choose|j: int|
                                0 <= j < found.len() && (#[trigger] found[j])@ == all[k].key;
                            assert(fresh@[j]@ == all[k].key);
                        } else {
                            assert(fresh@[fresh.len() - 1]@ == all[k].key);
                        }
                    }
                }
            }
            if !zero || self.has_seen(entry.key.as_str()) {
                kept.push(entry.clone());
            }
            i = i + 1;
        }
        assert(all.take(i as int) =~= all);
        let ghost known = self.seen@;
        let mut j: usize = 0;
        while j < fresh.len()
            invariant
                j <= fresh.len(),
                self.enabled,
                known.len() <= self.seen@.len(),
                self.seen@.subrange(0, known.len() as int) == known,
                forall|k: int|
                    known.len() <= k < self.seen@.len() ==> exists|f: int|
                        0 <= f < j && (#[trigger] fresh@[f])@ == (#[trigger] self.seen@[k])@,
                forall|f: int|
                    0 <= f < j ==> exists|k: int|
                        0 <= k < self.seen@.len() && (#[trigger] self.seen@[k])@ == (
                        #[trigger] fresh@[f])@,
            decreases fresh.len() - j,
        {
            let ghost held = self.seen@;
            if !self.has_seen(fresh[j].as_str()) {
                self.seen.push(fresh[j].clone());
                proof {
                    assert forall|f: int| 0 <= f < j + 1 implies exists|k: int|
                        0 <= k < self.seen@.len() && (#[trigger] self.seen@[k])@ == (
                        #[trigger] fresh@[f])@ by {
                        if f < j {
                            let k = choose|k: int|
                                0 <= k < held.len() && (#[trigger] held[k])@ == fresh@[f]@;
                            assert(self.seen@[k]@ == fresh@[f]@);
                        } else {
                            assert(self.seen@[self.seen@.len() - 1]@ == fresh@[f]@);
                        }
                    }
                    assert forall|k: int| known.len() <= k < self.seen@.len() implies exists|f: int|
                        0 <= f < j + 1 && (#[trigger] fresh@[f])@ == (#[trigger] self.seen@[k])@ by {
                    }
                }
            } else {
                proof {
                    let k = choose|k: int| 0 <= k < held.len() && (#[trigger] held[k])@ == fresh@[j as int]@;
                }
            }
            j = j + 1;
        }
        proof {
            let after = self.seen();
            let wanted = before.union(nonzero_keys(all));
            assert forall|key: Seq<char>| after.contains(key) == wanted.contains(key) by {
                if after.contains(key) {
                    let k = choose|k: int| 0 <= k < self.seen@.len() && (#[trigger] self.seen@[k])@ == key;
                    if k < known.len() {
                        assert(known[k]@ == key);
                    }
                }
            }
        }
        kept
    }
}

} // verus!
