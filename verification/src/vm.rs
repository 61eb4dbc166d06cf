//! Metrics as the time-series sink takes them: a name with labels, and
//! observations written as lines of JSON.

use vstd::prelude::*;
use vstd::string::*;
use crate::clock::wall_clock_millis;
use crate::decimal::{format_i64, signed_decimal};
use crate::json::{json_string, quote};
use crate::text::same_text;

verus! {

/// The views of a run of labels: each a key and a value.
pub open spec fn label_views(labels: Seq<(String, String)>) -> Seq<(Seq<char>, Seq<char>)> {
    labels.map_values(|l: (String, String)| (l.0@, l.1@))
}

/// The key under which a metric's name is written among its labels.
pub open spec fn name_key() -> Seq<char> {
    "__name__"@
}

/// Labels fit for a metric: no key occurs twice, and none is the key that is
/// kept for the name.
pub open spec fn valid_labels(labels: Seq<(Seq<char>, Seq<char>)>) -> bool {
    &&& forall|i: int, j: int|
        0 <= i < j < labels.len() ==> (#[trigger] labels[i]).0 != (#[trigger] labels[j]).0
    &&& forall|i: int| 0 <= i < labels.len() ==> (#[trigger] labels[i]).0 != name_key()
}

/// Are these labels fit for a metric?
pub fn labels_are_valid(labels: &Vec<(String, String)>) -> (r: bool)
    ensures
        r == valid_labels(label_views(labels@)),
{
    let ghost views = label_views(labels@);
    let mut j: usize = 0;
    while j < labels.len()
        invariant
            j <= labels.len(),
            views == label_views(labels@),
            forall|a: int, b: int| 0 <= a < b < j ==> (#[trigger] views[a]).0 != (#[trigger] views[b]).0,
            forall|a: int| 0 <= a < j ==> (#[trigger] views[a]).0 != name_key(),
        decreases labels.len() - j,
    {
        if same_text(labels[j].0.as_str(), "__name__") {
            assert(views[j as int].0 == name_key());
            return false;
        }
        let mut i: usize = 0;
        while i < j
            invariant
                i <= j < labels.len(),
                views == label_views(labels@),
                forall|a: int| 0 <= a < i ==> (#[trigger] views[a]).0 != views[j as int].0,
            decreases j - i,
        {
            if same_text(labels[i].0.as_str(), labels[j].0.as_str()) {
                assert(views[i as int].0 == views[j as int].0);
                return false;
            }
            i = i + 1;
        }
        j = j + 1;
    }
    true
}

/// The full name of a metric: its name and its labels.
#[derive(Debug, PartialEq, Eq)]
pub struct FullName {
    name: String,
    labels: Vec<(String, String)>,
}

/// What a [`FullName`] holds.
pub struct FullNameView {
    pub name: Seq<char>,
    pub labels: Seq<(Seq<char>, Seq<char>)>,
}

impl View for FullName {
    type V = FullNameView;

    closed spec fn view(&self) -> FullNameView {
        FullNameView { name: self.name@, labels: label_views(self.labels@) }
    }
}

impl FullName {
    #[verifier::type_invariant]
    spec fn labels_fit(self) -> bool {
        valid_labels(label_views(self.labels@))
    }

    /// The metric `name` with `labels`, in their order.
    pub fn new(name: String, labels: Vec<(String, String)>) -> (r: FullName)
        requires
            valid_labels(label_views(labels@)),
        ensures
            r@.name == name@,
            r@.labels == label_views(labels@),
    {
        FullName { name, labels }
    }

    /// The metric's name.
    pub fn name(&self) -> (r: &String)
        ensures
            r@ == self@.name,
    {
        &self.name
    }

    /// The metric's labels, in order.
    pub fn labels(&self) -> (r: &Vec<(String, String)>)
        ensures
            label_views(r@) == self@.labels,
            valid_labels(self@.labels),
    {
        proof {
            use_type_invariant(self);
        }
        &self.labels
    }
}


/// One observation of a metric: its value, as the number literal that is
/// written out, and its time in milliseconds since the start of 1970.
#[derive(Debug, PartialEq, Eq)]
pub struct Obs {
    pub value: String,
    pub timestamp: i64,
}

/// What an [`Obs`] holds.
pub struct ObsView {
    pub value: Seq<char>,
    pub timestamp: i64,
}

impl View for Obs {
    type V = ObsView;

    open spec fn view(&self) -> ObsView {
        ObsView { value: self.value@, timestamp: self.timestamp }
    }
}

/// The views of a run of observations.
pub open spec fn obs_views(obs: Seq<Obs>) -> Seq<ObsView> {
    obs.map_values(|o: Obs| o@)
}

impl Obs {
    /// The observation of `value` at `timestamp`.
    pub fn new(value: String, timestamp: i64) -> (r: Obs)
        ensures
            r@ == (ObsView { value: value@, timestamp }),
    {
        Obs { value, timestamp }
    }

    /// The observation of `value` at the time the clock shows.
    pub fn now(value: String) -> (r: Obs)
        ensures
            r@.value == value@,
    {
        Obs { value, timestamp: wall_clock_millis() }
    }
}

/// One label as it stands in the line: key and value as JSON strings, and a
/// comma behind them.
pub open spec fn label_text(label: (Seq<char>, Seq<char>)) -> Seq<char> {
    json_string(label.0) + ":"@ + json_string(label.1) + ","@
}

/// The labels as they stand in the line, one after another.
pub open spec fn labels_text(labels: Seq<(Seq<char>, Seq<char>)>) -> Seq<char>
    decreases labels.len(),
{
    if labels.len() == 0 {
        Seq::empty()
    } else {
        labels_text(labels.drop_last()) + label_text(labels.last())
    }
}

/// The items with a comma between each two.
pub open spec fn listed(items: Seq<Seq<char>>) -> Seq<char>
    decreases items.len(),
{
    if items.len() == 0 {
        Seq::empty()
    } else if items.len() == 1 {
        items[0]
    } else {
        listed(items.drop_last()) + ","@ + items.last()
    }
}

/// The values of the observations, in order.
pub open spec fn values_of(obs: Seq<ObsView>) -> Seq<Seq<char>> {
    obs.map_values(|o: ObsView| o.value)
}

/// The times of the observations in decimal, in order.
pub open spec fn stamps_of(obs: Seq<ObsView>) -> Seq<Seq<char>> {
    obs.map_values(|o: ObsView| signed_decimal(o.timestamp as int))
}

/// The line that holds the observations of one metric: a JSON object with the
/// labels and the name under `metric`, the values under `values`, the times
/// under `timestamps`, and a line feed behind it.
pub open spec fn metric_line(name: FullNameView, obs: Seq<ObsView>) -> Seq<char> {
    "{\"metric\":{"@ + labels_text(name.labels) + json_string(name_key()) + ":"@ + json_string(
        name.name,
    ) + "},\"values\":["@ + listed(values_of(obs)) + "],\"timestamps\":["@ + listed(
        stamps_of(obs),
    ) + "]}\n"@
}

/// The views of a run of strings.
pub open spec fn string_views(items: Seq<String>) -> Seq<Seq<char>> {
    items.map_values(|s: String| s@)
}

/// The items with a comma between each two.
fn listed_of(items: &Vec<String>) -> (r: String)
    ensures
        r@ == listed(string_views(items@)),
{
    let mut out = String::new();
    let ghost all = string_views(items@);
    let mut i: usize = 0;
    while i < items.len()
        invariant
            i <= items.len(),
            all == string_views(items@),
            out@ == listed(all.take(i as int)),
        decreases items.len() - i,
    {
        proof {
            assert(all.take(i + 1).drop_last() =~= all.take(i as int));
        }
        if i > 0 {
            out.append(",");
        }
        out.append(items[i].as_str());
        i = i + 1;
    }
    assert(all.take(i as int) =~= all);
    out
}

/// Writes the observations of one metric to `out`, as one line.
pub fn write_metric(out: &mut String, name: &FullName, obs: &Vec<Obs>)
    ensures
        final(out)@ == old(out)@ + metric_line(name@, obs_views(obs@)),
{
    let labels = name.labels();
    let mut line = String::from_str("{\"metric\":{");
    let mut i: usize = 0;
    while i < labels.len()
        invariant
            i <= labels.len(),
            label_views(labels@) == name@.labels,
            line@ == "{\"metric\":{"@ + labels_text(name@.labels.take(i as int)),
        decreases labels.len() - i,
    {
        proof {
            assert(name@.labels.take(i + 1).drop_last() =~= name@.labels.take(i as int));
        }
        let key = quote(labels[i].0.as_str());
        let value = quote(labels[i].1.as_str());
        line.append(key.as_str());
        line.append(":");
        line.append(value.as_str());
        line.append(",");
        i = i + 1;
    }
    assert(name@.labels.take(i as int) =~= name@.labels);
    let mut values: Vec<String> = Vec::new();
    let mut stamps: Vec<String> = Vec::new();
    let mut k: usize = 0;
    while k < obs.len()
        invariant
            k <= obs.len(),
            string_views(values@) == values_of(obs_views(obs@).take(k as int)),
            string_views(stamps@) == stamps_of(obs_views(obs@).take(k as int)),
        decreases obs.len() - k,
    {
        let ghost seen = obs_views(obs@).take(k as int);
        let ghost next = obs_views(obs@).take(k + 1);
        values.push(obs[k].value.clone());
        stamps.push(format_i64(obs[k].timestamp));
        proof {
            let o = obs@[k as int]@;
            assert(values_of(next) =~= values_of(seen).push(o.value));
            assert(stamps_of(next) =~= stamps_of(seen).push(signed_decimal(o.timestamp as int)));
        }
        k = k + 1;
    }
    assert(obs_views(obs@).take(k as int) =~= obs_views(obs@));
    let name_key_text = quote("__name__");
    let name_text = quote(name.name().as_str());
    line.append(name_key_text.as_str());
    line.append(":");
    line.append(name_text.as_str());
    line.append("},\"values\":[");
    line.append(listed_of(&values).as_str());
    line.append("],\"timestamps\":[");
    line.append(listed_of(&stamps).as_str());
    line.append("]}\n");
    out.append(line.as_str());
}

} // verus!
