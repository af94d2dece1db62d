use vstd::hash_map::StringHashMap;
use vstd::prelude::*;

verus! {

/// One measured quantity, found by its label (a key of `show`). The
/// measured value itself is floating point and is kept beside it by the
/// program that draws the bars.
#[derive(Debug)]
pub struct Measure {
    /// The label used in `show`.
    pub label: String,
    /// The tooltip with extended information; empty when there is none.
    pub tooltip: String,
}

impl Measure {
    /// A measure of `label` with no tooltip yet.
    pub fn new(label: &str) -> (m: Measure)
        ensures
            m.label@ == label@,
            m.tooltip@ == Seq::<char>::empty(),
    {
        Measure { label: label.to_owned(), tooltip: String::new() }
    }
}

/// The measures taken so far, each under its label.
pub struct Measures {
    map: StringHashMap<Measure>,
}

impl Measures {
    /// The tooltip of each measure, by label.
    pub closed spec fn tooltips(&self) -> Map<Seq<char>, Seq<char>> {
        self.map@.map_values(|m: Measure| m.tooltip@)
    }

    #[verifier::type_invariant]
    closed spec fn labels_are_keys(&self) -> bool {
        forall|k: Seq<char>| #[trigger] self.map@.contains_key(k) ==> self.map@[k].label@ == k
    }

    /// No measure yet.
    pub fn new() -> (m: Measures)
        ensures
            m.tooltips() == Map::<Seq<char>, Seq<char>>::empty(),
    {
        let m = Measures { map: StringHashMap::new() };
        assert(m.tooltips() =~= Map::<Seq<char>, Seq<char>>::empty());
        m
    }

    /// Whether a measure of `label` was taken.
    pub fn contains(&self, label: &str) -> (b: bool)
        ensures
            b == self.tooltips().contains_key(label@),
    {
        self.map.contains_key(label)
    }

    /// The measure of `label`, if one was taken.
    pub fn get(&self, label: &str) -> (r: Option<&Measure>)
        ensures
            r is Some <==> self.tooltips().contains_key(label@),
            r matches Some(m) ==> m.label@ == label@ && m.tooltip@ == self.tooltips()[label@],
    {
        proof {
            use_type_invariant(self);
        }
        self.map.get(label)
    }

    /// Makes sure a measure of `label` exists: a new one has no tooltip, an
    /// existing one is left as it is.
    pub fn ensure(&mut self, label: &str)
        ensures
            final(self).tooltips() == entered(old(self).tooltips(), label@),
    {
        proof {
            use_type_invariant(&*self);
        }
        if !self.map.contains_key(label) {
            let mut map = StringHashMap::new();
            std::mem::swap(&mut map, &mut self.map);
            map.insert(label.to_owned(), Measure::new(label));
            self.map = map;
        }
        assert(self.tooltips() =~= entered(old(self).tooltips(), label@));
    }

    /// Sets the tooltip of the measure of `label`, making the measure first
    /// where there is none.
    pub fn set_tooltip(&mut self, label: &str, tooltip: String)
        ensures
            final(self).tooltips() == old(self).tooltips().insert(label@, tooltip@),
    {
        proof {
            use_type_invariant(&*self);
        }
        let mut map = StringHashMap::new();
        std::mem::swap(&mut map, &mut self.map);
        map.insert(label.to_owned(), Measure { label: label.to_owned(), tooltip });
        self.map = map;
        assert(self.tooltips() =~= old(self).tooltips().insert(label@, tooltip@));
    }
}

/// What a read gives back of a write: after `set_tooltip(label, tip)`,
/// `get(label)` gives `tip`, and every other label keeps what it had.
pub proof fn law_read_after_set_tooltip(
    tips: Map<Seq<char>, Seq<char>>,
    label: Seq<char>,
    tip: Seq<char>,
    other: Seq<char>,
)
    requires
        other != label,
    ensures
        tips.insert(label, tip).contains_key(label),
        tips.insert(label, tip)[label] == tip,
        tips.insert(label, tip).contains_key(other) == tips.contains_key(other),
        tips.contains_key(other) ==> tips.insert(label, tip)[other] == tips[other],
{
}

/// Making sure a measure exists never changes a tooltip that was there,
/// and afterwards the measure is there.
pub proof fn law_ensure_keeps_tooltips(tips: Map<Seq<char>, Seq<char>>, label: Seq<char>, other: Seq<char>)
    ensures
        entered(tips, label).contains_key(label),
        !tips.contains_key(label) ==> entered(tips, label)[label] == Seq::<char>::empty(),
        tips.contains_key(label) ==> entered(tips, label)[label] == tips[label],
        entered(tips, label).contains_key(other) == (tips.contains_key(other) || other == label),
        tips.contains_key(other) ==> entered(tips, label).contains_key(other) && entered(tips, label)[other]
            == tips[other],
{
}

/// The tooltips after making sure a measure of `label` exists.
pub open spec fn entered(tips: Map<Seq<char>, Seq<char>>, label: Seq<char>) -> Map<
    Seq<char>,
    Seq<char>,
> {
    if tips.contains_key(label) {
        tips
    } else {
        tips.insert(label, Seq::empty())
    }
}

} // verus!
