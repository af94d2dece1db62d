use crate::config::{or_empty, ConfigTemp};
use crate::modules::cpu::clone_labels;
use crate::pattern::{
    all_compile, compile_all, law_matching_is_the_matched_names, law_matching_within, matching,
    regex_is_match,
};
use crate::text::{
    law_numbered_one_to_one, law_numbered_splits, numbered, numbered_text, read_decimal,
};
use vstd::prelude::*;

verus! {

/// The names of `s` with later repetitions left out.
pub open spec fn dedup(s: Seq<Seq<char>>) -> Seq<Seq<char>>
    decreases s.len(),
{
    if s.len() == 0 {
        Seq::empty()
    } else {
        let d = dedup(s.drop_last());
        if d.contains(s.last()) {
            d
        } else {
            d.push(s.last())
        }
    }
}

/// For each `show_max` pattern that matches some sensor, the sensors it
/// matches, each once: the sensors one bar shows the maximum of.
pub open spec fn temp_groups(patterns: Seq<Seq<char>>, sensors: Seq<Seq<char>>) -> Seq<
    Seq<Seq<char>>,
>
    decreases patterns.len(),
{
    if patterns.len() == 0 {
        Seq::empty()
    } else {
        let before = temp_groups(patterns.drop_last(), sensors);
        let group = dedup(matching(patterns.last(), sensors));
        if group.len() == 0 {
            before
        } else {
            before.push(group)
        }
    }
}

/// The label of the bar of maximum group `i`.
pub open spec fn max_label(i: nat) -> Seq<char> {
    numbered("temp_max_"@, i)
}

/// The labels of the bars of `n` maximum groups.
pub open spec fn max_labels(n: nat) -> Seq<Seq<char>> {
    Seq::new(n, |i: int| max_label(i as nat))
}

/// The bars of a temperature monitor: the sensors named in `show`, then one
/// bar per maximum group, each label once.
pub open spec fn temp_labels(show: Seq<Seq<char>>, groups: nat) -> Seq<Seq<char>> {
    dedup(show + max_labels(groups))
}

/// `dedup` keeps each name once: it holds no name twice and holds exactly
/// the names of `s`.
pub proof fn law_dedup_is_a_set(s: Seq<Seq<char>>)
    ensures
        dedup(s).no_duplicates(),
        forall|x: Seq<char>| dedup(s).contains(x) <==> s.contains(x),
    decreases s.len(),
{
    if s.len() > 0 {
        law_dedup_is_a_set(s.drop_last());
        let d = dedup(s.drop_last());
        assert forall|x: Seq<char>| dedup(s).contains(x) <==> s.contains(x) by {
            if s.contains(x) && !s.drop_last().contains(x) {
                let k = choose|k: int| 0 <= k < s.len() && s[k] == x;
                if k < s.len() - 1 {
                    assert(s.drop_last()[k] == x);
                }
                assert(x == s.last());
            }
            if s.drop_last().contains(x) {
                let k = choose|k: int| 0 <= k < s.drop_last().len() && s.drop_last()[k] == x;
                assert(s[k] == x);
            }
            if !d.contains(s.last()) {
                if d.push(s.last()).contains(x) {
                    let k = choose|k: int| 0 <= k < d.push(s.last()).len() && d.push(s.last())[k] == x;
                    if k < d.len() {
                        assert(d[k] == x);
                    }
                }
                if d.contains(x) {
                    let k = choose|k: int| 0 <= k < d.len() && d[k] == x;
                    assert(d.push(s.last())[k] == x);
                }
                assert(d.push(s.last())[d.len() as int] == s.last());
            }
        }
    }
}

/// `dedup` keeps names in the order they first come: what it keeps of `a`
/// starts what it keeps of `a` followed by `b`, and the first name is kept
/// first.
pub proof fn law_dedup_keeps_first_order(a: Seq<Seq<char>>, b: Seq<Seq<char>>)
    ensures
        dedup(a + b).len() >= dedup(a).len(),
        dedup(a + b).take(dedup(a).len() as int) == dedup(a),
        a.len() > 0 ==> dedup(a).len() > 0 && dedup(a)[0] == a[0],
    decreases a.len(), b.len(),
{
    if b.len() == 0 {
        assert(a + b =~= a);
        assert(dedup(a).take(dedup(a).len() as int) =~= dedup(a));
    } else {
        law_dedup_keeps_first_order(a, b.drop_last());
        assert((a + b).drop_last() =~= a + b.drop_last());
        let d = dedup(a + b.drop_last());
        if !d.contains((a + b).last()) {
            assert(d.push((a + b).last()).take(dedup(a).len() as int) =~= d.take(
                dedup(a).len() as int,
            ));
        }
    }
    if a.len() > 0 {
        if a.len() == 1 {
            assert(a.drop_last() =~= Seq::<Seq<char>>::empty());
            assert(dedup(a.drop_last()) == Seq::<Seq<char>>::empty());
        } else {
            law_dedup_keeps_first_order(a.drop_last(), Seq::<Seq<char>>::empty());
            law_dedup_keeps_first_order(a.drop_last(), seq![a.last()]);
            assert(a.drop_last() + seq![a.last()] =~= a);
            assert(dedup(a)[0] == dedup(a).take(dedup(a.drop_last()).len() as int)[0]);
        }
    }
}

/// The bars of a temperature monitor are a set: no label twice, and
/// exactly the names of `show` and the labels of the maximum groups.
pub proof fn law_temp_labels_are_a_set(show: Seq<Seq<char>>, groups: nat)
    ensures
        temp_labels(show, groups).no_duplicates(),
        forall|x: Seq<char>|
            temp_labels(show, groups).contains(x) <==> (show.contains(x) || max_labels(
                groups,
            ).contains(x)),
{
    let all = show + max_labels(groups);
    law_dedup_is_a_set(all);
    assert forall|x: Seq<char>|
        all.contains(x) <==> (show.contains(x) || max_labels(groups).contains(x)) by {
        if all.contains(x) {
            let k = choose|k: int| 0 <= k < all.len() && all[k] == x;
            if k >= show.len() {
                assert(max_labels(groups)[k - show.len()] == x);
            } else {
                assert(show[k] == x);
            }
        }
        if show.contains(x) {
            let k = choose|k: int| 0 <= k < show.len() && show[k] == x;
            assert(all[k] == x);
        }
        if max_labels(groups).contains(x) {
            let i = choose|i: int| 0 <= i < max_labels(groups).len() && max_labels(groups)[i] == x;
            assert(all[show.len() + i] == x);
        }
    }
}

/// A `show_max` pattern adds a maximum group exactly when it matches some
/// sensor, and that group holds every sensor the pattern matches and no
/// other; a pattern that matches no sensor leaves the groups as they were.
pub proof fn law_group_is_all_matched_sensors(patterns: Seq<Seq<char>>, sensors: Seq<Seq<char>>)
    requires
        patterns.len() > 0,
    ensures
        ({
            let p = patterns.last();
            let before = temp_groups(patterns.drop_last(), sensors);
            let now = temp_groups(patterns, sensors);
            &&& (exists|i: int| 0 <= i < sensors.len() && regex_is_match(p, #[trigger] sensors[i]))
                ==> {
                &&& now.len() == before.len() + 1
                &&& now.drop_last() == before
                &&& forall|x: Seq<char>| #[trigger]
                    now.last().contains(x) <==> (sensors.contains(x) && regex_is_match(p, x))
            }
            &&& !(exists|i: int| 0 <= i < sensors.len() && regex_is_match(p, #[trigger] sensors[i]))
                ==> now == before
        }),
{
    let p = patterns.last();
    let m = matching(p, sensors);
    let g = dedup(m);
    let before = temp_groups(patterns.drop_last(), sensors);
    law_matching_is_the_matched_names(p, sensors);
    law_dedup_is_a_set(m);
    assert forall|x: Seq<char>| #[trigger] g.contains(x) <==> (sensors.contains(x) && regex_is_match(p, x)) by {
        assert(g.contains(x) <==> m.contains(x));
        assert(m.contains(x) <==> (sensors.contains(x) && regex_is_match(p, x)));
    }
    if exists|i: int| 0 <= i < sensors.len() && regex_is_match(p, #[trigger] sensors[i]) {
        let i = choose|i: int| 0 <= i < sensors.len() && regex_is_match(p, #[trigger] sensors[i]);
        assert(sensors.contains(sensors[i]));
        assert(g.contains(sensors[i]));
        assert(g.len() > 0);
        assert(temp_groups(patterns, sensors) == before.push(g));
        assert(before.push(g).drop_last() =~= before);
    } else {
        if g.len() > 0 {
            assert(g.contains(g[0]));
            let x = g[0];
            assert(sensors.contains(x) && regex_is_match(p, x));
            let k = choose|k: int| 0 <= k < sensors.len() && sensors[k] == x;
            assert(regex_is_match(p, sensors[k]));
        }
    }
}

/// The bar of maximum group `i` is labelled `temp_max_` followed by the
/// number `i`.
pub proof fn law_max_label_names_its_group(n: nat)
    ensures
        max_labels(n).len() == n,
        forall|i: int|
            0 <= i < n ==> (#[trigger] max_labels(n)[i]).take("temp_max_"@.len() as int)
                == "temp_max_"@ && read_decimal(max_labels(n)[i].skip("temp_max_"@.len() as int))
                == i,
{
    assert forall|i: int| 0 <= i < n implies (#[trigger] max_labels(n)[i]).take(
        "temp_max_"@.len() as int,
    ) == "temp_max_"@ && read_decimal(max_labels(n)[i].skip("temp_max_"@.len() as int)) == i by {
        law_numbered_splits("temp_max_"@, i as nat);
    }
}

/// Each maximum group has a label of its own.
pub proof fn law_max_labels_distinct(groups: nat)
    ensures
        max_labels(groups).no_duplicates(),
{
    assert forall|i: int, j: int|
        0 <= i < max_labels(groups).len() && 0 <= j < max_labels(groups).len() && i != j implies max_labels(
        groups,
    )[i] != max_labels(groups)[j] by {
        law_numbered_one_to_one("temp_max_"@, i as nat, j as nat);
    }
}

/// Each maximum group is a non-empty set of sensors, each matched by the
/// group's pattern; a pattern that matches no sensor gives no group.
pub proof fn law_temp_groups_are_sets_of_sensors(patterns: Seq<Seq<char>>, sensors: Seq<Seq<char>>)
    ensures
        temp_groups(patterns, sensors).len() <= patterns.len(),
        forall|g: int|
            0 <= g < temp_groups(patterns, sensors).len() ==> {
                let group = #[trigger] temp_groups(patterns, sensors)[g];
                &&& group.len() > 0
                &&& group.no_duplicates()
                &&& forall|x: Seq<char>| group.contains(x) ==> sensors.contains(x)
            },
    decreases patterns.len(),
{
    if patterns.len() > 0 {
        law_temp_groups_are_sets_of_sensors(patterns.drop_last(), sensors);
        let m = matching(patterns.last(), sensors);
        law_matching_within(patterns.last(), sensors);
        law_dedup_is_a_set(m);
        let before = temp_groups(patterns.drop_last(), sensors);
        assert forall|g: int| 0 <= g < temp_groups(patterns, sensors).len() implies {
            let group = #[trigger] temp_groups(patterns, sensors)[g];
            &&& group.len() > 0
            &&& group.no_duplicates()
            &&& forall|x: Seq<char>| group.contains(x) ==> sensors.contains(x)
        } by {
            if g < before.len() {
                assert(temp_groups(patterns, sensors)[g] == before[g]);
            }
        }
    }
}

/// Appends `name` unless `v` holds it already.
pub fn push_unique(v: &mut Vec<String>, name: String)
    ensures
        final(v).deep_view() == (if old(v).deep_view().contains(name@) {
            old(v).deep_view()
        } else {
            old(v).deep_view().push(name@)
        }),
{
    let mut i: usize = 0;
    while i < v.len()
        invariant
            i <= v.len(),
            v.deep_view() == old(v).deep_view(),
            forall|j: int| 0 <= j < i ==> v.deep_view()[j] != name@,
        decreases v.len() - i,
    {
        if v[i] == name {
            assert(v.deep_view()[i as int] == name@);
            return;
        }
        i = i + 1;
    }
    let ghost before = v.deep_view();
    assert(!before.contains(name@));
    v.push(name);
    assert(v.deep_view() =~= before.push(name@));
}

/// The names of `s`, each once, in the order they first come.
pub fn dedup_names(s: &Vec<String>) -> (r: Vec<String>)
    ensures
        r.deep_view() == dedup(s.deep_view()),
{
    let mut r: Vec<String> = Vec::new();
    let mut i: usize = 0;
    while i < s.len()
        invariant
            i <= s.len(),
            r.deep_view() == dedup(s.deep_view().take(i as int)),
        decreases s.len() - i,
    {
        assert(s.deep_view().take(i + 1).drop_last() =~= s.deep_view().take(i as int));
        assert(s.deep_view().take(i + 1).last() == s[i as int]@);
        push_unique(&mut r, s[i].clone());
        i = i + 1;
    }
    assert(s.deep_view().take(s.len() as int) =~= s.deep_view());
    r
}

/// The temperature monitor: the sensors of each maximum group and the bars.
pub struct Temp {
    max_temp: Vec<Vec<String>>,
    labels: Vec<String>,
}

impl Temp {
    /// The sensors of each maximum group, group 0 first.
    pub closed spec fn groups(&self) -> Seq<Seq<Seq<char>>> {
        self.max_temp.deep_view()
    }

    /// The labels of the bars, each once.
    pub closed spec fn shown(&self) -> Seq<Seq<char>> {
        self.labels.deep_view()
    }

    /// No bar label twice, and each group a non-empty list of sensors with
    /// no sensor twice.
    pub open spec fn sets_hold(&self) -> bool {
        &&& self.shown().no_duplicates()
        &&& forall|g: int|
            0 <= g < self.groups().len() ==> (#[trigger] self.groups()[g]).len() > 0
                && self.groups()[g].no_duplicates()
    }

    #[verifier::type_invariant]
    closed spec fn bars_and_groups_are_sets(&self) -> bool {
        self.sets_hold()
    }

    /// The monitor configured by `config` on a machine whose temperature
    /// sensors are labelled `sensors`. Every pattern of `show_max` must
    /// compile.
    pub fn new(config: &ConfigTemp, sensors: &Vec<String>) -> (t: Temp)
        requires
            all_compile(or_empty(config.show_max)),
        ensures
            t.groups() == temp_groups(or_empty(config.show_max), sensors.deep_view()),
            t.shown() == temp_labels(or_empty(config.show), t.groups().len()),
            t.sets_hold(),
    {
        let empty: Vec<String> = Vec::new();
        let show_max = match &config.show_max {
            Some(v) => v,
            None => &empty,
        };
        assert(show_max.deep_view() =~= or_empty(config.show_max));
        let patterns = compile_all(show_max).unwrap();
        let ghost shows = show_max.deep_view();
        let mut groups: Vec<Vec<String>> = Vec::new();
        let mut i: usize = 0;
        while i < patterns.len()
            invariant
                i <= patterns.len(),
                patterns.len() == shows.len(),
                forall|j: int| 0 <= j < patterns.len() ==> #[trigger] patterns[j].source() == shows[j],
                groups.deep_view() == temp_groups(shows.take(i as int), sensors.deep_view()),
            decreases patterns.len() - i,
        {
            let matched = patterns[i].matching(sensors);
            let group = dedup_names(&matched);
            proof {
                assert(shows.take(i + 1).drop_last() =~= shows.take(i as int));
                assert(shows.take(i + 1).last() == shows[i as int]);
            }
            if group.len() > 0 {
                let ghost before = groups.deep_view();
                groups.push(group);
                assert(groups.deep_view() =~= before.push(group.deep_view()));
            }
            i = i + 1;
        }
        assert(shows.take(shows.len() as int) =~= shows);
        let show = match &config.show {
            Some(v) => v,
            None => &empty,
        };
        assert(show.deep_view() =~= or_empty(config.show));
        let mut all = clone_labels(show);
        let mut k: usize = 0;
        while k < groups.len()
            invariant
                k <= groups.len(),
                all.deep_view() == show.deep_view() + max_labels(k as nat),
            decreases groups.len() - k,
        {
            let ghost before = all.deep_view();
            let label = numbered_text("temp_max_", k as u64);
            all.push(label);
            assert(all.deep_view() =~= before.push(label@));
            assert(max_labels((k + 1) as nat) =~= max_labels(k as nat).push(max_label(k as nat)));
            k = k + 1;
        }
        let labels = dedup_names(&all);
        proof {
            law_dedup_is_a_set(all.deep_view());
            law_temp_groups_are_sets_of_sensors(shows, sensors.deep_view());
        }
        Temp { max_temp: groups, labels }
    }

    /// The labels of the bars, each once.
    pub fn labels(&self) -> (r: Vec<String>)
        ensures
            r.deep_view() == self.shown(),
            r.deep_view().no_duplicates(),
            self.sets_hold(),
    {
        proof {
            use_type_invariant(self);
        }
        clone_labels(&self.labels)
    }

    /// The sensors of each maximum group, group 0 first; each group is
    /// non-empty and holds no sensor twice.
    pub fn max_groups(&self) -> (r: &Vec<Vec<String>>)
        ensures
            r.deep_view() == self.groups(),
            forall|g: int|
                0 <= g < r.deep_view().len() ==> (#[trigger] r.deep_view()[g]).len() > 0
                    && r.deep_view()[g].no_duplicates(),
            self.sets_hold(),
    {
        proof {
            use_type_invariant(self);
        }
        &self.max_temp
    }

    /// Whether the monitor has a bar labelled `label`.
    pub fn shows(&self, label: &str) -> (b: bool)
        ensures
            b == self.shown().contains(label@),
    {
        let name = label.to_owned();
        let mut i: usize = 0;
        while i < self.labels.len()
            invariant
                i <= self.labels.len(),
                name@ == label@,
                forall|j: int| 0 <= j < i ==> self.labels.deep_view()[j] != label@,
            decreases self.labels.len() - i,
        {
            if self.labels[i] == name {
                assert(self.labels.deep_view()[i as int] == label@);
                return true;
            }
            i = i + 1;
        }
        false
    }
}

} // verus!
