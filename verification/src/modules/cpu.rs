use crate::config::ConfigCpu;
use crate::text::{
    law_numbered_one_to_one, law_numbered_splits, numbered, numbered_text, read_decimal,
};
use vstd::prelude::*;

verus! {

/// The label of the measure of core `i`.
pub open spec fn core_label(i: nat) -> Seq<char> {
    numbered("cpu_core_"@, i)
}

/// The labels of the measures of `n` cores, core 0 first.
pub open spec fn core_labels(n: nat) -> Seq<Seq<char>> {
    Seq::new(n, |i: int| core_label(i as nat))
}

/// The bars that a CPU monitor configured to show `show` draws on a
/// machine of `n` cores: each entry of `show` in turn, `all_cores` standing
/// for one bar per core.
pub open spec fn cpu_labels(show: Seq<Seq<char>>, n: nat) -> Seq<Seq<char>>
    decreases show.len(),
{
    if show.len() == 0 {
        Seq::empty()
    } else {
        let before = cpu_labels(show.drop_last(), n);
        if show.last() == "all_cores"@ {
            before + core_labels(n)
        } else {
            before.push(show.last())
        }
    }
}

/// Each core has a label of its own: the labels of the cores are distinct.
pub proof fn law_core_labels_distinct(n: nat)
    ensures
        core_labels(n).no_duplicates(),
{
    assert forall|i: int, j: int|
        0 <= i < core_labels(n).len() && 0 <= j < core_labels(n).len() && i != j implies core_labels(
        n,
    )[i] != core_labels(n)[j] by {
        law_numbered_one_to_one("cpu_core_"@, i as nat, j as nat);
    }
}

/// The label of core `i` is `cpu_core_` followed by the number `i`.
pub proof fn law_core_label_names_its_core(n: nat)
    ensures
        core_labels(n).len() == n,
        forall|i: int|
            0 <= i < n ==> (#[trigger] core_labels(n)[i]).take("cpu_core_"@.len() as int)
                == "cpu_core_"@ && read_decimal(core_labels(n)[i].skip("cpu_core_"@.len() as int))
                == i,
{
    assert forall|i: int| 0 <= i < n implies (#[trigger] core_labels(n)[i]).take(
        "cpu_core_"@.len() as int,
    ) == "cpu_core_"@ && read_decimal(core_labels(n)[i].skip("cpu_core_"@.len() as int)) == i by {
        law_numbered_splits("cpu_core_"@, i as nat);
    }
}

/// Entries other than `all_cores` are shown as they are: without
/// `all_cores`, the bars are exactly `show`.
pub proof fn law_cpu_labels_without_all_cores(show: Seq<Seq<char>>, n: nat)
    requires
        !show.contains("all_cores"@),
    ensures
        cpu_labels(show, n) == show,
    decreases show.len(),
{
    if show.len() > 0 {
        assert(!show.drop_last().contains("all_cores"@)) by {
            if show.drop_last().contains("all_cores"@) {
                let k = choose|k: int| 0 <= k < show.drop_last().len() && show.drop_last()[k] == "all_cores"@;
                assert(show[k] == "all_cores"@);
            }
        }
        law_cpu_labels_without_all_cores(show.drop_last(), n);
        assert(show[show.len() - 1] != "all_cores"@);
        assert(show.drop_last().push(show.last()) =~= show);
    }
}

/// `all_cores` stands for one bar per core, core 0 first, where it stands
/// in `show`.
pub proof fn law_all_cores_expands(before: Seq<Seq<char>>, after: Seq<Seq<char>>, n: nat)
    ensures
        cpu_labels(before + seq!["all_cores"@] + after, n) == cpu_labels(before, n) + core_labels(n)
            + cpu_labels(after, n),
    decreases after.len(),
{
    let mid = before + seq!["all_cores"@];
    if after.len() == 0 {
        assert(mid + after =~= mid);
        assert(mid.drop_last() =~= before);
        assert(cpu_labels(after, n) =~= Seq::<Seq<char>>::empty());
        assert(cpu_labels(before, n) + core_labels(n) + cpu_labels(after, n) =~= cpu_labels(before, n) + core_labels(n));
    } else {
        law_all_cores_expands(before, after.drop_last(), n);
        assert((mid + after).drop_last() =~= mid + after.drop_last());
        assert((mid + after).last() == after.last());
        let x = after.last();
        if x == "all_cores"@ {
            assert(cpu_labels(before, n) + core_labels(n) + cpu_labels(after, n) =~= cpu_labels(before, n) + core_labels(n) + cpu_labels(after.drop_last(), n) + core_labels(n));
        } else {
            assert(cpu_labels(before, n) + core_labels(n) + cpu_labels(after, n) =~= (cpu_labels(before, n) + core_labels(n) + cpu_labels(after.drop_last(), n)).push(x));
        }
    }
}

/// The CPU monitor: which bars it shows and the labels of the cores.
pub struct Cpu {
    labels: Vec<String>,
    core_labels: Vec<String>,
}

impl Cpu {
    /// The labels of the bars, in order.
    pub closed spec fn shown(&self) -> Seq<Seq<char>> {
        self.labels.deep_view()
    }

    /// The labels of the per-core measures, core 0 first.
    pub closed spec fn cores(&self) -> Seq<Seq<char>> {
        self.core_labels.deep_view()
    }

    /// The monitor configured by `config` on a machine with `n_cores` cores.
    pub fn new(config: &ConfigCpu, n_cores: usize) -> (c: Cpu)
        ensures
            c.cores() == core_labels(n_cores as nat),
            c.shown() == cpu_labels(config.show.deep_view(), n_cores as nat),
    {
        let cores = core_label_list(n_cores);
        let all_cores = String::from_str("all_cores");
        let show = &config.show;
        let mut labels: Vec<String> = Vec::new();
        let mut i: usize = 0;
        while i < show.len()
            invariant
                i <= show.len(),
                all_cores@ == "all_cores"@,
                cores.deep_view() == core_labels(n_cores as nat),
                labels.deep_view() == cpu_labels(show.deep_view().take(i as int), n_cores as nat),
            decreases show.len() - i,
        {
            let ghost before = labels.deep_view();
            assert(show.deep_view().take(i + 1).drop_last() =~= show.deep_view().take(i as int));
            assert(show.deep_view().take(i + 1).last() == show[i as int]@);
            if show[i] == all_cores {
                let mut j: usize = 0;
                while j < cores.len()
                    invariant
                        j <= cores.len(),
                        labels.deep_view() == before + cores.deep_view().take(j as int),
                    decreases cores.len() - j,
                {
                    let ghost mid = labels.deep_view();
                    let item = cores[j].clone();
                    assert(item@ == cores.deep_view()[j as int]);
                    labels.push(item);
                    assert(labels.deep_view() =~= mid.push(item@));
                    assert(cores.deep_view().take(j + 1) =~= cores.deep_view().take(j as int).push(item@));
                    assert(before + cores.deep_view().take(j + 1) =~= (before + cores.deep_view().take(j as int)).push(item@));
                    j = j + 1;
                }
                assert(cores.deep_view().take(cores.len() as int) =~= cores.deep_view());
            } else {
                labels.push(show[i].clone());
                assert(labels.deep_view() =~= before.push(show[i as int]@));
            }
            i = i + 1;
        }
        assert(show.deep_view().take(show.len() as int) =~= show.deep_view());
        Cpu { labels, core_labels: cores }
    }

    /// The labels of the bars, in order.
    pub fn labels(&self) -> (r: Vec<String>)
        ensures
            r.deep_view() == self.shown(),
    {
        clone_labels(&self.labels)
    }

    /// The labels of the per-core measures, core 0 first.
    pub fn core_labels(&self) -> (r: &Vec<String>)
        ensures
            r.deep_view() == self.cores(),
    {
        &self.core_labels
    }
}

/// The labels `cpu_core_0` to `cpu_core_{n-1}`.
pub fn core_label_list(n: usize) -> (r: Vec<String>)
    ensures
        r.deep_view() == core_labels(n as nat),
{
    let mut r: Vec<String> = Vec::new();
    let mut i: usize = 0;
    while i < n
        invariant
            i <= n,
            r.deep_view() == core_labels(i as nat),
        decreases n - i,
    {
        let ghost before = r.deep_view();
        let label = numbered_text("cpu_core_", i as u64);
        assert(label@ == core_label(i as nat));
        r.push(label);
        assert(r.deep_view() =~= before.push(label@));
        assert(r.deep_view() =~= core_labels((i + 1) as nat));
        i = i + 1;
    }
    r
}

/// A copy of a list of labels.
pub fn clone_labels(v: &Vec<String>) -> (r: Vec<String>)
    ensures
        r.deep_view() == v.deep_view(),
{
    let mut r: Vec<String> = Vec::new();
    let mut i: usize = 0;
    while i < v.len()
        invariant
            i <= v.len(),
            r.deep_view() == v.deep_view().take(i as int),
        decreases v.len() - i,
    {
        let ghost before = r.deep_view();
        let item = v[i].clone();
        assert(item@ == v.deep_view()[i as int]);
        r.push(item);
        assert(r.deep_view() =~= before.push(item@));
        assert(v.deep_view().take(i + 1) =~= v.deep_view().take(i as int).push(item@));
        i = i + 1;
    }
    assert(v.deep_view().take(v.len() as int) =~= v.deep_view());
    r
}

} // verus!
