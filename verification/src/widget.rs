use crate::measure::Measures;
use crate::text::{decimal, numbered, numbered_text};
use vstd::prelude::*;

verus! {

/// The bars of one monitor: its kind (`cpu`, `mem`, `net` or `temp`), its
/// label and the labels of the measures it shows, one bar each, in order.
pub struct WidgetLayout {
    pub kind: String,
    pub label: String,
    pub show: Vec<String>,
}

impl DeepView for WidgetLayout {
    type V = (Seq<char>, Seq<char>, Seq<Seq<char>>);

    open spec fn deep_view(&self) -> (Seq<char>, Seq<char>, Seq<Seq<char>>) {
        (self.kind@, self.label@, self.show.deep_view())
    }
}

/// The non-empty tooltips, in the order of `show`, of the shown measures
/// that were taken.
pub open spec fn tooltip_lines(show: Seq<Seq<char>>, tips: Map<Seq<char>, Seq<char>>) -> Seq<
    Seq<char>,
>
    decreases show.len(),
{
    if show.len() == 0 {
        Seq::empty()
    } else {
        let before = tooltip_lines(show.drop_last(), tips);
        let label = show.last();
        if tips.contains_key(label) && tips[label].len() > 0 {
            before.push(tips[label])
        } else {
            before
        }
    }
}

/// The lines joined by line breaks.
pub open spec fn join_lines(lines: Seq<Seq<char>>) -> Seq<char>
    decreases lines.len(),
{
    if lines.len() == 0 {
        Seq::empty()
    } else if lines.len() == 1 {
        lines[0]
    } else {
        join_lines(lines.drop_last()) + seq!['\n'] + lines.last()
    }
}

/// Joining two non-empty runs of lines is joining each and putting one line
/// break between them: every two neighbouring lines are separated by
/// exactly one line break.
pub proof fn law_join_puts_one_break_between(a: Seq<Seq<char>>, b: Seq<Seq<char>>)
    requires
        a.len() > 0,
        b.len() > 0,
    ensures
        join_lines(a + b) == join_lines(a) + seq!['\n'] + join_lines(b),
    decreases b.len(),
{
    if b.len() == 1 {
        assert((a + b).drop_last() =~= a);
        assert((a + b).last() == b[0]);
    } else {
        law_join_puts_one_break_between(a, b.drop_last());
        assert((a + b).drop_last() =~= a + b.drop_last());
        assert((a + b).last() == b.last());
        assert(join_lines(a + b) == join_lines(a + b.drop_last()) + seq!['\n'] + b.last());
        assert(join_lines(b) == join_lines(b.drop_last()) + seq!['\n'] + b.last());
        assert(join_lines(a) + seq!['\n'] + join_lines(b.drop_last()) + seq!['\n'] + b.last()
            =~= join_lines(a) + seq!['\n'] + (join_lines(b.drop_last()) + seq!['\n'] + b.last()));
    }
}

/// A single line is joined as it is.
pub proof fn law_join_of_one_line(line: Seq<char>)
    ensures
        join_lines(seq![line]) == line,
{
}

/// The joined text holds one line break fewer than there are lines, when
/// no line holds a line break itself.
pub proof fn law_join_counts_breaks(lines: Seq<Seq<char>>)
    requires
        lines.len() > 0,
        forall|i: int| 0 <= i < lines.len() ==> !(#[trigger] lines[i]).contains('\n'),
    ensures
        join_lines(lines).filter(|c: char| c == '\n').len() == lines.len() - 1,
    decreases lines.len(),
{
    broadcast use vstd::seq_lib::group_filter_ensures;
    let nl = |c: char| c == '\n';
    if lines.len() == 1 {
        lemma_no_breaks(lines[0]);
    } else {
        law_join_counts_breaks(lines.drop_last());
        assert(lines[lines.len() - 1] == lines.last());
        lemma_no_breaks(lines.last());
        let front = join_lines(lines.drop_last());
        Seq::filter_distributes_over_add(front, seq!['\n'], nl);
        Seq::filter_distributes_over_add(front + seq!['\n'], lines.last(), nl);
        reveal_with_fuel(Seq::filter, 2);
        assert(seq!['\n'].filter(nl) =~= seq!['\n']) by {
            assert(seq!['\n'].drop_last() =~= Seq::<char>::empty());
        }
    }
}

proof fn lemma_no_breaks(line: Seq<char>)
    requires
        !line.contains('\n'),
    ensures
        line.filter(|c: char| c == '\n').len() == 0,
    decreases line.len(),
{
    reveal(Seq::filter);
    if line.len() > 0 {
        assert(!line.drop_last().contains('\n')) by {
            if line.drop_last().contains('\n') {
                let k = choose|k: int| 0 <= k < line.drop_last().len() && line.drop_last()[k] == '\n';
                assert(line[k] == '\n');
            }
        }
        lemma_no_breaks(line.drop_last());
        assert(line[line.len() - 1] != '\n');
    }
}

/// The lines of a widget's tooltip are gathered label by label: the lines
/// of `a` followed by `b` are those of `a` and then those of `b`, and one
/// label gives the tooltip of its measure when the measure exists and its
/// tooltip is not empty, else nothing.
pub proof fn law_tooltip_lines_label_by_label(
    a: Seq<Seq<char>>,
    b: Seq<Seq<char>>,
    tips: Map<Seq<char>, Seq<char>>,
    label: Seq<char>,
)
    ensures
        tooltip_lines(a + b, tips) == tooltip_lines(a, tips) + tooltip_lines(b, tips),
        tooltip_lines(seq![label], tips) == (if tips.contains_key(label) && tips[label].len() > 0 {
            seq![tips[label]]
        } else {
            Seq::<Seq<char>>::empty()
        }),
    decreases b.len(),
{
    let one = seq![label];
    assert(one.drop_last() =~= Seq::<Seq<char>>::empty());
    assert(one.last() == label);
    assert(tooltip_lines(Seq::<Seq<char>>::empty(), tips) == Seq::<Seq<char>>::empty());
    if tips.contains_key(label) && tips[label].len() > 0 {
        assert(tooltip_lines(one, tips) =~= seq![tips[label]]);
    } else {
        assert(tooltip_lines(one, tips) =~= Seq::<Seq<char>>::empty());
    }
    if b.len() == 0 {
        assert(a + b =~= a);
        assert(tooltip_lines(a, tips) + tooltip_lines(b, tips) =~= tooltip_lines(a, tips));
    } else {
        law_tooltip_lines_label_by_label(a, b.drop_last(), tips, label);
        assert((a + b).drop_last() =~= a + b.drop_last());
        assert((a + b).last() == b.last());
        let l = b.last();
        if tips.contains_key(l) && tips[l].len() > 0 {
            assert(tooltip_lines(a, tips) + tooltip_lines(b, tips) =~= (tooltip_lines(a, tips)
                + tooltip_lines(b.drop_last(), tips)).push(tips[l]));
        } else {
            assert(tooltip_lines(a, tips) + tooltip_lines(b, tips) =~= tooltip_lines(a, tips)
                + tooltip_lines(b.drop_last(), tips));
        }
    }
}

/// A widget's tooltip depends only on the measures it shows: two sets of
/// tooltips that agree on the labels of `show` give the same lines.
pub proof fn law_tooltip_depends_only_on_shown(
    show: Seq<Seq<char>>,
    a: Map<Seq<char>, Seq<char>>,
    b: Map<Seq<char>, Seq<char>>,
)
    requires
        forall|i: int|
            0 <= i < show.len() ==> (a.contains_key(#[trigger] show[i]) == b.contains_key(show[i]) && (
            a.contains_key(show[i]) ==> a[show[i]] == b[show[i]])),
    ensures
        tooltip_lines(show, a) == tooltip_lines(show, b),
    decreases show.len(),
{
    if show.len() > 0 {
        assert forall|i: int| 0 <= i < show.drop_last().len() implies (a.contains_key(
            #[trigger] show.drop_last()[i],
        ) == b.contains_key(show.drop_last()[i]) && (a.contains_key(show.drop_last()[i])
            ==> a[show.drop_last()[i]] == b[show.drop_last()[i]])) by {
            assert(show.drop_last()[i] == show[i]);
        }
        law_tooltip_depends_only_on_shown(show.drop_last(), a, b);
        assert(show[show.len() - 1] == show.last());
    }
}

/// The tooltip of a monitor's widget: the non-empty tooltips of the
/// measures it shows, one per line, in the order of `show`.
pub fn tooltip_text(show: &Vec<String>, measures: &Measures) -> (s: String)
    ensures
        s@ == join_lines(tooltip_lines(show.deep_view(), measures.tooltips())),
{
    let ghost tips = measures.tooltips();
    let mut s = String::new();
    let mut any: bool = false;
    let mut i: usize = 0;
    while i < show.len()
        invariant
            i <= show.len(),
            tips == measures.tooltips(),
            s@ == join_lines(tooltip_lines(show.deep_view().take(i as int), tips)),
            any == (tooltip_lines(show.deep_view().take(i as int), tips).len() > 0),
        decreases show.len() - i,
    {
        let ghost before = tooltip_lines(show.deep_view().take(i as int), tips);
        assert(show.deep_view().take(i + 1).drop_last() =~= show.deep_view().take(i as int));
        assert(show.deep_view().take(i + 1).last() == show[i as int]@);
        match measures.get(show[i].as_str()) {
            Some(m) => {
                if !m.tooltip.as_str().is_empty() {
                    if any {
                        proof {
                            reveal_strlit("\n");
                        }
                        s.append("\n");
                    }
                    s.append(m.tooltip.as_str());
                    any = true;
                    proof {
                        let after = before.push(m.tooltip@);
                        assert(after.drop_last() =~= before);
                        if before.len() == 0 {
                            assert(join_lines(after) == after[0]);
                        } else {
                            assert(join_lines(after) == join_lines(before) + seq!['\n'] + m.tooltip@);
                        }
                    }
                }
            },
            None => {},
        }
        i = i + 1;
    }
    assert(show.deep_view().take(show.len() as int) =~= show.deep_view());
    s
}

/// The style classes of a monitor's widget: `sysinfo-module`, its kind and
/// its label.
pub open spec fn widget_classes(kind: Seq<char>, label: Seq<char>) -> Seq<Seq<char>> {
    seq!["sysinfo-module"@, kind, label]
}

/// How many of the fill classes `gte-10` to `gte-90` a bar at `percent`
/// carries: one for each multiple of ten from 10 to 90 that it reaches.
pub open spec fn fill_steps(percent: nat) -> nat {
    if percent / 10 > 9 {
        9
    } else {
        percent / 10
    }
}

/// The fill classes of a bar at `percent`: `gte-10`, `gte-20`, ... up to the
/// largest multiple of ten, at most 90, that `percent` reaches.
pub open spec fn fill_classes(percent: nat) -> Seq<Seq<char>> {
    Seq::new(fill_steps(percent), |i: int| numbered("gte-"@, (10 * (i + 1)) as nat))
}

/// The style classes of a bar that shows the measure `label` at `percent`
/// of full: its label, `sysinfo-bar`, then its fill classes.
pub open spec fn bar_classes(label: Seq<char>, percent: nat) -> Seq<Seq<char>> {
    seq![label, "sysinfo-bar"@] + fill_classes(percent)
}

/// A bar carries the fill class `gte-N` exactly for the multiples of ten
/// `N` from 10 to 90 that its percentage reaches, in increasing order.
pub proof fn law_fill_classes_mark_reached_tens(percent: nat)
    ensures
        10 * fill_classes(percent).len() <= percent,
        fill_classes(percent).len() < 9 ==> percent < 10 * (fill_classes(percent).len() + 1),
        fill_classes(percent).len() <= 9,
        forall|i: int|
            0 <= i < fill_classes(percent).len() ==> #[trigger] fill_classes(percent)[i] == "gte-"@
                + decimal((10 * (i + 1)) as nat),
{
}

impl WidgetLayout {
    /// The style classes of the widget.
    pub fn classes(&self) -> (r: Vec<String>)
        ensures
            r.deep_view() == widget_classes(self.kind@, self.label@),
    {
        let mut r: Vec<String> = Vec::new();
        r.push(String::from_str("sysinfo-module"));
        r.push(self.kind.clone());
        r.push(self.label.clone());
        assert(r.deep_view() =~= widget_classes(self.kind@, self.label@));
        r
    }
}

/// The style classes of a bar that shows the measure `label` at `percent`
/// (the whole part of its fill, in percent).
pub fn bar_classes_of(label: &str, percent: u64) -> (r: Vec<String>)
    ensures
        r.deep_view() == bar_classes(label@, percent as nat),
{
    let mut r: Vec<String> = Vec::new();
    r.push(label.to_owned());
    r.push(String::from_str("sysinfo-bar"));
    let ghost head = r.deep_view();
    assert(head =~= seq![label@, "sysinfo-bar"@]);
    let mut k: u64 = 1;
    while k <= 9 && 10 * k <= percent
        invariant
            1 <= k <= 10,
            k - 1 <= fill_steps(percent as nat),
            r.deep_view() == head + fill_classes(percent as nat).take(k - 1),
        decreases 10 - k,
    {
        let ghost before = r.deep_view();
        let class = numbered_text("gte-", 10 * k);
        r.push(class);
        assert(fill_classes(percent as nat).take(k as int) =~= fill_classes(percent as nat).take(
            k - 1,
        ).push(class@));
        assert(r.deep_view() =~= before.push(class@));
        k = k + 1;
    }
    assert(fill_classes(percent as nat).take(k - 1) =~= fill_classes(percent as nat));
    r
}

} // verus!
