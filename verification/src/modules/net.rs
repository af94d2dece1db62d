use crate::automax::{
    last_n, last_values, law_pair_scale_is_peak_of_recent_values,
    law_update_at_least_value_and_floor, peak, slide, AutoMax, WINDOW_LEN,
};
use crate::config::{net_floor, ConfigNet};
use crate::measure::{entered, Measures};
use crate::modules::cpu::clone_labels;
use crate::pattern::{all_compile, compile_all, matching};
use crate::text::{format_size_decimal, human_size};
use vstd::prelude::*;

verus! {

/// The bytes an interface received and transmitted since the last reading.
pub struct InterfaceTraffic {
    pub name: String,
    pub received: u64,
    pub transmitted: u64,
}

impl DeepView for InterfaceTraffic {
    type V = (Seq<char>, u64, u64);

    open spec fn deep_view(&self) -> (Seq<char>, u64, u64) {
        (self.name@, self.received, self.transmitted)
    }
}

/// The rates of one interface in one round, and the maximum they are drawn
/// against.
pub struct NetSample {
    /// The interface.
    pub dev: String,
    /// Bytes received per second.
    pub received_per_sec: u64,
    /// Bytes transmitted per second.
    pub transmitted_per_sec: u64,
    /// The maximum rate of the interface's recent window (never below the
    /// floor); the bars are scaled against it.
    pub max: u64,
    /// The tooltip given to the received-rate measure.
    pub tooltip: String,
}

/// A `NetSample` as plain values.
pub struct SampleView {
    pub dev: Seq<char>,
    pub received_per_sec: u64,
    pub transmitted_per_sec: u64,
    pub max: u64,
    pub tooltip: Seq<char>,
}

impl DeepView for NetSample {
    type V = SampleView;

    open spec fn deep_view(&self) -> SampleView {
        SampleView {
            dev: self.dev@,
            received_per_sec: self.received_per_sec,
            transmitted_per_sec: self.transmitted_per_sec,
            max: self.max,
            tooltip: self.tooltip@,
        }
    }
}

/// The labels of the two bars of an interface: received, then transmitted.
pub open spec fn recv_label(dev: Seq<char>) -> Seq<char> {
    dev + "_recv"@
}

/// The label of the transmitted-rate bar of an interface.
pub open spec fn send_label(dev: Seq<char>) -> Seq<char> {
    dev + "_send"@
}

/// The two bars of each interface, in order.
pub open spec fn interface_labels(names: Seq<Seq<char>>) -> Seq<Seq<char>>
    decreases names.len(),
{
    if names.len() == 0 {
        Seq::empty()
    } else {
        interface_labels(names.drop_last()) + seq![
            recv_label(names.last()),
            send_label(names.last()),
        ]
    }
}

/// Each interface gets two bars, side by side in the order of the
/// interfaces: its received-rate bar, then its transmitted-rate bar.
pub proof fn law_interface_bars_in_pairs(names: Seq<Seq<char>>)
    ensures
        interface_labels(names).len() == 2 * names.len(),
        forall|i: int|
            0 <= i < names.len() ==> interface_labels(names)[2 * i] == (#[trigger] names[i]) + "_recv"@
                && interface_labels(names)[2 * i + 1] == names[i] + "_send"@,
    decreases names.len(),
{
    if names.len() > 0 {
        law_interface_bars_in_pairs(names.drop_last());
        let before = interface_labels(names.drop_last());
        let now = interface_labels(names);
        assert forall|i: int| 0 <= i < names.len() implies now[2 * i] == (#[trigger] names[i])
            + "_recv"@ && now[2 * i + 1] == names[i] + "_send"@ by {
            if i < names.len() - 1 {
                assert(names.drop_last()[i] == names[i]);
                assert(now[2 * i] == before[2 * i]);
                assert(now[2 * i + 1] == before[2 * i + 1]);
            } else {
                assert(names[i] == names.last());
            }
        }
    }
}

/// The bars of a network monitor: for each pattern in turn, the two bars of
/// each interface it matches, in the order of `interfaces`.
pub open spec fn net_labels(patterns: Seq<Seq<char>>, interfaces: Seq<Seq<char>>) -> Seq<
    Seq<char>,
>
    decreases patterns.len(),
{
    if patterns.len() == 0 {
        Seq::empty()
    } else {
        net_labels(patterns.drop_last(), interfaces) + interface_labels(
            matching(patterns.last(), interfaces),
        )
    }
}

/// The bars of a network monitor are gathered pattern by pattern: those of
/// patterns `a` followed by `b` are those of `a`, then those of `b`, and one
/// pattern gives the two bars of each interface it matches.
pub proof fn law_net_bars_pattern_by_pattern(
    a: Seq<Seq<char>>,
    b: Seq<Seq<char>>,
    p: Seq<char>,
    interfaces: Seq<Seq<char>>,
)
    ensures
        net_labels(a + b, interfaces) == net_labels(a, interfaces) + net_labels(b, interfaces),
        net_labels(seq![p], interfaces) == interface_labels(matching(p, interfaces)),
    decreases b.len(),
{
    let one = seq![p];
    assert(one.drop_last() =~= Seq::<Seq<char>>::empty());
    assert(one.last() == p);
    assert(net_labels(Seq::<Seq<char>>::empty(), interfaces) == Seq::<Seq<char>>::empty());
    assert(net_labels(one, interfaces) =~= interface_labels(matching(p, interfaces)));
    if b.len() == 0 {
        assert(a + b =~= a);
        assert(net_labels(a, interfaces) + net_labels(b, interfaces) =~= net_labels(a, interfaces));
    } else {
        law_net_bars_pattern_by_pattern(a, b.drop_last(), p, interfaces);
        assert((a + b).drop_last() =~= a + b.drop_last());
        assert((a + b).last() == b.last());
        assert(net_labels(a, interfaces) + net_labels(b, interfaces) =~= net_labels(a, interfaces)
            + net_labels(b.drop_last(), interfaces) + interface_labels(
            matching(b.last(), interfaces),
        ));
    }
}

/// The tooltip of an interface: `dev: R in / T out`.
pub open spec fn net_tooltip(dev: Seq<char>, recv: u64, send: u64) -> Seq<char> {
    dev + ": "@ + human_size(recv) + " in / "@ + human_size(send) + " out"@
}

/// The window of `dev` in `windows`; empty when it has none.
pub open spec fn window_of(windows: Map<Seq<char>, Seq<u64>>, dev: Seq<char>) -> Seq<u64> {
    if windows.contains_key(dev) {
        windows[dev]
    } else {
        Seq::empty()
    }
}

/// One round of the network monitor over the readings `traffic`, taken
/// `secs` seconds apart: for each interface in turn the received rate and
/// then the transmitted rate go into its window, the larger of the two
/// maxima is its scale, and an interface whose scale is 0 gives no sample.
/// Gives the windows afterwards and the samples.
pub open spec fn net_round(
    windows: Map<Seq<char>, Seq<u64>>,
    floor: u64,
    secs: u64,
    traffic: Seq<(Seq<char>, u64, u64)>,
) -> (Map<Seq<char>, Seq<u64>>, Seq<SampleView>)
    decreases traffic.len(),
{
    if traffic.len() == 0 {
        (windows, Seq::empty())
    } else {
        let (w, samples) = net_round(windows, floor, secs, traffic.drop_last());
        let t = traffic.last();
        let recv = (t.1 / secs) as u64;
        let send = (t.2 / secs) as u64;
        let w1 = slide(window_of(w, t.0), recv);
        let w2 = slide(w1, send);
        let m1 = peak(w1, floor);
        let m2 = peak(w2, floor);
        let max = if m1 >= m2 {
            m1
        } else {
            m2
        };
        let next = w.insert(t.0, w2);
        if max == 0 {
            (next, samples)
        } else {
            (
                next,
                samples.push(
                    SampleView {
                        dev: t.0,
                        received_per_sec: recv,
                        transmitted_per_sec: send,
                        max,
                        tooltip: net_tooltip(t.0, recv, send),
                    },
                ),
            )
        }
    }
}

/// The tooltips after recording the samples: for each, the transmitted-rate
/// measure is made sure to exist and the received-rate measure gets the
/// sample's tooltip.
pub open spec fn record_samples(tips: Map<Seq<char>, Seq<char>>, samples: Seq<SampleView>) -> Map<
    Seq<char>,
    Seq<char>,
>
    decreases samples.len(),
{
    if samples.len() == 0 {
        tips
    } else {
        let s = samples.last();
        entered(record_samples(tips, samples.drop_last()), send_label(s.dev)).insert(
            recv_label(s.dev),
            s.tooltip,
        )
    }
}

/// Each sample's scale is at least both of its rates and the floor, and is
/// not 0: no bar is drawn above full.
pub proof fn law_samples_scale_covers_rates(
    windows: Map<Seq<char>, Seq<u64>>,
    floor: u64,
    secs: u64,
    traffic: Seq<(Seq<char>, u64, u64)>,
)
    ensures
        forall|k: int|
            0 <= k < net_round(windows, floor, secs, traffic).1.len() ==> {
                let s = #[trigger] net_round(windows, floor, secs, traffic).1[k];
                &&& s.max >= s.received_per_sec
                &&& s.max >= s.transmitted_per_sec
                &&& s.max >= floor
                &&& s.max > 0
            },
    decreases traffic.len(),
{
    if traffic.len() > 0 {
        law_samples_scale_covers_rates(windows, floor, secs, traffic.drop_last());
        let (w, samples) = net_round(windows, floor, secs, traffic.drop_last());
        let t = traffic.last();
        let recv = (t.1 / secs) as u64;
        let send = (t.2 / secs) as u64;
        let w1 = slide(window_of(w, t.0), recv);
        law_update_at_least_value_and_floor(window_of(w, t.0), recv, floor);
        law_update_at_least_value_and_floor(w1, send, floor);
        let all = net_round(windows, floor, secs, traffic).1;
        assert forall|k: int| 0 <= k < all.len() implies {
            let s = #[trigger] all[k];
            &&& s.max >= s.received_per_sec
            &&& s.max >= s.transmitted_per_sec
            &&& s.max >= floor
            &&& s.max > 0
        } by {
            if k < samples.len() {
                assert(all[k] == samples[k]);
            }
        }
    }
}

/// The scale of an interface is the peak of its recent rates. Say its window,
/// before its reading in a round, holds the last values of `before`, all the
/// rates recorded for it so far. Its reading adds the received and then the
/// transmitted rate to that history; afterwards its window holds the last
/// `WINDOW_LEN` values of the history, and the scale of its sample is the
/// largest of the floor and the last `WINDOW_LEN + 1` values of the history
/// (its last five readings and the transmitted rate of the one before).
/// There is a sample exactly when that peak is not 0.
pub proof fn law_round_scale_is_peak_of_recent_rates(
    windows: Map<Seq<char>, Seq<u64>>,
    floor: u64,
    secs: u64,
    traffic: Seq<(Seq<char>, u64, u64)>,
    before: Seq<u64>,
)
    requires
        traffic.len() >= 1,
        window_of(net_round(windows, floor, secs, traffic.drop_last()).0, traffic.last().0)
            == last_values(before),
    ensures
        ({
            let t = traffic.last();
            let history = before.push((t.1 / secs) as u64).push((t.2 / secs) as u64);
            let scale = peak(last_n(history, (WINDOW_LEN + 1) as nat), floor);
            let now = net_round(windows, floor, secs, traffic);
            let prev = net_round(windows, floor, secs, traffic.drop_last()).1;
            &&& window_of(now.0, t.0) == last_values(history)
            &&& (now.1.len() == prev.len() + 1) <==> scale != 0
            &&& now.1.len() == prev.len() + 1 ==> now.1.last().max == scale
            &&& now.1.len() == prev.len() + 1 ==> now.1.last().dev == t.0
        }),
{
    let t = traffic.last();
    let history = before.push((t.1 / secs) as u64).push((t.2 / secs) as u64);
    assert(history.drop_last().drop_last() =~= before);
    assert(history[history.len() - 2] == (t.1 / secs) as u64);
    law_pair_scale_is_peak_of_recent_values(history, floor);
}

/// Each reading adds at most one sample, at the end: a sample for its own
/// interface, whose rates are the reading's received and transmitted bytes
/// divided by the elapsed seconds, and whose tooltip prints those rates.
pub proof fn law_sample_carries_reading_rates(
    windows: Map<Seq<char>, Seq<u64>>,
    floor: u64,
    secs: u64,
    traffic: Seq<(Seq<char>, u64, u64)>,
)
    requires
        traffic.len() > 0,
        secs > 0,
    ensures
        ({
            let t = traffic.last();
            let prev = net_round(windows, floor, secs, traffic.drop_last()).1;
            let now = net_round(windows, floor, secs, traffic).1;
            &&& now == prev || (now.len() == prev.len() + 1 && now.drop_last() == prev)
            &&& now.len() == prev.len() + 1 ==> {
                &&& now.last().dev == t.0
                &&& now.last().received_per_sec == t.1 / secs
                &&& now.last().transmitted_per_sec == t.2 / secs
                &&& now.last().tooltip == t.0 + ": "@ + human_size(t.1 / secs) + " in / "@
                    + human_size(t.2 / secs) + " out"@
            }
        }),
{
    let t = traffic.last();
    let (w, prev) = net_round(windows, floor, secs, traffic.drop_last());
    let now = net_round(windows, floor, secs, traffic).1;
    let recv = (t.1 / secs) as u64;
    let send = (t.2 / secs) as u64;
    assert(recv == t.1 / secs);
    assert(send == t.2 / secs);
    let w1 = slide(window_of(w, t.0), recv);
    let w2 = slide(w1, send);
    let m1 = peak(w1, floor);
    let m2 = peak(w2, floor);
    let max = if m1 >= m2 {
        m1
    } else {
        m2
    };
    if max == 0 {
        assert(now == prev);
    } else {
        let sv = SampleView {
            dev: t.0,
            received_per_sec: recv,
            transmitted_per_sec: send,
            max,
            tooltip: net_tooltip(t.0, recv, send),
        };
        assert(now == prev.push(sv));
        assert(now.drop_last() =~= prev);
        assert(now.last() == sv);
    }
}

/// Every sample of a round belongs to one of the round's readings: its
/// interface is that reading's, and its rates are that reading's received
/// and transmitted bytes divided by the elapsed seconds.
pub proof fn law_samples_come_from_readings(
    windows: Map<Seq<char>, Seq<u64>>,
    floor: u64,
    secs: u64,
    traffic: Seq<(Seq<char>, u64, u64)>,
)
    requires
        secs > 0,
    ensures
        forall|k: int|
            0 <= k < net_round(windows, floor, secs, traffic).1.len() ==> exists|j: int|
                0 <= j < traffic.len() && (#[trigger] traffic[j]).0 == (
                #[trigger] net_round(windows, floor, secs, traffic).1[k]).dev
                    && net_round(windows, floor, secs, traffic).1[k].received_per_sec == traffic[j].1
                    / secs && net_round(windows, floor, secs, traffic).1[k].transmitted_per_sec
                    == traffic[j].2 / secs,
    decreases traffic.len(),
{
    if traffic.len() > 0 {
        law_samples_come_from_readings(windows, floor, secs, traffic.drop_last());
        law_sample_carries_reading_rates(windows, floor, secs, traffic);
        let prev = net_round(windows, floor, secs, traffic.drop_last()).1;
        let now = net_round(windows, floor, secs, traffic).1;
        let n = traffic.len() - 1;
        assert forall|k: int| 0 <= k < now.len() implies exists|j: int|
            0 <= j < traffic.len() && (#[trigger] traffic[j]).0 == (#[trigger] now[k]).dev
                && now[k].received_per_sec == traffic[j].1 / secs && now[k].transmitted_per_sec
                == traffic[j].2 / secs by {
            if k < prev.len() {
                assert(now[k] == prev[k]);
                let j = choose|j: int|
                    0 <= j < traffic.drop_last().len() && (#[trigger] traffic.drop_last()[j]).0
                        == prev[k].dev && prev[k].received_per_sec == traffic.drop_last()[j].1
                        / secs && prev[k].transmitted_per_sec == traffic.drop_last()[j].2 / secs;
                assert(traffic[j] == traffic.drop_last()[j]);
            } else {
                assert(now[k] == now.last());
                assert(traffic[n] == traffic.last());
            }
        }
    }
}

/// A round leaves the window of an interface that it has no reading of as
/// it was.
pub proof fn law_round_keeps_other_interfaces(
    windows: Map<Seq<char>, Seq<u64>>,
    floor: u64,
    secs: u64,
    traffic: Seq<(Seq<char>, u64, u64)>,
    dev: Seq<char>,
)
    requires
        forall|i: int| 0 <= i < traffic.len() ==> (#[trigger] traffic[i]).0 != dev,
    ensures
        window_of(net_round(windows, floor, secs, traffic).0, dev) == window_of(windows, dev),
    decreases traffic.len(),
{
    if traffic.len() > 0 {
        assert forall|i: int| 0 <= i < traffic.drop_last().len() implies (
        #[trigger] traffic.drop_last()[i]).0 != dev by {
            assert(traffic.drop_last()[i] == traffic[i]);
        }
        law_round_keeps_other_interfaces(windows, floor, secs, traffic.drop_last(), dev);
        assert(traffic[traffic.len() - 1].0 != dev);
    }
}

/// Recording samples writes the tooltip of each sample's received-rate
/// measure (the latest sample of an interface wins), makes sure its
/// transmitted-rate measure exists, and leaves every other measure as it
/// was.
pub proof fn law_record_samples_touches_only_their_bars(
    tips: Map<Seq<char>, Seq<char>>,
    samples: Seq<SampleView>,
    x: Seq<char>,
)
    ensures
        (forall|k: int|
            0 <= k < samples.len() ==> x != recv_label((#[trigger] samples[k]).dev) && x
                != send_label(samples[k].dev)) ==> (record_samples(tips, samples).contains_key(x)
            == tips.contains_key(x) && (tips.contains_key(x) ==> record_samples(tips, samples)[x]
            == tips[x])),
        samples.len() > 0 ==> record_samples(tips, samples).contains_key(recv_label(samples.last().dev))
            && record_samples(tips, samples)[recv_label(samples.last().dev)]
            == samples.last().tooltip,
        samples.len() > 0 ==> record_samples(tips, samples).contains_key(send_label(samples.last().dev)),
    decreases samples.len(),
{
    if samples.len() > 0 {
        law_record_samples_touches_only_their_bars(tips, samples.drop_last(), x);
        if forall|k: int|
            0 <= k < samples.len() ==> x != recv_label((#[trigger] samples[k]).dev) && x
                != send_label(samples[k].dev) {
            assert forall|k: int| 0 <= k < samples.drop_last().len() implies x != recv_label(
                (#[trigger] samples.drop_last()[k]).dev,
            ) && x != send_label(samples.drop_last()[k].dev) by {
                assert(samples.drop_last()[k] == samples[k]);
            }
            assert(samples[samples.len() - 1] == samples.last());
        }
    }
}

/// The network monitor: its bars and the maximum its rates are scaled by.
pub struct Net {
    max_limit: AutoMax,
    labels: Vec<String>,
}

impl Net {
    /// The labels of the bars, in order.
    pub closed spec fn shown(&self) -> Seq<Seq<char>> {
        self.labels.deep_view()
    }

    /// The recent rates of each interface.
    pub closed spec fn windows(&self) -> Map<Seq<char>, Seq<u64>> {
        self.max_limit.windows()
    }

    /// The least maximum rates are scaled by.
    pub closed spec fn floor(&self) -> u64 {
        self.max_limit.floor()
    }

    /// Every window of recent rates holds at most `WINDOW_LEN` values.
    pub closed spec fn windows_bounded(&self) -> bool {
        self.max_limit.windows_bounded()
    }

    /// The monitor configured by `config` on a machine with the network
    /// interfaces `interfaces`. Every pattern of `config.show` must compile.
    pub fn new(config: &ConfigNet, interfaces: &Vec<String>) -> (n: Net)
        requires
            all_compile(config.show.deep_view()),
        ensures
            n.shown() == net_labels(config.show.deep_view(), interfaces.deep_view()),
            n.windows() == Map::<Seq<char>, Seq<u64>>::empty(),
            n.floor() == net_floor(config.floor),
            n.windows_bounded(),
    {
        let patterns = compile_all(&config.show).unwrap();
        let ghost shows = config.show.deep_view();
        let ghost ifaces = interfaces.deep_view();
        let mut labels: Vec<String> = Vec::new();
        let mut i: usize = 0;
        while i < patterns.len()
            invariant
                i <= patterns.len(),
                patterns.len() == shows.len(),
                shows == config.show.deep_view(),
                ifaces == interfaces.deep_view(),
                forall|j: int| 0 <= j < patterns.len() ==> #[trigger] patterns[j].source() == shows[j],
                labels.deep_view() == net_labels(shows.take(i as int), ifaces),
            decreases patterns.len() - i,
        {
            let matched = patterns[i].matching(interfaces);
            let ghost before = labels.deep_view();
            let mut k: usize = 0;
            while k < matched.len()
                invariant
                    k <= matched.len(),
                    labels.deep_view() == before + interface_labels(matched.deep_view().take(k as int)),
                decreases matched.len() - k,
            {
                let ghost mid = labels.deep_view();
                let recv = matched[k].clone().concat("_recv");
                let send = matched[k].clone().concat("_send");
                labels.push(recv);
                labels.push(send);
                proof {
                    let names = matched.deep_view().take(k + 1);
                    assert(names.drop_last() =~= matched.deep_view().take(k as int));
                    assert(names.last() == matched[k as int]@);
                    assert(labels.deep_view() =~= mid + seq![recv@, send@]);
                    assert(before + interface_labels(names) =~= mid + seq![recv@, send@]);
                }
                k = k + 1;
            }
            proof {
                assert(matched.deep_view().take(matched.len() as int) =~= matched.deep_view());
                assert(shows.take(i + 1).drop_last() =~= shows.take(i as int));
                assert(shows.take(i + 1).last() == shows[i as int]);
            }
            i = i + 1;
        }
        assert(shows.take(shows.len() as int) =~= shows);
        Net { max_limit: AutoMax::new(config.floor_or_default()), labels }
    }

    /// The labels of the bars, in order.
    pub fn labels(&self) -> (r: Vec<String>)
        ensures
            r.deep_view() == self.shown(),
    {
        clone_labels(&self.labels)
    }

    /// Every window of recent rates holds at most `WINDOW_LEN` values,
    /// whatever the monitor.
    pub fn windows_are_bounded(&self)
        ensures
            self.windows_bounded(),
    {
        self.max_limit.windows_are_bounded();
    }

    /// One round of the monitor over `traffic`, read `elapsed_secs` whole
    /// seconds after the previous round. Less than a second after it nothing
    /// is done and `None` comes back (the previous round stays the reference
    /// point). Otherwise the rates go into the windows as `net_round` says,
    /// the tooltips of the sampled interfaces are recorded in `measures`,
    /// and the samples come back; their bar values are the caller's to scale.
    pub fn update(
        &mut self,
        measures: &mut Measures,
        elapsed_secs: u64,
        traffic: &Vec<InterfaceTraffic>,
    ) -> (r: Option<Vec<NetSample>>)
        ensures
            final(self).shown() == old(self).shown(),
            final(self).floor() == old(self).floor(),
            old(self).windows_bounded(),
            final(self).windows_bounded(),
            elapsed_secs == 0 ==> {
                &&& r is None
                &&& final(self).windows() == old(self).windows()
                &&& final(measures).tooltips() == old(measures).tooltips()
            },
            elapsed_secs > 0 ==> {
                let (windows, samples) = net_round(
                    old(self).windows(),
                    old(self).floor(),
                    elapsed_secs,
                    traffic.deep_view(),
                );
                &&& r matches Some(v) && v.deep_view() == samples
                &&& final(self).windows() == windows
                &&& final(measures).tooltips() == record_samples(old(measures).tooltips(), samples)
            },
    {
        self.max_limit.windows_are_bounded();
        if elapsed_secs == 0 {
            return None;
        }
        let ghost start = self.windows();
        let ghost tips = measures.tooltips();
        let ghost floor = self.floor();
        let ghost shown = self.shown();
        let ghost readings = traffic.deep_view();
        let mut samples: Vec<NetSample> = Vec::new();
        let mut i: usize = 0;
        while i < traffic.len()
            invariant
                i <= traffic.len(),
                elapsed_secs > 0,
                readings == traffic.deep_view(),
                self.floor() == floor,
                self.shown() == shown,
                self.windows_bounded(),
                (self.windows(), samples.deep_view()) == net_round(
                    start,
                    floor,
                    elapsed_secs,
                    readings.take(i as int),
                ),
                measures.tooltips() == record_samples(tips, samples.deep_view()),
            decreases traffic.len() - i,
        {
            proof {
                assert(readings.take(i + 1).drop_last() =~= readings.take(i as int));
                assert(readings.take(i + 1).last() == traffic[i as int].deep_view());
            }
            let t = &traffic[i];
            let recv = t.received / elapsed_secs;
            let send = t.transmitted / elapsed_secs;
            let m1 = self.max_limit.update(t.name.as_str(), recv);
            let m2 = self.max_limit.update(t.name.as_str(), send);
            let max = if m1 >= m2 {
                m1
            } else {
                m2
            };
            if max != 0 {
                let tooltip = net_tooltip_text(t.name.as_str(), recv, send);
                let send_name = t.name.clone().concat("_send");
                let recv_name = t.name.clone().concat("_recv");
                measures.ensure(send_name.as_str());
                measures.set_tooltip(recv_name.as_str(), tooltip.clone());
                let ghost before = samples.deep_view();
                let sample = NetSample {
                    dev: t.name.clone(),
                    received_per_sec: recv,
                    transmitted_per_sec: send,
                    max,
                    tooltip,
                };
                samples.push(sample);
                proof {
                    assert(samples.deep_view() =~= before.push(sample.deep_view()));
                    assert(samples.deep_view().drop_last() =~= before);
                }
            }
            i = i + 1;
        }
        assert(readings.take(traffic.len() as int) =~= readings);
        Some(samples)
    }
}

/// Writes the tooltip of an interface.
pub fn net_tooltip_text(dev: &str, recv: u64, send: u64) -> (s: String)
    ensures
        s@ == net_tooltip(dev@, recv, send),
{
    let s = String::from_str(dev);
    let s = s.concat(": ");
    let s = s.concat(format_size_decimal(recv).as_str());
    let s = s.concat(" in / ");
    let s = s.concat(format_size_decimal(send).as_str());
    s.concat(" out")
}

} // verus!
