use crate::config::{net_floor, or_empty, Config};
use crate::measure::Measures;
use crate::modules::cpu::{core_labels, cpu_labels, Cpu};
use crate::modules::mem::Mem;
use crate::modules::net::{net_labels, Net};
use crate::modules::temp::{temp_groups, temp_labels, Temp};
use crate::pattern::{all_compile, compile_all};
use crate::widget::WidgetLayout;
use vstd::prelude::*;

verus! {

/// What the machine offers to be monitored, as read from the system.
pub struct SystemInventory {
    /// The number of CPU cores.
    pub cores: usize,
    /// The names of the network interfaces.
    pub interfaces: Vec<String>,
    /// The labels of the temperature sensors.
    pub sensors: Vec<String>,
}

/// Whether every regex of the configuration compiles: those of `net.show`
/// and of `temp.show_max`.
pub open spec fn config_patterns_compile(config: &Config) -> bool {
    &&& config.net matches Some(n) ==> all_compile(n.show.deep_view())
    &&& config.temp matches Some(t) ==> all_compile(or_empty(t.show_max))
}

/// The widgets of a configuration on a machine, each with its label and
/// bars: CPU, memory, network and temperature, those configured, in that
/// order.
pub open spec fn layout(config: &Config, system: &SystemInventory) -> Seq<(Seq<char>, Seq<char>, Seq<Seq<char>>)> {
    let cpu = match config.cpu {
        Some(c) => seq![("cpu"@, c.label@, cpu_labels(c.show.deep_view(), system.cores as nat))],
        None => Seq::empty(),
    };
    let mem = match config.mem {
        Some(m) => seq![("mem"@, m.label@, m.show.deep_view())],
        None => Seq::empty(),
    };
    let net = match config.net {
        Some(n) => seq![
            ("net"@, n.label@, net_labels(n.show.deep_view(), system.interfaces.deep_view())),
        ],
        None => Seq::empty(),
    };
    let temp = match config.temp {
        Some(t) => seq![
            (
                "temp"@,
                t.label@,
                temp_labels(
                    or_empty(t.show),
                    temp_groups(or_empty(t.show_max), system.sensors.deep_view()).len(),
                ),
            ),
        ],
        None => Seq::empty(),
    };
    cpu + mem + net + temp
}

/// Whether `e` is the widget of a configured monitor: its kind, the label
/// configured for that monitor, and that monitor's bars.
pub open spec fn is_configured_widget(
    config: &Config,
    system: &SystemInventory,
    e: (Seq<char>, Seq<char>, Seq<Seq<char>>),
) -> bool {
    ||| config.cpu matches Some(c) && e == (
        "cpu"@,
        c.label@,
        cpu_labels(c.show.deep_view(), system.cores as nat),
    )
    ||| config.mem matches Some(m) && e == ("mem"@, m.label@, m.show.deep_view())
    ||| config.net matches Some(n) && e == (
        "net"@,
        n.label@,
        net_labels(n.show.deep_view(), system.interfaces.deep_view()),
    )
    ||| config.temp matches Some(t) && e == (
        "temp"@,
        t.label@,
        temp_labels(
            or_empty(t.show),
            temp_groups(or_empty(t.show_max), system.sensors.deep_view()).len(),
        ),
    )
}

/// One widget per configured monitor and no other, each carrying the kind,
/// the label configured for its monitor and that monitor's bars; the CPU
/// widget (when configured) comes first and the temperature one last.
pub proof fn law_widgets_carry_configured_labels(config: &Config, system: &SystemInventory)
    ensures
        layout(config, system).len() == (if config.cpu is Some {
            1int
        } else {
            0
        }) + (if config.mem is Some {
            1int
        } else {
            0
        }) + (if config.net is Some {
            1int
        } else {
            0
        }) + (if config.temp is Some {
            1int
        } else {
            0
        }),
        forall|k: int|
            0 <= k < layout(config, system).len() ==> is_configured_widget(
                config,
                system,
                #[trigger] layout(config, system)[k],
            ),
        config.cpu matches Some(c) ==> layout(config, system)[0].1 == c.label@,
        config.mem matches Some(m) ==> exists|k: int|
            0 <= k < layout(config, system).len() && #[trigger] layout(config, system)[k] == (
                "mem"@,
                m.label@,
                m.show.deep_view(),
            ),
        config.net matches Some(n) ==> exists|k: int|
            0 <= k < layout(config, system).len() && (#[trigger] layout(config, system)[k]).1
                == n.label@,
        config.temp matches Some(t) ==> layout(config, system).last().1 == t.label@,
{
    let l = layout(config, system);
    let cpu = match config.cpu {
        Some(c) => seq![("cpu"@, c.label@, cpu_labels(c.show.deep_view(), system.cores as nat))],
        None => Seq::<(Seq<char>, Seq<char>, Seq<Seq<char>>)>::empty(),
    };
    let mem = match config.mem {
        Some(m) => seq![("mem"@, m.label@, m.show.deep_view())],
        None => Seq::<(Seq<char>, Seq<char>, Seq<Seq<char>>)>::empty(),
    };
    let net = match config.net {
        Some(n) => seq![
            ("net"@, n.label@, net_labels(n.show.deep_view(), system.interfaces.deep_view())),
        ],
        None => Seq::<(Seq<char>, Seq<char>, Seq<Seq<char>>)>::empty(),
    };
    let temp = match config.temp {
        Some(t) => seq![
            (
                "temp"@,
                t.label@,
                temp_labels(
                    or_empty(t.show),
                    temp_groups(or_empty(t.show_max), system.sensors.deep_view()).len(),
                ),
            ),
        ],
        None => Seq::<(Seq<char>, Seq<char>, Seq<Seq<char>>)>::empty(),
    };
    assert(l == cpu + mem + net + temp);
    assert forall|k: int| 0 <= k < l.len() implies is_configured_widget(
        config,
        system,
        #[trigger] l[k],
    ) by {
        if k < cpu.len() {
            assert(l[k] == cpu[k]);
        } else if k < cpu.len() + mem.len() {
            assert(l[k] == mem[k - cpu.len()]);
        } else if k < cpu.len() + mem.len() + net.len() {
            assert(l[k] == net[k - cpu.len() - mem.len()]);
        } else {
            assert(l[k] == temp[k - cpu.len() - mem.len() - net.len()]);
        }
    }
    if config.mem is Some {
        assert(l[cpu.len() as int] == mem[0]);
    }
    if config.net is Some {
        assert(l[(cpu.len() + mem.len()) as int] == net[0]);
    }
    if config.temp is Some {
        assert(l.last() == temp[0]);
    }
}

/// The configured monitors, the widgets that show them and the measures
/// they take.
pub struct MeasureCollector {
    pub cpu: Option<Cpu>,
    pub mem: Option<Mem>,
    pub net: Option<Net>,
    pub temp: Option<Temp>,
    pub widgets: Vec<WidgetLayout>,
    pub measures: Measures,
}

impl MeasureCollector {
    /// What `new` builds from `config` on `system`: the widgets of
    /// `layout`, no measure yet, and each configured monitor as its own
    /// constructor makes it.
    pub open spec fn built_from(&self, config: &Config, system: &SystemInventory) -> bool {
        &&& self.widgets.deep_view() == layout(config, system)
        &&& self.measures.tooltips() == Map::<Seq<char>, Seq<char>>::empty()
        &&& self.cpu is Some <==> config.cpu is Some
        &&& self.mem is Some <==> config.mem is Some
        &&& self.net is Some <==> config.net is Some
        &&& self.temp is Some <==> config.temp is Some
        &&& self.cpu matches Some(cpu) ==> {
                &&& cpu.shown() == cpu_labels(config.cpu->0.show.deep_view(), system.cores as nat)
                &&& cpu.cores() == core_labels(system.cores as nat)
            }
        &&& self.mem matches Some(mem) ==> mem.shown() == config.mem->0.show.deep_view()
        &&& self.net matches Some(net) ==> {
                &&& net.shown() == net_labels(
                    config.net->0.show.deep_view(),
                    system.interfaces.deep_view(),
                )
                &&& net.windows() == Map::<Seq<char>, Seq<u64>>::empty()
                &&& net.floor() == net_floor(config.net->0.floor)
                &&& net.windows_bounded()
            }
        &&& self.temp matches Some(temp) ==> {
                &&& temp.groups() == temp_groups(
                    or_empty(config.temp->0.show_max),
                    system.sensors.deep_view(),
                )
                &&& temp.shown() == temp_labels(or_empty(config.temp->0.show), temp.groups().len())
            }
    }

    /// The monitors and widgets that `config` asks for on `system`, with no
    /// measure taken yet. Every regex of the configuration must compile.
    pub fn new(config: &Config, system: &SystemInventory) -> (c: MeasureCollector)
        requires
            config_patterns_compile(config),
        ensures
            c.built_from(config, system),
    {
        let mut widgets: Vec<WidgetLayout> = Vec::new();
        let cpu = match &config.cpu {
            Some(cc) => {
                let m = Cpu::new(cc, system.cores);
                widgets.push(
                    WidgetLayout {
                        kind: String::from_str("cpu"),
                        label: cc.label.clone(),
                        show: m.labels(),
                    },
                );
                Some(m)
            },
            None => None,
        };
        let mem = match &config.mem {
            Some(mc) => {
                let m = Mem::new(mc);
                widgets.push(
                    WidgetLayout {
                        kind: String::from_str("mem"),
                        label: mc.label.clone(),
                        show: m.labels(),
                    },
                );
                Some(m)
            },
            None => None,
        };
        let net = match &config.net {
            Some(nc) => {
                let m = Net::new(nc, &system.interfaces);
                widgets.push(
                    WidgetLayout {
                        kind: String::from_str("net"),
                        label: nc.label.clone(),
                        show: m.labels(),
                    },
                );
                Some(m)
            },
            None => None,
        };
        let temp = match &config.temp {
            Some(tc) => {
                let m = Temp::new(tc, &system.sensors);
                widgets.push(
                    WidgetLayout {
                        kind: String::from_str("temp"),
                        label: tc.label.clone(),
                        show: m.labels(),
                    },
                );
                Some(m)
            },
            None => None,
        };
        assert(widgets.deep_view() =~= layout(config, system));
        MeasureCollector { cpu, mem, net, temp, widgets, measures: Measures::new() }
    }

    /// As `new`, but `None` when a regex of the configuration does not
    /// compile.
    pub fn try_new(config: &Config, system: &SystemInventory) -> (r: Option<MeasureCollector>)
        ensures
            r is Some <==> config_patterns_compile(config),
            r matches Some(c) ==> c.built_from(config, system),
    {
        if let Some(nc) = &config.net {
            if compile_all(&nc.show).is_none() {
                return None;
            }
        }
        if let Some(tc) = &config.temp {
            if let Some(show_max) = &tc.show_max {
                if compile_all(show_max).is_none() {
                    return None;
                }
            }
        }
        assert(config.temp matches Some(t) ==> t.show_max is None ==> or_empty(t.show_max) =~= Seq::<Seq<char>>::empty());
        Some(MeasureCollector::new(config, system))
    }
}

} // verus!
