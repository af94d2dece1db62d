use waybar_sysinfo::automax::AutoMax;
use waybar_sysinfo::collector::{MeasureCollector, SystemInventory};
use waybar_sysinfo::config::{
    pause_after_refresh_ms, show_all_after_pause, Config, ConfigCpu, ConfigMem, ConfigNet,
    ConfigTemp, DEFAULT_INTERVAL_MS, DEFAULT_NET_FLOOR, FIRST_PAUSE_MS,
};
use waybar_sysinfo::measure::{Measure, Measures};
use waybar_sysinfo::modules::cpu::{core_label_list, Cpu};
use waybar_sysinfo::modules::mem::{memory_tooltip_text, Mem, MemoryReading};
use waybar_sysinfo::modules::net::{net_tooltip_text, InterfaceTraffic, Net};
use waybar_sysinfo::modules::temp::{dedup_names, Temp};
use waybar_sysinfo::pattern::{compile_all, Pattern};
use waybar_sysinfo::text::{decimal_text, numbered_text};
use waybar_sysinfo::widget::{bar_classes_of, tooltip_text, WidgetLayout};

fn strings(v: &[&str]) -> Vec<String> {
    v.iter().map(|s| s.to_string()).collect()
}

#[test]
fn decimal_text_writes_digits() {
    assert_eq!(decimal_text(0), "0");
    assert_eq!(decimal_text(7), "7");
    assert_eq!(decimal_text(10), "10");
    assert_eq!(decimal_text(1234567890), "1234567890");
    assert_eq!(decimal_text(u64::MAX), "18446744073709551615");
}

#[test]
fn numbered_text_appends_number() {
    assert_eq!(numbered_text("cpu_core_", 12), "cpu_core_12");
    assert_eq!(numbered_text("", 3), "3");
}

#[test]
fn automax_returns_floor_until_exceeded() {
    let mut m = AutoMax::new(100);
    assert_eq!(m.update("eth0", 5), 100);
    assert_eq!(m.update("eth0", 250), 250);
    assert_eq!(m.update("eth0", 7), 250);
}

#[test]
fn automax_devices_are_separate() {
    let mut m = AutoMax::new(0);
    assert_eq!(m.update("eth0", 500), 500);
    assert_eq!(m.update("wlan0", 3), 3);
    assert_eq!(m.update("eth0", 1), 500);
}

#[test]
fn automax_forgets_after_ten_values() {
    let mut m = AutoMax::new(1);
    assert_eq!(m.update("eth0", 1000), 1000);
    for _ in 0..9 {
        assert_eq!(m.update("eth0", 2), 1000);
    }
    // The eleventh value pushes 1000 out of the window.
    assert_eq!(m.update("eth0", 2), 2);
    m.windows_are_bounded();
}

#[test]
fn automax_result_at_least_value_and_floor() {
    let mut m = AutoMax::new(50);
    for v in [0u64, 10, 60, 40, 1000, 3] {
        let r = m.update("x", v);
        assert!(r >= v && r >= 50);
    }
}

#[test]
fn pattern_compile_and_match() {
    assert!(Pattern::compile("(").is_none());
    let p = Pattern::compile("^eno\\d+$").unwrap();
    assert!(p.is_match("eno1"));
    assert!(!p.is_match("xeno1"));
    let any = Pattern::compile("").unwrap();
    assert!(any.is_match("lo"));
    let names = strings(&["eno1", "wlan0", "eno22", "eno"]);
    assert_eq!(p.matching(&names), strings(&["eno1", "eno22"]));
}

#[test]
fn compile_all_refuses_one_bad_pattern() {
    assert!(compile_all(&strings(&["a", "[", "b"])).is_none());
    assert_eq!(compile_all(&strings(&["a", "b"])).unwrap().len(), 2);
}

#[test]
fn cpu_labels_expand_all_cores() {
    let config = ConfigCpu {
        label: "cpu".to_string(),
        show: strings(&["max_core", "all_cores", "avg_core"]),
    };
    let cpu = Cpu::new(&config, 3);
    assert_eq!(
        cpu.labels(),
        strings(&["max_core", "cpu_core_0", "cpu_core_1", "cpu_core_2", "avg_core"])
    );
    assert_eq!(cpu.core_labels(), &strings(&["cpu_core_0", "cpu_core_1", "cpu_core_2"]));
}

#[test]
fn cpu_labels_without_all_cores_are_show() {
    let config = ConfigCpu { label: "c".to_string(), show: strings(&["avg_core", "max_core"]) };
    assert_eq!(Cpu::new(&config, 8).labels(), strings(&["avg_core", "max_core"]));
    assert_eq!(core_label_list(0), Vec::<String>::new());
}

#[test]
fn memory_tooltips_use_decimal_sizes() {
    assert_eq!(
        memory_tooltip_text("mem", 1500, 999, 2_000_000),
        "mem: 1.50 kB used / 999 B free / 2 MB total"
    );
    let mem = Mem::new(&ConfigMem { label: "m".to_string(), show: strings(&["mem", "swap"]) });
    assert_eq!(mem.labels(), strings(&["mem", "swap"]));
    let mut measures = Measures::new();
    mem.record(
        &mut measures,
        &MemoryReading {
            used_memory: 0,
            free_memory: 1_234_567,
            total_memory: 1_234_567,
            used_swap: 1000,
            free_swap: 0,
            total_swap: 1000,
        },
    );
    assert_eq!(
        measures.get("mem").unwrap().tooltip,
        "mem: 0 B used / 1.23 MB free / 1.23 MB total"
    );
    assert_eq!(measures.get("swap").unwrap().tooltip, "swap: 1 kB used / 0 B free / 1 kB total");
    assert_eq!(measures.get("swap").unwrap().label, "swap");
}

#[test]
fn measures_read_after_write() {
    let mut measures = Measures::new();
    assert!(!measures.contains("a"));
    measures.ensure("a");
    assert_eq!(measures.get("a").unwrap().tooltip, "");
    measures.set_tooltip("a", "hello".to_string());
    measures.ensure("a");
    assert_eq!(measures.get("a").unwrap().tooltip, "hello");
    measures.set_tooltip("b", "x".to_string());
    assert_eq!(measures.get("a").unwrap().tooltip, "hello");
    assert!(measures.get("c").is_none());
    let m = Measure::new("z");
    assert_eq!(m.label, "z");
    assert_eq!(m.tooltip, "");
}

fn net_config(show: &[&str], floor: Option<u64>) -> ConfigNet {
    ConfigNet { label: "net".to_string(), show: strings(show), floor }
}

#[test]
fn net_labels_per_pattern_and_interface() {
    let interfaces = strings(&["eno1", "lo", "wlan0"]);
    let net = Net::new(&net_config(&["^wlan", "^eno"], None), &interfaces);
    assert_eq!(net.labels(), strings(&["wlan0_recv", "wlan0_send", "eno1_recv", "eno1_send"]));
    let all = Net::new(&net_config(&["."], None), &interfaces);
    assert_eq!(all.labels().len(), 6);
}

#[test]
fn net_update_waits_a_second() {
    let mut net = Net::new(&net_config(&["."], Some(10)), &strings(&["eth0"]));
    let mut measures = Measures::new();
    let traffic =
        vec![InterfaceTraffic { name: "eth0".to_string(), received: 100, transmitted: 50 }];
    assert!(net.update(&mut measures, 0, &traffic).is_none());
    assert!(!measures.contains("eth0_recv"));
}

#[test]
fn net_update_rates_scale_and_tooltips() {
    let mut net = Net::new(&net_config(&["."], Some(10)), &strings(&["eth0", "eth1"]));
    let mut measures = Measures::new();
    let traffic = vec![
        InterfaceTraffic { name: "eth0".to_string(), received: 3000, transmitted: 500 },
        InterfaceTraffic { name: "eth1".to_string(), received: 4, transmitted: 2 },
    ];
    let samples = net.update(&mut measures, 2, &traffic).unwrap();
    assert_eq!(samples.len(), 2);
    assert_eq!(samples[0].dev, "eth0");
    assert_eq!(samples[0].received_per_sec, 1500);
    assert_eq!(samples[0].transmitted_per_sec, 250);
    assert_eq!(samples[0].max, 1500);
    assert_eq!(samples[0].tooltip, "eth0: 1.50 kB in / 250 B out");
    assert_eq!(samples[1].max, 10);
    assert_eq!(measures.get("eth0_recv").unwrap().tooltip, "eth0: 1.50 kB in / 250 B out");
    assert_eq!(measures.get("eth0_send").unwrap().tooltip, "");
    assert_eq!(measures.get("eth1_recv").unwrap().tooltip, "eth1: 2 B in / 1 B out");
}

#[test]
fn net_zero_scale_gives_no_sample() {
    let mut net = Net::new(&net_config(&["."], Some(0)), &strings(&["eth0"]));
    let mut measures = Measures::new();
    let traffic = vec![InterfaceTraffic { name: "eth0".to_string(), received: 0, transmitted: 0 }];
    assert_eq!(net.update(&mut measures, 1, &traffic).unwrap().len(), 0);
    assert!(!measures.contains("eth0_recv"));
}

#[test]
fn net_default_floor() {
    assert_eq!(DEFAULT_NET_FLOOR, 2097152);
    assert_eq!(DEFAULT_INTERVAL_MS, 5000);
    assert_eq!(net_config(&[], None).floor_or_default(), 2097152);
    assert_eq!(net_config(&[], Some(3)).floor_or_default(), 3);
    let mut net = Net::new(&net_config(&["."], None), &strings(&["eth0"]));
    let mut measures = Measures::new();
    let traffic = vec![InterfaceTraffic { name: "eth0".to_string(), received: 10, transmitted: 0 }];
    assert_eq!(net.update(&mut measures, 1, &traffic).unwrap()[0].max, 2097152);
    assert_eq!(net_tooltip_text("a", 0, 1000), "a: 0 B in / 1 kB out");
}

#[test]
fn temp_groups_and_labels() {
    let sensors = strings(&["Core 0", "Core 1", "acpitz", "Core 0"]);
    let config = ConfigTemp {
        label: "temp".to_string(),
        show: Some(strings(&["acpitz", "acpitz"])),
        show_max: Some(strings(&["^Core \\d+$", "^nvme", "acpi"])),
    };
    let temp = Temp::new(&config, &sensors);
    assert_eq!(
        temp.max_groups(),
        &vec![strings(&["Core 0", "Core 1"]), strings(&["acpitz"])]
    );
    assert_eq!(temp.labels(), strings(&["acpitz", "temp_max_0", "temp_max_1"]));
    assert!(temp.shows("temp_max_1"));
    assert!(!temp.shows("temp_max_2"));
    assert!(!temp.shows("Core 0"));
}

#[test]
fn temp_absent_lists_are_empty() {
    let config = ConfigTemp { label: "t".to_string(), show: None, show_max: None };
    let temp = Temp::new(&config, &strings(&["a"]));
    assert!(temp.labels().is_empty());
    assert!(temp.max_groups().is_empty());
    assert_eq!(dedup_names(&strings(&["a", "b", "a"])), strings(&["a", "b"]));
}

#[test]
fn widget_tooltip_joins_shown_tooltips() {
    let mut measures = Measures::new();
    measures.set_tooltip("a", "first".to_string());
    measures.ensure("b");
    measures.set_tooltip("c", "third".to_string());
    measures.set_tooltip("hidden", "never".to_string());
    let show = strings(&["c", "b", "missing", "a"]);
    assert_eq!(tooltip_text(&show, &measures), "third\nfirst");
    assert_eq!(tooltip_text(&strings(&["b"]), &measures), "");
    assert_eq!(tooltip_text(&Vec::new(), &measures), "");
}

#[test]
fn widget_and_bar_classes() {
    let w = WidgetLayout {
        kind: "cpu".to_string(),
        label: "my-label".to_string(),
        show: strings(&["avg_core"]),
    };
    assert_eq!(w.classes(), strings(&["sysinfo-module", "cpu", "my-label"]));
    assert_eq!(bar_classes_of("avg_core", 0), strings(&["avg_core", "sysinfo-bar"]));
    assert_eq!(bar_classes_of("x", 9), strings(&["x", "sysinfo-bar"]));
    assert_eq!(bar_classes_of("x", 25), strings(&["x", "sysinfo-bar", "gte-10", "gte-20"]));
    assert_eq!(bar_classes_of("x", 100).len(), 11);
    assert_eq!(bar_classes_of("x", 100)[10], "gte-90");
}

fn full_config() -> Config {
    Config {
        interval_ms: 2000,
        cpu: Some(ConfigCpu { label: "C".to_string(), show: strings(&["all_cores"]) }),
        mem: None,
        net: Some(net_config(&["^e"], None)),
        temp: Some(ConfigTemp {
            label: "T".to_string(),
            show: None,
            show_max: Some(strings(&["Core"])),
        }),
    }
}

#[test]
fn collector_lays_out_configured_monitors() {
    let system = SystemInventory {
        cores: 2,
        interfaces: strings(&["eth0", "lo"]),
        sensors: strings(&["Core 0", "Core 1"]),
    };
    let c = MeasureCollector::try_new(&full_config(), &system).unwrap();
    assert_eq!(c.widgets.len(), 3);
    assert_eq!(c.widgets[0].kind, "cpu");
    assert_eq!(c.widgets[0].label, "C");
    assert_eq!(c.widgets[0].show, strings(&["cpu_core_0", "cpu_core_1"]));
    assert_eq!(c.widgets[1].kind, "net");
    assert_eq!(c.widgets[1].show, strings(&["eth0_recv", "eth0_send"]));
    assert_eq!(c.widgets[2].kind, "temp");
    assert_eq!(c.widgets[2].show, strings(&["temp_max_0"]));
    assert!(c.mem.is_none());
    assert!(!c.measures.contains("cpu_core_0"));
}

#[test]
fn collector_refuses_bad_regex() {
    let system = SystemInventory { cores: 1, interfaces: vec![], sensors: vec![] };
    let mut config = full_config();
    config.net = Some(net_config(&["("], None));
    assert!(MeasureCollector::try_new(&config, &system).is_none());
    let mut config = full_config();
    config.temp =
        Some(ConfigTemp { label: "t".to_string(), show: None, show_max: Some(strings(&["["])) });
    assert!(MeasureCollector::try_new(&config, &system).is_none());
}

#[test]
fn default_labels() {
    assert_eq!(ConfigCpu::default_label(), "cpu");
    assert_eq!(ConfigMem::default_label(), "mem");
    assert_eq!(ConfigNet::default_label(), "net");
    assert_eq!(ConfigTemp::default_label(), "temp");
}

#[test]
fn refresh_schedule() {
    let config = full_config();
    assert_eq!(FIRST_PAUSE_MS, 1100);
    assert_eq!(pause_after_refresh_ms(&config, 1), 1100);
    assert_eq!(pause_after_refresh_ms(&config, 2), 2000);
    assert_eq!(pause_after_refresh_ms(&config, 50), 2000);
    assert!(!show_all_after_pause(1));
    assert!(show_all_after_pause(2));
}

#[test]
fn net_scale_is_peak_of_recent_rates() {
    let mut net = Net::new(&net_config(&["."], Some(1)), &strings(&["eth0"]));
    let mut measures = Measures::new();
    let reading = |rx: u64, tx: u64| {
        vec![InterfaceTraffic { name: "eth0".to_string(), received: rx, transmitted: tx }]
    };
    assert_eq!(net.update(&mut measures, 1, &reading(0, 1000)).unwrap()[0].max, 1000);
    for _ in 0..4 {
        assert_eq!(net.update(&mut measures, 1, &reading(0, 0)).unwrap()[0].max, 1000);
    }
    // The transmitted rate of five readings back still counts ...
    assert_eq!(net.update(&mut measures, 1, &reading(0, 0)).unwrap()[0].max, 1000);
    // ... and one reading later it is gone.
    assert_eq!(net.update(&mut measures, 1, &reading(0, 0)).unwrap()[0].max, 1);
}

#[test]
fn temp_bars_and_groups_have_no_repeats() {
    let sensors = strings(&["a1", "a1", "a2"]);
    let config = ConfigTemp {
        label: "t".to_string(),
        show: Some(strings(&["temp_max_0", "x", "x"])),
        show_max: Some(strings(&["^a"])),
    };
    let temp = Temp::new(&config, &sensors);
    assert_eq!(temp.labels(), strings(&["temp_max_0", "x"]));
    assert_eq!(temp.max_groups(), &vec![strings(&["a1", "a2"])]);
}
