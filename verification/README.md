# waybar_sysinfo

A waybar module that shows system load as vertical bars: CPU (average,
busiest core, every core), memory and swap, network throughput and
temperatures.

`src/` is the verified library (Verus):

- `config` – the configuration and its defaults;
- `pattern` – regexes over interface and sensor names (the `regex` crate);
- `automax` – the per-interface sliding-window maximum with a floor;
- `modules/` – the bars each monitor shows and the tooltips it writes;
- `measure` – the measures by label, with their tooltips;
- `widget` – widget layout, style classes and tooltip text;
- `collector` – builds every configured monitor and its widget;
- `text` – decimal numbers and `humansize` byte sizes.

`app/` is the plugin around it: deserialising the configuration, reading
the system with `sysinfo`, the floating-point bar values, GTK and the
refresh loop.
