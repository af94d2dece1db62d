use crate::config::ConfigMem;
use crate::measure::Measures;
use crate::modules::cpu::clone_labels;
use crate::text::{format_size_decimal, human_size};
use vstd::prelude::*;

verus! {

/// Byte counts of memory and swap, as read from the system.
pub struct MemoryReading {
    pub used_memory: u64,
    pub free_memory: u64,
    pub total_memory: u64,
    pub used_swap: u64,
    pub free_swap: u64,
    pub total_swap: u64,
}

/// The tooltip of a memory measure: `kind: U used / F free / T total`, each
/// size written by `humansize` in decimal units.
pub open spec fn memory_tooltip(kind: Seq<char>, used: u64, free: u64, total: u64) -> Seq<char> {
    kind + ": "@ + human_size(used) + " used / "@ + human_size(free) + " free / "@ + human_size(
        total,
    ) + " total"@
}

/// Each size of a memory tooltip stands in its own place, whatever the
/// sizes: the kind, then the used size before " used / ", the free size
/// before " free / " and the total size before " total".
pub proof fn law_memory_tooltip_places_sizes(kind: Seq<char>, used: u64, free: u64, total: u64)
    ensures
        ({
            let text = memory_tooltip(kind, used, free, total);
            let a = kind + ": "@;
            let b = a + human_size(used) + " used / "@;
            let c = b + human_size(free) + " free / "@;
            &&& text.len() == c.len() + human_size(total).len() + " total"@.len()
            &&& text.subrange(0, a.len() as int) == a
            &&& text.subrange(a.len() as int, (a.len() + human_size(used).len()) as int) == human_size(used)
            &&& text.subrange(b.len() as int, (b.len() + human_size(free).len()) as int) == human_size(free)
            &&& text.subrange(c.len() as int, (c.len() + human_size(total).len()) as int) == human_size(
                total,
            )
        }),
{
    let text = memory_tooltip(kind, used, free, total);
    let a = kind + ": "@;
    let b = a + human_size(used) + " used / "@;
    let c = b + human_size(free) + " free / "@;
    assert(text =~= c + human_size(total) + " total"@);
    assert(text.subrange(0, a.len() as int) =~= a);
    assert(text.subrange(a.len() as int, (a.len() + human_size(used).len()) as int) =~= human_size(used));
    assert(text.subrange(b.len() as int, (b.len() + human_size(free).len()) as int) =~= human_size(free));
    assert(text.subrange(c.len() as int, (c.len() + human_size(total).len()) as int) =~= human_size(total));
}

/// Writes the tooltip of a memory measure.
pub fn memory_tooltip_text(kind: &str, used: u64, free: u64, total: u64) -> (s: String)
    ensures
        s@ == memory_tooltip(kind@, used, free, total),
{
    let s = String::from_str(kind);
    let s = s.concat(": ");
    let s = s.concat(format_size_decimal(used).as_str());
    let s = s.concat(" used / ");
    let s = s.concat(format_size_decimal(free).as_str());
    let s = s.concat(" free / ");
    let s = s.concat(format_size_decimal(total).as_str());
    s.concat(" total")
}

/// The memory monitor: the bars it shows (`mem`, `swap`).
pub struct Mem {
    labels: Vec<String>,
}

impl Mem {
    /// The labels of the bars, in order.
    pub closed spec fn shown(&self) -> Seq<Seq<char>> {
        self.labels.deep_view()
    }

    /// The monitor configured by `config`: it shows what `show` names.
    pub fn new(config: &ConfigMem) -> (m: Mem)
        ensures
            m.shown() == config.show.deep_view(),
    {
        Mem { labels: clone_labels(&config.show) }
    }

    /// The labels of the bars, in order.
    pub fn labels(&self) -> (r: Vec<String>)
        ensures
            r.deep_view() == self.shown(),
    {
        clone_labels(&self.labels)
    }

    /// Writes the tooltips of the `mem` and `swap` measures from a reading.
    pub fn record(&self, measures: &mut Measures, reading: &MemoryReading)
        ensures
            final(measures).tooltips() == old(measures).tooltips().insert(
                "mem"@,
                memory_tooltip(
                    "mem"@,
                    reading.used_memory,
                    reading.free_memory,
                    reading.total_memory,
                ),
            ).insert(
                "swap"@,
                memory_tooltip("swap"@, reading.used_swap, reading.free_swap, reading.total_swap),
            ),
    {
        let mem = memory_tooltip_text(
            "mem",
            reading.used_memory,
            reading.free_memory,
            reading.total_memory,
        );
        measures.set_tooltip("mem", mem);
        let swap = memory_tooltip_text(
            "swap",
            reading.used_swap,
            reading.free_swap,
            reading.total_swap,
        );
        measures.set_tooltip("swap", swap);
    }
}

} // verus!
