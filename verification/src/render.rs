//! Building one frame from a snapshot: the renderer derives every display
//! value — layout regions, gauge fills and labels, the ranked process
//! table, and both text panels — as a pure function of the snapshot, the
//! terminal area, and the interaction state. Painting the plan is the
//! drawing surface's job.

use vstd::prelude::*;

verus! {

use crate::format::gib_label;
use crate::format::percent_label;
use crate::format::spec_dec;
use crate::format::spec_gib_label;
use crate::format::spec_percent_label;
use crate::format::u64_to_string;
use crate::layout::Region;
use crate::layout::Regions;
use crate::layout::compute_layout;
use crate::layout::spec_layout;
use crate::layout::valid_area;
use crate::percent::cpu_fill;
use crate::percent::cpu_label_value;
use crate::percent::mem_percent;
use crate::percent::proc_percent;
use crate::percent::spec_cpu_fill;
use crate::percent::spec_cpu_label;
use crate::percent::spec_mem_percent;
use crate::percent::spec_proc_percent;
use crate::rank::rank_top;
use crate::rank::sort_desc;
use crate::rank::top_len;
use crate::snapshot::Snapshot;
use crate::state::App;

/// A percentage gauge: a bordered title, a fill amount in whole percent,
/// and a text label shown over the bar.
pub struct GaugeView {
    pub title: String,
    pub fill: u16,
    pub label: String,
}

/// One data row of the process table, with its banding flag (the
/// alternating background starts on the first data row; it is purely
/// cosmetic and tied to the row position, not to the data).
pub struct RowView {
    pub name: String,
    pub memory_label: String,
    pub banded: bool,
}

/// One labelled line of a text panel: a heading and its value.
pub struct LineView {
    pub heading: String,
    pub value: String,
}

/// Everything one frame paints, fully derived from its inputs.
pub struct FramePlan {
    pub regions: Regions,
    pub memory_gauge: GaugeView,
    pub cpu_gauge: GaugeView,
    pub table_title: String,
    pub header_name: String,
    pub header_memory: String,
    pub rows: Vec<RowView>,
    pub system_title: String,
    pub system_lines: Vec<LineView>,
    pub specs_title: String,
    pub specs_lines: Vec<LineView>,
}

impl App {
    /// Derive the full frame plan for one cycle. Pure in its inputs; the
    /// snapshot is consumed, matching its one-cycle lifetime. The
    /// interaction state is accepted for parity with the draw call but no
    /// painted value depends on it yet (the selected pane is scaffolding).
    pub fn render(&self, snapshot: Snapshot, area: Region) -> (plan: FramePlan)
        requires
            snapshot.wf(),
            valid_area(area),
        ensures
            plan.regions == spec_layout(area),
            plan.memory_gauge.title@ == "Used Memory"@,
            plan.memory_gauge.fill == spec_mem_percent(
                snapshot.used_memory as int,
                snapshot.total_memory as int,
            ),
            plan.memory_gauge.fill <= 100,
            plan.memory_gauge.label@ == spec_percent_label(
                spec_mem_percent(snapshot.used_memory as int, snapshot.total_memory as int) as nat,
            ),
            plan.cpu_gauge.title@ == "CPU Usage"@,
            plan.cpu_gauge.fill == spec_cpu_fill(snapshot.cpu_centi_percent as int),
            plan.cpu_gauge.fill <= 100,
            plan.cpu_gauge.label@ == spec_percent_label(
                spec_cpu_label(snapshot.cpu_centi_percent as int) as nat,
            ),
            plan.table_title@ == "Processes"@,
            plan.header_name@ == "Name"@,
            plan.header_memory@ == "Memory Usage"@,
            plan.rows@.len() == top_len(snapshot.processes@.len() as int),
            forall|i: int|
                0 <= i < plan.rows@.len() ==> (#[trigger] plan.rows@[i]).name == sort_desc(
                    snapshot.processes@,
                )[i].name,
            forall|i: int|
                0 <= i < plan.rows@.len() ==> (#[trigger] plan.rows@[i]).memory_label@
                    == spec_percent_label(
                    spec_proc_percent(
                        sort_desc(snapshot.processes@)[i].memory as int,
                        snapshot.total_memory as int,
                    ) as nat,
                ),
            forall|i: int|
                0 <= i < plan.rows@.len() ==> (#[trigger] plan.rows@[i]).banded == (i % 2 == 0),
            plan.system_title@ == "System Information"@,
            plan.system_lines@.len() == 4,
            plan.system_lines@[0].heading@ == "System Name: "@,
            plan.system_lines@[0].value == snapshot.os_name,
            plan.system_lines@[1].heading@ == "Host Name: "@,
            plan.system_lines@[1].value == snapshot.host_name,
            plan.system_lines@[2].heading@ == "OS Version: "@,
            plan.system_lines@[2].value == snapshot.os_version,
            plan.system_lines@[3].heading@ == "Kernel Version: "@,
            plan.system_lines@[3].value == snapshot.kernel_version,
            plan.specs_title@ == "Specs"@,
            plan.specs_lines@.len() == 2,
            plan.specs_lines@[0].heading@ == "Core Count: "@,
            plan.specs_lines@[0].value@ == spec_dec(snapshot.core_count as nat),
            plan.specs_lines@[1].heading@ == "Total RAM: "@,
            plan.specs_lines@[1].value@ == spec_gib_label(snapshot.total_memory as int),
    {
        let Snapshot {
            os_name,
            host_name,
            os_version,
            kernel_version,
            core_count,
            total_memory,
            used_memory,
            cpu_centi_percent,
            processes,
        } = snapshot;

        let regions = compute_layout(area);

        let mp = mem_percent(used_memory, total_memory);
        let memory_gauge = GaugeView {
            title: "Used Memory".to_owned(),
            fill: mp,
            label: percent_label(mp as u64),
        };

        let cf = cpu_fill(cpu_centi_percent);
        let cl = cpu_label_value(cpu_centi_percent);
        let cpu_gauge = GaugeView {
            title: "CPU Usage".to_owned(),
            fill: cf,
            label: percent_label(cl as u64),
        };

        let ghost procs0 = processes@;
        let ranked = rank_top(processes);
        let ghost rseq = ranked@;
        let mut rest = ranked;
        let mut rows: Vec<RowView> = Vec::new();
        proof {
            assert(rest@ =~= rseq.skip(0));
        }
        while rest.len() > 0
            invariant
                rows@.len() + rest@.len() == rseq.len(),
                rest@ == rseq.skip(rows@.len() as int),
                forall|i: int|
                    0 <= i < rows@.len() ==> (#[trigger] rows@[i]).name == rseq[i].name,
                forall|i: int|
                    0 <= i < rows@.len() ==> (#[trigger] rows@[i]).memory_label@
                        == spec_percent_label(
                        spec_proc_percent(rseq[i].memory as int, total_memory as int) as nat,
                    ),
                forall|i: int|
                    0 <= i < rows@.len() ==> (#[trigger] rows@[i]).banded == (i % 2 == 0),
            decreases rest@.len(),
        {
            let ghost k = rows@.len() as int;
            let p = rest.remove(0);
            proof {
                assert(p == rseq.skip(k)[0]);
                assert(p == rseq[k]);
                assert(rseq.skip(k).remove(0) =~= rseq.skip(k + 1));
            }
            let pct = proc_percent(p.memory, total_memory);
            let banded = rows.len() % 2 == 0;
            rows.push(RowView { name: p.name, memory_label: percent_label(pct), banded });
        }

        proof {
            crate::rank::lemma_sort_desc_len(procs0);
            assert forall|i: int| 0 <= i < rseq.len() implies rseq[i] == sort_desc(procs0)[i] by {
                assert(rseq[i] == sort_desc(procs0).take(top_len(procs0.len() as int))[i]);
            }
        }

        let mut system_lines: Vec<LineView> = Vec::new();
        system_lines.push(LineView { heading: "System Name: ".to_owned(), value: os_name });
        system_lines.push(LineView { heading: "Host Name: ".to_owned(), value: host_name });
        system_lines.push(LineView { heading: "OS Version: ".to_owned(), value: os_version });
        system_lines.push(
            LineView { heading: "Kernel Version: ".to_owned(), value: kernel_version },
        );

        let mut specs_lines: Vec<LineView> = Vec::new();
        specs_lines.push(
            LineView { heading: "Core Count: ".to_owned(), value: u64_to_string(core_count) },
        );
        specs_lines.push(
            LineView { heading: "Total RAM: ".to_owned(), value: gib_label(total_memory) },
        );

        FramePlan {
            regions,
            memory_gauge,
            cpu_gauge,
            table_title: "Processes".to_owned(),
            header_name: "Name".to_owned(),
            header_memory: "Memory Usage".to_owned(),
            rows,
            system_title: "System Information".to_owned(),
            system_lines,
            specs_title: "Specs".to_owned(),
            specs_lines,
        }
    }
}

} // verus!
