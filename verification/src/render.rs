//! The renderer: a pure function of terminal size and snapshot to a
//! sequence of draw operations. A draw operation names a panel, its
//! rectangle and its computed text lines, or places a one-row usage
//! gauge; fixed chrome text, styling and the art asset are left to the
//! terminal layer that consumes the operations.

use vstd::prelude::*;
use crate::format::dec_digits;
use crate::format::decimal_string;
use crate::format::format_bytes;
use crate::format::spec_format_bytes;
use crate::layout::LayoutMode;
use crate::layout::Rect;
use crate::layout::SizeRule;
use crate::layout::layout_mode;
use crate::layout::rules_wf;
use crate::layout::spec_chunk;
use crate::layout::spec_layout_mode;
use crate::layout::split;
use crate::snapshot::SystemInfo;

verus! {

/// The panel a draw operation belongs to.
#[derive(Clone, Copy, Debug, PartialEq, Eq, Structural)]
pub enum PanelKind {
    /// The top title band of the full layout.
    Title,
    /// The ASCII-art panel; its text asset is supplied by the consumer.
    Art,
    /// The system-information panel.
    System,
    /// The border around the five hardware sub-panels.
    HardwareFrame,
    Cpu,
    Memory,
    Gpu,
    Network,
    Disk,
    /// The bottom help band of the full layout.
    Help,
    /// The single unstyled title line of the compact layout.
    CompactTitle,
    /// The consolidated info panel of the compact layout.
    CompactInfo,
    /// The single unstyled help line of the compact layout.
    CompactHelp,
}

/// One drawing instruction of a frame.
#[derive(Debug, Clone)]
pub enum DrawOp {
    /// A panel at `area` holding the given text lines.
    Panel { kind: PanelKind, area: Rect, lines: Vec<String> },
    /// A proportional usage bar filling `area`.
    Gauge { area: Rect, percent: u16 },
}

/// The mathematical content of a draw operation.
#[verifier::ext_equal]
pub ghost enum OpView {
    Panel { kind: PanelKind, area: Rect, lines: Seq<Seq<char>> },
    Gauge { area: Rect, percent: u16 },
}

impl View for DrawOp {
    type V = OpView;

    open spec fn view(&self) -> OpView {
        match self {
            DrawOp::Panel { kind, area, lines } => OpView::Panel {
                kind: *kind,
                area: *area,
                lines: lines@.map_values(|l: String| l@),
            },
            DrawOp::Gauge { area, percent } => OpView::Gauge { area: *area, percent: *percent },
        }
    }
}

/// The views of a sequence of draw operations.
pub open spec fn ops_view(s: Seq<DrawOp>) -> Seq<OpView> {
    s.map_values(|op: DrawOp| op@)
}

/// The usage percentage of a used/total pair: rounded toward zero, zero
/// when the total is zero, and saturated at the display cap.
pub open spec fn spec_percent(used: u64, total: u64) -> int {
    if total == 0 {
        0
    } else if (used * 100) / (total as int) > 65535 {
        65535
    } else {
        (used * 100) / (total as int)
    }
}

/// Law: a zero total yields a zero percentage, never a division error.
pub fn usage_percent(used: u64, total: u64) -> (r: u16)
    ensures
        r as int == spec_percent(used, total),
        total == 0 ==> r == 0,
{
    if total == 0 {
        0
    } else {
        let p: u128 = ((used as u128) * 100) / (total as u128);
        if p > 65535 {
            65535
        } else {
            p as u16
        }
    }
}

/// The text of a usage panel: used and total byte counts with the
/// percentage in use.
pub open spec fn spec_usage_line(used: u64, total: u64) -> Seq<char> {
    spec_format_bytes(used as nat) + " / "@ + spec_format_bytes(total as nat) + " ("@ + dec_digits(
        spec_percent(used, total) as nat,
    ) + "%)"@
}

pub fn usage_line(used: u64, total: u64) -> (r: String)
    ensures
        r@ == spec_usage_line(used, total),
{
    let mut r = format_bytes(used);
    r.append(" / ");
    let t = format_bytes(total);
    r.append(t.as_str());
    r.append(" (");
    let p = usage_percent(used, total);
    let ps = decimal_string(p as u64);
    r.append(ps.as_str());
    r.append("%)");
    proof {
        assert(r@ =~= spec_usage_line(used, total));
    }
    r
}

/// The short used/total text of the compact layout, without percentage.
pub open spec fn spec_short_usage(used: u64, total: u64) -> Seq<char> {
    spec_format_bytes(used as nat) + " / "@ + spec_format_bytes(total as nat)
}

fn short_usage(used: u64, total: u64) -> (r: String)
    ensures
        r@ == spec_short_usage(used, total),
{
    let mut r = format_bytes(used);
    r.append(" / ");
    let t = format_bytes(total);
    r.append(t.as_str());
    proof {
        assert(r@ =~= spec_short_usage(used, total));
    }
    r
}

/// The CPU panel line: model and logical core count.
pub open spec fn spec_cpu_line(info: SystemInfo) -> Seq<char> {
    "CPU: "@ + info.cpu_model@ + " ("@ + dec_digits(info.cpu_cores as nat) + " Cores)"@
}

fn cpu_line(info: &SystemInfo) -> (r: String)
    ensures
        r@ == spec_cpu_line(*info),
{
    let mut r = String::from_str("CPU: ");
    r.append(info.cpu_model.as_str());
    r.append(" (");
    let c = decimal_string(info.cpu_cores as u64);
    r.append(c.as_str());
    r.append(" Cores)");
    proof {
        assert(r@ =~= spec_cpu_line(*info));
    }
    r
}

/// The five text lines of the system-information panel.
pub open spec fn spec_system_lines(info: SystemInfo) -> Seq<Seq<char>> {
    seq![
        "OS: "@ + info.os_name@ + " "@ + info.os_version@,
        "Kernel: "@ + info.kernel_version@,
        "Host: "@ + info.hostname@,
        "User: "@ + info.username@,
        "Uptime: "@ + info.uptime@,
    ]
}

fn system_lines(info: &SystemInfo) -> (r: Vec<String>)
    ensures
        r@.map_values(|l: String| l@) == spec_system_lines(*info),
{
    let mut r: Vec<String> = Vec::new();
    let mut os = String::from_str("OS: ");
    os.append(info.os_name.as_str());
    os.append(" ");
    os.append(info.os_version.as_str());
    r.push(os);
    let mut kernel = String::from_str("Kernel: ");
    kernel.append(info.kernel_version.as_str());
    r.push(kernel);
    let mut host = String::from_str("Host: ");
    host.append(info.hostname.as_str());
    r.push(host);
    let mut user = String::from_str("User: ");
    user.append(info.username.as_str());
    r.push(user);
    let mut up = String::from_str("Uptime: ");
    up.append(info.uptime.as_str());
    r.push(up);
    proof {
        assert(r@.map_values(|l: String| l@) =~= spec_system_lines(*info));
    }
    r
}

/// The five text lines of the compact consolidated panel.
pub open spec fn spec_compact_lines(info: SystemInfo) -> Seq<Seq<char>> {
    seq![
        "OS: "@ + info.os_name@ + " "@ + info.os_version@,
        "Host: "@ + info.hostname@,
        "CPU: "@ + info.cpu_model@,
        "Memory: "@ + spec_short_usage(info.memory_used, info.memory_total),
        "Disk: "@ + spec_short_usage(info.disk_used, info.disk_total),
    ]
}

fn compact_lines(info: &SystemInfo) -> (r: Vec<String>)
    ensures
        r@.map_values(|l: String| l@) == spec_compact_lines(*info),
{
    let mut r: Vec<String> = Vec::new();
    let mut os = String::from_str("OS: ");
    os.append(info.os_name.as_str());
    os.append(" ");
    os.append(info.os_version.as_str());
    r.push(os);
    let mut host = String::from_str("Host: ");
    host.append(info.hostname.as_str());
    r.push(host);
    let mut cpu = String::from_str("CPU: ");
    cpu.append(info.cpu_model.as_str());
    r.push(cpu);
    let mut mem = String::from_str("Memory: ");
    let m = short_usage(info.memory_used, info.memory_total);
    mem.append(m.as_str());
    r.push(mem);
    let mut disk = String::from_str("Disk: ");
    let d = short_usage(info.disk_used, info.disk_total);
    disk.append(d.as_str());
    r.push(disk);
    proof {
        assert(r@.map_values(|l: String| l@) =~= spec_compact_lines(*info));
    }
    r
}

/// The GPU panel line.
pub open spec fn spec_gpu_line(info: SystemInfo) -> Seq<char> {
    "GPU: "@ + info.gpu_info@
}

/// The network panel line.
pub open spec fn spec_ip_line(info: SystemInfo) -> Seq<char> {
    "Local IP: "@ + info.local_ip@
}

fn prefixed_line(prefix: &'static str, value: &String) -> (r: String)
    ensures
        r@ == prefix@ + value@,
{
    let mut r = String::from_str(prefix);
    r.append(value.as_str());
    r
}

/// The operations of a usage panel (memory or disk): a bordered panel
/// with one usage line and, when the panel's interior is at least three
/// rows high, a one-row gauge in the row band below the line. With a
/// lower interior only the text line is drawn: the gauge is omitted.
pub open spec fn spec_usage_panel(kind: PanelKind, area: Rect, used: u64, total: u64) -> Seq<
    OpView,
> {
    let line = spec_usage_line(used, total);
    if area.height >= 5 {
        let interior = area.spec_inner(1);
        let gauge_area = spec_chunk(
            interior,
            true,
            seq![SizeRule::Fixed(1), SizeRule::Remainder(1)],
            1,
        );
        seq![
            OpView::Panel { kind, area, lines: seq![line] },
            OpView::Gauge { area: gauge_area, percent: spec_percent(used, total) as u16 },
        ]
    } else {
        seq![OpView::Panel { kind, area, lines: seq![line] }]
    }
}

/// Law: with interior height at least three (total height at least
/// five), the panel draws its text line and a gauge; below that, the
/// gauge is omitted and only the text line is drawn.
pub fn usage_panel_ops(kind: PanelKind, area: Rect, used: u64, total: u64) -> (r: Vec<DrawOp>)
    requires
        area.wf(),
    ensures
        ops_view(r@) == spec_usage_panel(kind, area, used, total),
        (area.height >= 5) <==> (r@.len() == 2 && r@[1] is Gauge),
        r@.len() >= 1 && r@[0] is Panel,
{
    let line = usage_line(used, total);
    let mut lines: Vec<String> = Vec::new();
    lines.push(line);
    let mut r: Vec<DrawOp> = Vec::new();
    r.push(DrawOp::Panel { kind, area, lines });
    if area.height >= 5 {
        let interior = area.inner(1);
        let mut rules: Vec<SizeRule> = Vec::new();
        rules.push(SizeRule::Fixed(1));
        rules.push(SizeRule::Remainder(1));
        proof {
            assert(rules@ =~= seq![SizeRule::Fixed(1), SizeRule::Remainder(1)]);
            assert(rules_wf(rules@));
        }
        let chunks = split(interior, true, &rules);
        let pct = usage_percent(used, total);
        r.push(DrawOp::Gauge { area: chunks[1], percent: pct });
        proof {
            assert(ops_view(r@) =~~= spec_usage_panel(kind, area, used, total));
        }
    } else {
        proof {
            assert(ops_view(r@) =~~= spec_usage_panel(kind, area, used, total));
        }
    }
    r
}

/// Interior height available inside a bordered region.
pub open spec fn spec_avail_height(area: Rect) -> u16 {
    if area.height >= 2 {
        (area.height - 2) as u16
    } else {
        0
    }
}

/// The sizing rules of the five hardware sub-panels: fixed row budgets
/// when the interior can hold five panels of three rows each,
/// proportional percentages otherwise, shrinking gracefully.
pub open spec fn spec_hardware_rules(avail: u16) -> Seq<SizeRule> {
    if avail >= 15 {
        seq![
            SizeRule::Fixed(4),
            SizeRule::Fixed(4),
            SizeRule::Fixed(3),
            SizeRule::Fixed(3),
            SizeRule::Remainder(3),
        ]
    } else {
        seq![
            SizeRule::Percent(20),
            SizeRule::Percent(25),
            SizeRule::Percent(15),
            SizeRule::Percent(15),
            SizeRule::Percent(25),
        ]
    }
}

/// The operations of the hardware region: CPU, memory, GPU, network and
/// disk sub-panels in that fixed order inside the region's interior,
/// followed by the region's own border.
pub open spec fn spec_hardware_ops(area: Rect, info: SystemInfo) -> Seq<OpView> {
    let rules = spec_hardware_rules(spec_avail_height(area));
    let interior = area.spec_inner(1);
    seq![
        OpView::Panel {
            kind: PanelKind::Cpu,
            area: spec_chunk(interior, true, rules, 0),
            lines: seq![spec_cpu_line(info)],
        },
    ] + spec_usage_panel(
        PanelKind::Memory,
        spec_chunk(interior, true, rules, 1),
        info.memory_used,
        info.memory_total,
    ) + seq![
        OpView::Panel {
            kind: PanelKind::Gpu,
            area: spec_chunk(interior, true, rules, 2),
            lines: seq![spec_gpu_line(info)],
        },
        OpView::Panel {
            kind: PanelKind::Network,
            area: spec_chunk(interior, true, rules, 3),
            lines: seq![spec_ip_line(info)],
        },
    ] + spec_usage_panel(
        PanelKind::Disk,
        spec_chunk(interior, true, rules, 4),
        info.disk_used,
        info.disk_total,
    ) + seq![
        OpView::Panel { kind: PanelKind::HardwareFrame, area, lines: Seq::<Seq<char>>::empty() },
    ]
}

/// Builds the hardware region's operations.
pub fn hardware_ops(area: Rect, info: &SystemInfo) -> (r: Vec<DrawOp>)
    requires
        area.wf(),
    ensures
        ops_view(r@) == spec_hardware_ops(area, *info),
{
    let avail: u16 = if area.height >= 2 {
        area.height - 2
    } else {
        0
    };
    let mut rules: Vec<SizeRule> = Vec::new();
    if avail >= 15 {
        rules.push(SizeRule::Fixed(4));
        rules.push(SizeRule::Fixed(4));
        rules.push(SizeRule::Fixed(3));
        rules.push(SizeRule::Fixed(3));
        rules.push(SizeRule::Remainder(3));
    } else {
        rules.push(SizeRule::Percent(20));
        rules.push(SizeRule::Percent(25));
        rules.push(SizeRule::Percent(15));
        rules.push(SizeRule::Percent(15));
        rules.push(SizeRule::Percent(25));
    }
    proof {
        assert(rules@ =~= spec_hardware_rules(spec_avail_height(area)));
        assert(rules_wf(rules@));
    }
    let interior = area.inner(1);
    let chunks = split(interior, true, &rules);
    let mut r: Vec<DrawOp> = Vec::new();
    let mut cpu_lines: Vec<String> = Vec::new();
    cpu_lines.push(cpu_line(info));
    r.push(DrawOp::Panel { kind: PanelKind::Cpu, area: chunks[0], lines: cpu_lines });
    let mut mem = usage_panel_ops(PanelKind::Memory, chunks[1], info.memory_used, info.memory_total);
    let ghost mem_ops = mem@;
    r.append(&mut mem);
    let mut gpu_lines: Vec<String> = Vec::new();
    gpu_lines.push(prefixed_line("GPU: ", &info.gpu_info));
    r.push(DrawOp::Panel { kind: PanelKind::Gpu, area: chunks[2], lines: gpu_lines });
    let mut ip_lines: Vec<String> = Vec::new();
    ip_lines.push(prefixed_line("Local IP: ", &info.local_ip));
    r.push(DrawOp::Panel { kind: PanelKind::Network, area: chunks[3], lines: ip_lines });
    let mut disk = usage_panel_ops(PanelKind::Disk, chunks[4], info.disk_used, info.disk_total);
    let ghost disk_ops = disk@;
    r.append(&mut disk);
    let frame_lines: Vec<String> = Vec::new();
    r.push(DrawOp::Panel { kind: PanelKind::HardwareFrame, area, lines: frame_lines });
    proof {
        assert(ops_view(r@) =~~= spec_hardware_ops(area, *info));
    }
    r
}

/// The operations of the body of a full (non-compact) frame: the art
/// panel, the system-information panel, then the hardware region. The
/// narrow strategy stacks them vertically with a fixed 8-row art band;
/// the wide strategy puts the art on the left 40% of the width and
/// stacks system over hardware 30%/70% on the right.
pub open spec fn spec_body_ops(mode: LayoutMode, body: Rect, info: SystemInfo) -> Seq<OpView> {
    if mode is Narrow {
        let rules = seq![SizeRule::Fixed(8), SizeRule::Remainder(0)];
        let art = spec_chunk(body, true, rules, 0);
        let rest = spec_chunk(body, true, rules, 1);
        let sys = spec_chunk(rest, true, rules, 0);
        let hw = spec_chunk(rest, true, rules, 1);
        seq![
            OpView::Panel { kind: PanelKind::Art, area: art, lines: Seq::<Seq<char>>::empty() },
            OpView::Panel { kind: PanelKind::System, area: sys, lines: spec_system_lines(info) },
        ] + spec_hardware_ops(hw, info)
    } else {
        let rules = seq![SizeRule::Percent(40), SizeRule::Percent(60)];
        let art = spec_chunk(body, false, rules, 0);
        let right = spec_chunk(body, false, rules, 1);
        let rules2 = seq![SizeRule::Percent(30), SizeRule::Percent(70)];
        let sys = spec_chunk(right, true, rules2, 0);
        let hw = spec_chunk(right, true, rules2, 1);
        seq![
            OpView::Panel { kind: PanelKind::Art, area: art, lines: Seq::<Seq<char>>::empty() },
            OpView::Panel { kind: PanelKind::System, area: sys, lines: spec_system_lines(info) },
        ] + spec_hardware_ops(hw, info)
    }
}

fn body_ops(mode: LayoutMode, body: Rect, info: &SystemInfo) -> (r: Vec<DrawOp>)
    requires
        body.wf(),
        !(mode is Compact),
    ensures
        ops_view(r@) == spec_body_ops(mode, body, *info),
{
    let mut r: Vec<DrawOp> = Vec::new();
    let art_area: Rect;
    let sys_area: Rect;
    let hw_area: Rect;
    match mode {
        LayoutMode::Narrow => {
            let mut rules: Vec<SizeRule> = Vec::new();
            rules.push(SizeRule::Fixed(8));
            rules.push(SizeRule::Remainder(0));
            proof {
                assert(rules@ =~= seq![SizeRule::Fixed(8), SizeRule::Remainder(0)]);
                assert(rules_wf(rules@));
            }
            let chunks = split(body, true, &rules);
            let rest = chunks[1];
            let inner_chunks = split(rest, true, &rules);
            art_area = chunks[0];
            sys_area = inner_chunks[0];
            hw_area = inner_chunks[1];
        },
        _ => {
            let mut rules: Vec<SizeRule> = Vec::new();
            rules.push(SizeRule::Percent(40));
            rules.push(SizeRule::Percent(60));
            proof {
                assert(rules@ =~= seq![SizeRule::Percent(40), SizeRule::Percent(60)]);
                assert(rules_wf(rules@));
            }
            let chunks = split(body, false, &rules);
            let right = chunks[1];
            let mut rules2: Vec<SizeRule> = Vec::new();
            rules2.push(SizeRule::Percent(30));
            rules2.push(SizeRule::Percent(70));
            proof {
                assert(rules2@ =~= seq![SizeRule::Percent(30), SizeRule::Percent(70)]);
                assert(rules_wf(rules2@));
            }
            let right_chunks = split(right, true, &rules2);
            art_area = chunks[0];
            sys_area = right_chunks[0];
            hw_area = right_chunks[1];
        },
    }
    let art_lines: Vec<String> = Vec::new();
    r.push(DrawOp::Panel { kind: PanelKind::Art, area: art_area, lines: art_lines });
    r.push(DrawOp::Panel { kind: PanelKind::System, area: sys_area, lines: system_lines(info) });
    let mut hw = hardware_ops(hw_area, info);
    r.append(&mut hw);
    proof {
        assert(ops_view(r@) =~~= spec_body_ops(mode, body, *info));
    }
    r
}

/// One frame of the dashboard: every draw operation, in drawing order,
/// for a terminal of the given size showing the given snapshot. Compact
/// mode draws a bare title line, the consolidated info panel and a bare
/// help line; the full modes draw the bordered title band, the body and
/// the bordered help band.
pub open spec fn spec_render(width: u16, height: u16, info: SystemInfo) -> Seq<OpView> {
    let screen = Rect { x: 0, y: 0, width: width, height: height };
    let outer = screen.spec_inner(1);
    if spec_layout_mode(width, height) is Compact {
        let rules = seq![SizeRule::Fixed(1), SizeRule::Remainder(0), SizeRule::Fixed(1)];
        seq![
            OpView::Panel {
                kind: PanelKind::CompactTitle,
                area: spec_chunk(outer, true, rules, 0),
                lines: Seq::<Seq<char>>::empty(),
            },
            OpView::Panel {
                kind: PanelKind::CompactInfo,
                area: spec_chunk(outer, true, rules, 1),
                lines: spec_compact_lines(info),
            },
            OpView::Panel {
                kind: PanelKind::CompactHelp,
                area: spec_chunk(outer, true, rules, 2),
                lines: Seq::<Seq<char>>::empty(),
            },
        ]
    } else {
        let rules = seq![SizeRule::Fixed(3), SizeRule::Remainder(0), SizeRule::Fixed(3)];
        seq![
            OpView::Panel {
                kind: PanelKind::Title,
                area: spec_chunk(outer, true, rules, 0),
                lines: Seq::<Seq<char>>::empty(),
            },
        ] + spec_body_ops(
            spec_layout_mode(width, height),
            spec_chunk(outer, true, rules, 1),
            info,
        ) + seq![
            OpView::Panel {
                kind: PanelKind::Help,
                area: spec_chunk(outer, true, rules, 2),
                lines: Seq::<Seq<char>>::empty(),
            },
        ]
    }
}

/// Renders one frame.
pub fn render(width: u16, height: u16, info: &SystemInfo) -> (r: Vec<DrawOp>)
    ensures
        ops_view(r@) == spec_render(width, height, *info),
{
    let screen = Rect { x: 0, y: 0, width, height };
    let mode = layout_mode(width, height);
    let outer = screen.inner(1);
    let mut r: Vec<DrawOp> = Vec::new();
    match mode {
        LayoutMode::Compact => {
            let mut rules: Vec<SizeRule> = Vec::new();
            rules.push(SizeRule::Fixed(1));
            rules.push(SizeRule::Remainder(0));
            rules.push(SizeRule::Fixed(1));
            proof {
                assert(rules@ =~= seq![
                    SizeRule::Fixed(1),
                    SizeRule::Remainder(0),
                    SizeRule::Fixed(1),
                ]);
                assert(rules_wf(rules@));
            }
            let chunks = split(outer, true, &rules);
            let title_lines: Vec<String> = Vec::new();
            r.push(DrawOp::Panel { kind: PanelKind::CompactTitle, area: chunks[0], lines: title_lines });
            r.push(DrawOp::Panel { kind: PanelKind::CompactInfo, area: chunks[1], lines: compact_lines(info) });
            let help_lines: Vec<String> = Vec::new();
            r.push(DrawOp::Panel { kind: PanelKind::CompactHelp, area: chunks[2], lines: help_lines });
            proof {
                assert(ops_view(r@) =~~= spec_render(width, height, *info));
            }
        },
        _ => {
            let mut rules: Vec<SizeRule> = Vec::new();
            rules.push(SizeRule::Fixed(3));
            rules.push(SizeRule::Remainder(0));
            rules.push(SizeRule::Fixed(3));
            proof {
                assert(rules@ =~= seq![
                    SizeRule::Fixed(3),
                    SizeRule::Remainder(0),
                    SizeRule::Fixed(3),
                ]);
                assert(rules_wf(rules@));
            }
            let chunks = split(outer, true, &rules);
            let title_lines: Vec<String> = Vec::new();
            r.push(DrawOp::Panel { kind: PanelKind::Title, area: chunks[0], lines: title_lines });
            let mut body = body_ops(mode, chunks[1], info);
            r.append(&mut body);
            let help_lines: Vec<String> = Vec::new();
            r.push(DrawOp::Panel { kind: PanelKind::Help, area: chunks[2], lines: help_lines });
            proof {
                assert(ops_view(r@) =~~= spec_render(width, height, *info));
            }
        },
    }
    r
}

} // verus!
