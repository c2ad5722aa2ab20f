use sysfetch_rs::layout::Rect;
use sysfetch_rs::render::DrawOp;
use sysfetch_rs::render::PanelKind;
use sysfetch_rs::render::render;
use sysfetch_rs::render::usage_line;
use sysfetch_rs::render::usage_panel_ops;
use sysfetch_rs::render::usage_percent;
use sysfetch_rs::snapshot::SystemInfo;

fn sample_snapshot() -> SystemInfo {
    SystemInfo {
        os_name: "TestOS".to_string(),
        os_version: "1.0".to_string(),
        kernel_version: "5.0".to_string(),
        hostname: "box".to_string(),
        username: "user".to_string(),
        uptime: "1h 1m".to_string(),
        cpu_model: "TestChip".to_string(),
        cpu_cores: 8,
        memory_total: 8589934592,
        memory_used: 4294967296,
        disk_total: 0,
        disk_used: 0,
        gpu_info: "TestGPU".to_string(),
        local_ip: "192.168.0.2".to_string(),
    }
}

fn panel<'a>(ops: &'a [DrawOp], kind: PanelKind) -> &'a DrawOp {
    ops.iter()
        .find(|op| matches!(op, DrawOp::Panel { kind: k, .. } if *k == kind))
        .expect("panel op present")
}

#[test]
fn zero_total_yields_zero_percent() {
    assert_eq!(usage_percent(0, 0), 0);
    assert_eq!(usage_percent(123, 0), 0);
    assert_eq!(usage_percent(1, 2), 50);
    assert_eq!(usage_percent(1, 3), 33);
    assert_eq!(usage_line(0, 0), "0 B / 0 B (0%)");
}

#[test]
fn memory_panel_text() {
    assert_eq!(usage_line(4294967296, 8589934592), "4.0 GB / 8.0 GB (50%)");
}

#[test]
fn gauge_omitted_at_interior_height_two() {
    let area = Rect { x: 0, y: 0, width: 40, height: 4 };
    let ops = usage_panel_ops(PanelKind::Memory, area, 512, 1024);
    assert_eq!(ops.len(), 1);
    match &ops[0] {
        DrawOp::Panel { kind, lines, .. } => {
            assert_eq!(*kind, PanelKind::Memory);
            assert_eq!(lines.len(), 1);
            assert_eq!(lines[0], "512 B / 1.0 KB (50%)");
        }
        _ => panic!("expected a panel op"),
    }
}

#[test]
fn gauge_drawn_at_interior_height_three() {
    let area = Rect { x: 0, y: 0, width: 40, height: 5 };
    let ops = usage_panel_ops(PanelKind::Memory, area, 512, 1024);
    assert_eq!(ops.len(), 2);
    match &ops[1] {
        DrawOp::Gauge { area, percent } => {
            assert_eq!(*percent, 50);
            // the gauge sits below the one-row text band of the interior
            assert_eq!(*area, Rect { x: 1, y: 2, width: 38, height: 2 });
        }
        _ => panic!("expected a gauge op"),
    }
}

#[test]
fn wide_frame_layout() {
    let ops = render(200, 50, &sample_snapshot());
    // title, art, system, cpu, memory, gpu, network, disk text, disk
    // gauge, hardware frame, help
    assert_eq!(ops.len(), 11);
    match &ops[0] {
        DrawOp::Panel { kind, area, .. } => {
            assert_eq!(*kind, PanelKind::Title);
            assert_eq!(*area, Rect { x: 1, y: 1, width: 198, height: 3 });
        }
        _ => panic!("expected the title panel first"),
    }
    match panel(&ops, PanelKind::Art) {
        DrawOp::Panel { area, .. } => {
            assert_eq!(*area, Rect { x: 1, y: 4, width: 79, height: 42 });
        }
        _ => unreachable!(),
    }
    match panel(&ops, PanelKind::System) {
        DrawOp::Panel { area, .. } => {
            assert_eq!(*area, Rect { x: 80, y: 4, width: 119, height: 12 });
        }
        _ => unreachable!(),
    }
    match panel(&ops, PanelKind::HardwareFrame) {
        DrawOp::Panel { area, .. } => {
            assert_eq!(*area, Rect { x: 80, y: 16, width: 119, height: 30 });
        }
        _ => unreachable!(),
    }
    match panel(&ops, PanelKind::Help) {
        DrawOp::Panel { area, .. } => {
            assert_eq!(*area, Rect { x: 1, y: 46, width: 198, height: 3 });
        }
        _ => unreachable!(),
    }
}

#[test]
fn disk_panel_never_divides_by_zero() {
    let ops = render(200, 50, &sample_snapshot());
    match panel(&ops, PanelKind::Disk) {
        DrawOp::Panel { lines, .. } => {
            assert_eq!(lines.len(), 1);
            assert_eq!(lines[0], "0 B / 0 B (0%)");
        }
        _ => unreachable!(),
    }
}

#[test]
fn compact_frame_layout() {
    let ops = render(50, 15, &sample_snapshot());
    assert_eq!(ops.len(), 3);
    match &ops[1] {
        DrawOp::Panel { kind, lines, .. } => {
            assert_eq!(*kind, PanelKind::CompactInfo);
            assert_eq!(lines.len(), 5);
            assert_eq!(lines[0], "OS: TestOS 1.0");
            assert_eq!(lines[3], "Memory: 4.0 GB / 8.0 GB");
            assert_eq!(lines[4], "Disk: 0 B / 0 B");
        }
        _ => panic!("expected the compact info panel"),
    }
}

#[test]
fn narrow_frame_layout() {
    let ops = render(80, 30, &sample_snapshot());
    match &ops[1] {
        DrawOp::Panel { kind, area, .. } => {
            assert_eq!(*kind, PanelKind::Art);
            // a fixed 8-row art band across the body width
            assert_eq!(*area, Rect { x: 1, y: 4, width: 78, height: 8 });
        }
        _ => panic!("expected the art panel second"),
    }
    match panel(&ops, PanelKind::System) {
        DrawOp::Panel { lines, .. } => {
            assert_eq!(lines.len(), 5);
            assert_eq!(lines[4], "Uptime: 1h 1m");
        }
        _ => unreachable!(),
    }
}

#[test]
fn cpu_line_shows_model_and_cores() {
    let ops = render(200, 50, &sample_snapshot());
    match panel(&ops, PanelKind::Cpu) {
        DrawOp::Panel { lines, .. } => {
            assert_eq!(lines[0], "CPU: TestChip (8 Cores)");
        }
        _ => unreachable!(),
    }
}
