use macmon::models::cpu::{CoreUsage, CpuUsage};
use macmon::models::disk::DiskInfo;
use macmon::models::memory::MemoryInfo;
use macmon::models::network::NetworkUsage;
use macmon::models::rate::Rate;
use macmon::ui::cpu::{core_label, CpuPanel};
use macmon::ui::details::{confirm_area, confirm_fits_u16, state_str};
use macmon::ui::disk::DiskPanel;
use macmon::ui::layout::{body_split, panels_split, Area, Layout};
use macmon::ui::lines::{bar_width, padding, row};
use macmon::ui::memory::MemoryPanel;
use macmon::ui::network::NetworkPanel;

fn area(x: u16, y: u16, width: u16, height: u16) -> Area {
    Area { x, y, width, height }
}

#[test]
fn areas_are_cut_to_16_bit_coordinates() {
    assert!(Area::new(1, 2, 80, 24) == area(1, 2, 80, 24));
    assert!(Area::new(65000, 65530, 1000, 100) == area(65000, 65530, 535, 5));
}

#[test]
fn screen_has_header_body_and_footer_rows() {
    let l = Layout::new(area(0, 0, 100, 40));
    assert!(l.header == area(0, 0, 100, 1));
    assert!(l.body == area(0, 1, 100, 38));
    assert!(l.footer == area(0, 39, 100, 1));
}

#[test]
fn body_gives_panels_45_percent() {
    let (panels, table) = body_split(area(0, 1, 100, 40));
    assert!(panels == area(0, 1, 100, 18));
    assert!(table == area(0, 19, 100, 22));
}

#[test]
fn panels_give_cpu_55_percent() {
    let (cpu, memory) = panels_split(area(0, 1, 100, 18));
    assert!(cpu == area(0, 1, 55, 18));
    assert!(memory == area(55, 1, 45, 18));
}

#[test]
fn rows_pad_between_label_and_value() {
    let r = row("Used".to_string(), "4.0 GB".to_string(), 20);
    assert_eq!(r.left, "Used");
    assert_eq!(r.right, "4.0 GB");
    assert_eq!(r.padding, 10);
    assert_eq!(row("long label".to_string(), "value".to_string(), 8).padding, 0);
    assert_eq!(row("↓".to_string(), "x".to_string(), 10).padding, 6);
}

#[test]
fn padding_counts_columns_modulo_u16() {
    assert_eq!(padding(3, 10), 7);
    assert_eq!(padding(12, 10), 0);
    assert_eq!(padding(65536 + 4, 10), 6);
}

#[test]
fn bars_get_what_the_texts_leave() {
    assert_eq!(bar_width("Core  1", "42.0%", 40), 40 - 7 - 5 - 2);
    assert_eq!(bar_width("Core  1", "42.0%", 10), 0);
}

#[test]
fn core_labels_count_from_one_in_two_columns() {
    assert_eq!(core_label(0), "Core  1");
    assert_eq!(core_label(8), "Core  9");
    assert_eq!(core_label(9), "Core 10");
    assert_eq!(core_label(122), "Core 123");
}

#[test]
fn state_words() {
    let words: Vec<&str> = ['I', 'R', 'S', 'T', 'Z', '?', 'x'].into_iter().map(state_str).collect();
    assert_eq!(words, vec!["Idle", "Running", "Sleeping", "Stopped", "Zombie", "Unknown", "Unknown"]);
}

#[test]
fn confirmation_is_centred() {
    assert!(confirm_area(area(0, 0, 100, 41)) == area(26, 18, 48, 5));
    assert!(confirm_area(area(10, 5, 30, 3)) == area(10, 5, 30, 5));
    assert!(confirm_area(area(65530, 65533, 6, 2)) == area(65530, 65533, 5, 2));
}

fn memory() -> MemoryInfo {
    MemoryInfo {
        physical: 16 << 30,
        free: 1 << 30,
        active: 4 << 30,
        inactive: 3 << 30,
        wired: 2 << 30,
        compressed: 1 << 29,
        purgeable: 1 << 29,
        swap_total: 2 << 30,
        swap_used: 1 << 20,
    }
}

#[test]
fn memory_panel_rows() {
    let m = memory();
    let rows = MemoryPanel::new(&m).rows("40.6%");
    let expected = [
        ("Physical", "16.0 GB"),
        ("Used", "6.5 GB  (40.6%)"),
        ("Cached", "3.5 GB"),
        ("Free", "1.0 GB"),
        ("Compressed", "512.0 MB"),
        ("Swap", "1.0 MB / 2.0 GB"),
    ];
    assert_eq!(rows.len(), expected.len());
    for (got, want) in rows.iter().zip(expected) {
        assert_eq!((got.0.as_str(), got.1.as_str()), want);
    }
}

#[test]
fn network_panel_rows() {
    let usage = NetworkUsage {
        download_rate: Rate { bytes: 2048, nanos: 1_000_000_000 },
        upload_rate: Rate::zero(),
        total_downloaded: 5 << 30,
        total_uploaded: 300,
    };
    let rows = NetworkPanel::new(&usage).rows(2048, 0);
    assert_eq!(rows[0], ("Download".to_string(), "↓ 2.0 KB/s".to_string()));
    assert_eq!(rows[1], ("Upload".to_string(), "↑ 0 B/s".to_string()));
    assert_eq!(rows[2], ("Total ↓".to_string(), "5.0 GB".to_string()));
    assert_eq!(rows[3], ("Total ↑".to_string(), "300 B".to_string()));
}

#[test]
fn disk_panel_rows() {
    let disk = DiskInfo {
        capacity: 500 << 30,
        used: 200 << 30,
        available: 300 << 30,
        read_rate: Rate::zero(),
        write_rate: Rate::zero(),
    };
    let rows = DiskPanel::new(&disk).rows("40.0%", 1536, 0);
    assert_eq!(rows.len(), 5);
    assert_eq!(rows[0].1, "500.0 GB");
    assert_eq!(rows[1], ("Used".to_string(), "200.0 GB  (40.0%)".to_string()));
    assert_eq!(rows[2], ("Available".to_string(), "300.0 GB".to_string()));
    assert_eq!(rows[3], ("Read".to_string(), "1.5 KB/s".to_string()));
    assert_eq!(rows[4], ("Write".to_string(), "0 B/s".to_string()));
    assert!(!DiskPanel::shows_bar(8));
    assert!(DiskPanel::shows_bar(9));
}

#[test]
fn screen_rows_for_any_height_and_offset() {
    let l = Layout::new(area(3, 7, 20, 2));
    assert!(l.header == area(3, 7, 20, 1));
    assert!(l.body == area(3, 8, 20, 0));
    assert!(l.footer == area(3, 8, 20, 1));
    let l = Layout::new(area(0, 10, 5, 31));
    assert!(l.header == area(0, 10, 5, 1));
    assert!(l.body == area(0, 11, 5, 29));
    assert!(l.footer == area(0, 40, 5, 1));
}

#[test]
fn shares_tile_the_area_in_order() {
    for size in [0u16, 1, 7, 41, 99, 101, 333] {
        let (top, bottom) = body_split(area(2, 5, 30, size));
        assert_eq!(top.y, 5);
        assert_eq!(bottom.y, top.y + top.height);
        assert_eq!(bottom.y + bottom.height, 5 + size);
        let (left, right) = panels_split(area(4, 1, size, 9));
        assert_eq!(left.x, 4);
        assert_eq!(right.x, left.x + left.width);
        assert_eq!(right.x + right.width, 4 + size);
    }
}

#[test]
fn confirmation_fits_check() {
    assert!(confirm_fits_u16(area(0, 0, 100, 41)));
    assert!(confirm_fits_u16(area(65535, 65535, 0, 0)));
    assert!(!confirm_fits_u16(area(65535, 0, 100, 5)));
    assert!(!confirm_fits_u16(area(0, 65535, 10, 9)));
}

#[test]
fn cpu_panel_summary() {
    let usage = CpuUsage { user: 1, system: 1, idle: 2, total: 4, cores: Vec::new() };
    let panel = CpuPanel::new(&usage);
    let ((label, total), shares) = panel.summary("50.0%", "25.0%", "25.0%", "50.0%");
    assert_eq!(label, "Total");
    assert_eq!(total, "50.0%");
    assert_eq!(shares, "User 25.0%  System 25.0%  Idle 50.0%");
    assert!(!panel.has_cores());
    let usage = CpuUsage { cores: vec![CoreUsage { busy: 1, total: 2 }], ..usage };
    assert!(CpuPanel::new(&usage).has_cores());
}

#[test]
fn shares_are_rounded_percentages() {
    for size in 0u16..=2000 {
        for start in [0u16, 3, 1000] {
            let (top, bottom) = body_split(area(1, start, 10, size));
            assert_eq!(top.height as u32, (45 * size as u32 + 50) / 100, "height {size}");
            assert_eq!(bottom.y, top.y + top.height);
            assert_eq!(bottom.y + bottom.height, start + size);
            let (left, right) = panels_split(area(start, 2, size, 10));
            assert_eq!(left.width as u32, (55 * size as u32 + 50) / 100, "width {size}");
            assert_eq!(right.x, left.x + left.width);
            assert_eq!(right.x + right.width, start + size);
        }
    }
}

#[test]
fn screen_rows_cover_small_screens() {
    for height in [0u16, 1, 2, 3] {
        let l = Layout::new(area(0, 4, 9, height));
        assert_eq!(l.header.y, 4);
        assert_eq!(l.body.y, l.header.y + l.header.height);
        assert_eq!(l.footer.y, l.body.y + l.body.height);
        assert_eq!(l.footer.y + l.footer.height, 4 + height);
    }
}
