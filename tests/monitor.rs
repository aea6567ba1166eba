use dcs_tetrad::monitor::{
    frame_state_of, get_stats, log_times, FrameLog, FrameState, MonitorEvent, MonitorImpl, Report,
};
use dcs_tetrad::perf_monitor::{to_i64, PerfMonitor, PerfRecord};
use dcs_tetrad::worker::FrameSnapshot;

fn frame(game_time: i64, real_time: i64, units: u64) -> FrameState {
    FrameState {
        num_units: units,
        num_ballistics: 1,
        real_time,
        game_time,
        lib_time: 2_000,
        sys_cpu: 50,
        sys_wall: 100,
        proc_cpu: 25,
    }
}

#[test]
fn window_reaching_interval_reports_once_and_resets() {
    let mut m = MonitorImpl::new();
    let mut reports = Vec::new();
    for k in 1..=5i64 {
        if let Some(r) = m.update_log(&frame(k * 100_000_000, k * 110_000_000, k as u64)) {
            reports.push(r);
        }
    }
    assert_eq!(reports.len(), 1);
    match reports[0] {
        Report::Stats(s) => {
            assert_eq!(s.game_min, 100_000_000);
            assert_eq!(s.game_max, 100_000_000);
            assert_eq!(s.game_mean, 100_000_000);
            assert_eq!(s.real_min, 110_000_000);
            assert_eq!(s.real_mean, 110_000_000);
            assert_eq!(s.fps_milli, 1_000);
            assert_eq!(s.max_units, 5);
            assert_eq!(s.max_ballistics, 1);
            assert_eq!(s.process_load, 25_000);
            assert_eq!(s.total_load, 50_000);
            assert_eq!(s.lib_mean, 2_000);
            assert!(s.warn);
        }
        Report::NoData => panic!("expected statistics"),
    }
    assert!(m.frame_log.is_empty());
    assert_eq!(m.last_logged_time, 500_000_000);
    assert!(m.update_log(&frame(501_600_000, 0, 1)).is_none());
    assert_eq!(m.frame_log.game_times.len(), 1);
}

#[test]
fn window_short_of_interval_does_not_report() {
    let mut m = MonitorImpl::new();
    for k in 0..300i64 {
        assert!(m.update_log(&frame(k * 1_600_000, k * 1_600_000, 1)).is_none());
    }
    assert_eq!(m.frame_log.game_times.len(), 300);
}

#[test]
fn fast_frames_report_without_warning() {
    let mut m = MonitorImpl::new();
    let mut last = None;
    for k in 1..=400i64 {
        if let Some(r) = m.update_log(&frame(k * 1_250_000, k * 1_250_000, 2)) {
            last = Some(r);
        }
    }
    match last {
        Some(Report::Stats(s)) => {
            assert_eq!(s.game_min, 1_250_000);
            assert_eq!(s.fps_milli, 80_000);
            assert!(!s.warn);
        }
        _ => panic!("expected one report"),
    }
}

#[test]
fn silence_gives_no_data_report() {
    let mut m = MonitorImpl::new();
    assert_eq!(m.handle_event(&MonitorEvent::Silence), Some(Report::NoData));
    m.update_log(&frame(1_000, 1_000, 1));
    assert_eq!(m.handle_event(&MonitorEvent::Silence), Some(Report::NoData));
    assert_eq!(m.frame_log.game_times.len(), 1);
    assert!(m.handle_event(&MonitorEvent::Frame(frame(2_000, 2_000, 1))).is_none());
}

#[test]
fn empty_window_reports_no_data() {
    let log = FrameLog::new();
    assert_eq!(log.log_to_console(), Report::NoData);
    assert!(!log.has_data());
}

#[test]
fn stats_of_series() {
    assert_eq!(get_stats(&vec![]), None);
    assert_eq!(get_stats(&vec![5, -3, 10]), Some((-3, 10, 4)));
    assert_eq!(get_stats(&vec![-7, -2]), Some((-7, -2, -4)));
    assert_eq!(get_stats(&vec![i64::MAX, i64::MAX]), Some((i64::MAX, i64::MAX, i64::MAX as i128)));
}

#[test]
fn load_average_skips_empty_totals() {
    assert_eq!(log_times(&vec![50, 30], &vec![100, 0]), 25_000);
    assert_eq!(log_times(&vec![], &vec![]), 0);
    assert_eq!(log_times(&vec![1, 2, 3], &vec![3]), 11_111);
}

#[test]
fn frame_state_from_snapshot() {
    let s = FrameSnapshot { frame_number: 4, game_time: 7, real_time: 9, units: vec![], ballistics: vec![] };
    let st = frame_state_of(&s, 1, 2, 3, 4);
    assert_eq!(st.num_units, 0);
    assert_eq!(st.game_time, 7);
    assert_eq!(st.real_time, 9);
    assert_eq!(st.proc_cpu, 4);
}

#[test]
fn perf_record_deltas() {
    let mut p = PerfRecord::default();
    assert_eq!(p.update(10, 100, 50), (140, 150));
    assert_eq!(p.update(15, 130, 60), (35, 40));
    assert_eq!(p.last_kernel_time, 130);
}

#[test]
fn perf_monitor_keeps_two_records() {
    let mut m = PerfMonitor::default();
    assert_eq!(m.update_system_time(5, 20, 10), (25, 30));
    assert_eq!(m.update_process_time(8, 4), (12, 12));
    assert_eq!(m.update_process_time(10, 4), (2, 2));
    assert_eq!(m.system.last_idle_time, 5);
}

#[test]
fn time_from_halves() {
    assert_eq!(to_i64(1, 1), 4_294_967_297);
    assert_eq!(to_i64(0, 0), 0);
    assert_eq!(to_i64(u32::MAX, u32::MAX), -1);
}
