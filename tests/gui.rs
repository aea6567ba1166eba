use dcs_tetrad::config::Config;
use dcs_tetrad::gui::{
    get_indexed, is_gui_shown, make_obj_count_line, make_time_line, most_recent_time_delta,
    wait_for_gui_started, ClientMessage, Gui, GuiInterface, Message,
};
use dcs_tetrad::session::{fan_out, is_real_time_gui, send_gui_message, send_worker_message, GuiLink};
use dcs_tetrad::worker::{self, FrameSnapshot};
use std::sync::atomic::AtomicBool;
use std::sync::Arc;

fn snapshot(game_time: i64, real_time: i64) -> Arc<FrameSnapshot> {
    Arc::new(FrameSnapshot { frame_number: 0, game_time, real_time, units: vec![], ballistics: vec![] })
}

fn gui_with(times: &[(i64, i64)]) -> Gui {
    let mut g = Gui::new();
    for (gt, rt) in times {
        g.handle_message(Message::Update(snapshot(*gt, *rt)));
    }
    g
}

#[test]
fn history_is_newest_first() {
    let g = gui_with(&[(10, 100), (20, 200), (35, 300)]);
    assert_eq!(get_indexed(&g.game_times, 0), Some(35));
    assert_eq!(get_indexed(&g.game_times, 2), Some(10));
    assert_eq!(get_indexed(&g.game_times, 3), None);
    assert_eq!(get_indexed(&g.game_times, -1), Some(10));
    assert_eq!(get_indexed(&g.game_times, -9), Some(35));
    assert_eq!(get_indexed(&g.num_units, 0), Some(0));
}

#[test]
fn history_is_bounded() {
    let times: Vec<(i64, i64)> = (0..2050).map(|k| (k, k)).collect();
    let g = gui_with(&times);
    assert_eq!(g.game_times.len(), 2048);
    assert_eq!(get_indexed(&g.game_times, 0), Some(2049));
    assert_eq!(get_indexed(&g.game_times, -1), Some(2));
}

#[test]
fn start_clears_history() {
    let mut g = gui_with(&[(10, 100), (20, 200)]);
    g.handle_message(Message::Start(egui::Context::default()));
    assert_eq!(g.game_times.len(), 0);
    assert_eq!(g.real_times.len(), 0);
    assert_eq!(get_indexed(&g.num_units, 0), None);
}

#[test]
fn recent_delta() {
    let g = gui_with(&[(10, 100), (25, 130)]);
    assert_eq!(most_recent_time_delta(&g.game_times), 15);
    assert_eq!(most_recent_time_delta(&g.real_times), 30);
    let one = gui_with(&[(7, 7)]);
    assert_eq!(most_recent_time_delta(&one.game_times), 7);
}

#[test]
fn count_line_pairs_times() {
    let g = gui_with(&[(10, 100), (20, 200)]);
    assert_eq!(make_obj_count_line(&g.num_units, &g.game_times), vec![(20, 0), (10, 0)]);
}

#[test]
fn time_line_and_rates() {
    let g = gui_with(&[(0, 0), (1_600_000, 2_000_000), (1_600_000, 5_000_000)]);
    let (times, fps) = make_time_line(&g.game_times, &g.game_times);
    assert_eq!(times, vec![(1_600_000, 0), (0, 1_600_000)]);
    assert_eq!(fps, vec![(1_600_000, 0), (0, 62_500)]);
    let (real, _) = make_time_line(&g.game_times, &g.real_times);
    assert_eq!(real, vec![(1_600_000, 3_000_000), (0, 2_000_000)]);
}

#[test]
fn gui_shown_flag() {
    assert!(!is_gui_shown(&None));
    let flag = Arc::new(AtomicBool::new(true));
    assert!(is_gui_shown(&Some(flag.clone())));
    flag.store(false, std::sync::atomic::Ordering::SeqCst);
    assert!(!is_gui_shown(&Some(flag)));
}

#[test]
fn gui_start_handshake() {
    let (tx, rx) = std::sync::mpsc::channel();
    let flag = Arc::new(AtomicBool::new(true));
    tx.send(ClientMessage::ThreadStarted(flag)).unwrap();
    let got = wait_for_gui_started(&rx).unwrap();
    assert!(got.load(std::sync::atomic::Ordering::SeqCst));
    drop(tx);
    assert!(wait_for_gui_started(&rx).is_none());
}

#[test]
fn worker_send_is_best_effort() {
    let (tx, rx) = std::sync::mpsc::channel();
    assert!(send_worker_message(&tx, worker::Message::Stop));
    assert!(matches!(rx.recv().unwrap(), worker::Message::Stop));
    drop(rx);
    assert!(!send_worker_message(&tx, worker::Message::Stop));
}

#[test]
fn real_time_gui_threshold() {
    assert!(is_real_time_gui(-100_000_000));
    assert!(is_real_time_gui(0));
    assert!(!is_real_time_gui(1));
    assert!(is_real_time_gui(Config::default().gui_update_interval));
}

#[test]
fn gui_send_decisions() {
    let (tx, rx) = std::sync::mpsc::channel();
    let mut link = GuiLink {
        is_gui_enabled: false,
        gui_tx: tx,
        gui_context: Some(egui::Context::default()),
        gui_draw_interval: -1,
    };
    let r = send_gui_message(&link, Message::Update(snapshot(0, 0)));
    assert!(!r.attempted && !r.repaint);
    assert!(rx.try_recv().is_err());
    link.is_gui_enabled = true;
    let r = send_gui_message(&link, Message::Update(snapshot(0, 0)));
    assert!(r.attempted && r.repaint);
    assert!(rx.try_recv().is_ok());
    link.gui_draw_interval = 50_000_000;
    let r = send_gui_message(&link, Message::Update(snapshot(0, 0)));
    assert!(r.attempted && !r.repaint);
}

#[test]
fn fan_out_reaches_each_consumer() {
    let (wtx, wrx) = std::sync::mpsc::channel();
    let (gtx, grx) = std::sync::mpsc::channel();
    let link = GuiLink { is_gui_enabled: true, gui_tx: gtx, gui_context: None, gui_draw_interval: -1 };
    let s = snapshot(5, 6);
    let r = fan_out(&wtx, &link, false, &s);
    assert!(!r.attempted);
    assert!(matches!(wrx.try_recv().unwrap(), worker::Message::Update(_)));
    assert!(grx.try_recv().is_err());
    let r = fan_out(&wtx, &link, true, &s);
    assert!(r.attempted && !r.repaint);
    match grx.try_recv().unwrap() {
        Message::Update(u) => assert_eq!(u.game_time, 5),
        Message::Start(_) => panic!("expected an update"),
    }
}

#[test]
fn config_defaults() {
    let c = Config::default();
    assert_eq!(c.write_dir, "");
    assert!(!c.debug && !c.enable_object_log && c.enable_framerate_log && c.enable_gui);
    assert_eq!(c.gui_update_interval, -100_000_000);
    assert_eq!(GuiInterface::default(), GuiInterface {});
}
