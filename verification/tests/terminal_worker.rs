use nodenet::terminal::{worker_start, worker_step, WorkerAction, WorkerEvent, WorkerState};

#[test]
fn the_terminal_worker_reconnects_with_growing_waits() {
    let s = worker_start(80, 24);
    assert_eq!(s, WorkerState { cols: 80, rows: 24, delay_ms: 1000 });
    let step = worker_step(s, WorkerEvent::Started);
    assert_eq!((step.status.0.as_str(), step.status.1.as_str(), step.action), ("connecting", "Opening SSH PTY", WorkerAction::Connect));
    let step = worker_step(s, WorkerEvent::ConnectFailed("refused".to_string()));
    assert_eq!(step.status.1, "SSH connection failed: refused");
    assert_eq!(step.action, WorkerAction::Wait(1000));
    let mut state = s;
    let mut waits = Vec::new();
    for _ in 0..5 {
        state = worker_step(state, WorkerEvent::Waited).state;
        waits.push(state.delay_ms);
    }
    assert_eq!(waits, vec![2000, 4000, 8000, 8000, 8000]);
    let connected = worker_step(state, WorkerEvent::Connected);
    assert_eq!((connected.state.delay_ms, connected.action), (1000, WorkerAction::RunLive));
    let lost = worker_step(connected.state, WorkerEvent::LiveLost { cols: 100, rows: 30, message: "gone".to_string() });
    assert_eq!((lost.state.cols, lost.state.rows, lost.status.0.as_str(), lost.status.1.as_str()), (100, 30, "reconnecting", "gone"));
    let resized = worker_step(lost.state, WorkerEvent::Resized { cols: 90, rows: 20 });
    assert_eq!((resized.state.cols, resized.state.rows, resized.state.delay_ms), (90, 20, 2000));
    assert_eq!(worker_step(s, WorkerEvent::LiveEnded).action, WorkerAction::Stop);
    let stop = worker_step(s, WorkerEvent::DisconnectRequested);
    assert_eq!((stop.status.0.as_str(), stop.action), ("disconnected", WorkerAction::Stop));
}
