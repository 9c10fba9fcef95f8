use native_activity_thread::task::{Handler, HandlerCallback};

struct Recorder {
    seen: Vec<u32>,
    fail_on: Option<u32>,
}

impl HandlerCallback<u32> for Recorder {
    type Error = u32;

    fn handle_task(&mut self, task: u32) -> Result<(), u32> {
        self.seen.push(task);
        if self.fail_on == Some(task) {
            return Err(task);
        }
        Ok(())
    }
}

#[test]
fn tasks_are_handled_in_send_order() {
    let mut handler = Handler::new(Recorder { seen: Vec::new(), fail_on: None });
    for t in [3u32, 1, 4, 1, 5] {
        handler.send(t);
    }
    assert_eq!(handler.pending_count(), 5);
    assert_eq!(handler.handle_tasks(), Ok(()));
    handler.send(9);
    handler.send(2);
    assert_eq!(handler.handle_tasks(), Ok(()));
    assert_eq!(handler.callback().seen, vec![3, 1, 4, 1, 5, 9, 2]);
    assert_eq!(handler.pending_count(), 0);
}

#[test]
fn failure_stops_the_handler_for_good() {
    let mut handler = Handler::new(Recorder { seen: Vec::new(), fail_on: Some(4) });
    for t in [3u32, 4, 5] {
        handler.send(t);
    }
    assert_eq!(handler.handle_tasks(), Err(4));
    assert!(!handler.is_active());
    assert_eq!(handler.pending_count(), 1);
    handler.send(6);
    assert_eq!(handler.handle_tasks(), Ok(()));
    assert_eq!(handler.callback().seen, vec![3, 4]);
    assert_eq!(handler.pending_count(), 2);
}

#[test]
fn draining_an_empty_queue_does_nothing() {
    let mut handler = Handler::new(Recorder { seen: Vec::new(), fail_on: None });
    assert_eq!(handler.handle_tasks(), Ok(()));
    assert!(handler.is_active());
    assert!(handler.callback().seen.is_empty());
}
