use std::sync::Mutex;

use butter_scroll::traits::ScrollOutput;

/// Recording scroll output for tests.
pub struct MockOutput {
    events: Mutex<Vec<(i32, i32)>>,
}

impl MockOutput {
    pub fn new() -> Self {
        Self { events: Mutex::new(Vec::new()) }
    }

    /// The recorded events, oldest first; the record is emptied.
    pub fn drain(&self) -> Vec<(i32, i32)> {
        self.events.lock().unwrap().drain(..).collect()
    }

    /// Sum of the recorded deltas per axis.
    pub fn total(&self) -> (i64, i64) {
        self.events
            .lock()
            .unwrap()
            .iter()
            .fold((0i64, 0i64), |(ax, ay), &(x, y)| (ax + x as i64, ay + y as i64))
    }
}

impl ScrollOutput for MockOutput {
    fn inject_wheel(&self, delta_x: i32, delta_y: i32) {
        self.events.lock().unwrap().push((delta_x, delta_y));
    }
}

#[test]
fn mock_output_records_and_drains() {
    let out = MockOutput::new();
    out.inject_wheel(0, -40);
    out.inject_wheel(3, -80);
    assert_eq!(out.total(), (3, -120));
    assert_eq!(out.drain(), vec![(0, -40), (3, -80)]);
    assert_eq!(out.total(), (0, 0));
    assert!(out.drain().is_empty());
}
