use std::cell::RefCell;
use std::rc::Rc;

use ssd1322::command::Command;
use ssd1322::display::{BoundingBox, Ssd1322, COLUMN_OFFSET};
use ssd1322::interface::{DisplayError, WriteOnlyDataCommand};
use ssd1322::pixel::{Gray4, Pixel, Point};
use ssd1322::reset::{DelayMs, OutputPin, ResetLine};

#[derive(Clone, Debug, PartialEq)]
enum Wire {
    Command(Vec<u8>),
    Data(Vec<u8>),
}

/// Keeps what it is given, and fails the call with the given index.
struct Tape {
    log: Rc<RefCell<Vec<Wire>>>,
    calls: Rc<RefCell<usize>>,
    fail_at: Rc<RefCell<Option<usize>>>,
}

struct Handle {
    log: Rc<RefCell<Vec<Wire>>>,
    calls: Rc<RefCell<usize>>,
    fail_at: Rc<RefCell<Option<usize>>>,
}

impl Handle {
    fn sent(&self) -> Vec<Wire> {
        self.log.borrow().clone()
    }

    fn forget(&self) {
        self.log.borrow_mut().clear();
        *self.calls.borrow_mut() = 0;
    }

    fn fail_at(&self, call: Option<usize>) {
        *self.fail_at.borrow_mut() = call;
    }
}

fn tape() -> (Tape, Handle) {
    let log = Rc::new(RefCell::new(Vec::new()));
    let calls = Rc::new(RefCell::new(0));
    let fail_at = Rc::new(RefCell::new(None));
    (
        Tape {
            log: log.clone(),
            calls: calls.clone(),
            fail_at: fail_at.clone(),
        },
        Handle {
            log,
            calls,
            fail_at,
        },
    )
}

impl Tape {
    fn take(&mut self, wire: Wire) -> Result<(), DisplayError> {
        let index = *self.calls.borrow();
        *self.calls.borrow_mut() = index + 1;
        if *self.fail_at.borrow() == Some(index) {
            return Err(DisplayError::DCError);
        }
        self.log.borrow_mut().push(wire);
        Ok(())
    }
}

impl WriteOnlyDataCommand for Tape {
    fn send_commands(&mut self, cmds: &[u8]) -> Result<(), DisplayError> {
        self.take(Wire::Command(cmds.to_vec()))
    }

    fn send_data(&mut self, buf: &[u8]) -> Result<(), DisplayError> {
        self.take(Wire::Data(buf.to_vec()))
    }
}

fn on(x: i32, y: i32) -> Pixel {
    Pixel(Point::new(x, y), Gray4::new(0x0F))
}

fn window(col_start: u8, col_end: u8, row_start: u8, row_end: u8) -> Vec<Wire> {
    vec![
        Wire::Command(vec![0x15]),
        Wire::Data(vec![col_start, col_end]),
        Wire::Command(vec![0x75]),
        Wire::Data(vec![row_start, row_end]),
        Wire::Command(vec![0x5C]),
    ]
}

#[test]
fn new_display_is_blank() {
    let (tape, handle) = tape();
    let disp = Ssd1322::new(tape);
    assert!(disp.buffer().iter().all(|b| *b == 0));
    assert_eq!(disp.bounding_box(), None);
    assert_eq!(disp.num_changed(), 0);
    assert_eq!(disp.size(), (256, 64));
    assert!(handle.sent().is_empty());
    assert_eq!(COLUMN_OFFSET, 0x1C);
}

#[test]
fn vertical_line_is_flushed_row_by_row() {
    let (tape, handle) = tape();
    let mut disp = Ssd1322::new(tape);
    let line: Vec<Pixel> = (1..=7).map(|y| on(1, y)).collect();
    disp.draw_iter(&line);

    assert_eq!(disp.bounding_box(), Some(([0, 0], [1, 7])));
    assert_eq!(disp.num_changed(), 7);
    assert_eq!(disp.buffer().iter().filter(|b| **b != 0).count(), 7);
    for row in 1..=7 {
        assert_eq!(disp.buffer()[row * 128], 0x0F);
    }
    assert!(handle.sent().is_empty());

    assert_eq!(disp.flush(), Ok(()));
    let sent = handle.sent();
    let mut expected = window(0x1C, 0x1C, 1, 7);
    for _ in 1..=7 {
        expected.push(Wire::Data(vec![0x0F, 0x00]));
    }
    assert_eq!(sent, expected);
    let commands = sent
        .iter()
        .filter(|w| matches!(w, Wire::Command(_)))
        .count();
    assert_eq!(commands, 3);
    let rows: Vec<&Wire> = sent[5..].iter().collect();
    assert_eq!(rows.len(), 7);
    assert!(rows
        .iter()
        .all(|w| matches!(w, Wire::Data(bytes) if bytes.len() == 2)));

    assert_eq!(disp.bounding_box(), None);
    assert_eq!(disp.num_changed(), 0);
}

#[test]
fn flush_without_changes_sends_nothing() {
    let (tape, handle) = tape();
    let mut disp = Ssd1322::new(tape);
    assert_eq!(disp.flush(), Ok(()));
    assert!(handle.sent().is_empty());
    assert_eq!(*handle.calls.borrow(), 0);

    let (tape, handle) = self::tape();
    let mut disp = Ssd1322::new(tape);
    handle.fail_at(Some(0));
    assert_eq!(disp.flush(), Ok(()));
    assert_eq!(*handle.calls.borrow(), 0);
}

#[test]
fn far_apart_pixels_merge_to_the_full_row() {
    let (tape, handle) = tape();
    let mut disp = Ssd1322::new(tape);
    disp.draw_pixel(on(255, 0));
    assert_eq!(disp.bounding_box(), Some(([127, 127], [0, 0])));
    disp.draw_pixel(on(0, 0));
    assert_eq!(disp.bounding_box(), Some(([0, 127], [0, 0])));
    assert_eq!(disp.num_changed(), 2);

    assert_eq!(disp.flush(), Ok(()));
    let mut row = vec![0u8; 128];
    row[0] = 0xF0;
    row[127] = 0x0F;
    let mut expected = window(0x1C, 0x1C + 63, 0, 0);
    expected.push(Wire::Data(row));
    assert_eq!(handle.sent(), expected);
}

#[test]
fn drawing_in_any_order_gives_the_same_box() {
    let pixels = [on(100, 40), on(3, 2), on(200, 63), on(17, 0)];
    let mut order = pixels;
    for _ in 0..pixels.len() {
        order.rotate_left(1);
        let (tape, _handle) = tape();
        let mut disp = Ssd1322::new(tape);
        disp.draw_iter(&order);
        assert_eq!(disp.bounding_box(), Some(([1, 100], [0, 63])));
        assert_eq!(disp.num_changed(), 4);
    }
}

#[test]
fn pixels_off_the_grid_change_nothing() {
    let (tape, handle) = tape();
    let mut disp = Ssd1322::new(tape);
    disp.draw_pixel(on(7, 7));
    let buffer = *disp.buffer();
    let bounds = disp.bounding_box();
    disp.draw_iter(&[
        on(-1, 0),
        on(0, -1),
        on(256, 0),
        on(0, 64),
        on(i32::MIN, 5),
        on(5, i32::MAX),
    ]);
    assert_eq!(*disp.buffer(), buffer);
    assert_eq!(disp.bounding_box(), bounds);
    assert_eq!(disp.num_changed(), 1);
    assert!(handle.sent().is_empty());
}

#[test]
fn unchanged_pixel_marks_nothing() {
    let (tape, _handle) = tape();
    let mut disp = Ssd1322::new(tape);
    disp.draw_pixel(Pixel(Point::new(9, 9), Gray4::new(0)));
    assert_eq!(disp.bounding_box(), None);
    assert_eq!(disp.num_changed(), 0);
    disp.draw_pixel(on(9, 9));
    disp.draw_pixel(on(9, 9));
    assert_eq!(disp.bounding_box(), Some(([4, 4], [9, 9])));
    assert_eq!(disp.num_changed(), 1);
}

#[test]
fn window_is_rounded_to_even_column_bytes() {
    let (tape, handle) = tape();
    let mut disp = Ssd1322::new(tape);
    // Column-bytes 3 to 5 in rows 10 and 11.
    disp.draw_iter(&[on(6, 10), on(11, 11)]);
    assert_eq!(disp.bounding_box(), Some(([3, 5], [10, 11])));
    assert_eq!(disp.flush(), Ok(()));
    let mut expected = window(0x1C + 1, 0x1C + 2, 10, 11);
    expected.push(Wire::Data(vec![0x00, 0xF0, 0x00, 0x00]));
    expected.push(Wire::Data(vec![0x00, 0x00, 0x00, 0x0F]));
    assert_eq!(handle.sent(), expected);
}

#[test]
fn window_of_the_last_column_byte_stays_in_the_row() {
    let (tape, handle) = tape();
    let mut disp = Ssd1322::new(tape);
    disp.draw_pixel(on(255, 63));
    assert_eq!(disp.flush(), Ok(()));
    let mut expected = window(0x1C + 63, 0x1C + 63, 63, 63);
    expected.push(Wire::Data(vec![0x00, 0x0F]));
    assert_eq!(handle.sent(), expected);
}

#[test]
fn clear_then_full_flush_sends_the_whole_buffer() {
    let (tape, handle) = tape();
    let mut disp = Ssd1322::new(tape);
    disp.draw_pixel(on(8, 8));
    disp.clear(Gray4::new(0x0A));
    assert!(disp.buffer().iter().all(|b| *b == 0xAA));
    assert_eq!(disp.bounding_box(), Some(([4, 4], [8, 8])));
    assert_eq!(disp.num_changed(), 1);

    assert_eq!(disp.flush_all(), Ok(()));
    let mut expected = window(0x1C, 0x5B, 0x00, 0x3F);
    expected.push(Wire::Data(vec![0xAA; 8192]));
    assert_eq!(handle.sent(), expected);
    assert_eq!(disp.bounding_box(), Some(([4, 4], [8, 8])));

    handle.forget();
    assert_eq!(disp.flush_all(), Ok(()));
    assert_eq!(handle.sent(), expected);
}

#[test]
fn full_flush_needs_no_changes() {
    let (tape, handle) = tape();
    let mut disp = Ssd1322::new(tape);
    assert_eq!(disp.flush_all(), Ok(()));
    let sent = handle.sent();
    assert_eq!(sent.len(), 6);
    assert_eq!(sent[5], Wire::Data(vec![0x00; 8192]));
}

#[test]
fn failed_flush_keeps_the_region_for_a_retry() {
    for failing in 0..8 {
        let (tape, handle) = tape();
        let mut disp = Ssd1322::new(tape);
        disp.draw_iter(&[on(2, 1), on(2, 2), on(2, 3)]);
        let bounds = disp.bounding_box();
        assert_eq!(bounds, Some(([1, 1], [1, 3])));

        handle.fail_at(Some(failing));
        assert_eq!(disp.flush(), Err(DisplayError::DCError));
        assert_eq!(disp.bounding_box(), bounds);
        assert_eq!(disp.num_changed(), 3);
        assert_eq!(*handle.calls.borrow(), failing + 1);

        let mut expected = window(0x1C, 0x1C, 1, 3);
        for _ in 0..3 {
            expected.push(Wire::Data(vec![0x00, 0xF0]));
        }
        assert_eq!(handle.sent(), expected[..failing].to_vec());

        handle.fail_at(None);
        handle.forget();
        assert_eq!(disp.flush(), Ok(()));
        assert_eq!(handle.sent(), expected);
        assert_eq!(disp.bounding_box(), None);
        assert_eq!(disp.num_changed(), 0);
    }
}

#[test]
fn failed_full_flush_is_reported() {
    for failing in 0..6 {
        let (tape, handle) = tape();
        let mut disp = Ssd1322::new(tape);
        handle.fail_at(Some(failing));
        assert_eq!(disp.flush_all(), Err(DisplayError::DCError));
        assert_eq!(handle.sent().len(), failing);
    }
}

#[test]
fn init_sends_the_setup_in_order() {
    let (tape, handle) = tape();
    let mut disp = Ssd1322::new(tape);
    assert_eq!(disp.init(), Ok(()));
    let table: [&[u8]; 22] = [
        &[0xFD, 0x12],
        &[0xAE],
        &[0x15, 0x1C, 0x5B],
        &[0x75, 0x00, 0x3F],
        &[0xB3, 0x91],
        &[0xCA, 0x3F],
        &[0xA2, 0x00],
        &[0xA1, 0x00],
        &[0xA0, 0x14, 0x11],
        &[0xB5, 0x00],
        &[0xAB, 0x01],
        &[0xB4, 0xA0, 0xFD],
        &[0xD1, 0xA2, 0x20],
        &[0xC1, 0xCF],
        &[0xC7, 0x0F],
        &[0xB9],
        &[0xB1, 0xE2],
        &[0xBB, 0x1F],
        &[0xB6, 0x08],
        &[0xBE, 0x07],
        &[0xA6],
        &[0xAF],
    ];
    let mut expected = Vec::new();
    for bytes in table {
        expected.push(Wire::Command(bytes[..1].to_vec()));
        if bytes.len() > 1 {
            expected.push(Wire::Data(bytes[1..].to_vec()));
        }
    }
    assert_eq!(handle.sent(), expected);
    assert!(disp.buffer().iter().all(|b| *b == 0));
    assert_eq!(disp.bounding_box(), None);
}

#[test]
fn init_stops_at_the_first_failure() {
    let (tape, handle) = tape();
    let mut disp = Ssd1322::new(tape);
    handle.fail_at(Some(3));
    assert_eq!(disp.init(), Err(DisplayError::DCError));
    assert_eq!(
        handle.sent(),
        vec![
            Wire::Command(vec![0xFD]),
            Wire::Data(vec![0x12]),
            Wire::Command(vec![0xAE]),
        ]
    );
    assert_eq!(*handle.calls.borrow(), 4);
}

#[test]
fn send_command_goes_straight_to_the_bus() {
    let (tape, handle) = tape();
    let mut disp = Ssd1322::new(tape);
    assert_eq!(disp.send_command(Command::AllPixelsOn), Ok(()));
    assert_eq!(disp.send_command(Command::SetContrastCurrent(0x80)), Ok(()));
    assert_eq!(
        handle.sent(),
        vec![
            Wire::Command(vec![0xA5]),
            Wire::Command(vec![0xC1]),
            Wire::Data(vec![0x80]),
        ]
    );
    handle.fail_at(Some(3));
    assert_eq!(
        disp.send_command(Command::DisplayOff),
        Err(DisplayError::DCError)
    );
}

#[test]
fn update_box_takes_pixel_columns() {
    let (tape, _handle) = tape();
    let mut disp = Ssd1322::new(tape);
    disp.update_box(255, 63);
    assert_eq!(disp.bounding_box(), Some(([127, 127], [63, 63])));
    disp.update_box(4, 10);
    assert_eq!(disp.bounding_box(), Some(([2, 127], [10, 63])));
    disp.update_box(5, 10);
    assert_eq!(disp.bounding_box(), Some(([2, 127], [10, 63])));
    assert_eq!(disp.num_changed(), 0);
    assert!(disp.buffer().iter().all(|b| *b == 0));
}

#[test]
fn count_of_changes_stops_at_its_maximum() {
    let (tape, _handle) = tape();
    let mut disp = Ssd1322::new(tape);
    for i in 0..70_000u32 {
        let gray = if i % 2 == 0 { 0x0F } else { 0x00 };
        disp.draw_pixel(Pixel(Point::new(0, 0), Gray4::new(gray)));
    }
    assert_eq!(disp.num_changed(), u16::MAX);
    assert_eq!(disp.bounding_box(), Some(([0, 0], [0, 0])));
}

#[derive(Clone, Debug, PartialEq)]
enum Step {
    Low,
    High,
    Wait(u8),
}

struct Pin {
    steps: Rc<RefCell<Vec<Step>>>,
    fail_low: bool,
    fail_high: bool,
}

impl OutputPin for Pin {
    type Error = &'static str;

    fn set_low(&mut self) -> Result<(), Self::Error> {
        if self.fail_low {
            return Err("low");
        }
        self.steps.borrow_mut().push(Step::Low);
        Ok(())
    }

    fn set_high(&mut self) -> Result<(), Self::Error> {
        if self.fail_high {
            return Err("high");
        }
        self.steps.borrow_mut().push(Step::High);
        Ok(())
    }
}

struct Clock {
    steps: Rc<RefCell<Vec<Step>>>,
}

impl DelayMs for Clock {
    fn delay_ms(&mut self, ms: u8) {
        self.steps.borrow_mut().push(Step::Wait(ms));
    }
}

fn reset_line(fail_low: bool, fail_high: bool) -> (ResetLine<Pin, Clock>, Rc<RefCell<Vec<Step>>>) {
    let steps = Rc::new(RefCell::new(Vec::new()));
    let pin = Pin {
        steps: steps.clone(),
        fail_low,
        fail_high,
    };
    let clock = Clock {
        steps: steps.clone(),
    };
    (ResetLine::new(pin, clock), steps)
}

#[test]
fn reset_pulls_the_line_low_then_high() {
    let (tape, handle) = tape();
    let mut disp = Ssd1322::new(tape);
    let (mut line, steps) = reset_line(false, false);
    assert_eq!(disp.reset(&mut line), Ok(()));
    assert_eq!(
        *steps.borrow(),
        vec![Step::Low, Step::Wait(10), Step::High, Step::Wait(200)]
    );
    assert!(handle.sent().is_empty());
    let (pin, _clock) = line.release();
    assert!(!pin.fail_low);
}

#[test]
fn reset_reports_a_failing_pin_as_bus_error() {
    let (tape, _handle) = tape();
    let mut disp = Ssd1322::new(tape);
    let (mut line, steps) = reset_line(true, false);
    assert_eq!(disp.reset(&mut line), Err(DisplayError::BusWriteError));
    assert!(steps.borrow().is_empty());

    let (mut line, steps) = reset_line(false, true);
    assert_eq!(disp.reset(&mut line), Err(DisplayError::BusWriteError));
    assert_eq!(*steps.borrow(), vec![Step::Low, Step::Wait(10)]);
}
