use embedded_graphics::draw_target::DrawTarget;
use embedded_graphics::geometry::{OriginDimensions, Size};
use embedded_graphics::mono_font::{ascii::FONT_6X10, MonoTextStyleBuilder};
use embedded_graphics::pixelcolor::GrayColor;
use embedded_graphics::text::{Baseline, Text};
use embedded_graphics::Drawable;
use ssd1322::display::Ssd1322;
use ssd1322::interface::{DisplayError, WriteOnlyDataCommand};
use ssd1322::pixel::{Gray4, Pixel, Point};

type Result = core::result::Result<(), DisplayError>;

pub struct TestInterface1 {}

impl WriteOnlyDataCommand for TestInterface1 {
    fn send_commands(&mut self, _cmds: &[u8]) -> Result {
        Ok(())
    }

    fn send_data(&mut self, _buf: &[u8]) -> Result {
        Ok(())
    }
}

/// Lets the text renderer draw on the display.
struct Target(Ssd1322<TestInterface1>);

impl DrawTarget for Target {
    type Color = embedded_graphics::pixelcolor::Gray4;
    type Error = core::convert::Infallible;

    fn draw_iter<I>(&mut self, pixels: I) -> core::result::Result<(), Self::Error>
    where
        I: IntoIterator<Item = embedded_graphics::Pixel<Self::Color>>,
    {
        for embedded_graphics::Pixel(coord, color) in pixels.into_iter() {
            self.0
                .draw_pixel(Pixel(Point::new(coord.x, coord.y), Gray4::new(color.luma())));
        }
        Ok(())
    }
}

impl OriginDimensions for Target {
    fn size(&self) -> Size {
        let (width, height) = self.0.size();
        Size::new(width, height)
    }
}

#[test]
/// Tests the character '|'. The framebuffer looks like starting from beginning of row 0
/// where each '.' represents a pixel.
/// ......
/// ..x...
/// ..x...
/// ..x...
/// ..x...
/// ..x...
/// ..x...
/// ..x...
///
fn single_char_one_col() {
    let s = TestInterface1 {};
    let mut disp = Target(Ssd1322::new(s));

    let text_style = MonoTextStyleBuilder::new()
        .font(&FONT_6X10)
        .text_color(embedded_graphics::pixelcolor::Gray4::new(0b0000_1111))
        .build();

    Text::with_baseline(
        "|",
        embedded_graphics::geometry::Point::new(0, 0),
        text_style,
        Baseline::Top,
    )
    .draw(&mut disp)
    .unwrap();

    let disp = &mut disp.0;
    assert_eq!(disp.bounding_box().unwrap().0[0], 1);
    assert_eq!(disp.bounding_box().unwrap().0[1], 1);
    assert_eq!(disp.bounding_box().unwrap().1[0], 1);
    assert_eq!(disp.bounding_box().unwrap().1[1], 7);
    assert_eq!(disp.num_changed(), 7);

    for i in 1..8 {
        let start = i * 128;
        assert_eq!(&disp.buffer()[start..start + 3], [0, 0xf0, 0]);
    }

    let _ = disp.flush();
}

#[test]
/// Tests the character 'A'. The framebuffer looks like starting from beginning of row 0
/// where each '.' represents a pixel.
/// ......
/// ..x...
/// .x.x..
/// x...x.
/// x...x.
/// xxxxx.
/// x...x.
/// x...x.
///
fn single_char_multi_col() {
    let s = TestInterface1 {};
    let mut disp = Target(Ssd1322::new(s));

    let text_style = MonoTextStyleBuilder::new()
        .font(&FONT_6X10)
        .text_color(embedded_graphics::pixelcolor::Gray4::new(0b0000_1111))
        .build();

    Text::with_baseline(
        "A",
        embedded_graphics::geometry::Point::new(0, 0),
        text_style,
        Baseline::Top,
    )
    .draw(&mut disp)
    .unwrap();

    let disp = &mut disp.0;
    assert_eq!(disp.bounding_box().unwrap().0[0], 0);
    assert_eq!(disp.bounding_box().unwrap().0[1], 2);
    assert_eq!(disp.bounding_box().unwrap().1[0], 1);
    assert_eq!(disp.bounding_box().unwrap().1[1], 7);
    assert_eq!(disp.num_changed(), 16);

    let _ = disp.flush();
}

#[test]
/// Tests the character 'A' at an offset.
/// .......
/// .......
/// .......
/// .......
/// .......
/// .......
/// ...x...
/// ..x.x..
/// .x...x.
/// .x...x.
/// .xxxxx.
/// .x...x.
/// .x...x.
///
fn single_char_offset() {
    let s = TestInterface1 {};
    let mut disp = Target(Ssd1322::new(s));

    let text_style = MonoTextStyleBuilder::new()
        .font(&FONT_6X10)
        .text_color(embedded_graphics::pixelcolor::Gray4::new(0b0000_1111))
        .build();

    Text::with_baseline(
        "A",
        embedded_graphics::geometry::Point::new(1, 5),
        text_style,
        Baseline::Top,
    )
    .draw(&mut disp)
    .unwrap();

    let disp = &mut disp.0;
    assert_eq!(disp.bounding_box().unwrap().0[0], 0);
    assert_eq!(disp.bounding_box().unwrap().0[1], 2);
    assert_eq!(disp.bounding_box().unwrap().1[0], 6);
    assert_eq!(disp.bounding_box().unwrap().1[1], 12);
    assert_eq!(disp.num_changed(), 16);

    let _ = disp.flush();
}

#[test]
/// Tests the character 'A' clipped at the right.
/// .......
/// ....... x
/// .......x x
/// ......x   x
/// ......x   x
/// ......xxxxx
/// ......x   x
/// ......x   x
///
fn single_char_clipped() {
    let s = TestInterface1 {};
    let mut disp = Target(Ssd1322::new(s));

    let text_style = MonoTextStyleBuilder::new()
        .font(&FONT_6X10)
        .text_color(embedded_graphics::pixelcolor::Gray4::new(0b0000_1111))
        .build();

    Text::with_baseline(
        "A",
        embedded_graphics::geometry::Point::new(255, 0),
        text_style,
        Baseline::Top,
    )
    .draw(&mut disp)
    .unwrap();

    let disp = &mut disp.0;
    assert_eq!(disp.bounding_box().unwrap().0[0], 127);
    assert_eq!(disp.bounding_box().unwrap().0[1], 127);
    assert_eq!(disp.bounding_box().unwrap().1[0], 3);
    assert_eq!(disp.bounding_box().unwrap().1[1], 7);
    assert_eq!(disp.num_changed(), 5);

    let _ = disp.flush();
}
