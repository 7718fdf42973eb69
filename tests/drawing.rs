use graphics::canvas::Canvas;
use graphics::color::Color;
use graphics::math::Point2D;
use graphics::sprite::{Sprite, SpriteExtractor, SpriteSize};

fn count(canvas: &Canvas, color: Color) -> usize {
    canvas.pixels().iter().filter(|c| **c == color).count()
}

#[test]
fn colors() {
    assert_eq!(Color::rgb(1, 2, 3), Color::rgba(1, 2, 3, 255));
    assert_eq!(Color::from_slice(&[1, 2, 3]), Color::rgba(1, 2, 3, 255));
    assert_eq!(Color::from_slice(&[1, 2, 3, 4, 5]), Color::rgba(1, 2, 3, 4));
    assert_eq!(Color::from_bytes(&[9, 8, 7, 6]).as_bytes(), [9, 8, 7, 6]);
    let mut c = Color::white();
    c.set_alpha(7);
    assert_eq!(c.alpha(), 7);
    assert_eq!(Color::rgb(255, 128, 0).difuse(&Color::rgb(128, 255, 77)), Color::rgba(128, 128, 0, 255));
    assert_eq!(Color::black(), Color::rgba(0, 0, 0, 255));
    assert_eq!(Color::transparent().alpha(), 0);
}

#[test]
fn canvas_plot() {
    let mut canvas = Canvas::new(4, 3);
    assert_eq!(canvas.pixels().len(), 12);
    assert_eq!(count(&canvas, Color::black()), 12);
    canvas.plot(1, 2, Color::red());
    // rows are stored from the bottom: (h - y) * w + x
    assert_eq!(canvas.pixels()[5], Color::red());
    canvas.plot(1, 0, Color::red());
    canvas.plot(-1, 1, Color::red());
    canvas.plot(1, 1, Color::transparent());
    assert_eq!(count(&canvas, Color::red()), 1);
    canvas.fill(Color::blue());
    assert_eq!(count(&canvas, Color::blue()), 12);
}

#[test]
fn canvas_lines_and_shapes() {
    let mut canvas = Canvas::new(20, 20);
    canvas.line(1, 1, 10, 1, Color::white());
    assert_eq!(count(&canvas, Color::white()), 9);
    canvas.fill(Color::black());
    canvas.line_between(Point2D::new(2, 2), Point2D::new(8, 5), Color::green());
    assert_eq!(count(&canvas, Color::green()), 7);
    canvas.fill(Color::black());
    canvas.line(3, 2, 5, 12, Color::green());
    assert!(count(&canvas, Color::green()) >= 3);
    canvas.fill(Color::black());
    canvas.rectangle(Point2D::new(2, 2), 5, 5, Color::red());
    assert!(count(&canvas, Color::red()) > 0);
    canvas.fill_rectangle(&Point2D::new(2, 2), 5, 5, Color::blue());
    assert!(count(&canvas, Color::blue()) >= 25);
    canvas.fill(Color::black());
    canvas.circle(Point2D::new(10, 10), 4, Color::white());
    assert!(count(&canvas, Color::white()) > 8);
    canvas.fill_circle(Point2D::new(10, 10), 4, Color::red());
    assert!(count(&canvas, Color::red()) > 30);
    canvas.fill(Color::black());
    canvas.triangle(Point2D::new(2, 2), Point2D::new(15, 3), Point2D::new(8, 15), Color::white());
    canvas.fill_triangle(Point2D::new(2, 2), Point2D::new(15, 3), Point2D::new(8, 15), Color::green());
    assert!(count(&canvas, Color::green()) > 20);
    canvas.connect_points(&vec![Point2D::new(1, 1), Point2D::new(5, 1), Point2D::new(5, 5)], Color::blue());
    assert!(count(&canvas, Color::blue()) > 0);
    // shapes far off the canvas change nothing
    let before = canvas.pixels().clone();
    canvas.fill_circle(Point2D::new(i32::MAX, i32::MIN), 3, Color::red());
    canvas.line(i32::MIN, i32::MIN, i32::MAX, i32::MIN, Color::red());
    assert_eq!(canvas.pixels(), &before);
}

#[test]
fn sprites() {
    let pixels: Vec<Color> = (0..16u8).map(|i| Color::rgb(i, 0, 0)).collect();
    let sprite = Sprite { width: 4, height: 4, pixels: pixels.clone() };
    assert_eq!(sprite.get_pixel(1, 2), Some(Color::rgb(9, 0, 0)));
    assert_eq!(sprite.get_pixel(4, 0), None);
    let mut extractor = SpriteExtractor::new(4, 4, SpriteSize::new(2, 2), 0, 0, pixels);
    let tile = extractor.extract_sprite(Point2D::new(1, 1), SpriteSize::new(2, 2)).unwrap();
    assert_eq!(tile.pixels, vec![Color::rgb(5, 0, 0), Color::rgb(6, 0, 0), Color::rgb(9, 0, 0), Color::rgb(10, 0, 0)]);
    assert!(extractor.extract_sprite(Point2D::new(2, 0), SpriteSize::new(2, 2)).is_none());
    assert!(extractor.extract_sprite(Point2D::new(-1, 0), SpriteSize::new(2, 2)).is_none());
    let first = extractor.next_sprite().unwrap();
    assert_eq!(first.pixels, vec![Color::rgb(0, 0, 0), Color::rgb(1, 0, 0), Color::rgb(4, 0, 0), Color::rgb(5, 0, 0)]);
    assert_eq!(extractor.extract_whole().pixels.len(), 16);
    let mut canvas = Canvas::new(8, 8);
    canvas.sprite(Point2D::new(1, 1), &tile);
    assert_eq!(count(&canvas, Color::rgb(10, 0, 0)), 1);
}

#[test]
fn color_arithmetic() {
    assert_eq!(Color::rgba(10, 20, 30, 0) + Color::rgba(1, 2, 3, 9), Color::rgb(11, 22, 33));
    assert_eq!(Color::rgba(10, 20, 30, 0) - Color::rgba(1, 2, 3, 9), Color::rgb(9, 18, 27));
}

fn row_pixels(canvas: &Canvas, y: u32) -> Vec<Color> {
    let w = canvas.width() as usize;
    let start = (canvas.height() - y) as usize * w;
    canvas.pixels()[start..start + w].to_vec()
}

#[test]
fn figures_stay_in_their_bounding_box() {
    let mut canvas = Canvas::new(20, 20);
    // flat-topped triangle: nothing above its top row
    canvas.fill_triangle(Point2D::new(2, 5), Point2D::new(12, 5), Point2D::new(7, 15), Color::red());
    assert!(row_pixels(&canvas, 4).iter().all(|c| *c == Color::black()));
    assert!(row_pixels(&canvas, 16).iter().all(|c| *c == Color::black()));
    assert!(row_pixels(&canvas, 10).iter().any(|c| *c == Color::red()));
    canvas.fill(Color::black());
    canvas.line_between(Point2D::new(3, 3), Point2D::new(6, 15), Color::green());
    for y in 1..20u32 {
        let row = row_pixels(&canvas, y);
        for (x, c) in row.iter().enumerate() {
            if *c == Color::green() {
                assert!((3..=6).contains(&x) && (3..=15).contains(&y));
            }
        }
    }
    // a steep line stops once x reaches its end column: here at row 13
    assert!(row_pixels(&canvas, 13).iter().any(|c| *c == Color::green()));
}

#[test]
fn too_few_points_draw_nothing() {
    let mut canvas = Canvas::new(10, 10);
    canvas.connect_points(&vec![Point2D::new(1, 1), Point2D::new(5, 5)], Color::red());
    assert_eq!(count(&canvas, Color::red()), 0);
}

#[test]
fn sprite_rows_past_the_buffer_are_left_out() {
    // a 4x4 image with only 10 pixels stored
    let pixels: Vec<Color> = (0..10u8).map(|i| Color::rgb(i, 0, 0)).collect();
    let mut extractor = SpriteExtractor::new(4, 4, SpriteSize::new(2, 2), 0, 0, pixels);
    let tile = extractor.extract_sprite(Point2D::new(1, 1), SpriteSize::new(2, 2)).unwrap();
    assert_eq!(tile.pixels, vec![Color::rgb(5, 0, 0), Color::rgb(6, 0, 0)]);
}
