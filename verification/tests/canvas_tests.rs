use layerscript::canvas::Canvas;
use layerscript::canvas::CanvasError;
use layerscript::canvas::PaintStyle;
use layerscript::canvas::decimal_digits;

fn canvas(width: u32, height: u32) -> Canvas {
    Canvas::new(width, height, vec![0u32; (width * height) as usize])
}

#[test]
fn new_canvas_is_white_with_black_fill_paint() {
    let c = canvas(8, 8);
    assert_eq!(c.pixel_at(0, 0), 0xFFFFFFFF);
    assert_eq!(c.pixel_at(7, 7), 0xFFFFFFFF);
    assert_eq!(c.paint.color, 0xFF000000);
    assert_eq!(c.paint.style, PaintStyle::Fill);
    assert_eq!(c.paint.stroke_width, 1);
}

#[test]
fn clear_fills_every_pixel() {
    let mut c = canvas(10, 10);
    c.clear(0xFF123456);
    for x in 0..10 {
        for y in 0..10 {
            assert_eq!(c.pixel_at(x, y), 0xFF123456);
        }
    }
}

#[test]
fn scenario_circle_on_cleared_background() {
    let mut c = canvas(100, 100);
    c.clear(0xFF000000);
    c.set_paint_colour(0xFFFFFFFF);
    c.draw_circle(50, 50, 10);
    assert_ne!(c.pixel_at(50, 50), 0xFF000000);
    assert_eq!(c.pixel_at(50, 50), 0xFFFFFFFF);
    assert_eq!(c.pixel_at(0, 0), 0xFF000000);
    assert_eq!(c.pixel_at(50, 65), 0xFF000000);
}

#[test]
fn out_of_bounds_drawing_changes_nothing() {
    let mut c = canvas(20, 20);
    c.clear(0xFF0000FF);
    c.draw_rect(-50, -50, 20, 20);
    c.draw_rect(1000, 1000, 50, 50);
    c.draw_circle(-100, -100, 30);
    c.draw_line(-500, -500, -400, -400);
    for x in 0..20 {
        for y in 0..20 {
            assert_eq!(c.pixel_at(x, y), 0xFF0000FF);
        }
    }
}

#[test]
fn partially_clipped_rect_paints_only_inside() {
    let mut c = canvas(20, 20);
    c.clear(0xFF0000FF);
    c.set_paint_colour(0xFF00FF00);
    c.draw_rect(15, 15, 50, 50);
    assert_eq!(c.pixel_at(16, 16), 0xFF00FF00);
    assert_eq!(c.pixel_at(19, 19), 0xFF00FF00);
    assert_eq!(c.pixel_at(10, 10), 0xFF0000FF);
}

#[test]
fn negative_radius_draws_nothing() {
    let mut c = canvas(20, 20);
    c.clear(0xFF0000FF);
    c.draw_circle(10, 10, -5);
    assert_eq!(c.pixel_at(10, 10), 0xFF0000FF);
}

#[test]
fn stroke_rect_paints_the_border_only() {
    let mut c = canvas(20, 20);
    c.clear(0xFFFFFFFF);
    c.set_paint_colour(0xFF000000);
    c.set_paint_style(PaintStyle::Stroke);
    c.draw_rect(5, 5, 10, 10);
    assert_eq!(c.pixel_at(5, 5), 0xFF000000);
    assert_eq!(c.pixel_at(10, 10), 0xFFFFFFFF);
}

#[test]
fn lines_hit_their_endpoints() {
    let mut c = canvas(20, 20);
    c.clear(0xFFFFFFFF);
    c.set_paint_colour(0xFFAA0000);
    c.draw_line(2, 3, 12, 3);
    assert_eq!(c.pixel_at(2, 3), 0xFFAA0000);
    assert_eq!(c.pixel_at(7, 3), 0xFFAA0000);
    assert_eq!(c.pixel_at(12, 3), 0xFFAA0000);
    assert_eq!(c.pixel_at(7, 4), 0xFFFFFFFF);
}

#[test]
fn translate_moves_subsequent_drawing() {
    let mut c = canvas(30, 30);
    c.clear(0xFFFFFFFF);
    c.set_paint_colour(0xFF112233);
    c.translate(10, 10);
    c.draw_rect(0, 0, 5, 5);
    assert_eq!(c.pixel_at(12, 12), 0xFF112233);
    assert_eq!(c.pixel_at(2, 2), 0xFFFFFFFF);
}

#[test]
fn scale_stretches_extents() {
    let mut c = canvas(30, 30);
    c.clear(0xFFFFFFFF);
    c.set_paint_colour(0xFF112233);
    c.scale(2000, 2000);
    c.draw_rect(0, 0, 5, 5);
    assert_eq!(c.pixel_at(8, 8), 0xFF112233);
    assert_eq!(c.pixel_at(12, 12), 0xFFFFFFFF);
}

#[test]
fn paint_style_strings_are_validated() {
    let mut c = canvas(4, 4);
    assert!(c.set_paint_style_name(&"stroke".to_string()).is_ok());
    assert_eq!(c.paint.style, PaintStyle::Stroke);
    assert!(c.set_paint_style_name(&"fill".to_string()).is_ok());
    assert_eq!(c.paint.style, PaintStyle::Fill);
    assert_eq!(
        c.set_paint_style_name(&"dotted".to_string()).unwrap_err(),
        CanvasError::UnknownPaintStyle
    );
    assert_eq!(c.paint.style, PaintStyle::Fill);
}

#[test]
fn stroked_path_follows_its_segments() {
    let mut c = canvas(30, 30);
    c.clear(0xFFFFFFFF);
    c.set_paint_colour(0xFF000000);
    c.move_to(5, 5);
    c.line_to(25, 5);
    c.draw_path_stroke();
    assert_eq!(c.pixel_at(15, 5), 0xFF000000);
    assert_eq!(c.pixel_at(15, 10), 0xFFFFFFFF);
}

#[test]
fn filled_path_covers_its_interior() {
    let mut c = canvas(30, 30);
    c.clear(0xFFFFFFFF);
    c.set_paint_colour(0xFF00AA00);
    c.move_to(2, 2);
    c.line_to(20, 2);
    c.line_to(20, 20);
    c.line_to(2, 20);
    c.close_path();
    c.draw_path_fill();
    assert_eq!(c.pixel_at(10, 10), 0xFF00AA00);
    assert_eq!(c.pixel_at(25, 25), 0xFFFFFFFF);
}

#[test]
fn curves_are_flattened_into_the_path() {
    let mut c = canvas(40, 40);
    c.clear(0xFFFFFFFF);
    c.set_paint_colour(0xFF000000);
    c.move_to(5, 20);
    c.bezier_curve_to(15, 5, 25, 5, 35, 20);
    c.draw_path_stroke();
    assert_eq!(c.pixel_at(5, 20), 0xFF000000);
    assert_eq!(c.pixel_at(35, 20), 0xFF000000);
    let mut touched = false;
    for y in 5..20 {
        if c.pixel_at(20, y) == 0xFF000000 {
            touched = true;
        }
    }
    assert!(touched);
}

#[test]
fn text_renders_digit_glyphs() {
    let mut c = canvas(20, 20);
    c.clear(0xFFFFFFFF);
    c.set_paint_colour(0xFF000000);
    c.draw_text(0, 0, &b"1".to_vec());
    assert_eq!(c.pixel_at(2, 0), 0xFF000000);
    assert_eq!(c.pixel_at(0, 0), 0xFFFFFFFF);
    assert_eq!(c.pixel_at(1, 6), 0xFF000000);
}

#[test]
fn fps_overlay_draws_box_outline_and_text() {
    let mut c = canvas(120, 30);
    c.draw_fps(62);
    assert_eq!(c.pixel_at(4, 4), 0xFFFFFF00);
    assert_eq!(c.pixel_at(2, 2), 0xFF000000);
    assert_eq!(c.pixel_at(110, 25), 0xFFFFFFFF);
    assert_eq!(c.paint.color, 0xFF000000);
    assert_eq!(c.paint.style, PaintStyle::Fill);
    assert_eq!(c.paint.stroke_width, 1);
}

#[test]
fn image_pixels_are_blitted_unscaled() {
    let mut c = canvas(10, 10);
    c.clear(0xFFFFFFFF);
    let src = vec![0xFF111111, 0xFF222222, 0xFF333333, 0xFF444444];
    c.draw_image(3, 3, 2, 2, &src, 2, 2);
    assert_eq!(c.pixel_at(3, 3), 0xFF111111);
    assert_eq!(c.pixel_at(4, 3), 0xFF222222);
    assert_eq!(c.pixel_at(3, 4), 0xFF333333);
    assert_eq!(c.pixel_at(4, 4), 0xFF444444);
    assert_eq!(c.pixel_at(5, 5), 0xFFFFFFFF);
}

#[test]
fn image_scaling_samples_nearest_neighbour() {
    let mut c = canvas(10, 10);
    c.clear(0xFFFFFFFF);
    let src = vec![0xFF111111, 0xFF222222, 0xFF333333, 0xFF444444];
    c.draw_image(0, 0, 4, 4, &src, 2, 2);
    assert_eq!(c.pixel_at(0, 0), 0xFF111111);
    assert_eq!(c.pixel_at(3, 0), 0xFF222222);
    assert_eq!(c.pixel_at(0, 3), 0xFF333333);
    assert_eq!(c.pixel_at(3, 3), 0xFF444444);
}

#[test]
fn decimal_digits_format_numbers() {
    assert_eq!(decimal_digits(0), b"0".to_vec());
    assert_eq!(decimal_digits(62), b"62".to_vec());
    assert_eq!(decimal_digits(4294967295), b"4294967295".to_vec());
}

#[test]
fn stroke_width_thickens_lines() {
    let mut c = canvas(20, 20);
    c.clear(0xFFFFFFFF);
    c.set_paint_colour(0xFF000000);
    c.set_line_width(4);
    c.draw_line(5, 10, 15, 10);
    assert_eq!(c.pixel_at(10, 8), 0xFF000000);
    assert_eq!(c.pixel_at(10, 12), 0xFF000000);
    assert_eq!(c.pixel_at(10, 15), 0xFFFFFFFF);
}

#[test]
fn test_scene_composes_its_parts() {
    let mut c = canvas(600, 100);
    c.draw_test_scene(100);
    assert_eq!(c.pixel_at(0, 0), 0xFF707070);
    assert_eq!(c.pixel_at(500, 50), 0xFFFFFF00);
    assert_eq!(c.pixel_at(495, 50), 0xFF000000);
    assert_eq!(c.pixel_at(150, 60), 0xFF0000FF);
    assert_eq!(c.pixel_at(99, 60), 0xFF707070);
    assert_eq!(c.paint.color, 0xFF0000FF);
    assert_eq!(c.paint.style, PaintStyle::Fill);
}
