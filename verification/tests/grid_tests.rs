use graphics_vid::color::{Color, CHANNEL_ONE};
use graphics_vid::raster::wu_line;

#[test]
fn test_all_points() {
    let width = 71;
    let height = 43;

    let mut buffer: Vec<Color> = vec![Color { r: 0, g: 0, b: 0, a: 0 }; width * height];
    for y0 in 0..height {
        for x0 in 0..width {
            for y1 in 0..height {
                for x1 in 0..width {
                    wu_line(
                        Color { r: CHANNEL_ONE, g: CHANNEL_ONE, b: CHANNEL_ONE, a: CHANNEL_ONE },
                        (x0 as i32, y0 as i32),
                        (x1 as i32, y1 as i32),
                        width,
                        &mut buffer,
                    );
                }
            }
        }
    }
}
