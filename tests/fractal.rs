use sprite_anim::fractal::{colors_for_depth, render, sierpinski, Color, Painted, Triangle};
use sprite_anim::geometry::Point;

fn outer() -> Triangle {
    Triangle {
        top: Point { x: 300, y: 0 },
        left: Point { x: 0, y: 600 },
        right: Point { x: 600, y: 600 },
    }
}

const GREEN: Color = Color { r: 0, g: 255, b: 0 };

fn palette(n: usize) -> Vec<Color> {
    (0..n).map(|i| Color { r: i as u8, g: (i * 7) as u8, b: 200 }).collect()
}

#[test]
fn depth_counts_follow_the_recursion() {
    let colors = palette(64);
    assert_eq!(sierpinski(outer(), GREEN, 0, &colors).len(), 1);
    assert_eq!(sierpinski(outer(), GREEN, 1, &colors).len(), 1);
    assert_eq!(sierpinski(outer(), GREEN, 2, &colors).len(), 4);
    assert_eq!(sierpinski(outer(), GREEN, 3, &colors).len(), 13);
    assert_eq!(sierpinski(outer(), GREEN, 4, &colors).len(), 40);
}

#[test]
fn colors_needed_per_depth() {
    assert_eq!(colors_for_depth(0), Some(0));
    assert_eq!(colors_for_depth(1), Some(0));
    assert_eq!(colors_for_depth(2), Some(1));
    assert_eq!(colors_for_depth(3), Some(4));
    assert_eq!(colors_for_depth(5), Some(40));
    assert_eq!(colors_for_depth(200), None);
}

#[test]
fn depth_two_draws_outer_then_three_corners_in_one_fresh_colour() {
    let colors = palette(1);
    let drawn = sierpinski(outer(), GREEN, 2, &colors);
    let c = colors[0];
    assert_eq!(drawn[0], Painted { shape: outer(), color: GREEN });
    assert_eq!(
        drawn[1],
        Painted {
            shape: Triangle {
                top: Point { x: 300, y: 0 },
                left: Point { x: 150, y: 300 },
                right: Point { x: 450, y: 300 },
            },
            color: c,
        }
    );
    assert_eq!(
        drawn[2],
        Painted {
            shape: Triangle {
                top: Point { x: 150, y: 300 },
                left: Point { x: 0, y: 600 },
                right: Point { x: 300, y: 600 },
            },
            color: c,
        }
    );
    assert_eq!(
        drawn[3],
        Painted {
            shape: Triangle {
                top: Point { x: 450, y: 300 },
                left: Point { x: 300, y: 600 },
                right: Point { x: 600, y: 600 },
            },
            color: c,
        }
    );
}

#[test]
fn depth_three_takes_colours_depth_first() {
    let colors = palette(4);
    let drawn = sierpinski(outer(), GREEN, 3, &colors);
    let got: Vec<Color> = drawn.iter().map(|p| p.color).collect();
    let (c0, c1, c2, c3) = (colors[0], colors[1], colors[2], colors[3]);
    assert_eq!(got, vec![GREEN, c0, c1, c1, c1, c0, c2, c2, c2, c0, c3, c3, c3]);
}

#[test]
fn render_appends_and_reports_next_colour() {
    let colors = palette(10);
    let mut out = vec![Painted { shape: outer(), color: GREEN }];
    let next = render(&mut out, outer(), GREEN, 3, &colors, 5);
    assert_eq!(next, 9);
    assert_eq!(out.len(), 14);
    assert_eq!(out[2].color, colors[5]);
}
