use line_rs::{calculate_line, Point};

fn pts<T: Copy>(v: &[(T, T)]) -> Vec<Point<T>> {
    v.iter().map(|&(x, y)| Point { x, y }).collect()
}

#[test]
fn it_works() {
    let p1 = Point::new(3, 9);
    let p2 = Point::new(1, 1);
    let line = calculate_line(p1, p2);
    let expected = vec![
        Point { x: 3, y: 9 },
        Point { x: 3, y: 8 },
        Point { x: 2, y: 7 },
        Point { x: 2, y: 6 },
        Point { x: 2, y: 5 },
        Point { x: 2, y: 4 },
        Point { x: 1, y: 3 },
        Point { x: 1, y: 2 },
        Point { x: 1, y: 1 },
    ];
    assert_eq!(line, expected);
}

#[test]
fn with_isize() {
    let x1: isize = 6;
    let y1: isize = 5;
    let x2: isize = 10;
    let y2: isize = 5;
    let p1 = Point::new(x1, y1);
    let p2 = Point::new(x2, y2);
    let line = calculate_line(p1, p2);
    let expected = vec![
        Point { x: 6, y: 5 },
        Point { x: 7, y: 5 },
        Point { x: 8, y: 5 },
        Point { x: 9, y: 5 },
        Point { x: 10, y: 5 },
    ];
    assert_eq!(line, expected);
}

#[test]
fn with_u32() {
    let x1: u32 = 6;
    let y1: u32 = 5;
    let x2: u32 = 10;
    let y2: u32 = 5;
    let p1 = Point::new(x1, y1);
    let p2 = Point::new(x2, y2);
    let line = calculate_line(p1, p2);
    let expected = vec![
        Point { x: 6, y: 5 },
        Point { x: 7, y: 5 },
        Point { x: 8, y: 5 },
        Point { x: 9, y: 5 },
        Point { x: 10, y: 5 },
    ];
    assert_eq!(line, expected);
}

#[test]
fn point_new_keeps_coordinates() {
    let p = Point::new(-4i16, 7i16);
    assert_eq!(p.x, -4);
    assert_eq!(p.y, 7);
}

#[test]
fn degenerate_line_is_one_point() {
    assert_eq!(calculate_line(Point::new(3, 9), Point::new(3, 9)), pts(&[(3, 9)]));
    assert_eq!(calculate_line(Point::new(3u8, 9u8), Point::new(3u8, 9u8)), pts(&[(3u8, 9u8)]));
}

#[test]
fn steep_descending_unsigned() {
    let line = calculate_line(Point::new(3u8, 9u8), Point::new(1u8, 1u8));
    let expected = pts(&[
        (3u8, 9u8),
        (3, 8),
        (2, 7),
        (2, 6),
        (2, 5),
        (2, 4),
        (1, 3),
        (1, 2),
        (1, 1),
    ]);
    assert_eq!(line, expected);
}

#[test]
fn horizontal_same_for_signed_and_unsigned() {
    let signed = calculate_line(Point::new(6i8, 5i8), Point::new(10i8, 5i8));
    let unsigned = calculate_line(Point::new(6u16, 5u16), Point::new(10u16, 5u16));
    let a: Vec<(i64, i64)> = signed.iter().map(|p| (p.x as i64, p.y as i64)).collect();
    let b: Vec<(i64, i64)> = unsigned.iter().map(|p| (p.x as i64, p.y as i64)).collect();
    assert_eq!(a, vec![(6, 5), (7, 5), (8, 5), (9, 5), (10, 5)]);
    assert_eq!(a, b);
}

#[test]
fn signed_and_unsigned_agree_on_nonnegative_lines() {
    let ends: [(u8, u8, u8, u8); 6] =
        [(0, 0, 7, 3), (7, 3, 0, 0), (2, 9, 5, 0), (5, 0, 2, 9), (10, 10, 10, 0), (0, 4, 8, 4)];
    for &(x1, y1, x2, y2) in ends.iter() {
        let unsigned = calculate_line(Point::new(x1 as u32, y1 as u32), Point::new(x2 as u32, y2 as u32));
        let signed = calculate_line(Point::new(x1 as i16, y1 as i16), Point::new(x2 as i16, y2 as i16));
        let a: Vec<(i64, i64)> = unsigned.iter().map(|p| (p.x as i64, p.y as i64)).collect();
        let b: Vec<(i64, i64)> = signed.iter().map(|p| (p.x as i64, p.y as i64)).collect();
        assert_eq!(a, b);
    }
}

#[test]
fn shallow_line_exact_points() {
    let line = calculate_line(Point::new(0, 0), Point::new(5, 2));
    assert_eq!(line, pts(&[(0, 0), (1, 0), (2, 1), (3, 1), (4, 2), (5, 2)]));
}

#[test]
fn tie_in_decision_advances_minor_axis() {
    let line = calculate_line(Point::new(0, 0), Point::new(4, 2));
    assert_eq!(line, pts(&[(0, 0), (1, 1), (2, 1), (3, 2), (4, 2)]));
}

#[test]
fn vertical_line_descending() {
    let line = calculate_line(Point::new(2usize, 4usize), Point::new(2usize, 1usize));
    assert_eq!(line, pts(&[(2usize, 4usize), (2, 3), (2, 2), (2, 1)]));
}

#[test]
fn diagonal_at_largest_unsigned_extent() {
    // twice the distance is 254, just within u8
    let line = calculate_line(Point::new(0u8, 0u8), Point::new(127u8, 127u8));
    assert_eq!(line.len(), 128);
    for (k, p) in line.iter().enumerate() {
        assert_eq!((p.x as usize, p.y as usize), (k, k));
    }
}

#[test]
fn descending_at_largest_signed_extent() {
    // twice the distance is 126, just within i8
    let line = calculate_line(Point::new(63i8, -128i8), Point::new(0i8, -100i8));
    assert_eq!(line.len(), 64);
    assert_eq!(line[0], Point::new(63, -128));
    assert_eq!(line[63], Point::new(0, -100));
}

fn check_line(x1: i32, y1: i32, x2: i32, y2: i32) {
    let line = calculate_line(Point::new(x1, y1), Point::new(x2, y2));
    let dx = (x2 - x1).abs();
    let dy = (y2 - y1).abs();
    assert_eq!(line.len() as i32, dx.max(dy) + 1);
    assert_eq!(line[0], Point::new(x1, y1));
    assert_eq!(line[line.len() - 1], Point::new(x2, y2));
    for w in line.windows(2) {
        let (u, v) = (w[0], w[1]);
        assert!((v.x - u.x).abs() <= 1 && (v.y - u.y).abs() <= 1);
        assert!(u != v);
        if x2 >= x1 {
            assert!(u.x <= v.x);
        } else {
            assert!(u.x >= v.x);
        }
        if y2 >= y1 {
            assert!(u.y <= v.y);
        } else {
            assert!(u.y >= v.y);
        }
    }
}

#[test]
fn all_octants_keep_endpoints_length_steps_and_direction() {
    let ends = [
        (7, 3),
        (3, 7),
        (-3, 7),
        (-7, 3),
        (-7, -3),
        (-3, -7),
        (3, -7),
        (7, -3),
        (5, 5),
        (-5, 5),
        (0, 6),
        (-6, 0),
    ];
    for &(dx, dy) in ends.iter() {
        check_line(1, -2, 1 + dx, -2 + dy);
    }
}
