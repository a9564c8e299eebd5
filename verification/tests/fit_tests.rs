use smart_garden::qr_fit::{fit, fitted_grid};

fn picture(rows: &[&str]) -> String {
    rows.join("\n")
}

#[test]
fn fit_is_62_by_62_bits() {
    let res = fit(picture(&["█ █", " █ ", "█ █"]));
    assert_eq!(res.len(), 62);
    for row in &res {
        assert_eq!(row.len(), 62);
        assert!(row.iter().all(|b| *b <= 1));
    }
}

#[test]
fn fit_scales_two_by_two_into_blocks() {
    // Row 0 is dark, light; row 1 is light, dark.
    let res = fit(picture(&["█ ", " █"]));
    for x in 0..62 {
        for y in 0..62 {
            let expected = if (x < 31) == (y < 31) { 1 } else { 0 };
            assert_eq!(res[x][y], expected, "x={} y={}", x, y);
        }
    }
}

#[test]
fn fit_copies_a_62_square_picture() {
    let mut rows: Vec<String> = Vec::new();
    for x in 0..62usize {
        let row: String = (0..62usize).map(|y| if (x * 7 + y * 3) % 5 == 0 { '█' } else { ' ' }).collect();
        rows.push(row);
    }
    let refs: Vec<&str> = rows.iter().map(|r| r.as_str()).collect();
    let res = fit(picture(&refs));
    for x in 0..62usize {
        for y in 0..62usize {
            let expected = if (x * 7 + y * 3) % 5 == 0 { 1 } else { 0 };
            assert_eq!(res[x][y], expected);
        }
    }
}

#[test]
fn fit_reads_any_non_space_as_dark() {
    let res = fit(picture(&["x"]));
    assert!(res.iter().all(|row| row.iter().all(|b| *b == 1)));
    let res = fit(picture(&[" "]));
    assert!(res.iter().all(|row| row.iter().all(|b| *b == 0)));
}

#[test]
fn fit_ignores_cells_beyond_the_square() {
    // Two rows, so only the first two cells of each row count.
    let a = fit(picture(&["█ xxxx", " █    "]));
    let b = fit(picture(&["█ ", " █"]));
    assert_eq!(a, b);
}

fn complement(text: &str) -> String {
    text.chars()
        .map(|c| if c == ' ' { '█' } else if c == '\n' { '\n' } else { ' ' })
        .collect()
}

fn transpose(rows: &[String]) -> Vec<String> {
    let cells: Vec<Vec<char>> = rows.iter().map(|r| r.chars().collect()).collect();
    (0..cells.len()).map(|j| cells.iter().map(|r| r[j]).collect()).collect()
}

fn sample_rows(n: usize) -> Vec<String> {
    (0..n)
        .map(|x| (0..n).map(|y| if (x * 5 + y * y + 3) % 4 == 0 { '█' } else { ' ' }).collect())
        .collect()
}

#[test]
fn fit_of_complement_is_complement() {
    for n in [1usize, 2, 5, 21, 25, 61, 62, 63, 70] {
        let text = sample_rows(n).join("\n");
        let a = fit(text.clone());
        let b = fit(complement(&text));
        for x in 0..62 {
            for y in 0..62 {
                assert_eq!(b[x][y], 1 - a[x][y], "n={} x={} y={}", n, x, y);
            }
        }
    }
}

#[test]
fn fit_of_transpose_is_transpose() {
    for n in [1usize, 2, 5, 21, 25, 61, 62, 63, 70] {
        let rows = sample_rows(n);
        let a = fit(rows.join("\n"));
        let b = fit(transpose(&rows).join("\n"));
        for x in 0..62 {
            for y in 0..62 {
                assert_eq!(b[x][y], a[y][x], "n={} x={} y={}", n, x, y);
            }
        }
    }
}

#[test]
fn fitted_grid_reads_black_pixels() {
    let mut image = vec![255u8; 62 * 62];
    image[0] = 0;
    image[3 * 62 + 5] = 0;
    image[61 * 62 + 61] = 7;
    let grid = fitted_grid(&image);
    assert_eq!(grid.len(), 62);
    assert_eq!(grid[0][0], 1);
    assert_eq!(grid[5][3], 1);
    assert_eq!(grid[3][5], 0);
    assert_eq!(grid[61][61], 0);
    let ones: usize = grid.iter().map(|r| r.iter().filter(|b| **b == 1).count()).sum();
    assert_eq!(ones, 2);
}
