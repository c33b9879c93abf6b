use fractal::palette::{color_for, Color};
use fractal::render::{do_work, draw_axes, merge_tiles, partition_rows};

fn grid() -> Vec<Vec<Option<u16>>> {
    vec![
        vec![Some(0), Some(100), None],
        vec![Some(256), None, Some(32)],
        vec![None, Some(1023), Some(64)],
        vec![Some(160), Some(192), Some(128)],
    ]
}

#[test]
fn tile_colors_each_pixel() {
    let results = grid();
    let colors = do_work(&results);
    assert_eq!(colors.len(), results.len());
    for (row, source) in colors.iter().zip(results.iter()) {
        assert_eq!(row.len(), source.len());
        for (c, e) in row.iter().zip(source.iter()) {
            assert_eq!(*c, color_for(*e));
        }
    }
}

#[test]
fn one_tile_equals_many_tiles() {
    let results = grid();
    let whole = do_work(&results);
    for split in 0..=results.len() {
        let top = do_work(&results[..split].to_vec());
        let bottom = do_work(&results[split..].to_vec());
        assert_eq!(merge_tiles(vec![top, bottom]), whole);
    }
    let singles: Vec<Vec<Vec<Color>>> = results.iter().map(|r| do_work(&vec![r.clone()])).collect();
    assert_eq!(merge_tiles(singles), whole);
}

#[test]
fn merge_of_no_tiles_is_empty() {
    assert!(merge_tiles(vec![]).is_empty());
}

#[test]
fn quarters_of_the_image() {
    assert_eq!(
        partition_rows(8000, 4),
        vec![(-8000, -4000), (-4000, 0), (0, 4000), (4000, 8000)]
    );
}

#[test]
fn uneven_partition_gives_remainder_to_last() {
    assert_eq!(partition_rows(5, 3), vec![(-5, -2), (-2, 1), (1, 5)]);
    assert_eq!(partition_rows(3, 1), vec![(-3, 3)]);
    assert_eq!(partition_rows(0, 2), vec![(0, 0), (0, 0)]);
}

#[test]
fn axes_are_black() {
    let white = Color { r: 255, g: 255, b: 255 };
    let black = Color { r: 0, g: 0, b: 0 };
    let image = vec![vec![white; 3]; 3];
    let drawn = draw_axes(&image, 1);
    assert_eq!(
        drawn,
        vec![
            vec![white, black, white],
            vec![black, black, black],
            vec![white, black, white],
        ]
    );
}
