use spark::render_dense;
use spark::render_sparse;

#[test]
fn empty_input_renders_empty() {
    assert_eq!(render_dense(&[]), "");
}

#[test]
fn sparse_empty_input_renders_empty() {
    assert_eq!(render_sparse(&[]), "");
}

#[test]
fn known_vector() {
    assert_eq!(render_dense(&[1, 5, 22, 13, 53]), "\u{2581}\u{2581}\u{2583}\u{2582}\u{2588}");
}

#[test]
fn single_value_is_flat() {
    assert_eq!(render_dense(&[7]), "\u{2581}");
}

#[test]
fn flat_line_renders_lowest_glyph() {
    assert_eq!(render_dense(&[4, 4, 4]), "\u{2581}\u{2581}\u{2581}");
}

#[test]
fn full_ramp_covers_whole_palette() {
    assert_eq!(
        render_dense(&[0, 1, 2, 3, 4, 5, 6, 7]),
        "\u{2581}\u{2582}\u{2583}\u{2584}\u{2585}\u{2586}\u{2587}\u{2588}"
    );
}

#[test]
fn negative_values_scale_between_true_min_and_max() {
    assert_eq!(render_dense(&[-10, 0, 10]), "\u{2581}\u{2584}\u{2588}");
}

#[test]
fn extreme_samples_do_not_overflow() {
    assert_eq!(render_dense(&[i64::MIN, i64::MAX]), "\u{2581}\u{2588}");
}

#[test]
fn monotone_samples_get_monotone_glyph_ranks() {
    let palette = ['\u{2581}', '\u{2582}', '\u{2583}', '\u{2584}', '\u{2585}', '\u{2586}', '\u{2587}', '\u{2588}'];
    let values: [i64; 5] = [3, 1, 4, 1, 5];
    let out: Vec<char> = render_dense(&values).chars().collect();
    for i in 0..values.len() {
        for j in 0..values.len() {
            if values[i] <= values[j] {
                let rank_i = palette.iter().position(|&g| g == out[i]).unwrap();
                let rank_j = palette.iter().position(|&g| g == out[j]).unwrap();
                assert!(rank_i <= rank_j);
            }
        }
    }
}

#[test]
fn sparse_blank_in_middle() {
    // The absent entry enters the min/max pass as zero, so the scale
    // runs from 0 to 10: 5 lands on index 3, 10 on index 7.
    assert_eq!(render_sparse(&[Some(5), None, Some(10)]), "\u{2584} \u{2588}");
}

#[test]
fn sparse_all_absent_renders_blanks() {
    assert_eq!(render_sparse(&[None, None]), "  ");
}

#[test]
fn sparse_flat_present_values() {
    assert_eq!(render_sparse(&[Some(3), Some(3)]), "\u{2581}\u{2581}");
}

#[test]
fn sparse_absence_skews_negative_scale() {
    // [-5, None] scans as [-5, 0]: the present sample is the minimum.
    assert_eq!(render_sparse(&[Some(-5), None]), "\u{2581} ");
}

#[test]
fn dense_rendering_is_deterministic() {
    let values: [i64; 4] = [9, 2, 7, 2];
    assert_eq!(render_dense(&values), render_dense(&values));
}

#[test]
fn sparse_rendering_is_deterministic() {
    let values: [Option<i64>; 4] = [Some(9), None, Some(7), None];
    assert_eq!(render_sparse(&values), render_sparse(&values));
}

#[test]
fn output_length_matches_input_length() {
    let values: [i64; 6] = [5, 0, -3, 12, 12, 1];
    assert_eq!(render_dense(&values).chars().count(), values.len());
    let opts: [Option<i64>; 3] = [None, Some(2), None];
    assert_eq!(render_sparse(&opts).chars().count(), opts.len());
}
