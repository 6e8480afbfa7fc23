use drawafunc::spans::{direction_run_len, monotone_span_ranges, XStep};
use drawafunc::spans::XStep::{Backward, Flat, Forward};

fn steps_of(points: &[(f32, f32)]) -> Vec<XStep> {
    points
        .windows(2)
        .map(|pair| {
            let dx = pair[1].0 - pair[0].0;
            if dx.abs() < 0.01 {
                XStep::Flat
            } else if dx > 0.0 {
                XStep::Forward
            } else {
                XStep::Backward
            }
        })
        .collect()
}

fn spans(points: &[(f32, f32)]) -> Vec<Vec<(f32, f32)>> {
    monotone_span_ranges(&steps_of(points))
        .into_iter()
        .map(|(start, end)| points[start..=end].to_vec())
        .collect()
}

#[test]
fn function_fit_splits_on_x_turns() {
    let points = vec![(0.0, 0.0), (1.0, 1.0), (2.0, 0.0), (1.0, -1.0), (0.0, 0.0)];

    let spans = spans(&points);

    assert_eq!(spans.len(), 2);
    assert_eq!(spans[0].first().unwrap().0, 0.0);
    assert_eq!(spans[0].last().unwrap().0, 2.0);
    assert_eq!(spans[1].first().unwrap().0, 2.0);
    assert_eq!(spans[1].last().unwrap().0, 0.0);
}

#[test]
fn function_fit_ignores_single_segment_x_jitter() {
    let points = vec![
        (0.0, 0.0),
        (1.0, 0.2),
        (2.0, 0.4),
        (1.995, 0.41),
        (3.0, 0.6),
        (4.0, 0.8),
    ];

    let spans = spans(&points);

    assert_eq!(spans.len(), 1);
}

#[test]
fn span_ranges_exact() {
    assert_eq!(monotone_span_ranges(&vec![]), vec![]);
    assert_eq!(monotone_span_ranges(&vec![Flat]), vec![(0, 1)]);
    assert_eq!(
        monotone_span_ranges(&vec![Forward, Forward, Backward, Backward]),
        vec![(0, 2), (2, 4)]
    );
    // A one-segment reversal is no cut itself, but the return to the old
    // heading is one when it lasts two segments.
    assert_eq!(
        monotone_span_ranges(&vec![Forward, Backward, Forward, Forward]),
        vec![(0, 2), (2, 4)]
    );
    assert_eq!(
        monotone_span_ranges(&vec![Forward, Backward, Forward]),
        vec![(0, 3)]
    );
    assert_eq!(
        monotone_span_ranges(&vec![Forward, Backward, Flat, Backward, Forward, Forward]),
        vec![(0, 1), (1, 4), (4, 6)]
    );
}

#[test]
fn run_length_skips_flat_and_stops_at_reversal() {
    let steps = vec![Forward, Flat, Forward, Backward, Forward];
    assert_eq!(direction_run_len(&steps, 0, Forward), 2);
    assert_eq!(direction_run_len(&steps, 3, Forward), 0);
    assert_eq!(direction_run_len(&steps, 3, Backward), 1);
    assert_eq!(direction_run_len(&steps, 9, Forward), 0);
}
