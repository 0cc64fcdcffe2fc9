use playlist::optimizer::SwapSearch;

fn penalty(energies: &[f64], order: &[usize], func: &[f64]) -> f64 {
    order
        .iter()
        .map(|&k| energies[k])
        .zip(func.iter())
        .map(|(e, f)| (e - f).abs())
        .sum()
}

fn perform_swaps(energies: &[f64], func: &[f64]) -> (f64, Vec<usize>) {
    let mut search = SwapSearch::new(energies.len(), func.len());
    let mut best = penalty(energies, search.order(), func);
    while search.next_swap().is_some() {
        search.propose();
        let new_distance = penalty(energies, search.order(), func);
        let improved = new_distance < best;
        if improved {
            best = new_distance;
        }
        search.judge(improved);
    }
    (best, search.order().clone())
}

#[test]
fn test_basic() {
    let input = vec![0.0, 0.8, 0.9, 0.5, 0.35, 0.413];
    let func = vec![0.0, 0.8, 0.9, 0.5, 0.35, 0.413];
    let (final_penalty, _) = perform_swaps(&input, &func);
    assert_eq!(final_penalty, 0.0);
}

#[test]
fn test_basic_should_min() {
    let input = vec![0.0, 0.8, 0.9, 0.5, 0.35, 0.413];
    let func = vec![0.8, 0.9, 0.5, 0.35, 0.413, 0.0];
    let (final_penalty, order) = perform_swaps(&input, &func);
    assert_eq!(final_penalty, 0.0);
    assert_eq!(order, vec![1, 2, 3, 4, 5, 0]);
}

#[test]
fn rejected_swap_restores_order() {
    let mut search = SwapSearch::new(3, 3);
    assert_eq!(search.next_swap(), Some((0, 0)));
    search.propose();
    search.judge(false);
    assert_eq!(search.next_swap(), Some((0, 1)));
    search.propose();
    assert_eq!(search.order(), &vec![1, 0, 2]);
    search.judge(false);
    assert_eq!(search.order(), &vec![0, 1, 2]);
    assert_eq!(search.next_swap(), Some((0, 2)));
}

#[test]
fn accepted_swap_is_kept_and_sweep_restarts() {
    let mut search = SwapSearch::new(2, 2);
    search.propose();
    search.judge(false);
    search.propose();
    search.judge(true);
    assert_eq!(search.order(), &vec![1, 0]);
    // (1, 0) and (1, 1) remain in this sweep.
    assert_eq!(search.next_swap(), Some((1, 0)));
    search.propose();
    search.judge(false);
    search.propose();
    search.judge(false);
    // The sweep improved something, so a new sweep starts.
    assert_eq!(search.next_swap(), Some((0, 0)));
}

#[test]
fn empty_search_is_over_at_once() {
    let search = SwapSearch::new(0, 5);
    assert_eq!(search.next_swap(), None);
    let search = SwapSearch::new(4, 0);
    assert_eq!(search.next_swap(), None);
    assert_eq!(search.order(), &vec![0, 1, 2, 3]);
}

#[test]
fn quiet_sweep_ends_the_search() {
    let mut search = SwapSearch::new(2, 2);
    let mut seen = Vec::new();
    while let Some(pair) = search.next_swap() {
        seen.push(pair);
        search.propose();
        search.judge(false);
    }
    assert_eq!(seen, vec![(0, 0), (0, 1), (1, 0), (1, 1)]);
    assert_eq!(search.order(), &vec![0, 1]);
}
