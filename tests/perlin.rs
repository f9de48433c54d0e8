use ray_tracer::perlin::{perlin_generate_perm, permute, permute_with, PerlinLattice, POINT_COUNT};

fn is_permutation(p: &[usize], n: usize) -> bool {
    let mut seen = vec![false; n];
    for &v in p {
        if v >= n || seen[v] {
            return false;
        }
        seen[v] = true;
    }
    p.len() == n
}

#[test]
fn generated_tables_are_permutations() {
    for _ in 0..20 {
        let p = perlin_generate_perm();
        assert_eq!(p.len(), POINT_COUNT);
        assert!(is_permutation(&p, POINT_COUNT));
    }
}

#[test]
fn generated_tables_are_shuffled() {
    let identity: Vec<usize> = (0..POINT_COUNT).collect();
    let mut differs = false;
    for _ in 0..5 {
        if perlin_generate_perm() != identity {
            differs = true;
        }
    }
    assert!(differs);
}

#[test]
fn permute_keeps_values_and_tail() {
    let mut p: Vec<usize> = vec![5, 1, 9, 9, 3, 42, 7];
    permute(&mut p, 5);
    assert_eq!(&p[5..], &[42, 7]);
    let mut head = p[..5].to_vec();
    head.sort();
    assert_eq!(head, vec![1, 3, 5, 9, 9]);
}

#[test]
fn permute_small_prefixes() {
    let mut p = vec![3usize, 4];
    permute(&mut p, 0);
    assert_eq!(p, vec![3, 4]);
    permute(&mut p, 1);
    assert_eq!(p, vec![3, 4]);
}

#[test]
fn corner_wraps_and_stays_in_table() {
    let lattice = PerlinLattice::new();
    for i in -300i32..300 {
        let c = lattice.corner(i, i / 2, -i);
        assert!(c < POINT_COUNT);
        assert_eq!(c, lattice.corner(i + 256, i / 2 - 256, -i + 512));
    }
    assert_eq!(lattice.corner(-1, -1, -1), lattice.corner(255, 255, 255));
    assert!(lattice.corner(i32::MIN, i32::MAX, 0) < POINT_COUNT);
}

#[test]
fn permute_with_applies_the_draws_from_the_top_down() {
    // i = 3 swaps with 0, i = 2 with 2, i = 1 with 0.
    let mut p: Vec<usize> = vec![10, 11, 12, 13, 99];
    permute_with(&mut p, 4, &vec![0, 0, 2, 0]);
    // [10,11,12,13] -> [13,11,12,10] -> same -> [11,13,12,10]
    assert_eq!(p, vec![11, 13, 12, 10, 99]);
}

#[test]
fn permute_with_identity_draws_keeps_order() {
    let mut p: Vec<usize> = vec![4, 5, 6];
    permute_with(&mut p, 3, &vec![0, 1, 2]);
    assert_eq!(p, vec![4, 5, 6]);
}
