use hessenberg_qr::array::FortranArray;
use hessenberg_qr::dlaset::dlaset;

fn array(values: &Vec<Vec<f64>>) -> FortranArray {
    let columns: Vec<Vec<u64>> =
        values.iter().map(|c| c.iter().map(|x| x.to_bits()).collect()).collect();
    FortranArray::from(columns)
}

fn columns(a: &FortranArray) -> Vec<Vec<f64>> {
    a.to_columns().iter().map(|c| c.iter().map(|x| f64::from_bits(*x)).collect()).collect()
}

fn run(uplo: char, m: i32, n: i32, alpha: f64, beta: f64, matrix: &mut Vec<Vec<f64>>) {
    let mut a = array(matrix);
    dlaset(uplo, m, n, alpha.to_bits(), beta.to_bits(), &mut a);
    *matrix = columns(&a);
}

#[test]
fn test_dlaset_upper() {
    let mut matrix = vec![
        vec![0.0, 0.0, 0.0],
        vec![0.0, 0.0, 0.0],
        vec![0.0, 0.0, 0.0],
    ];
    run('U', 3, 3, 1.0, 2.0, &mut matrix);
    assert_eq!(matrix, vec![
        vec![2.0, 1.0, 1.0],
        vec![0.0, 2.0, 1.0],
        vec![0.0, 0.0, 2.0]
    ]);
}

#[test]
fn test_dlaset_lower() {
    let mut matrix = vec![
        vec![0.0, 0.0, 0.0],
        vec![0.0, 0.0, 0.0],
        vec![0.0, 0.0, 0.0],
    ];
    run('L', 3, 3, 1.0, 2.0, &mut matrix);
    assert_eq!(matrix, vec![
        vec![2.0, 0.0, 0.0],
        vec![1.0, 2.0, 0.0],
        vec![1.0, 1.0, 2.0]
    ]);
}

#[test]
fn test_dlaset_all() {
    let mut matrix = vec![
        vec![0.0, 0.0, 0.0],
        vec![0.0, 0.0, 0.0],
        vec![0.0, 0.0, 0.0],
    ];
    run('A', 3, 3, 1.0, 2.0, &mut matrix);
    assert_eq!(matrix, vec![
        vec![2.0, 1.0, 1.0],
        vec![1.0, 2.0, 1.0],
        vec![1.0, 1.0, 2.0]
    ]);
}

#[test]
fn dlaset_makes_an_identity() {
    let mut matrix = vec![vec![7.0; 4]; 4];
    run('A', 4, 4, 0.0, 1.0, &mut matrix);
    for j in 0..4 {
        for i in 0..4 {
            assert_eq!(matrix[j][i], if i == j { 1.0 } else { 0.0 });
        }
    }
}

#[test]
fn dlaset_stays_inside_a_rectangle() {
    let mut matrix = vec![vec![7.0; 3]; 3];
    run('A', 2, 3, 1.0, 2.0, &mut matrix);
    assert_eq!(matrix, vec![
        vec![2.0, 1.0, 7.0],
        vec![1.0, 2.0, 7.0],
        vec![1.0, 1.0, 7.0],
    ]);
    let mut other = vec![vec![7.0; 3]; 3];
    run('A', 3, 0, 1.0, 2.0, &mut other);
    assert_eq!(other, vec![vec![7.0; 3]; 3]);
    let mut third = vec![vec![7.0; 3]; 3];
    run('A', -1, 3, 1.0, 2.0, &mut third);
    assert_eq!(third, vec![vec![7.0; 3]; 3]);
}

#[test]
fn dlaset_lower_part_reaches_below_the_rows_given() {
    // with `L` the rows of column j run to j, whatever m is
    let mut matrix = vec![vec![7.0; 3]; 3];
    run('L', 1, 3, 1.0, 2.0, &mut matrix);
    assert_eq!(matrix, vec![
        vec![2.0, 7.0, 7.0],
        vec![1.0, 1.0, 7.0],
        vec![1.0, 1.0, 1.0],
    ]);
}
