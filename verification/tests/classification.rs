use pi_lattice::circle::point_in_disk;
use pi_lattice::kernel::fill_block;
use pi_lattice::plan::{classify, rep_block, Cell};

#[test]
fn circle_predicate_is_exact_at_the_edge() {
    assert!(point_in_disk(7, 0, 7));
    assert!(!point_in_disk(7, 1, 7));
    assert!(point_in_disk(3, 4, 5));
    assert!(!point_in_disk(4, 4, 5));
    assert!(point_in_disk(0, 0, 0));
    assert!(!point_in_disk(1, 0, 0));
}

#[test]
fn table_matches_the_documented_layout() {
    let expected: [[Cell; 8]; 8] = [
        [Cell::Full, Cell::Full, Cell::Full, Cell::Full, Cell::Full, Cell::Full, Cell::Full, Cell::Boundary(0)],
        [Cell::Full, Cell::Full, Cell::Full, Cell::Full, Cell::Full, Cell::Full, Cell::Full, Cell::Boundary(1)],
        [Cell::Full, Cell::Full, Cell::Full, Cell::Full, Cell::Full, Cell::Full, Cell::Full, Cell::Boundary(2)],
        [Cell::Full, Cell::Full, Cell::Full, Cell::Full, Cell::Full, Cell::Full, Cell::Boundary(4), Cell::Boundary(3)],
        [Cell::Full, Cell::Full, Cell::Full, Cell::Full, Cell::Full, Cell::Full, Cell::Boundary(5), Cell::Empty],
        [Cell::Full, Cell::Full, Cell::Full, Cell::Full, Cell::Full, Cell::Boundary(7), Cell::Boundary(6), Cell::Empty],
        [Cell::Full, Cell::Full, Cell::Full, Cell::Boundary(4), Cell::Boundary(5), Cell::Boundary(6), Cell::Empty, Cell::Empty],
        [Cell::Boundary(0), Cell::Boundary(1), Cell::Boundary(2), Cell::Boundary(3), Cell::Empty, Cell::Empty, Cell::Empty, Cell::Empty],
    ];
    let mut full = 0;
    let mut empty = 0;
    let mut boundary = 0;
    for by in 0..8u32 {
        for bx in 0..8u32 {
            let c = classify(bx, by);
            assert_eq!(c, expected[by as usize][bx as usize]);
            match c {
                Cell::Full => full += 1,
                Cell::Empty => empty += 1,
                Cell::Boundary(_) => boundary += 1,
            }
        }
    }
    assert_eq!(full, 41);
    assert_eq!(empty, 8);
    assert_eq!(boundary, 15);
}

#[test]
fn representative_blocks_match_the_table() {
    let expected: [(u32, u32); 8] =
        [(7, 0), (7, 1), (7, 2), (7, 3), (6, 3), (6, 4), (6, 5), (5, 5)];
    for i in 0..8u8 {
        let p = rep_block(i);
        assert_eq!(p, expected[i as usize]);
        assert_eq!(classify(p.0, p.1), Cell::Boundary(i));
    }
}

#[test]
fn full_and_empty_blocks_are_uniform() {
    // For n = 64 (block side 8, radius 63) every Full cell's kernel buffer
    // is all ones and every Empty cell's is all zeros.
    let b = 8u32;
    let r = 63u32;
    for by in 0..8u32 {
        for bx in 0..8u32 {
            match classify(bx, by) {
                Cell::Full => {
                    let buf = fill_block(bx * b, by * b, b, r);
                    assert_eq!(buf.len(), 64);
                    assert!(buf.iter().all(|&v| v == 1));
                }
                Cell::Empty => {
                    let buf = fill_block(bx * b, by * b, b, r);
                    assert_eq!(buf.len(), 64);
                    assert!(buf.iter().all(|&v| v == 0));
                }
                Cell::Boundary(_) => {}
            }
        }
    }
}

#[test]
fn kernel_buffer_matches_the_predicate() {
    // A boundary block of n = 64: cell (7, 0), offset (56, 0).
    let buf = fill_block(56, 0, 8, 63);
    assert_eq!(buf.len(), 64);
    for ly in 0..8u32 {
        for lx in 0..8u32 {
            let expected = if point_in_disk(56 + lx, ly, 63) { 1 } else { 0 };
            assert_eq!(buf[(ly * 8 + lx) as usize], expected);
        }
    }
    // This block straddles the edge: the buffer holds both values.
    assert!(buf.iter().any(|&v| v == 1));
    assert!(buf.iter().any(|&v| v == 0));
}
