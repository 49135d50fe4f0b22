use seis::grd::{data_tokens, parse_dims, process_split, Grd, GrdFileType};

fn header(rows: i32, cols: i32, floats: [f64; 6]) -> Vec<u8> {
    let mut b = Vec::new();
    b.extend_from_slice(b"DSRB");
    b.extend_from_slice(&[0u8; 16]);
    b.extend_from_slice(&rows.to_le_bytes());
    b.extend_from_slice(&cols.to_le_bytes());
    for f in floats {
        b.extend_from_slice(&f.to_le_bytes());
    }
    b.extend_from_slice(&[0u8; 24]);
    b
}

fn square_file() -> Vec<u8> {
    let mut b = header(2, 2, [10.0, 20.0, 0.5, 0.25, -1.0, 4.0]);
    for v in [1.0f64, 2.0, 3.0, 4.0] {
        b.extend_from_slice(&v.to_le_bytes());
    }
    b
}

fn bits(v: &[f64]) -> Vec<u64> {
    v.iter().map(|x| x.to_bits()).collect()
}

#[test]
fn file_type_of_mark() {
    assert!(matches!(GrdFileType::of_mark("DSAA"), GrdFileType::Ascii));
    assert!(matches!(GrdFileType::of_mark("DSRB"), GrdFileType::Binary));
    assert!(matches!(GrdFileType::of_mark("DSA"), GrdFileType::Binary));
    assert!(matches!(GrdFileType::of_mark(""), GrdFileType::Binary));
}

#[test]
fn binary_grid_reads_header_and_nodes() {
    let g = Grd::from_binary_bytes("DSRB".to_string(), &square_file()).unwrap();
    assert_eq!(g.rows(), 2);
    assert_eq!(g.cols(), 2);
    assert_eq!(f64::from_bits(g.xll()), 10.0);
    assert_eq!(f64::from_bits(g.yll()), 20.0);
    assert_eq!(f64::from_bits(g.x_size()), 0.5);
    assert_eq!(f64::from_bits(g.y_size()), 0.25);
    assert_eq!(f64::from_bits(g.z_min()), -1.0);
    assert_eq!(f64::from_bits(g.z_max()), 4.0);
    assert_eq!(g.shape(), (2, 2));
    // node (i, j) of the file is stored at j * cols + i
    assert_eq!(g.cells(), bits(&[1.0, 3.0, 2.0, 4.0]));
}

#[test]
fn binary_grid_refuses_bad_files() {
    let full = square_file();
    assert!(Grd::from_binary_bytes("DSRB".to_string(), &full[..75]).is_none());
    assert!(Grd::from_binary_bytes("DSRB".to_string(), &full[..full.len() - 1]).is_none());
    assert!(Grd::from_binary_bytes("DSRB".to_string(), &header(-1, 2, [0.0; 6])).is_none());
    assert!(Grd::from_binary_bytes("DSRB".to_string(), &header(2, -3, [0.0; 6])).is_none());
    let mut wide = header(2, 3, [0.0; 6]);
    wide.extend_from_slice(&[0u8; 48]);
    assert!(Grd::from_binary_bytes("DSRB".to_string(), &wide).is_none());
}

#[test]
fn binary_grid_without_nodes() {
    let h = header(0, 5, [1.0; 6]);
    assert_eq!(h.len(), 100);
    let g = Grd::from_binary_bytes("DSRB".to_string(), &h[..76]).unwrap();
    assert_eq!(g.rows(), 0);
    assert_eq!(g.cols(), 5);
    assert_eq!(g.shape(), (5, 0));
    assert!(g.cells().is_empty());
}

#[test]
fn binary_image_layout() {
    let g = Grd::from_binary_bytes("DSRB".to_string(), &square_file()).unwrap();
    let out = g.to_binary_bytes();
    assert_eq!(out.len(), 100 + 4 * 8);
    assert_eq!(&out[..4], b"DSRB");
    assert_eq!(&out[..100], &square_file()[..100]);
    // the nodes go out in storage order
    let mut expected = Vec::new();
    for v in [1.0f64, 3.0, 2.0, 4.0] {
        expected.extend_from_slice(&v.to_le_bytes());
    }
    assert_eq!(&out[100..], &expected[..]);
}

#[test]
fn binary_roundtrip_transposes() {
    let g = Grd::from_binary_bytes("DSRB".to_string(), &square_file()).unwrap();
    let back = Grd::from_binary_bytes("DSRB".to_string(), &g.to_binary_bytes()).unwrap();
    assert_eq!(back.rows(), g.rows());
    assert_eq!(back.cols(), g.cols());
    assert_eq!(back.xll(), g.xll());
    assert_eq!(back.z_max(), g.z_max());
    assert_eq!(back.cells(), bits(&[1.0, 2.0, 3.0, 4.0]));
    let again = Grd::from_binary_bytes("DSRB".to_string(), &back.to_binary_bytes()).unwrap();
    assert_eq!(again.cells(), g.cells());
}

#[test]
fn non_square_grid_is_written_but_not_read_back() {
    let g = Grd::from_ascii_values("DSAA".to_string(), 2, 3, 0, 0, 0, 0, 0, 0, &[1, 2, 3, 4, 5, 6]).unwrap();
    let out = g.to_binary_bytes();
    assert_eq!(out.len(), 100 + 6 * 8);
    assert!(Grd::from_binary_bytes("DSRB".to_string(), &out).is_none());
}

#[test]
fn set_cell_changes_one_node() {
    let mut g = Grd::from_binary_bytes("DSRB".to_string(), &square_file()).unwrap();
    g.set_cell(1, 0, 99.0f64.to_bits());
    assert_eq!(g.cells(), bits(&[1.0, 99.0, 2.0, 4.0]));
}

#[test]
fn process_split_takes_two_tokens() {
    assert_eq!(process_split("  3  4 5 "), Some(("3".to_string(), "4".to_string())));
    assert_eq!(process_split("0.5\t1e3"), Some(("0.5".to_string(), "1e3".to_string())));
    assert_eq!(process_split("7"), None);
    assert_eq!(process_split(""), None);
}

#[test]
fn parse_dims_reads_columns_and_rows() {
    assert_eq!(parse_dims("101 51"), Some((101, 51)));
    assert_eq!(parse_dims(" -2 +3 "), Some((-2, 3)));
    assert_eq!(parse_dims("101"), None);
    assert_eq!(parse_dims("101 5x"), None);
    assert_eq!(parse_dims("1.5 2"), None);
}

#[test]
fn data_tokens_are_reversed() {
    let lines = vec!["1 2 3".to_string(), " 4".to_string(), "5 6 ".to_string()];
    assert_eq!(data_tokens(&lines), vec!["6", "5", "4", "3", "2", "1"]);
    assert_eq!(data_tokens(&vec![]), Vec::<String>::new());
}

#[test]
fn ascii_values_fill_rows() {
    let g = Grd::from_ascii_values("DSAA".to_string(), 2, 3, 1, 2, 3, 4, 5, 6, &[1, 2, 3, 4, 5, 6]).unwrap();
    assert_eq!(g.rows(), 2);
    assert_eq!(g.cols(), 3);
    assert_eq!(g.shape(), (2, 3));
    assert_eq!(g.cells(), vec![1, 4, 2, 5, 3, 6]);
    assert_eq!((g.xll(), g.yll(), g.x_size(), g.y_size(), g.z_min(), g.z_max()), (1, 2, 3, 4, 5, 6));
}

#[test]
fn ascii_values_refuse_bad_counts() {
    assert!(Grd::from_ascii_values("DSAA".to_string(), 2, 3, 0, 0, 0, 0, 0, 0, &[1, 2, 3]).is_none());
    assert!(Grd::from_ascii_values("DSAA".to_string(), -1, 3, 0, 0, 0, 0, 0, 0, &[]).is_none());
    assert!(Grd::from_ascii_values("DSAA".to_string(), 0, 3, 0, 0, 0, 0, 0, 0, &[]).is_some());
}

#[test]
fn ascii_text_layout() {
    let g = Grd::from_ascii_values("DSAA".to_string(), 2, 3, 0, 0, 0, 0, 0, 0, &[1, 2, 3, 4, 5, 6]).unwrap();
    let values: Vec<String> = g.cells().iter().map(|v| v.to_string()).collect();
    let text = g.ascii_text("0", "10", "5", "7.5", "-1", "2", &values);
    assert_eq!(text, "DSAA\n3 2\n0 10\n5 7.5\n-1 2\n1 4 2 5 3 6\n");
}

#[test]
fn grid_from_parts() {
    let g = Grd::from_parts("DSRB".to_string(), 2, 3, 1, 2, 3, 4, 5, 6, 3, 2, &[9, 8, 7, 6, 5, 4]).unwrap();
    assert_eq!(g.mark(), "DSRB");
    assert_eq!(g.shape(), (3, 2));
    assert_eq!(g.cells(), vec![9, 8, 7, 6, 5, 4]);
    assert!(Grd::from_parts("DSRB".to_string(), 2, 3, 0, 0, 0, 0, 0, 0, 2, 2, &[0; 4]).is_none());
    assert!(Grd::from_parts("DSRB".to_string(), 2, 3, 0, 0, 0, 0, 0, 0, 2, 3, &[0; 5]).is_none());
    assert!(Grd::from_parts("DSRB".to_string(), -2, 3, 0, 0, 0, 0, 0, 0, 2, 3, &[0; 6]).is_none());
}

#[test]
fn set_cell_checked_stays_in_bounds() {
    let mut g = Grd::from_binary_bytes("DSRB".to_string(), &square_file()).unwrap();
    assert!(!g.set_cell_checked(2, 0, 0));
    assert!(!g.set_cell_checked(0, 2, 0));
    assert_eq!(g.cells(), bits(&[1.0, 3.0, 2.0, 4.0]));
    assert!(g.set_cell_checked(0, 1, 7.0f64.to_bits()));
    assert_eq!(g.cells(), bits(&[1.0, 3.0, 7.0, 4.0]));
}

#[test]
fn binary_grid_with_a_negative_count_and_a_zero_count() {
    let g = Grd::from_binary_bytes("DSRB".to_string(), &header(-3, 0, [0.0; 6])).unwrap();
    assert_eq!(g.rows(), -3);
    assert_eq!(g.cols(), 0);
    assert_eq!(g.shape(), (0, (-3i32) as usize));
    assert!(g.cells().is_empty());
    let g = Grd::from_binary_bytes("DSRB".to_string(), &header(0, -2, [0.0; 6])).unwrap();
    assert_eq!(g.shape(), ((-2i32) as usize, 0));
    assert!(Grd::from_binary_bytes("DSRB".to_string(), &header(-2, -2, [0.0; 6])).is_none());
}

#[test]
fn ascii_values_with_a_negative_count_and_a_zero_count() {
    let g = Grd::from_ascii_values("DSAA".to_string(), -1, 0, 0, 0, 0, 0, 0, 0, &[]).unwrap();
    assert_eq!(g.shape(), ((-1i32) as usize, 0));
    assert!(g.cells().is_empty());
    assert!(Grd::from_ascii_values("DSAA".to_string(), 0, -4, 0, 0, 0, 0, 0, 0, &[]).is_some());
    assert!(Grd::from_ascii_values("DSAA".to_string(), -1, 2, 0, 0, 0, 0, 0, 0, &[]).is_none());
}

#[test]
fn ascii_layout_splits_the_lines() {
    let lines: Vec<String> = ["", "3 2", "0 10", "5 7.5", "-1 2", "1 2 3", "4 5 6"]
        .iter()
        .map(|s| s.to_string())
        .collect();
    let l = seis::grd::ascii_layout(&lines).unwrap();
    assert_eq!(l.mark, "");
    assert_eq!((l.cols, l.rows), (3, 2));
    assert_eq!(l.x_range, ("0".to_string(), "10".to_string()));
    assert_eq!(l.y_range, ("5".to_string(), "7.5".to_string()));
    assert_eq!(l.z_range, ("-1".to_string(), "2".to_string()));
    assert_eq!(l.nodes, vec!["6", "5", "4", "3", "2", "1"]);
    assert!(seis::grd::ascii_layout(&lines[..4].to_vec()).is_none());
    let mut bad = lines.clone();
    bad[1] = "3 x".to_string();
    assert!(seis::grd::ascii_layout(&bad).is_none());
    let mut bad = lines.clone();
    bad[3] = "5".to_string();
    assert!(seis::grd::ascii_layout(&bad).is_none());
    assert!(seis::grd::ascii_layout(&lines[..5].to_vec()).unwrap().nodes.is_empty());
}
