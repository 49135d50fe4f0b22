use seis::seg::Seg;

fn record(n: i16, m: i16, samples: &[f32]) -> Vec<u8> {
    let mut b = Vec::new();
    b.extend_from_slice(b"TX");
    for f in [100.0f32, 12.5, 2.0] {
        b.extend_from_slice(&f.to_le_bytes());
    }
    b.extend_from_slice(&n.to_le_bytes());
    b.extend_from_slice(&m.to_le_bytes());
    b.extend_from_slice(&0.001f32.to_le_bytes());
    for s in samples {
        b.extend_from_slice(&s.to_le_bytes());
    }
    b
}

#[test]
fn record_reads_header_and_samples() {
    let samples = [1.0f32, 2.0, 3.0, 4.0, 5.0, 6.0];
    let s = Seg::from_cdp_bytes(&record(2, 3, &samples)).unwrap();
    assert_eq!(f32::from_bits(s.shot()), 100.0);
    assert_eq!(f32::from_bits(s.offset()), 12.5);
    assert_eq!(f32::from_bits(s.dx()), 2.0);
    assert_eq!(s.n(), 2);
    assert_eq!(s.m(), 3);
    assert_eq!(f32::from_bits(s.dt()), 0.001);
    assert_eq!(s.shape(), (3, 2));
    let expected: Vec<u32> = samples.iter().map(|x| x.to_bits()).collect();
    assert_eq!(s.cells(), expected);
}

#[test]
fn record_ignores_the_mark_and_trailing_bytes() {
    let mut b = record(1, 2, &[7.0, 8.0]);
    b[0] = b'Q';
    b.extend_from_slice(&[1, 2, 3]);
    let s = Seg::from_cdp_bytes(&b).unwrap();
    assert_eq!(s.cells(), vec![7.0f32.to_bits(), 8.0f32.to_bits()]);
}

#[test]
fn record_refuses_bad_files() {
    let full = record(2, 3, &[0.0; 6]);
    assert!(Seg::from_cdp_bytes(&full[..21]).is_none());
    assert!(Seg::from_cdp_bytes(&full[..full.len() - 1]).is_none());
    assert!(Seg::from_cdp_bytes(&record(-1, 3, &[])).is_none());
    assert!(Seg::from_cdp_bytes(&record(1, -3, &[])).is_none());
}

#[test]
fn record_roundtrip() {
    let samples = [1.5f32, -2.0, 3.25, 0.0, 9.0, 10.0];
    let bytes = record(3, 2, &samples);
    let s = Seg::from_cdp_bytes(&bytes).unwrap();
    assert_eq!(s.to_cdp_bytes(), bytes);
    let back = Seg::from_cdp_bytes(&s.to_cdp_bytes()).unwrap();
    assert_eq!(back.cells(), s.cells());
    assert_eq!((back.n(), back.m(), back.shot(), back.dt()), (s.n(), s.m(), s.shot(), s.dt()));
}

#[test]
fn empty_record() {
    let s = Seg::from_cdp_bytes(&record(0, 5, &[])).unwrap();
    assert_eq!(s.shape(), (5, 0));
    assert!(s.cells().is_empty());
    assert_eq!(s.to_cdp_bytes().len(), 22);
}

#[test]
fn record_from_samples() {
    let s = Seg::from_samples(1, 2, 3, 2, 2, 4, &[5, 6, 7, 8]).unwrap();
    assert_eq!(s.shape(), (2, 2));
    assert_eq!(s.cells(), vec![5, 6, 7, 8]);
    assert_eq!(s.to_cdp_bytes().len(), 22 + 16);
    assert!(Seg::from_samples(1, 2, 3, 2, 2, 4, &[5, 6, 7]).is_none());
    assert!(Seg::from_samples(1, 2, 3, -2, 2, 4, &[]).is_none());
}

#[test]
fn record_with_a_negative_count_and_a_zero_count() {
    let s = Seg::from_cdp_bytes(&record(-1, 0, &[])).unwrap();
    assert_eq!(s.n(), -1);
    assert_eq!(s.m(), 0);
    assert_eq!(s.shape(), (0, (-1i16) as usize));
    assert!(s.cells().is_empty());
    let s = Seg::from_cdp_bytes(&record(0, -7, &[])).unwrap();
    assert_eq!(s.shape(), ((-7i16) as usize, 0));
    assert!(Seg::from_cdp_bytes(&record(-1, -1, &[])).is_none());
    assert!(Seg::from_samples(0, 0, 0, -3, 0, 0, &[]).is_some());
}
