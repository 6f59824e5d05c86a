use map_in_place::{classify, nfv, ns, nv, MapBoxInPlace, MapSliceInPlace, MapVecInPlace, Mode, Verdict};

#[test]
fn vec_eq_success() {
    let v = nv('\0');
    let p = v.as_ptr() as usize;
    let cap = v.capacity();
    let v = v.map_in_place(|e| e as u32);
    assert_eq!(&v, &[0, 0, 0, 0]);
    assert_eq!(v.capacity(), cap);
    assert_eq!(v.as_ptr() as usize, p);
}

#[test]
fn vec_third_success() {
    let v = nv([1u8; 3]);
    let p = v.as_ptr() as usize;
    let cap = v.capacity();
    let v = v.map_in_place(|e| e[0]);
    assert_eq!(&v, &[1, 1, 1, 1]);
    assert_eq!(v.capacity(), cap * 3);
    assert_eq!(v.as_ptr() as usize, p);
}

#[test]
fn vec_filter_third_success() {
    let v = nfv(|e| [e as u8; 3]);
    let p = v.as_ptr() as usize;
    let cap = v.capacity();
    let v = v.filter_map_in_place(|e| if e[0] >= 2 { Some(e[0]) } else { None });
    assert_eq!(&v, &[2, 3]);
    assert_eq!(v.capacity(), cap * 3);
    assert_eq!(v.as_ptr() as usize, p);
}

#[test]
fn vec_filter_fallback() {
    let v = nfv(|e| e);
    let p = v.as_ptr() as usize;
    let v = v.filter_map(|e| if e >= 2 { Some(e as u64) } else { None });
    assert_eq!(&v, &[2, 3]);
    assert!(v.as_ptr() as usize != p);
}

#[test]
fn vec_fallback() {
    let v = nv(1u8);
    let p = v.as_ptr() as usize;
    let v = v.map(|e| e as u16);
    assert_eq!(&v, &[1, 1, 1, 1]);
    assert!(v.as_ptr() as usize != p);
}

#[test]
fn slice_success() {
    let bs = ns('\0');
    let p = bs.as_ptr() as usize;
    let bs = bs.map_in_place(|e| e as u32);
    assert_eq!(&bs[..], &[0, 0, 0, 0]);
    assert_eq!(bs.as_ptr() as usize, p);
}

#[test]
fn slice_fallback() {
    let bs = ns(1u8);
    let p = bs.as_ptr() as usize;
    let bs = bs.map(|e| e as u16);
    assert_eq!(&bs[..], &[1, 1, 1, 1]);
    assert!(bs.as_ptr() as usize != p);
}

#[test]
fn box1_success() {
    let b = Box::new('\0');
    let p = std::slice::from_ref(b.as_ref()).as_ptr() as usize;
    let b = b.map_in_place(|c| c as u32);
    assert_eq!(*b, 0);
    assert_eq!(std::slice::from_ref(b.as_ref()).as_ptr() as usize, p);
}

#[test]
fn box1_fallback() {
    let b = Box::new(0_u8);
    let p = std::slice::from_ref(b.as_ref()).as_ptr() as usize;
    let b = b.map(|n| n as char);
    assert_eq!(*b, '\0');
    assert!(std::slice::from_ref(b.as_ref()).as_ptr() as usize != p);
}

// The compatibility law, checked by enumerating small synthetic layouts:
// the oracle answers `Reusable` exactly when neither size is zero, the
// alignments agree, and the sizes fit the mode's rule.
#[test]
fn classify_matches_rule() {
    let sizes: [usize; 7] = [0, 1, 2, 3, 4, 6, 8];
    let aligns: [usize; 4] = [1, 2, 4, 8];
    let modes = [Mode::Exact, Mode::DivisibleAtoB];
    for &sa in &sizes {
        for &sb in &sizes {
            for &aa in &aligns {
                for &ab in &aligns {
                    for &mode in &modes {
                        let legal = sa != 0
                            && sb != 0
                            && aa == ab
                            && match mode {
                                Mode::Exact => sa == sb,
                                Mode::DivisibleAtoB => sa % sb == 0,
                            };
                        let verdict = classify(sa, aa, sb, ab, mode);
                        assert_eq!(verdict == Verdict::Reusable, legal);
                    }
                }
            }
        }
    }
}

// One input for each verdict the oracle can hand out.
#[test]
fn classify_verdict_kinds() {
    assert_eq!(classify(0, 1, 1, 1, Mode::Exact), Verdict::ZeroSized);
    assert_eq!(classify(4, 4, 0, 1, Mode::DivisibleAtoB), Verdict::ZeroSized);
    assert_eq!(classify(4, 2, 4, 4, Mode::Exact), Verdict::AlignmentMismatch);
    assert_eq!(classify(4, 4, 2, 4, Mode::Exact), Verdict::SizeMismatch);
    assert_eq!(classify(4, 4, 3, 4, Mode::DivisibleAtoB), Verdict::SizeNotDivisible);
    assert_eq!(classify(4, 4, 4, 4, Mode::Exact), Verdict::Reusable);
    assert_eq!(classify(4, 4, 2, 4, Mode::DivisibleAtoB), Verdict::Reusable);
    assert_eq!(classify(2, 4, 4, 4, Mode::DivisibleAtoB), Verdict::SizeNotDivisible);
}

// Capacity law: the new capacity is the old one times the size ratio even
// when the length is smaller than the capacity.
#[test]
fn capacity_scales_with_spare_capacity() {
    let mut v: Vec<[u8; 3]> = Vec::with_capacity(4);
    v.push([1; 3]);
    v.push([2; 3]);
    assert_eq!(v.capacity(), 4);
    let p = v.as_ptr() as usize;
    let w = v.map_in_place(|e| e[0]);
    assert_eq!(&w, &[1, 2]);
    assert_eq!(w.capacity(), 12);
    assert_eq!(w.as_ptr() as usize, p);
}

// Order and filtering law on the concrete case: kept results appear in
// source order and dropped elements leave no trace.
#[test]
fn filter_keeps_source_order() {
    let v: Vec<u32> = vec![0, 1, 2, 3];
    let v = v.filter_map_in_place(|n| if n >= 2 { Some(n) } else { None });
    assert_eq!(&v, &[2, 3]);
}

// Fallback equivalence: the lenient entry points produce the same contents
// as a naive iterate-then-collect, whichever strategy they pick inside.
#[test]
fn lenient_matches_naive_collect() {
    // Compatible layouts: the storage is reused.
    let v: Vec<u32> = vec![10, 20, 30, 40];
    let naive: Vec<u32> = v.iter().map(|x| x.wrapping_add(1)).collect();
    assert_eq!(v.map(|x| x.wrapping_add(1)), naive);

    // Incompatible layouts: a fresh container is filled.
    let v: Vec<u8> = vec![1, 2, 3, 4];
    let naive: Vec<u16> = v.iter().map(|&x| x as u16).collect();
    assert_eq!(v.map(|x| x as u16), naive);

    // Filtering, compatible.
    let v: Vec<u32> = vec![5, 6, 7, 8];
    let naive: Vec<u32> = v.iter().filter_map(|&x| if x % 2 == 0 { Some(x) } else { None }).collect();
    assert_eq!(v.filter_map(|x| if x % 2 == 0 { Some(x) } else { None }), naive);

    // Filtering, incompatible.
    let v: Vec<u32> = vec![5, 6, 7, 8];
    let naive: Vec<u64> = v.iter().filter_map(|&x| if x % 2 == 0 { Some(x as u64) } else { None }).collect();
    assert_eq!(v.filter_map(|x| if x % 2 == 0 { Some(x as u64) } else { None }), naive);
}

// Single-box round trip: boxing a value, replacing it in place with an
// identity function, and unwrapping yields the value unchanged, in the
// same storage.
#[test]
fn box_round_trip() {
    let b = Box::new(7_u64);
    let p = std::slice::from_ref(b.as_ref()).as_ptr() as usize;
    let b = b.map_in_place(|x| x);
    assert_eq!(*b, 7);
    assert_eq!(std::slice::from_ref(b.as_ref()).as_ptr() as usize, p);
}

// The lenient entry points also reuse the storage when the oracle allows
// it; the incompatible cases above get fresh storage.
#[test]
fn lenient_reuses_when_compatible() {
    let v: Vec<u32> = vec![1, 2, 3, 4];
    let p = v.as_ptr() as usize;
    let v = v.map(|x| x.wrapping_mul(3));
    assert_eq!(&v, &[3, 6, 9, 12]);
    assert_eq!(v.as_ptr() as usize, p);

    let v: Vec<u32> = vec![1, 2, 3, 4];
    let p = v.as_ptr() as usize;
    let v = v.filter_map(|x| if x > 2 { Some(x) } else { None });
    assert_eq!(&v, &[3, 4]);
    assert_eq!(v.as_ptr() as usize, p);
}

// The sample builders hold what they promise.
#[test]
fn sample_containers() {
    assert_eq!(&nv(9_u8), &[9, 9, 9, 9]);
    assert_eq!(&nfv(|i| i + 1), &[1, 2, 3, 4]);
    assert_eq!(&ns('x')[..], &['x', 'x', 'x', 'x']);
}

// The reused storage really holds the transformed values, not the old ones.
#[test]
fn mapped_values_change() {
    let v: Vec<u32> = vec![1, 2, 3, 4];
    let v = v.map_in_place(|x| x + 1);
    assert_eq!(&v, &[2, 3, 4, 5]);

    let bs: Box<[u32]> = vec![9u32, 8, 7].into_boxed_slice();
    let bs = bs.map_in_place(|x| x - 1);
    assert_eq!(&bs[..], &[8, 7, 6]);
}
