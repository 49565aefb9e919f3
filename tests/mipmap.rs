use mipmap_1d::MipMap1D;
use mipmap_1d::Sample;

#[test]
fn test_correct_downsample_ints() {
    let data = vec![2, 4, 6, 8];
    assert_eq!(MipMap1D::downsample(&data), vec![3, 7]);
}

#[test]
fn test_uneven_downsample() {
    let data = vec![2, 4, 6, 8, 9];
    assert_eq!(MipMap1D::downsample(&data), vec![3, 7, 9]);
}

#[test]
fn test_uneven_mipmap() {
    let data = vec![2, 4, 6, 8, 9];
    let target = vec![vec![2, 4, 6, 8, 9], vec![3, 7, 9], vec![5, 9], vec![7]];
    let mipmap = MipMap1D::new(data);
    assert_eq!(*mipmap.levels(), target);
}

#[test]
fn test_mipmap_levels() {
    let data = vec![2, 4, 6, 8, 9];
    let target = [vec![2, 4, 6, 8, 9], vec![3, 7, 9], vec![5, 9], vec![7]];
    let mipmap = MipMap1D::new(data);

    assert_eq!(mipmap.num_levels(), target.len());
    for (level, target_item) in target.iter().enumerate() {
        let res = mipmap.get_level(level);
        assert!(res.is_some());
        let res = res.unwrap();

        assert_eq!(*res, *target_item)
    }
}

#[test]
fn test_fails_on_nonexistent_level() {
    let data = vec![2, 4, 6, 8, 9];
    let mipmap = MipMap1D::new(data);

    assert_eq!(mipmap.get_level(mipmap.num_levels()), None);
}

fn ceil_log2(n: usize) -> usize {
    let mut k = 0;
    while (1usize << k) < n {
        k += 1;
    }
    k
}

#[test]
fn level_count_is_ceil_log2_plus_one() {
    for n in 1..=70usize {
        let data: Vec<i32> = (0..n as i32).collect();
        let mipmap = MipMap1D::new(data);
        assert_eq!(mipmap.num_levels(), ceil_log2(n) + 1, "length {}", n);
    }
    assert_eq!(MipMap1D::new(vec![0u8; 1000]).num_levels(), 11);
    assert_eq!(MipMap1D::new(vec![0u8; 1024]).num_levels(), 11);
    assert_eq!(MipMap1D::new(vec![0u8; 1025]).num_levels(), 12);
}

#[test]
fn single_element_gives_one_level() {
    let mipmap = MipMap1D::new(vec![42i32]);
    assert_eq!(mipmap.num_levels(), 1);
    assert_eq!(mipmap.get_level(0), Some(&vec![42]));
    assert_eq!(mipmap.get_level(1), None);
}

#[test]
fn empty_input_gives_one_empty_level() {
    let mipmap = MipMap1D::new(Vec::<i32>::new());
    assert_eq!(mipmap.num_levels(), 1);
    assert_eq!(mipmap.get_level(0), Some(&Vec::new()));
    assert_eq!(mipmap.get_level(1), None);
    assert_eq!(MipMap1D::<i32>::downsample(&[]), Vec::<i32>::new());
}

#[test]
fn first_level_is_source_and_last_is_single() {
    let data: Vec<i16> = vec![5, -3, 12, 7, 0, 100, -50];
    let mipmap = MipMap1D::new(data.clone());
    assert_eq!(*mipmap.get_level(0).unwrap(), data);
    let last = mipmap.get_level(mipmap.num_levels() - 1).unwrap();
    assert_eq!(last.len(), 1);
}

#[test]
fn each_level_is_downsampled_previous() {
    let data: Vec<u32> = (0..37u32).map(|x| x * x % 17).collect();
    let mipmap = MipMap1D::new(data);
    for k in 1..mipmap.num_levels() {
        let prev = mipmap.get_level(k - 1).unwrap();
        let cur = mipmap.get_level(k).unwrap();
        assert_eq!(cur.len(), (prev.len() + 1) / 2);
        assert_eq!(*cur, MipMap1D::downsample(prev));
    }
}

#[test]
fn get_level_present_exactly_below_count() {
    let mipmap = MipMap1D::new(vec![1u16, 2, 3, 4, 5, 6, 7, 8, 9]);
    let n = mipmap.num_levels();
    assert_eq!(n, 5);
    for i in 0..n {
        assert!(mipmap.get_level(i).is_some());
    }
    assert!(mipmap.get_level(n).is_none());
    assert!(mipmap.get_level(n + 1).is_none());
    assert!(mipmap.get_level(usize::MAX).is_none());
}

#[test]
fn downsample_even_averages_pairs() {
    assert_eq!(MipMap1D::downsample(&[10i32, 20, -4, 8]), vec![15, 2]);
}

#[test]
fn downsample_odd_keeps_trailing_element() {
    assert_eq!(MipMap1D::downsample(&[1i32, 2, 9]), vec![1, 9]);
    assert_eq!(MipMap1D::downsample(&[255u8, 254, 255]), vec![254, 255]);
}

#[test]
fn building_twice_gives_equal_levels() {
    let data: Vec<i32> = vec![9, -1, 4, 4, 17, 3];
    let a = MipMap1D::new(data.clone());
    let b = MipMap1D::new(data);
    assert_eq!(a.levels(), b.levels());
}

#[test]
fn mean_rounds_toward_zero() {
    assert_eq!(i32::mean(2, 5), 3);
    assert_eq!(i32::mean(-2, -5), -3);
    assert_eq!(i32::mean(-3, 0), -1);
    assert_eq!(i32::mean(-3, 4), 0);
    assert_eq!(u32::mean(7, 8), 7);
}

#[test]
fn mean_does_not_overflow_at_the_extremes() {
    assert_eq!(i32::mean(i32::MAX, i32::MAX), i32::MAX);
    assert_eq!(i32::mean(i32::MIN, i32::MIN), i32::MIN);
    assert_eq!(i32::mean(i32::MIN, i32::MAX), 0);
    assert_eq!(u32::mean(u32::MAX, u32::MAX - 1), u32::MAX - 1);
    assert_eq!(i16::mean(i16::MAX, i16::MAX), i16::MAX);
    assert_eq!(u16::mean(u16::MAX, u16::MAX), u16::MAX);
    assert_eq!(i8::mean(i8::MIN, -127), -127);
    assert_eq!(u8::mean(255, 255), 255);
}
