use rle_numseq::{DeltaRleNumSeq, NumSeqError};
use rle_vec::Run;

fn runs_of(d: &DeltaRleNumSeq) -> Vec<(i16, usize)> {
    d.rle().runs().map(|Run { len, value }| (*value, len)).collect()
}

#[test]
fn empty_input_is_invalid() {
    let v: Vec<i16> = vec![];
    assert_eq!(DeltaRleNumSeq::new(&v).err(), Some(NumSeqError::InvalidInput));
}

#[test]
fn single_value_has_no_differences() {
    let v: Vec<i16> = vec![42];
    let d = DeltaRleNumSeq::new(&v).unwrap();
    assert_eq!(d.root(), 42);
    assert_eq!(d.len(), 0);
    assert_eq!(d.runs_len(), 0);
    assert_eq!(runs_of(&d), vec![]);
    assert_eq!(d.decode(), vec![42]);
}

#[test]
fn root_is_the_first_value() {
    let v: Vec<i16> = vec![-7, 0, 7];
    let d = DeltaRleNumSeq::new(&v).unwrap();
    assert_eq!(d.root(), -7);
}

#[test]
fn differences_are_stored_in_order() {
    let v: Vec<i16> = vec![5, 3, 3, 10, 10, 10, -4];
    let d = DeltaRleNumSeq::new(&v).unwrap();
    let deltas = d.rle().iter().cloned().collect::<Vec<_>>();
    assert_eq!(deltas, vec![-2, 0, 7, 0, 0, -14]);
    assert_eq!(runs_of(&d), vec![(-2, 1), (0, 1), (7, 1), (0, 2), (-14, 1)]);
}

#[test]
fn element_count_is_one_less_than_the_input() {
    for n in 1usize..40 {
        let v: Vec<i16> = (0..n).map(|i| (i * i % 17) as i16).collect();
        let d = DeltaRleNumSeq::new(&v).unwrap();
        assert_eq!(d.len(), n - 1);
        assert_eq!(d.rle().len(), n - 1);
        assert_eq!(d.decode().len(), n);
    }
}

#[test]
fn run_count_is_the_number_of_blocks_of_differences() {
    // differences: 2 2 2 | -1 -1 | 2 | 0 0 0 0
    let v: Vec<i16> = vec![0, 2, 4, 6, 5, 4, 6, 6, 6, 6, 6];
    let d = DeltaRleNumSeq::new(&v).unwrap();
    assert_eq!(d.runs_len(), 4);
    assert_eq!(d.rle().runs_len(), 4);
    assert_eq!(runs_of(&d), vec![(2, 3), (-1, 2), (2, 1), (0, 4)]);
}

#[test]
fn constant_sequence_is_one_run_of_zero() {
    let v: Vec<i16> = vec![9; 1000];
    let d = DeltaRleNumSeq::new(&v).unwrap();
    assert_eq!(d.runs_len(), 1);
    assert_eq!(d.len(), 999);
    assert_eq!(runs_of(&d), vec![(0, 999)]);
    assert_eq!(d.decode(), v);
}

#[test]
fn arithmetic_progression_is_one_run() {
    let v: Vec<i16> = (0..500).map(|i| -300 + 3 * i).collect();
    let d = DeltaRleNumSeq::new(&v).unwrap();
    assert_eq!(d.runs_len(), 1);
    assert_eq!(runs_of(&d), vec![(3, 499)]);
    assert_eq!(d.decode(), v);
}

#[test]
fn decode_is_the_running_sum_from_the_root() {
    let v: Vec<i16> = vec![100, 90, 80, 80, 85, 90, 95, -5];
    let d = DeltaRleNumSeq::new(&v).unwrap();
    let deltas = d.rle().to_vec();
    assert_eq!(deltas, vec![-10, -10, 0, 5, 5, 5, -100]);
    let mut acc = d.root();
    let mut expected = vec![acc];
    for x in deltas {
        acc += x;
        expected.push(acc);
    }
    assert_eq!(d.decode(), expected);
    assert_eq!(d.decode(), vec![100, 90, 80, 80, 85, 90, 95, -5]);
}

#[test]
fn round_trip_on_many_sequences() {
    let mut state: u32 = 12345;
    for len in 1usize..60 {
        let mut v: Vec<i16> = Vec::with_capacity(len);
        for _ in 0..len {
            state = state.wrapping_mul(1103515245).wrapping_add(12345);
            // values in -8000..8000, so that every difference fits
            v.push(((state >> 16) % 16000) as i16 - 8000);
        }
        let d = DeltaRleNumSeq::new(&v).unwrap();
        assert_eq!(d.decode(), v);
        assert_eq!(d.len() + 1, v.len());
    }
}

#[test]
fn round_trip_at_the_ends_of_the_range() {
    let v: Vec<i16> = vec![i16::MIN, -1, i16::MIN, -1, 0, i16::MAX, 0, i16::MIN];
    let d = DeltaRleNumSeq::new(&v).unwrap();
    assert_eq!(d.rle().to_vec(), vec![32767, -32767, 32767, 1, 32767, -32767, -32768]);
    assert_eq!(d.decode(), v);
}

#[test]
fn largest_and_smallest_difference_are_accepted() {
    let up: Vec<i16> = vec![0, i16::MAX];
    assert_eq!(DeltaRleNumSeq::new(&up).unwrap().decode(), up);
    let down: Vec<i16> = vec![0, i16::MIN];
    assert_eq!(DeltaRleNumSeq::new(&down).unwrap().decode(), down);
    let down_from_top: Vec<i16> = vec![i16::MAX, -1];
    assert_eq!(DeltaRleNumSeq::new(&down_from_top).unwrap().decode(), down_from_top);
}

#[test]
fn difference_above_the_range_overflows() {
    let v: Vec<i16> = vec![-1, i16::MAX];
    assert_eq!(DeltaRleNumSeq::new(&v).err(), Some(NumSeqError::Overflow));
    let v: Vec<i16> = vec![i16::MIN, i16::MAX];
    assert_eq!(DeltaRleNumSeq::new(&v).err(), Some(NumSeqError::Overflow));
}

#[test]
fn difference_below_the_range_overflows() {
    let v: Vec<i16> = vec![1, i16::MIN];
    assert_eq!(DeltaRleNumSeq::new(&v).err(), Some(NumSeqError::Overflow));
    let v: Vec<i16> = vec![i16::MAX, i16::MIN];
    assert_eq!(DeltaRleNumSeq::new(&v).err(), Some(NumSeqError::Overflow));
}

#[test]
fn overflow_late_in_the_sequence_is_found() {
    let v: Vec<i16> = vec![1, 2, 3, 4, 30000, -30000, 5];
    assert_eq!(DeltaRleNumSeq::new(&v).err(), Some(NumSeqError::Overflow));
}

#[test]
fn wrapped_differences_would_merge_but_are_refused() {
    // true differences 1 and -65535 wrap to the same i16
    let v: Vec<i16> = vec![32766, 32767, -32768];
    assert_eq!(DeltaRleNumSeq::new(&v).err(), Some(NumSeqError::Overflow));
}

#[test]
fn container_view_agrees_with_the_accessors() {
    let v: Vec<i16> = vec![3, 3, 3, 4, 5, 6, 6];
    let d = DeltaRleNumSeq::new(&v).unwrap();
    assert_eq!(d.len(), d.rle().len());
    assert_eq!(d.runs_len(), d.rle().runs_len());
    assert_eq!(d.rle().iter().nth(2), Some(&1));
    assert_eq!(d.rle().iter().nth(6), None);
}

#[test]
fn decode_can_be_repeated() {
    let v: Vec<i16> = vec![10, 20, 30, 25, 20];
    let d = DeltaRleNumSeq::new(&v).unwrap();
    assert_eq!(d.decode(), v);
    assert_eq!(d.decode(), v);
}
