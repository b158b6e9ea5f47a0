use dsp_core::bit_reverse::bit_reverse_permute;

#[test]
fn eight_values_take_bit_reversed_order() {
    let mut values: Vec<u32> = (0..8).collect();
    bit_reverse_permute(&mut values);
    assert_eq!(values, vec![0, 4, 2, 6, 1, 5, 3, 7]);
}

#[test]
fn reordering_twice_restores_the_buffer() {
    for bits in 0..10 {
        let before: Vec<u64> = (0..1u64 << bits).map(|x| x * 31 + 7).collect();
        let mut values = before.clone();
        bit_reverse_permute(&mut values);
        bit_reverse_permute(&mut values);
        assert_eq!(values, before);
    }
}

#[test]
fn each_position_receives_its_reversed_index() {
    let bits = 6u32;
    let mut values: Vec<usize> = (0..1usize << bits).collect();
    bit_reverse_permute(&mut values);
    for (index, value) in values.iter().enumerate() {
        assert_eq!(*value, index.reverse_bits() >> (usize::BITS - bits));
    }
    let mut single = vec![(1.5f64, -2.0f64)];
    bit_reverse_permute(&mut single);
    assert_eq!(single, vec![(1.5, -2.0)]);
}
