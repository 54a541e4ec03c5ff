use poseidon_goldilocks::field::P;
use poseidon_goldilocks::{Buffer, Sponge, SpongeStep};

/// A stand-in permutation for driving the sponge: not Poseidon, but it
/// mixes every element into every other and returns non-canonical values.
fn mixing(state: &[u64]) -> Vec<u64> {
    let total = state.iter().fold(0u64, |a, &x| a.wrapping_mul(31).wrapping_add(x));
    (0..state.len())
        .map(|i| {
            total
                .wrapping_add((i as u64).wrapping_mul(0x9E37_79B9_7F4A_7C15))
                .wrapping_add(state[i].rotate_left(17))
                | 0x8000_0000_0000_0000
        })
        .collect()
}

/// Runs the sponge to its digest; returns the digest and every state it
/// asked to have permuted.
fn drive(mut sponge: Sponge, perm: impl Fn(&[u64]) -> Vec<u64>) -> (Vec<u64>, Vec<Vec<u64>>) {
    let mut asked = Vec::new();
    loop {
        match sponge.next_step() {
            SpongeStep::Permute(s) => {
                let out = perm(&s);
                asked.push(s);
                sponge.resume(&out);
            }
            SpongeStep::Digest(d) => return (d, asked),
        }
    }
}

fn reduced(s: &[u64]) -> Vec<u64> {
    s.iter().map(|x| x % P).collect()
}

fn inputs(n: usize) -> Vec<u64> {
    (0..n as u64).map(|i| i * 1000 + 1).collect()
}

#[test]
fn empty_input_is_one_permutation_of_the_zero_state() {
    let (digest, asked) = drive(Sponge::new(Vec::new()), mixing);
    assert_eq!(asked, vec![vec![0u64; 12]]);
    assert_eq!(digest, reduced(&mixing(&[0u64; 12]))[..4].to_vec());
}

#[test]
fn empty_input_digest_matches_published_zero_state_vector() {
    // plonky2's published Poseidon output for the all-zero Goldilocks state.
    let published: [u64; 12] = [
        0x3c18a9786cb0b359, 0xc4055e3364a246c3, 0x7953db0ab48808f4, 0xc71603f33a1144ca,
        0xd7709673896996dc, 0x46a84e87642f44ed, 0xd032648251ee0b3c, 0x1c687363b207df62,
        0xdf8565563e8045fe, 0x40f5b37ff4254dae, 0xd070f637b431067c, 0x1792b1c4342109d7,
    ];
    let lookup = |s: &[u64]| {
        assert_eq!(s, &[0u64; 12]);
        published.to_vec()
    };
    let (digest, _) = drive(Sponge::new(Vec::new()), lookup);
    assert_eq!(
        digest,
        vec![0x3c18a9786cb0b359, 0xc4055e3364a246c3, 0x7953db0ab48808f4, 0xc71603f33a1144ca]
    );
}

#[test]
fn permutation_calls_at_rate_boundaries() {
    for (n, calls) in [(0, 1), (1, 1), (7, 1), (8, 1), (9, 2), (16, 2), (17, 3)] {
        let (digest, asked) = drive(Sponge::new(inputs(n)), mixing);
        assert_eq!(asked.len(), calls, "input length {}", n);
        assert_eq!(digest.len(), 4);
    }
}

#[test]
fn nine_inputs_take_two_permutations() {
    let data = inputs(9);
    let (digest, asked) = drive(Sponge::new(data.clone()), mixing);
    assert_eq!(asked.len(), 2);
    let mut first = data[..8].to_vec();
    first.extend_from_slice(&[0, 0, 0, 0]);
    assert_eq!(asked[0], first);
    let after_first = reduced(&mixing(&first));
    let mut second = vec![data[8]];
    second.extend_from_slice(&after_first[1..]);
    assert_eq!(asked[1], second);
    assert_eq!(digest, reduced(&mixing(&second))[..4].to_vec());
}

#[test]
fn short_final_chunk_keeps_the_rest_of_the_state() {
    let data = inputs(15);
    let (_, asked) = drive(Sponge::new(data.clone()), mixing);
    assert_eq!(asked.len(), 2);
    let after_first = reduced(&mixing(&asked[0]));
    assert_eq!(&asked[1][..7], &data[8..15]);
    assert_eq!(&asked[1][7..], &after_first[7..]);
}

#[test]
fn rate_minus_one_inputs_keep_zero_in_the_last_rate_slot() {
    let data = inputs(7);
    let (_, asked) = drive(Sponge::new(data.clone()), mixing);
    let mut expected = data.clone();
    expected.extend_from_slice(&[0, 0, 0, 0, 0]);
    assert_eq!(asked, vec![expected]);
}

#[test]
fn same_input_gives_same_digest() {
    let data = inputs(20);
    let (a, _) = drive(Sponge::new(data.clone()), mixing);
    let (b, _) = drive(Sponge::new(data), mixing);
    assert_eq!(a, b);
}

#[test]
fn digest_is_canonical() {
    let all_ones = |s: &[u64]| vec![u64::MAX; s.len()];
    let (digest, _) = drive(Sponge::new(inputs(3)), all_ones);
    assert_eq!(digest, vec![u64::MAX - P; 4]);
    let (digest, _) = drive(Sponge::new(inputs(30)), mixing);
    assert!(digest.iter().all(|&x| x < P));
}

#[test]
fn raw_inputs_are_taken_modulo_the_prime() {
    let raw = vec![P, P + 5, u64::MAX, 9];
    let (_, asked) = drive(Sponge::from_raw(&raw), mixing);
    assert_eq!(asked[0][..4].to_vec(), vec![0, 5, u64::MAX - P, 9]);
    let (a, _) = drive(Sponge::from_raw(&raw), mixing);
    let (b, _) = drive(Sponge::new(vec![0, 5, u64::MAX - P, 9]), mixing);
    assert_eq!(a, b);
}

#[test]
fn changing_one_input_changes_the_digest() {
    let data = inputs(10);
    let (a, _) = drive(Sponge::new(data.clone()), mixing);
    for i in 0..data.len() {
        let mut other = data.clone();
        other[i] += 1;
        let (b, _) = drive(Sponge::new(other), mixing);
        assert_ne!(a, b, "element {}", i);
    }
}

#[test]
fn buffer_holds_its_integers() {
    let b = Buffer::new(vec![3, P, u64::MAX]);
    assert_eq!(b.len(), 3);
    assert_eq!(b.get(1), P);
    assert_eq!(b.into_vec(), vec![3, P, u64::MAX]);
    assert_eq!(Buffer::new(Vec::new()).len(), 0);
}
