use mic_capture::normalize::{
    push_f32_samples, push_i16_samples, push_u16_samples, scale_i16, scale_u16,
};

struct Lcg(u64);

impl Lcg {
    fn next(&mut self) -> u32 {
        self.0 = self.0.wrapping_mul(6364136223846793005).wrapping_add(1442695040888963407);
        (self.0 >> 32) as u32
    }
}

fn f32_means(data: &[f32], channels: usize) -> Vec<f32> {
    let mut captured = Vec::new();
    if channels == 0 || data.is_empty() {
        return captured;
    }
    for frame in data.chunks(channels) {
        let frame_sum: f32 = frame.iter().copied().sum();
        captured.push(frame_sum / frame.len() as f32);
    }
    captured
}

fn i16_means(data: &[i16], channels: usize) -> Vec<f32> {
    let mut captured = Vec::new();
    if channels == 0 || data.is_empty() {
        return captured;
    }
    for frame in data.chunks(channels) {
        let frame_sum: f32 = frame.iter().map(|sample| (*sample as f32) / (i16::MAX as f32)).sum();
        captured.push(frame_sum / frame.len() as f32);
    }
    captured
}

fn u16_means(data: &[u16], channels: usize) -> Vec<f32> {
    let mut captured = Vec::new();
    if channels == 0 || data.is_empty() {
        return captured;
    }
    for frame in data.chunks(channels) {
        let frame_sum: f32 = frame
            .iter()
            .map(|sample| ((*sample as f32) / (u16::MAX as f32)) * 2.0 - 1.0)
            .sum();
        captured.push(frame_sum / frame.len() as f32);
    }
    captured
}

fn assert_same(ours: &[u32], theirs: &[f32]) {
    assert_eq!(ours.len(), theirs.len());
    for (index, (bits, value)) in ours.iter().zip(theirs.iter()).enumerate() {
        if value.is_nan() {
            assert!(f32::from_bits(*bits).is_nan(), "sample {index}");
        } else {
            assert_eq!(*bits, value.to_bits(), "sample {index}: {} against {value}", f32::from_bits(*bits));
        }
    }
}

#[test]
fn every_i16_value_is_scaled_as_in_single_precision() {
    let mut sample = i16::MIN;
    loop {
        assert_eq!(scale_i16(sample), ((sample as f32) / (i16::MAX as f32)).to_bits(), "{sample}");
        if sample == i16::MAX {
            break;
        }
        sample += 1;
    }
}

#[test]
fn every_u16_value_is_scaled_as_in_single_precision() {
    let mut sample = u16::MIN;
    loop {
        let expected = ((sample as f32) / (u16::MAX as f32)) * 2.0 - 1.0;
        assert_eq!(scale_u16(sample), expected.to_bits(), "{sample}");
        if sample == u16::MAX {
            break;
        }
        sample += 1;
    }
}

#[test]
fn full_scale_gives_exactly_one() {
    for channels in 1..9usize {
        let mut samples = Vec::new();
        push_f32_samples(&vec![1.0f32.to_bits(); channels * 3], channels, &mut samples);
        assert_eq!(samples, vec![1.0f32.to_bits(); 3]);
        let mut samples = Vec::new();
        push_i16_samples(&vec![i16::MAX; channels * 3], channels, &mut samples);
        assert_eq!(samples, vec![1.0f32.to_bits(); 3]);
        let mut samples = Vec::new();
        push_u16_samples(&vec![u16::MAX; channels * 3], channels, &mut samples);
        assert_eq!(samples, vec![1.0f32.to_bits(); 3]);
    }
}

#[test]
fn silence_gives_zeros() {
    for channels in 1..9usize {
        let mut samples = Vec::new();
        push_f32_samples(&vec![0u32; channels * 5], channels, &mut samples);
        assert_eq!(samples, vec![0u32; 5]);
        let mut samples = Vec::new();
        push_i16_samples(&vec![0i16; channels * 5], channels, &mut samples);
        assert_eq!(samples, vec![0u32; 5]);
    }
}

#[test]
fn unsigned_zero_is_the_bottom_of_the_range() {
    let mut samples = Vec::new();
    push_u16_samples(&[0, 0, 0, 0], 2, &mut samples);
    assert_eq!(samples, vec![(-1.0f32).to_bits(); 2]);
    let mut samples = Vec::new();
    push_u16_samples(&[32768], 1, &mut samples);
    assert_eq!(samples, vec![(((32768f32) / 65535.0) * 2.0 - 1.0).to_bits()]);
}

#[test]
fn an_empty_batch_or_no_channel_appends_nothing() {
    let mut samples = vec![7u32];
    push_f32_samples(&[], 2, &mut samples);
    push_f32_samples(&[1, 2, 3], 0, &mut samples);
    push_i16_samples(&[], 1, &mut samples);
    push_i16_samples(&[1, 2, 3], 0, &mut samples);
    push_u16_samples(&[], 1, &mut samples);
    push_u16_samples(&[1, 2, 3], 0, &mut samples);
    assert_eq!(samples, vec![7u32]);
}

#[test]
fn samples_are_appended_after_what_is_there() {
    let mut samples = vec![0.25f32.to_bits()];
    push_f32_samples(&[0.5f32.to_bits(), 1.0f32.to_bits()], 2, &mut samples);
    push_i16_samples(&[i16::MAX, -i16::MAX], 1, &mut samples);
    assert_eq!(
        samples,
        vec![0.25f32.to_bits(), 0.75f32.to_bits(), 1.0f32.to_bits(), (-1.0f32).to_bits()]
    );
}

#[test]
fn f32_batches_match_single_precision() {
    let mut random = Lcg(0x0123_4567_89ab_cdef);
    for round in 0..3000 {
        let channels = (random.next() % 9) as usize;
        let len = (random.next() % 40) as usize;
        let data: Vec<f32> = (0..len)
            .map(|_| {
                if round % 3 == 0 {
                    f32::from_bits(random.next())
                } else {
                    (random.next() as f32 / u32::MAX as f32) * 2.0 - 1.0
                }
            })
            .collect();
        let bits: Vec<u32> = data.iter().map(|s| s.to_bits()).collect();
        let mut samples = Vec::new();
        push_f32_samples(&bits, channels, &mut samples);
        assert_same(&samples, &f32_means(&data, channels));
    }
}

#[test]
fn i16_batches_match_single_precision() {
    let mut random = Lcg(0xaaaa_5555_aaaa_5555);
    for _ in 0..3000 {
        let channels = (random.next() % 9) as usize;
        let len = (random.next() % 40) as usize;
        let data: Vec<i16> = (0..len).map(|_| random.next() as i16).collect();
        let mut samples = Vec::new();
        push_i16_samples(&data, channels, &mut samples);
        assert_same(&samples, &i16_means(&data, channels));
    }
}

#[test]
fn u16_batches_match_single_precision() {
    let mut random = Lcg(0x5555_aaaa_5555_aaaa);
    for _ in 0..3000 {
        let channels = (random.next() % 9) as usize;
        let len = (random.next() % 40) as usize;
        let data: Vec<u16> = (0..len).map(|_| random.next() as u16).collect();
        let mut samples = Vec::new();
        push_u16_samples(&data, channels, &mut samples);
        assert_same(&samples, &u16_means(&data, channels));
    }
}

#[test]
fn wide_frames_match_single_precision() {
    let mut random = Lcg(0x1111_2222_3333_4444);
    let data: Vec<i16> = (0..4000).map(|_| random.next() as i16).collect();
    for channels in [64usize, 255, 1000, 4000, 65535] {
        let mut samples = Vec::new();
        push_i16_samples(&data, channels, &mut samples);
        assert_same(&samples, &i16_means(&data, channels));
    }
}

#[test]
fn full_scale_gives_exactly_one_for_wide_frames() {
    for channels in [255usize, 4096, 65535, 1 << 20] {
        let mut samples = Vec::new();
        push_f32_samples(&vec![1.0f32.to_bits(); channels], channels, &mut samples);
        assert_eq!(samples, vec![1.0f32.to_bits()], "{channels} channels");
    }
    let mut samples = Vec::new();
    push_i16_samples(&vec![i16::MAX; 65535 * 2], 65535, &mut samples);
    assert_eq!(samples, vec![1.0f32.to_bits(); 2]);
    let mut samples = Vec::new();
    push_u16_samples(&vec![u16::MAX; 65535 * 2], 65535, &mut samples);
    assert_eq!(samples, vec![1.0f32.to_bits(); 2]);
}
