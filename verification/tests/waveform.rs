use paper_plane::ui::waveform::{bar_count, decode_waveform, Waveform};

#[test]
fn samples_have_five_bits() {
    assert_eq!(decode_waveform(""), []);
    assert_eq!(decode_waveform("A"), [0x41 & 0x1f]);
    // The second sample spans two bytes.
    assert_eq!(decode_waveform("AB"), [1, 18, 16]);
    assert_eq!(decode_waveform("ABCDE").len(), 8);
    let bits: u32 = 0x7e7e7e;
    let samples: Vec<u32> = decode_waveform("~~~").into_iter().map(u32::from).collect();
    assert_eq!(samples, [bits & 31, bits >> 5 & 31, bits >> 10 & 31, bits >> 15 & 31]);
}

#[test]
fn at_least_one_bar_is_drawn() {
    assert_eq!(bar_count(-3), 1);
    assert_eq!(bar_count(0), 1);
    assert_eq!(bar_count(9), 1);
    assert_eq!(bar_count(10), 2);
    assert_eq!(bar_count(104), 20);
}

#[test]
fn waveform_is_decoded_when_it_changes() {
    let mut waveform = Waveform::new();
    assert_eq!(waveform.len(), 0);
    assert!(!waveform.set_waveform(""));
    assert!(waveform.set_waveform("AB"));
    assert!(!waveform.set_waveform("AB"));
    assert_eq!(waveform.len(), 3);
    assert_eq!(waveform.sample(1), 18);
    assert_eq!(waveform.sample(3), 0);
    assert_eq!(waveform.peak(0, 3), 18);
    assert_eq!(waveform.peak(2, 3), 16);
    assert_eq!(waveform.peak(1, 1), 0);
}
