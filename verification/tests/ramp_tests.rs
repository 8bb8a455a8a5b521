use atengine::{Error, GlyphRamp};

#[test]
fn density_ramp_shape() {
    let ramp = GlyphRamp::density();
    assert_eq!(ramp.len(), 66);
    assert_eq!(ramp.glyph(0), b' ');
    assert_eq!(ramp.glyph(65), b'$');
}

#[test]
fn new_validates_length() {
    assert!(matches!(GlyphRamp::new(vec![]), Err(Error::Other(_))));
    assert!(matches!(GlyphRamp::new(vec![0u8; 257]), Err(Error::Other(_))));
    let ramp = GlyphRamp::new(vec![b' ', b'+', b'@']).unwrap();
    assert_eq!(ramp.len(), 3);
    assert_eq!(ramp.glyph(1), b'+');
}

#[test]
fn brightness_monotonic_dense() {
    // Over every brightness value: the mapped index never decreases.
    let ramp = GlyphRamp::density();
    let mut prev: usize = 0;
    for b in 0..=u16::MAX {
        let idx = ramp.index_for(b);
        assert!(idx >= prev, "index dropped from {prev} to {idx} at brightness {b}");
        assert!(idx < ramp.len());
        prev = idx;
    }
}

#[test]
fn brightness_boundaries() {
    for len in [1usize, 2, 3, 66, 256] {
        let ramp = GlyphRamp::new(vec![b'x'; len]).unwrap();
        assert_eq!(ramp.index_for(0), 0);
        assert_eq!(ramp.index_for(u16::MAX), len - 1);
        for b in [0u16, 1, 9999, 32768, 65534, 65535] {
            assert!(ramp.index_for(b) < len);
        }
    }
}

#[test]
fn glyph_for_picks_ramp_entry() {
    let ramp = GlyphRamp::new(vec![b'a', b'b', b'c', b'd']).unwrap();
    assert_eq!(ramp.glyph_for(0), b'a');
    // 21844 * 3 = 65532, just short of one third: still the first glyph.
    assert_eq!(ramp.glyph_for(21844), b'a');
    // 21845 * 3 = 65535, exactly one third: the second glyph.
    assert_eq!(ramp.glyph_for(21845), b'b');
    assert_eq!(ramp.glyph_for(43690), b'c');
    assert_eq!(ramp.glyph_for(u16::MAX), b'd');
}
