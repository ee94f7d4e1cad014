use ttf_outline::flags::bit_is_set;
use ttf_outline::coords::get_coordinates;
use ttf_outline::flags::read_flags;
use ttf_outline::flags::ON_CURVE_POINT;
use ttf_outline::flags::REPEAT_FLAG;
use ttf_outline::flags::X_SAME_OR_POSITIVE;
use ttf_outline::flags::X_SHORT_VECTOR;
use ttf_outline::flags::Y_SAME_OR_POSITIVE;
use ttf_outline::flags::Y_SHORT_VECTOR;
use ttf_outline::ByteCursor;
use ttf_outline::FontError;
use ttf_outline::GlyphOutline;
use ttf_outline::Point;

const ON: u8 = 0x01;
const X_SHORT: u8 = 0x02;
const Y_SHORT: u8 = 0x04;
const REPEAT: u8 = 0x08;
const X_SAME: u8 = 0x10;
const Y_SAME: u8 = 0x20;

fn push_u16(out: &mut Vec<u8>, value: u16) {
    out.push((value >> 8) as u8);
    out.push((value & 0xff) as u8);
}

/// A simple glyph record: header, contour ends, instructions, then the
/// flag bytes and the delta bytes as given.
fn record(ends: &[u16], instructions: &[u8], flags: &[u8], xs: &[u8], ys: &[u8]) -> Vec<u8> {
    let mut out = Vec::new();
    push_u16(&mut out, ends.len() as u16);
    out.extend_from_slice(&[0, 1, 0, 2, 0, 3, 0, 4]);
    for end in ends {
        push_u16(&mut out, *end);
    }
    push_u16(&mut out, instructions.len() as u16);
    out.extend_from_slice(instructions);
    out.extend_from_slice(flags);
    out.extend_from_slice(xs);
    out.extend_from_slice(ys);
    out
}

fn decode(bytes: Vec<u8>) -> Result<GlyphOutline, FontError> {
    let mut cursor = ByteCursor::new(bytes);
    GlyphOutline::from_cursor(&mut cursor)
}

fn point(x: i16, y: i16, on_curve: bool) -> Point {
    Point { x, y, on_curve }
}

#[test]
fn bit_is_set_tests_single_bits() {
    assert!(bit_is_set(0b0000_0001, 0));
    assert!(!bit_is_set(0b0000_0001, 1));
    assert!(bit_is_set(0b0010_0000, 5));
    assert!(!bit_is_set(0b0010_0000, 6));
    assert!(bit_is_set(0b1000_0000, 7));
    assert!(!bit_is_set(0b0111_1111, 7));
    assert!(bit_is_set(0xff, 3));
    assert!(!bit_is_set(0x00, 3));
}

#[test]
fn bit_is_set_knows_no_bit_above_seven() {
    assert!(!bit_is_set(0xff, 8));
    assert!(!bit_is_set(0xff, 9));
    assert!(!bit_is_set(0xff, 255));
}

#[test]
fn flag_bit_positions() {
    assert_eq!(ON_CURVE_POINT, 0);
    assert_eq!(X_SHORT_VECTOR, 1);
    assert_eq!(Y_SHORT_VECTOR, 2);
    assert_eq!(REPEAT_FLAG, 3);
    assert_eq!(X_SAME_OR_POSITIVE, 4);
    assert_eq!(Y_SAME_OR_POSITIVE, 5);
    assert!(bit_is_set(ON, ON_CURVE_POINT));
    assert!(bit_is_set(X_SHORT, X_SHORT_VECTOR));
    assert!(bit_is_set(Y_SHORT, Y_SHORT_VECTOR));
    assert!(bit_is_set(REPEAT, REPEAT_FLAG));
    assert!(bit_is_set(X_SAME, X_SAME_OR_POSITIVE));
    assert!(bit_is_set(Y_SAME, Y_SAME_OR_POSITIVE));
}

#[test]
fn flags_without_repeat_are_read_one_by_one() {
    let mut cursor = ByteCursor::new(vec![0x01, 0x02, 0x04, 0x99]);
    assert_eq!(read_flags(&mut cursor, 3), Ok(vec![0x01, 0x02, 0x04]));
    assert_eq!(cursor.position(), 3);
}

#[test]
fn no_flags_are_read_for_no_points() {
    let mut cursor = ByteCursor::new(vec![0x09, 0x05]);
    assert_eq!(read_flags(&mut cursor, 0), Ok(Vec::new()));
    assert_eq!(cursor.position(), 0);
}

#[test]
fn repeat_count_zero_gives_one_flag() {
    let flag = ON | REPEAT;
    let mut cursor = ByteCursor::new(vec![flag, 0, 0x01]);
    assert_eq!(read_flags(&mut cursor, 1), Ok(vec![flag]));
    assert_eq!(cursor.position(), 2);
    let mut cursor = ByteCursor::new(vec![flag, 0, 0x01]);
    assert_eq!(read_flags(&mut cursor, 2), Ok(vec![flag, 0x01]));
    assert_eq!(cursor.position(), 3);
}

#[test]
fn repeat_count_255_gives_256_flags() {
    let flag = ON | REPEAT | X_SAME;
    let mut cursor = ByteCursor::new(vec![flag, 255, 0x01]);
    let flags = read_flags(&mut cursor, 256).unwrap();
    assert_eq!(flags.len(), 256);
    assert!(flags.iter().all(|f| *f == flag));
    assert_eq!(cursor.position(), 2);
    let mut cursor = ByteCursor::new(vec![flag, 255, 0x01]);
    let flags = read_flags(&mut cursor, 257).unwrap();
    assert_eq!(flags.len(), 257);
    assert!(flags[..256].iter().all(|f| *f == flag));
    assert_eq!(flags[256], 0x01);
    assert_eq!(cursor.position(), 3);
}

#[test]
fn repeat_in_the_middle_of_the_stream() {
    let mut cursor = ByteCursor::new(vec![0x01, 0x08 | 0x02, 3, 0x04]);
    assert_eq!(
        read_flags(&mut cursor, 6),
        Ok(vec![0x01, 0x0a, 0x0a, 0x0a, 0x0a, 0x04])
    );
    assert_eq!(cursor.position(), 4);
}

#[test]
fn a_run_longer_than_the_points_left_is_cut() {
    let mut cursor = ByteCursor::new(vec![0x01, 0x09, 10, 0x77]);
    assert_eq!(read_flags(&mut cursor, 3), Ok(vec![0x01, 0x09, 0x09]));
    assert_eq!(cursor.position(), 3);
}

#[test]
fn flags_that_end_early_are_truncated() {
    let mut cursor = ByteCursor::new(vec![0x01, 0x02]);
    assert_eq!(read_flags(&mut cursor, 3), Err(FontError::TruncatedGlyph));
    let mut cursor = ByteCursor::new(vec![0x01, 0x09]);
    assert_eq!(read_flags(&mut cursor, 3), Err(FontError::TruncatedGlyph));
    let mut cursor = ByteCursor::new(Vec::new());
    assert_eq!(read_flags(&mut cursor, 1), Err(FontError::TruncatedGlyph));
}

#[test]
fn coordinates_short_long_and_same() {
    // x deltas 10 (short, positive), -5 (two bytes), 0 (same as before)
    let flags = vec![X_SHORT | X_SAME, 0, X_SAME];
    let mut cursor = ByteCursor::new(vec![10, 0xff, 0xfb, 0x55]);
    assert_eq!(get_coordinates(&mut cursor, &flags, true), Ok(vec![10, 5, 5]));
    assert_eq!(cursor.position(), 3);
}

#[test]
fn coordinates_use_the_bits_of_their_axis() {
    // for y the same bytes are short/long/same by bits 2 and 5
    let flags = vec![Y_SHORT | Y_SAME | X_SAME, X_SHORT, Y_SAME | X_SHORT];
    let mut cursor = ByteCursor::new(vec![10, 0xff, 0xfb, 0x55]);
    assert_eq!(get_coordinates(&mut cursor, &flags, false), Ok(vec![10, 5, 5]));
    assert_eq!(cursor.position(), 3);
    // for x: same (0), short negative 10, short negative 0xff
    let mut cursor = ByteCursor::new(vec![10, 0xff, 0xfb, 0x55]);
    assert_eq!(get_coordinates(&mut cursor, &flags, true), Ok(vec![0, -10, -265]));
    assert_eq!(cursor.position(), 2);
}

#[test]
fn short_deltas_take_their_sign_from_the_second_bit() {
    let flags = vec![X_SHORT, X_SHORT | X_SAME, X_SHORT, X_SHORT];
    let mut cursor = ByteCursor::new(vec![255, 255, 0, 7]);
    assert_eq!(get_coordinates(&mut cursor, &flags, true), Ok(vec![-255, 0, 0, -7]));
    assert_eq!(cursor.position(), 4);
}

#[test]
fn long_deltas_are_signed_big_endian() {
    let flags = vec![0, 0, 0];
    let mut cursor = ByteCursor::new(vec![0x01, 0x00, 0x80, 0x00, 0x7f, 0xff]);
    assert_eq!(get_coordinates(&mut cursor, &flags, true), Ok(vec![256, -32512, 255]));
    assert_eq!(cursor.position(), 6);
}

#[test]
fn coordinates_of_no_points() {
    let flags: Vec<u8> = Vec::new();
    let mut cursor = ByteCursor::new(vec![1, 2, 3]);
    assert_eq!(get_coordinates(&mut cursor, &flags, true), Ok(Vec::new()));
    assert_eq!(cursor.position(), 0);
}

#[test]
fn coordinates_wrap_in_sixteen_bits() {
    let flags = vec![0, X_SHORT | X_SAME, 0, X_SHORT];
    let mut cursor = ByteCursor::new(vec![0x7f, 0xff, 1, 0x80, 0x01, 2]);
    assert_eq!(
        get_coordinates(&mut cursor, &flags, true),
        Ok(vec![32767, -32768, 1, -1])
    );
    let flags = vec![0, X_SHORT];
    let mut cursor = ByteCursor::new(vec![0x80, 0x00, 1]);
    assert_eq!(get_coordinates(&mut cursor, &flags, true), Ok(vec![-32768, 32767]));
}

#[test]
fn coordinates_that_end_early_are_truncated() {
    let flags = vec![X_SHORT, 0];
    let mut cursor = ByteCursor::new(vec![1, 2]);
    assert_eq!(get_coordinates(&mut cursor, &flags, true), Err(FontError::TruncatedGlyph));
    let mut cursor = ByteCursor::new(Vec::new());
    assert_eq!(get_coordinates(&mut cursor, &flags, true), Err(FontError::TruncatedGlyph));
    let mut cursor = ByteCursor::new(vec![1, 2, 3]);
    assert_eq!(get_coordinates(&mut cursor, &flags, true), Ok(vec![-1, 0x0202]));
}

#[test]
fn triangle_with_short_deltas() {
    let p = ON | X_SHORT | Y_SHORT | X_SAME | Y_SAME;
    let q = ON | X_SHORT | Y_SHORT | Y_SAME;
    let bytes = record(&[2], &[], &[p, p, q], &[10, 30, 15], &[20, 0, 25]);
    let len = bytes.len();
    let mut cursor = ByteCursor::new(bytes);
    let outline = GlyphOutline::from_cursor(&mut cursor).unwrap();
    assert_eq!(
        outline,
        GlyphOutline::Simple {
            contour_end_indices: vec![2],
            points: vec![point(10, 20, true), point(40, 20, true), point(25, 45, true)],
        }
    );
    assert_eq!(cursor.position(), len);
}

#[test]
fn decoded_x_coordinates_are_cumulative_sums() {
    let flags = [ON | X_SHORT | X_SAME | Y_SAME, ON | Y_SAME, ON | X_SAME | Y_SAME];
    let outline = decode(record(&[2], &[], &flags, &[10, 0xff, 0xfb], &[])).unwrap();
    match outline {
        GlyphOutline::Simple { contour_end_indices, points } => {
            assert_eq!(contour_end_indices, vec![2]);
            let xs: Vec<i16> = points.iter().map(|p| p.x).collect();
            assert_eq!(xs, vec![10, 5, 5]);
            let ys: Vec<i16> = points.iter().map(|p| p.y).collect();
            assert_eq!(ys, vec![0, 0, 0]);
        }
        other => panic!("not a simple outline: {:?}", other),
    }
}

#[test]
fn on_curve_bit_is_kept_for_each_point() {
    let flags = [ON | X_SAME | Y_SAME, X_SAME | Y_SAME, ON | X_SAME | Y_SAME, X_SAME | Y_SAME];
    let outline = decode(record(&[1, 3], &[], &flags, &[], &[])).unwrap();
    assert_eq!(
        outline,
        GlyphOutline::Simple {
            contour_end_indices: vec![1, 3],
            points: vec![
                point(0, 0, true),
                point(0, 0, false),
                point(0, 0, true),
                point(0, 0, false)
            ],
        }
    );
}

#[test]
fn two_contours_with_mixed_encodings() {
    let flags = [
        ON | X_SHORT | X_SAME,
        Y_SHORT | Y_SAME | X_SAME,
        ON,
        ON | X_SHORT | Y_SHORT,
        X_SAME | Y_SAME,
    ];
    let xs = [100, 0x01, 0x00, 50];
    let ys = [0xff, 0x9c, 7, 0x00, 0x64, 3];
    let bytes = record(&[2, 4], &[0xde, 0xad, 0xbe], &flags, &xs, &ys);
    let len = bytes.len();
    let mut cursor = ByteCursor::new(bytes);
    let outline = GlyphOutline::from_cursor(&mut cursor).unwrap();
    assert_eq!(
        outline,
        GlyphOutline::Simple {
            contour_end_indices: vec![2, 4],
            points: vec![
                point(100, -100, true),
                point(100, -93, false),
                point(356, 7, true),
                point(306, 4, true),
                point(306, 4, false),
            ],
        }
    );
    assert_eq!(cursor.position(), len);
}

#[test]
fn instructions_are_skipped() {
    let flags = [ON | X_SHORT | X_SAME | Y_SAME];
    let with = decode(record(&[0], &[9, 9, 9, 9, 9], &flags, &[42], &[])).unwrap();
    let without = decode(record(&[0], &[], &flags, &[42], &[])).unwrap();
    assert_eq!(with, without);
    assert_eq!(
        with,
        GlyphOutline::Simple { contour_end_indices: vec![0], points: vec![point(42, 0, true)] }
    );
}

#[test]
fn repeated_flags_in_a_glyph() {
    let flag = ON | REPEAT | X_SHORT | X_SAME | Y_SAME;
    let outline = decode(record(&[3], &[], &[flag, 3], &[1, 2, 3, 4], &[])).unwrap();
    assert_eq!(
        outline,
        GlyphOutline::Simple {
            contour_end_indices: vec![3],
            points: vec![
                point(1, 0, true),
                point(3, 0, true),
                point(6, 0, true),
                point(10, 0, true)
            ],
        }
    );
}

#[test]
fn glyph_with_256_repeated_points() {
    let flag = ON | REPEAT | X_SAME | Y_SAME;
    let outline = decode(record(&[255], &[], &[flag, 255], &[], &[])).unwrap();
    match outline {
        GlyphOutline::Simple { contour_end_indices, points } => {
            assert_eq!(contour_end_indices, vec![255]);
            assert_eq!(points.len(), 256);
            assert!(points.iter().all(|p| *p == point(0, 0, true)));
        }
        other => panic!("not a simple outline: {:?}", other),
    }
}

#[test]
fn glyph_starts_at_the_cursor() {
    let flags = [ON | X_SHORT | X_SAME | Y_SHORT | Y_SAME];
    let glyph = record(&[0], &[], &flags, &[5], &[6]);
    let mut bytes = vec![0xff, 0xff, 0xff];
    bytes.extend_from_slice(&glyph);
    bytes.extend_from_slice(&[0xee, 0xee]);
    let mut cursor = ByteCursor::new(bytes);
    cursor.seek_absolute(3).unwrap();
    assert_eq!(
        GlyphOutline::from_cursor(&mut cursor),
        Ok(GlyphOutline::Simple { contour_end_indices: vec![0], points: vec![point(5, 6, true)] })
    );
    assert_eq!(cursor.position(), 3 + glyph.len());
}

#[test]
fn negative_contour_count_is_a_compound_glyph() {
    let mut cursor = ByteCursor::new(vec![0xff, 0xff, 0, 0, 0, 0, 0, 0, 0, 0, 1, 2, 3, 4]);
    assert_eq!(GlyphOutline::from_cursor(&mut cursor), Ok(GlyphOutline::Compound));
    assert_eq!(cursor.position(), 2);
    assert_eq!(decode(vec![0x80, 0x00]), Ok(GlyphOutline::Compound));
    assert_eq!(decode(vec![0xff, 0xfe, 9]), Ok(GlyphOutline::Compound));
}

#[test]
fn glyph_without_contours_is_malformed() {
    assert_eq!(decode(record(&[], &[], &[], &[], &[])), Err(FontError::MalformedGlyph));
    assert_eq!(decode(vec![0, 0, 0, 0, 0, 0, 0, 0, 0, 0]), Err(FontError::MalformedGlyph));
}

#[test]
fn contour_ends_that_do_not_increase_are_malformed() {
    let flags = [ON | X_SAME | Y_SAME; 4];
    assert_eq!(decode(record(&[2, 2], &[], &flags, &[], &[])), Err(FontError::MalformedGlyph));
    assert_eq!(decode(record(&[3, 1], &[], &flags, &[], &[])), Err(FontError::MalformedGlyph));
    assert_eq!(
        decode(record(&[0, 1, 3, 2], &[], &flags, &[], &[])),
        Err(FontError::MalformedGlyph)
    );
    assert!(decode(record(&[0, 1, 2, 3], &[], &flags, &[], &[])).is_ok());
}

#[test]
fn every_proper_prefix_of_a_glyph_is_truncated() {
    let p = ON | X_SHORT | Y_SHORT | X_SAME | Y_SAME;
    let bytes = record(&[1, 2], &[7, 7], &[p, ON, p], &[10, 0, 30, 15], &[20, 0xff, 0xff, 25]);
    assert!(decode(bytes.clone()).is_ok());
    for len in 0..bytes.len() {
        assert_eq!(
            decode(bytes[..len].to_vec()),
            Err(FontError::TruncatedGlyph),
            "prefix of length {}",
            len
        );
    }
}

#[test]
fn truncation_is_found_before_malformation() {
    // two contour ends announced, the second of them cut off
    assert_eq!(
        decode(vec![0, 2, 0, 0, 0, 0, 0, 0, 0, 0, 0, 5, 0]),
        Err(FontError::TruncatedGlyph)
    );
    // both present and decreasing, nothing behind them
    assert_eq!(
        decode(vec![0, 2, 0, 0, 0, 0, 0, 0, 0, 0, 0, 5, 0, 1]),
        Err(FontError::MalformedGlyph)
    );
    // no contours, bounding box cut off
    assert_eq!(decode(vec![0, 0, 0, 0, 0]), Err(FontError::TruncatedGlyph));
}

#[test]
fn instruction_length_past_the_buffer_is_truncated() {
    let mut bytes = vec![0, 1, 0, 0, 0, 0, 0, 0, 0, 0, 0, 0];
    bytes.extend_from_slice(&[0xff, 0xff]);
    bytes.extend_from_slice(&[0x31, 0, 0]);
    assert_eq!(decode(bytes), Err(FontError::TruncatedGlyph));
}

#[test]
fn last_contour_end_65535_asks_for_65536_points() {
    let flag = ON | REPEAT | X_SAME | Y_SAME;
    let mut flags = Vec::new();
    for _ in 0..256 {
        flags.push(flag);
        flags.push(255);
    }
    let outline = decode(record(&[65535], &[], &flags, &[], &[])).unwrap();
    match outline {
        GlyphOutline::Simple { contour_end_indices, points } => {
            assert_eq!(contour_end_indices, vec![65535]);
            assert_eq!(points.len(), 65536);
        }
        other => panic!("not a simple outline: {:?}", other),
    }
}

#[test]
fn well_formedness_of_outlines_made_by_hand() {
    let outline = |ends: Vec<u16>, count: usize| GlyphOutline::Simple {
        contour_end_indices: ends,
        points: vec![point(0, 0, true); count],
    };
    assert!(outline(vec![0], 1).is_well_formed());
    assert!(outline(vec![2, 5, 6], 7).is_well_formed());
    assert!(outline(vec![65535], 65536).is_well_formed());
    assert!(!outline(vec![], 0).is_well_formed());
    assert!(!outline(vec![], 1).is_well_formed());
    assert!(!outline(vec![2, 2], 3).is_well_formed());
    assert!(!outline(vec![3, 1], 2).is_well_formed());
    assert!(!outline(vec![1, 3, 2, 4], 5).is_well_formed());
    assert!(!outline(vec![2, 5, 6], 6).is_well_formed());
    assert!(!outline(vec![2, 5, 6], 8).is_well_formed());
    assert!(GlyphOutline::Compound.is_well_formed());
    assert!(GlyphOutline::Failed(FontError::TruncatedGlyph).is_well_formed());
}

#[test]
fn decoded_outlines_are_well_formed() {
    let flags = [ON | X_SAME | Y_SAME; 7];
    let outline = decode(record(&[1, 4, 6], &[], &flags, &[], &[])).unwrap();
    assert!(outline.is_well_formed());
    match outline {
        GlyphOutline::Simple { contour_end_indices, points } => {
            assert!(!contour_end_indices.is_empty());
            assert!(contour_end_indices.windows(2).all(|w| w[0] < w[1]));
            assert_eq!(points.len(), *contour_end_indices.last().unwrap() as usize + 1);
        }
        other => panic!("not a simple outline: {:?}", other),
    }
}
