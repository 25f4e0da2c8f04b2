use rusttype::Font;
use textarea::{Error, TextArea};

/// The smallest file that the font parser accepts: a TrueType header and the
/// three tables that it insists on, `head`, `hhea` and `maxp`.
fn smallest_font() -> Vec<u8> {
    let mut data: Vec<u8> = Vec::new();
    // Offset table: version 1.0, three tables, then three fields nobody reads.
    data.extend_from_slice(&[0x00, 0x01, 0x00, 0x00, 0x00, 0x03, 0, 0, 0, 0, 0, 0]);
    // Table records: tag, checksum, offset, length.
    data.extend_from_slice(b"head");
    data.extend_from_slice(&[0, 0, 0, 0, 0, 0, 0, 60, 0, 0, 0, 54]);
    data.extend_from_slice(b"hhea");
    data.extend_from_slice(&[0, 0, 0, 0, 0, 0, 0, 114, 0, 0, 0, 36]);
    data.extend_from_slice(b"maxp");
    data.extend_from_slice(&[0, 0, 0, 0, 0, 0, 0, 150, 0, 0, 0, 6]);
    assert_eq!(data.len(), 60);
    // head: 54 bytes, units per em (1000) at offset 18.
    let mut head = vec![0u8; 54];
    head[18] = 0x03;
    head[19] = 0xe8;
    data.extend_from_slice(&head);
    // hhea: 36 bytes.
    data.extend_from_slice(&[0u8; 36]);
    // maxp: version 0.5, one glyph.
    data.extend_from_slice(&[0x00, 0x00, 0x50, 0x00, 0x00, 0x01]);
    assert_eq!(data.len(), 156);
    data
}

fn ranges_of(area: &TextArea<u32>) -> Vec<(usize, usize)> {
    let mut out = Vec::new();
    let mut i = 0;
    while let Some(split) = area.get(i) {
        out.push((split.range().start, split.range().end));
        i += 1;
    }
    out
}

#[test]
fn ranges_are_contiguous_after_each_append() {
    let mut area: TextArea<u32> = TextArea::new();
    let texts = ["ab", "", "cde", "", "", "f"];
    let mut expected_end = 0;
    for (n, text) in texts.iter().enumerate() {
        if n % 2 == 0 {
            area.push_text(text);
        } else {
            assert_eq!(area.push(text, n as u32, None), Ok(()));
        }
        expected_end += text.len();
        let ranges = ranges_of(&area);
        assert_eq!(ranges.len(), n + 1);
        assert_eq!(ranges[0].0, 0);
        for k in 0..ranges.len() {
            assert!(ranges[k].0 <= ranges[k].1);
            if k + 1 < ranges.len() {
                assert_eq!(ranges[k].1, ranges[k + 1].0);
            }
        }
        assert_eq!(ranges[n].1, expected_end);
        assert_eq!(area.byte_len(), expected_end);
    }
    assert_eq!(ranges_of(&area), vec![(0, 2), (2, 2), (2, 5), (5, 5), (5, 5), (5, 6)]);
}

#[test]
fn ranges_count_bytes_not_characters() {
    let mut area: TextArea<u32> = TextArea::new();
    area.push_text("é");
    area.push_text("日本語");
    area.push_text("a");
    area.push_text("😀");
    assert_eq!(ranges_of(&area), vec![(0, 2), (2, 11), (11, 12), (12, 16)]);
    assert_eq!(area.byte_len(), 16);
    assert_eq!(area.as_string().len(), 16);
    assert_eq!(area.as_string().chars().count(), 6);
}

#[test]
fn empty_text_makes_an_empty_segment() {
    let mut area: TextArea<u32> = TextArea::new();
    assert_eq!(area.push("", 9, None), Ok(()));
    assert_eq!(area.len(), 1);
    assert_eq!(area.byte_len(), 0);
    let split = area.get(0).expect("one segment");
    assert_eq!(split.text(), "");
    assert_eq!(split.range(), 0..0);
    assert_eq!(split.style(), &Some(9));
    assert_eq!(area.as_string(), "");
}

#[test]
fn segment_owns_a_copy_of_the_text() {
    let mut area: TextArea<u32> = TextArea::new();
    {
        let transient = String::from("short-lived");
        area.push_text(&transient);
    }
    assert_eq!(area.get(0).expect("one segment").text(), "short-lived");
}

#[test]
fn rejected_font_changes_nothing() {
    let mut area: TextArea<u32> = TextArea::new();
    area.push_text("plain ");
    assert_eq!(area.push("styled", 3, Some(smallest_font())), Ok(()));
    let before = ranges_of(&area);

    let res = area.push("more", 4, Some(vec![0u8; 156]));
    assert_eq!(res, Err(Error::InvalidFontBytes));

    assert_eq!(area.len(), 2);
    assert_eq!(ranges_of(&area), before);
    assert_eq!(area.as_string(), "plain styled");
    let first = area.get(0).expect("first segment");
    assert_eq!(first.text(), "plain ");
    assert_eq!(first.style(), &None);
    assert!(first.font().is_none());
    let second = area.get(1).expect("second segment");
    assert_eq!(second.text(), "styled");
    assert_eq!(second.style(), &Some(3));
    assert!(second.font().is_some());

    // The container goes on from where it was.
    assert_eq!(area.push("more", 4, None), Ok(()));
    assert_eq!(ranges_of(&area), vec![(0, 6), (6, 12), (12, 16)]);
}

#[test]
fn valid_font_bytes_are_decoded() {
    let mut area: TextArea<u32> = TextArea::new();
    assert_eq!(area.push("A", 1, Some(smallest_font())), Ok(()));
    let split = area.get(0).expect("one segment");
    assert_eq!(split.range(), 0..1);
    let font = split.font().as_ref().expect("the decoded font");
    assert_eq!(font.units_per_em(), 1000);
    assert_eq!(font.glyph_count(), 1);
}

#[test]
fn truncated_font_is_invalid() {
    let mut bytes = smallest_font();
    bytes.truncate(155);
    let mut area: TextArea<u32> = TextArea::new();
    assert_eq!(area.push("A", 1, Some(bytes)), Err(Error::InvalidFontBytes));
    assert_eq!(area.len(), 0);
}

#[test]
fn styled_push_without_font_has_style_only() {
    let mut area: TextArea<u32> = TextArea::new();
    assert_eq!(area.push("abc", 42, None), Ok(()));
    let split = area.get(0).expect("one segment");
    assert_eq!(split.style(), &Some(42));
    assert!(split.font().is_none());
}

#[test]
fn plain_segment_has_neither_style_nor_font() {
    let mut area: TextArea<u32> = TextArea::new();
    assert_eq!(area.push("styled", 1, Some(smallest_font())), Ok(()));
    area.push_text("plain");
    assert_eq!(area.push("styled again", 2, Some(smallest_font())), Ok(()));
    area.push_text("");

    for index in [1, 3] {
        let split = area.get(index).expect("a plain segment");
        assert_eq!(split.style(), &None);
        assert!(split.font().is_none());
    }
    for (index, style) in [(0, 1), (2, 2)] {
        let split = area.get(index).expect("a styled segment");
        assert_eq!(split.style(), &Some(style));
        assert!(split.font().is_some());
    }
    assert_eq!(area.get(1).expect("plain").text(), "plain");
}

#[test]
fn push_decoded_with_rejected_font() {
    let mut area: TextArea<u32> = TextArea::new();
    area.push_text("kept");
    assert_eq!(area.push_decoded("X", 5, Some(None)), Err(Error::InvalidFontBytes));
    assert_eq!(area.len(), 1);
    assert_eq!(area.as_string(), "kept");
}

#[test]
fn push_decoded_with_font_and_without() {
    let font = Font::try_from_vec(smallest_font()).expect("a font");
    let mut area: TextArea<u32> = TextArea::new();
    assert_eq!(area.push_decoded("ab", 5, Some(Some(font))), Ok(()));
    assert_eq!(area.push_decoded("cd", 6, None), Ok(()));
    assert_eq!(ranges_of(&area), vec![(0, 2), (2, 4)]);
    let first = area.get(0).expect("first");
    assert_eq!(first.style(), &Some(5));
    assert_eq!(first.font().as_ref().expect("the font").units_per_em(), 1000);
    let second = area.get(1).expect("second");
    assert_eq!(second.style(), &Some(6));
    assert!(second.font().is_none());
}

#[test]
fn get_is_by_position() {
    let mut area: TextArea<u32> = TextArea::new();
    area.push_text("a");
    area.push_text("b");
    assert_eq!(area.get(0).expect("first").text(), "a");
    assert_eq!(area.get(1).expect("second").text(), "b");
    assert!(area.get(2).is_none());
}

#[test]
fn earlier_segments_are_untouched_by_later_appends() {
    let mut area: TextArea<u32> = TextArea::new();
    assert_eq!(area.push("first", 1, None), Ok(()));
    for n in 0..20 {
        area.push_text("x");
        assert_eq!(area.push("yy", n, None), Ok(()));
        let first = area.get(0).expect("first");
        assert_eq!(first.text(), "first");
        assert_eq!(first.style(), &Some(1));
        assert_eq!(first.range(), 0..5);
    }
    assert_eq!(area.len(), 41);
    assert_eq!(area.byte_len(), 5 + 20 * 3);
}
