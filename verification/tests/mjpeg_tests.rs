use gba_orca::mjpeg::MjpegParser;

const B: &[u8] = b"--ffmpeg\r\n";

fn part(body: &[u8]) -> Vec<u8> {
    let mut v = B.to_vec();
    v.extend_from_slice(b"Content-Type: image/jpeg\r\n\r\n");
    v.extend_from_slice(body);
    v.extend_from_slice(b"\r\n");
    v
}

#[test]
fn nothing_is_handed_out_before_the_next_boundary() {
    let mut p = MjpegParser::new();
    assert!(p.push(&part(b"frame1")).is_empty());
    assert!(p.push(b"").is_empty());
}

#[test]
fn a_part_is_cut_at_the_next_boundary() {
    let mut p = MjpegParser::new();
    let mut data = part(b"frame1");
    data.extend_from_slice(&part(b"frame2"));
    let out = p.push(&data);
    assert_eq!(out, vec![part(b"frame1")]);
    // the second part is handed out once a third boundary arrives
    let out = p.push(B);
    assert_eq!(out, vec![part(b"frame2")]);
}

#[test]
fn several_parts_in_one_chunk_come_out_in_order() {
    let mut p = MjpegParser::new();
    let mut data = Vec::new();
    for f in [b"a".as_slice(), b"bb", b"ccc"] {
        data.extend_from_slice(&part(f));
    }
    data.extend_from_slice(B);
    let out = p.push(&data);
    assert_eq!(out, vec![part(b"a"), part(b"bb"), part(b"ccc")]);
}

#[test]
fn chunking_does_not_change_the_parts() {
    let mut data = Vec::new();
    for f in [b"one".as_slice(), b"two", b"three"] {
        data.extend_from_slice(&part(f));
    }
    data.extend_from_slice(B);
    let mut whole = MjpegParser::new();
    let at_once = whole.push(&data);
    for size in [1usize, 3, 7, 10, 11] {
        let mut p = MjpegParser::new();
        let mut out = Vec::new();
        for chunk in data.chunks(size) {
            out.extend(p.push(chunk));
        }
        assert_eq!(out, at_once, "chunk size {}", size);
    }
}

#[test]
fn a_boundary_split_across_chunks_is_found() {
    let mut p = MjpegParser::new();
    let first = part(b"x");
    assert!(p.push(&first).is_empty());
    assert!(p.push(b"--ffm").is_empty());
    let out = p.push(b"peg\r\nrest");
    assert_eq!(out, vec![first]);
}

#[test]
fn bytes_before_the_first_boundary_form_the_first_part() {
    let mut p = MjpegParser::new();
    let mut data = b"junk".to_vec();
    data.extend_from_slice(&part(b"f"));
    data.extend_from_slice(B);
    let out = p.push(&data);
    assert_eq!(out, vec![b"junk".to_vec(), part(b"f")]);
}

#[test]
fn near_misses_are_not_boundaries() {
    let mut p = MjpegParser::new();
    let mut data = part(b"--ffmpeg\r");
    data.extend_from_slice(b"-ffmpeg\r\n--ffmpe\r\n");
    assert!(p.push(&data).is_empty());
}
