use kiraftp::addr::{parse_ipv4_addr, print_ipv4_addr, DataAddr};
use kiraftp::bytes::{split_bytes, trim};
use kiraftp::command::list_path;
use kiraftp::frame::{Frame, FrameReader, MAX_LINE};
use kiraftp::listing::{display, format_entry, parse_permissions, EntryInfo};
use kiraftp::path::{absolute_path, combine, relative_to_root};
use kiraftp::transcode::{Transcoder, TransferType};

fn line(f: Option<Frame>) -> Vec<u8> {
    match f {
        Some(Frame::Line(l)) => l,
        _ => panic!("expected a line"),
    }
}

#[test]
fn frame_waits_for_terminator_across_reads() {
    let mut r = FrameReader::new();
    for chunk in [&b"US"[..], b"ER ano", b"nymous"] {
        r.feed(chunk);
        assert!(r.next_frame().is_none());
    }
    r.feed(b"\r");
    assert!(r.next_frame().is_none());
    r.feed(b"\nPASS x\r\nNO");
    assert_eq!(line(r.next_frame()), b"USER anonymous".to_vec());
    assert_eq!(line(r.next_frame()), b"PASS x".to_vec());
    assert!(r.next_frame().is_none());
    r.feed(b"OP\r\n");
    assert_eq!(line(r.next_frame()), b"NOOP".to_vec());
    assert!(r.next_frame().is_none());
}

#[test]
fn frame_over_cap_is_reported() {
    let mut r = FrameReader::new();
    r.feed(&vec![b'a'; MAX_LINE + 3]);
    assert!(matches!(r.next_frame(), Some(Frame::Overlong)));
    assert!(r.next_frame().is_none());
    r.feed(b"\r\nQUIT\r\n");
    assert_eq!(line(r.next_frame()), b"aaa".to_vec());
    assert_eq!(line(r.next_frame()), b"QUIT".to_vec());
}

#[test]
fn frame_at_cap_is_accepted() {
    let mut r = FrameReader::new();
    r.feed(&vec![b'b'; MAX_LINE]);
    assert!(r.next_frame().is_none());
    r.feed(b"\r");
    assert!(r.next_frame().is_none());
    r.feed(b"\n");
    assert_eq!(line(r.next_frame()).len(), MAX_LINE);
    let mut r = FrameReader::new();
    let mut bytes = vec![b'b'; MAX_LINE + 1];
    bytes.extend_from_slice(b"\r\n");
    r.feed(&bytes);
    assert!(matches!(r.next_frame(), Some(Frame::Overlong)));
    // what is left after the dropped bytes is a line of its own
    assert_eq!(line(r.next_frame()), b"b".to_vec());
    assert!(r.next_frame().is_none());
}

#[test]
fn port_argument_parses() {
    let a = parse_ipv4_addr(b"127,0,0,1,200,10").unwrap();
    assert_eq!(a.ip, [127, 0, 0, 1]);
    assert_eq!(a.port, (200 << 8) | 10);
    assert_eq!(a.port, 51210);
    assert!(parse_ipv4_addr(b"1,2,3").is_none());
    assert!(parse_ipv4_addr(b"1,2,3,4,5,6,7").is_none());
    assert!(parse_ipv4_addr(b"1,2,3,4,5,").is_none());
    assert!(parse_ipv4_addr(b"1,2,3,4,5,x").is_none());
    assert!(parse_ipv4_addr(b"1,2,3,4,5,1000").is_none());
    assert!(parse_ipv4_addr(b"").is_none());
    let a = parse_ipv4_addr(b"0,0,0,0,0,255").unwrap();
    assert_eq!(a.port, 255);
}

#[test]
fn passive_address_prints() {
    let a = DataAddr { ip: [192, 168, 1, 20], port: 51210 };
    assert_eq!(print_ipv4_addr(&a), b"(192,168,1,20,200,10)".to_vec());
    let a = DataAddr { ip: [0, 0, 0, 0], port: 0 };
    assert_eq!(print_ipv4_addr(&a), b"(0,0,0,0,0,0)".to_vec());
}

#[test]
fn ascii_upload_turns_bare_lf_into_crlf() {
    let mut t = Transcoder::new(TransferType::Ascii);
    assert_eq!(t.encode(b"a\nb"), b"a\r\nb".to_vec());
    let mut t = Transcoder::new(TransferType::Binary);
    assert_eq!(t.encode(b"a\nb"), b"a\nb".to_vec());
}

#[test]
fn ascii_keeps_existing_crlf_across_chunks() {
    let mut t = Transcoder::new(TransferType::Ascii);
    let mut out = t.encode(b"x\r");
    out.extend(t.encode(b"\ny\n"));
    assert_eq!(out, b"x\r\ny\r\n".to_vec());
}

#[test]
fn round_trips_are_stable() {
    let data = b"one\ntwo\r\n\nthree\r".to_vec();
    let mut up = Transcoder::new(TransferType::Binary);
    let stored = up.encode(&data);
    let mut down = Transcoder::new(TransferType::Binary);
    assert_eq!(down.encode(&stored), data);
    let mut up = Transcoder::new(TransferType::Ascii);
    let stored = up.encode(&data);
    assert_eq!(stored, b"one\r\ntwo\r\n\r\nthree\r".to_vec());
    let mut down = Transcoder::new(TransferType::Ascii);
    let fetched = down.encode(&stored);
    assert_eq!(fetched, stored);
    let mut again = Transcoder::new(TransferType::Ascii);
    assert_eq!(again.encode(&fetched), stored);
}

#[test]
fn paths_join_onto_current_directory() {
    let root = b"/srv/ftp";
    let cwd = vec![b"pub".to_vec()];
    assert_eq!(combine(root, &cwd, b"a/./b"), b"/srv/ftp/pub/a/./b".to_vec());
    assert_eq!(combine(root, &cwd, b"/etc/passwd"), b"/srv/ftp/etc/passwd".to_vec());
    assert_eq!(combine(root, &cwd, b"link/../x"), b"/srv/ftp/pub/link/../x".to_vec());
    assert_eq!(combine(root, &cwd, b""), b"/srv/ftp/pub".to_vec());
    assert_eq!(combine(root, &vec![], b""), b"/srv/ftp".to_vec());
    assert_eq!(combine(root, &vec![], b"x"), b"/srv/ftp/x".to_vec());
    assert_eq!(combine(b"/", &vec![], b"x"), b"/x".to_vec());
    assert_eq!(combine(b"/data/", &cwd, b"x"), b"/data/pub/x".to_vec());
    assert_eq!(absolute_path(b"/", &cwd), b"/pub".to_vec());
}

#[test]
fn resolved_paths_checked_against_root() {
    assert_eq!(relative_to_root(b"/srv/ftp", b"/srv/ftp"), Some(vec![]));
    assert_eq!(
        relative_to_root(b"/srv/ftp", b"/srv/ftp/a/b"),
        Some(vec![b"a".to_vec(), b"b".to_vec()])
    );
    assert_eq!(relative_to_root(b"/srv/ftp", b"/srv/ftpx"), None);
    assert_eq!(relative_to_root(b"/srv/ftp", b"/srv"), None);
    assert_eq!(relative_to_root(b"/", b"/etc"), Some(vec![b"etc".to_vec()]));
}

#[test]
fn list_argument_options_skipped() {
    assert_eq!(list_path(b"-la"), Vec::<u8>::new());
    assert_eq!(list_path(b"-l docs"), b"docs".to_vec());
    assert_eq!(list_path(b"docs"), b"docs".to_vec());
}

#[test]
fn byte_helpers() {
    assert_eq!(split_bytes(b"a,,b", b','), vec![b"a".to_vec(), vec![], b"b".to_vec()]);
    assert_eq!(trim(b" \t x y \r\n"), b"x y".to_vec());
    assert_eq!(trim(b"   "), Vec::<u8>::new());
}

#[test]
fn permissions_text() {
    assert_eq!(parse_permissions(0o40755), b"drwxr-xr-x".to_vec());
    assert_eq!(parse_permissions(0o100644), b"-rw-r--r--".to_vec());
    assert_eq!(parse_permissions(0o120777), b"lrwxrwxrwx".to_vec());
    assert_eq!(parse_permissions(0o010600), b"prw-------".to_vec());
    assert_eq!(parse_permissions(0o140000), b"s---------".to_vec());
    assert_eq!(parse_permissions(0o020001), b"c--------x".to_vec());
    assert_eq!(parse_permissions(0o060020), b"b----w----".to_vec());
}

#[test]
fn listing_line() {
    let e = EntryInfo {
        mode: 0o100644,
        nlink: 1,
        user: b"alice".to_vec(),
        group: b"staff".to_vec(),
        size: 1234,
        modified_secs: 0,
        modified_nanos: 0,
        name: b"notes.txt".to_vec(),
    };
    assert_eq!(
        format_entry(&e, b"Mar 05 10:07"),
        b"-rw-r--r-- 1 alice staff 1234 Mar 05 10:07 notes.txt\r\n".to_vec()
    );
    let e = EntryInfo { name: b"my notes".to_vec(), size: 0, ..e };
    assert_eq!(
        format_entry(&e, b"Mar 05 10:07"),
        b"-rw-r--r-- 1 alice staff 0 Mar 05 10:07 'my notes'\r\n".to_vec()
    );
}

#[test]
fn listing_line_shows_local_time() {
    let secs: i64 = 1_600_000_000;
    let e = EntryInfo {
        mode: 0o40700,
        nlink: 2,
        user: b"root".to_vec(),
        group: b"root".to_vec(),
        size: 4096,
        modified_secs: secs,
        modified_nanos: 0,
        name: b"pub".to_vec(),
    };
    let when = chrono::DateTime::<chrono::Utc>::from_timestamp(secs, 0)
        .unwrap()
        .with_timezone(&chrono::Local)
        .format("%b %d %H:%M")
        .to_string();
    assert_eq!(when.len(), 12);
    let expected = format!("drwx------ 2 root root 4096 {} pub\r\n", when);
    assert_eq!(display(&e), Some(expected.into_bytes()));
    let far = EntryInfo { modified_secs: i64::MAX, ..e };
    assert_eq!(display(&far), None);
}

#[test]
fn frames_do_not_depend_on_read_boundaries() {
    let stream = b"USER a\r\nPASS b\r\nNOOP\r\nQU".to_vec();
    let mut whole = FrameReader::new();
    whole.feed(&stream);
    let mut one_by_one = FrameReader::new();
    let mut from_whole = Vec::new();
    while let Some(f) = whole.next_frame() {
        from_whole.push(line(Some(f)));
    }
    let mut from_bytes = Vec::new();
    for b in stream.iter() {
        one_by_one.feed(&[*b]);
        while let Some(f) = one_by_one.next_frame() {
            from_bytes.push(line(Some(f)));
        }
    }
    assert_eq!(from_whole, vec![b"USER a".to_vec(), b"PASS b".to_vec(), b"NOOP".to_vec()]);
    assert_eq!(from_bytes, from_whole);
}
