use rlass::feed::Feed;
use rlass::ClassParser;

/// Hands the bytes of `source` to a feed as it asks for them, and returns
/// what it asked for, piece by piece, and the bytes it gathered. Stops
/// where the source has fewer bytes than are wanted.
fn drive(source: &[u8]) -> (Vec<usize>, Vec<u8>, bool) {
    let mut feed = Feed::new();
    let mut asked = Vec::new();
    let mut at = 0;
    let mut starved = false;
    loop {
        let wanted = feed.wanted();
        if wanted == 0 {
            break;
        }
        asked.push(wanted);
        if source.len() - at < wanted {
            starved = true;
            break;
        }
        feed.supply(&source[at..at + wanted]);
        at += wanted;
    }
    (asked, feed.into_bytes(), starved)
}

/// The number of bytes that decoding takes from `bytes`.
fn taken(bytes: &[u8]) -> usize {
    let mut parser = ClassParser::new(bytes);
    let _ = parser.parse();
    bytes.len() - parser.into_inner().len()
}

const HEADER_55: [u8; 8] = [0xCA, 0xFE, 0xBA, 0xBE, 0x00, 0x00, 0x00, 0x37];

fn with_header(rest: &[u8]) -> Vec<u8> {
    let mut bytes = HEADER_55.to_vec();
    bytes.extend_from_slice(rest);
    bytes
}

#[test]
fn a_new_feed_wants_the_magic_number() {
    let mut feed = Feed::new();
    assert_eq!(feed.wanted(), 4);
    assert_eq!(feed.wanted(), 4);
    feed.supply(&[0xCA]);
    assert_eq!(feed.wanted(), 3);
    assert_eq!(feed.into_bytes(), vec![0xCA]);
}

#[test]
fn the_header_is_wanted_field_by_field() {
    let (asked, gathered, starved) = drive(&with_header(&[0, 1, 0xEE, 0xEE]));
    assert_eq!(asked, vec![4, 2, 2, 2]);
    assert_eq!(gathered, with_header(&[0, 1]));
    assert!(!starved);
}

#[test]
fn nothing_is_wanted_behind_a_wrong_magic_number() {
    let (asked, gathered, _) = drive(&[0xCA, 0xFE, 0xBA, 0xBF, 0, 0, 0, 55, 0, 1]);
    assert_eq!(asked, vec![4]);
    assert_eq!(gathered, vec![0xCA, 0xFE, 0xBA, 0xBF]);
}

#[test]
fn nothing_is_wanted_behind_an_unsupported_version() {
    let (asked, gathered, _) = drive(&[0xCA, 0xFE, 0xBA, 0xBE, 0, 0, 0, 56, 0, 1]);
    assert_eq!(asked, vec![4, 2, 2]);
    assert_eq!(gathered.len(), 8);
}

#[test]
fn the_entries_are_wanted_field_by_field() {
    let source = with_header(&[
        0x00, 0x08, //
        0x07, 0x00, 0x02, // class
        0x01, 0x00, 0x03, b'A', b'd', b'd', // text
        0x0A, 0x00, 0x01, 0x00, 0x04, // method
        0x0C, 0x00, 0x02, 0x00, 0x02, // name and type
        0x05, 0, 0, 0, 0, 0, 0, 0, 1, // long, two slots
        0x0F, 0x06, 0x00, 0x03, // method handle
        0xEE, 0xEE,
    ]);
    let (asked, gathered, starved) = drive(&source);
    assert_eq!(asked, vec![4, 2, 2, 2, 1, 2, 1, 2, 3, 1, 4, 1, 4, 1, 8, 1, 1, 2]);
    assert!(!starved);
    assert_eq!(gathered, &source[..source.len() - 2]);
    assert_eq!(taken(&source), gathered.len());
}

#[test]
fn nothing_is_wanted_behind_an_unknown_tag_or_kind() {
    let source = with_header(&[0x00, 0x03, 0x07, 0x00, 0x02, 0x02, 0xEE, 0xEE]);
    let (asked, gathered, _) = drive(&source);
    assert_eq!(asked, vec![4, 2, 2, 2, 1, 2, 1]);
    assert_eq!(gathered, &source[..14]);
    assert_eq!(taken(&source), 14);

    let source = with_header(&[0x00, 0x02, 0x0F, 0x0A, 0xEE, 0xEE]);
    let (asked, gathered, _) = drive(&source);
    assert_eq!(asked, vec![4, 2, 2, 2, 1, 1]);
    assert_eq!(gathered, &source[..12]);
    assert_eq!(taken(&source), 12);
}

#[test]
fn a_text_of_no_bytes_is_wanted_no_further() {
    let source = with_header(&[0x00, 0x02, 0x01, 0x00, 0x00, 0xEE]);
    let (asked, gathered, _) = drive(&source);
    assert_eq!(asked, vec![4, 2, 2, 2, 1, 2]);
    assert_eq!(gathered, &source[..13]);
}

#[test]
fn a_source_that_ends_early_is_asked_for_more_than_it_has() {
    let whole = with_header(&[0x00, 0x03, 0x07, 0x00, 0x02, 0x01, 0x00, 0x01, b'A']);
    let (_, gathered, starved) = drive(&whole);
    assert!(!starved);
    assert_eq!(gathered, whole);
    for length in 0..whole.len() {
        let (_, gathered, starved) = drive(&whole[..length]);
        assert!(starved);
        assert!(gathered.len() <= length);
        assert_eq!(gathered, &whole[..gathered.len()]);
    }
}

#[test]
fn what_a_feed_gathers_is_what_decoding_takes() {
    let sources: Vec<Vec<u8>> = vec![
        with_header(&[0, 1, 9, 9]),
        with_header(&[0, 0, 9, 9]),
        with_header(&[0, 2, 3, 0, 0, 0, 7, 9, 9]),
        with_header(&[0, 3, 6, 0, 0, 0, 0, 0, 0, 0, 0, 9, 9]),
        with_header(&[0, 4, 6, 0, 0, 0, 0, 0, 0, 0, 0, 8, 0, 3, 9]),
        with_header(&[0, 3, 7, 0, 9, 7, 0, 1, 9, 9]),
        with_header(&[0, 2, 12, 0, 1, 0, 1, 9]),
        with_header(&[0, 2, 15, 9, 0, 1, 9]),
        with_header(&[0, 2, 15, 0, 0, 1, 9]),
        with_header(&[0, 3, 18, 0, 1, 0, 2, 19, 0, 1, 9]),
        vec![1, 2, 3, 4, 5, 6],
        vec![0xCA, 0xFE, 0xBA, 0xBE, 0, 1, 0, 55, 0, 1, 9],
    ];
    for source in sources {
        let (_, gathered, starved) = drive(&source);
        assert!(!starved);
        assert_eq!(gathered.len(), taken(&source));
        assert_eq!(gathered, &source[..gathered.len()]);
        // decoding what was gathered gives what decoding the source gives
        let whole = ClassParser::new(&source[..]).parse();
        let part = ClassParser::new(&gathered[..]).parse();
        match (whole, part) {
            (Ok(a), Ok(b)) => {
                assert_eq!(a.version, b.version);
                assert_eq!(a.constant_pool.len(), b.constant_pool.len());
            }
            (Err(a), Err(b)) => assert_eq!(a, b),
            other => panic!("{:?}", other),
        }
    }
}

#[test]
fn bytes_that_are_supplied_at_once_are_enough() {
    let source = with_header(&[0x00, 0x03, 0x07, 0x00, 0x02, 0x01, 0x00, 0x01, b'A', 0xEE]);
    let mut feed = Feed::new();
    feed.supply(&source);
    assert_eq!(feed.wanted(), 0);
    feed.supply(&[1, 2, 3]);
    assert_eq!(feed.wanted(), 0);
    assert_eq!(feed.into_bytes().len(), source.len() + 3);
}

#[test]
fn a_large_table_is_fed_in_time() {
    let mut source = with_header(&[0xFF, 0xFF]);
    for _ in 0..65534 {
        source.extend_from_slice(&[7, 0, 1]);
    }
    let (asked, gathered, starved) = drive(&source);
    assert!(!starved);
    assert_eq!(asked.len(), 4 + 2 * 65534);
    assert_eq!(gathered.len(), source.len());
}
