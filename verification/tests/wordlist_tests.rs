use jwt_crack::wordlist::candidates;

#[test]
fn one_candidate_per_line() {
    assert_eq!(candidates(b"wrong1\nsecret\nwrong2\n"), vec!["wrong1", "secret", "wrong2"]);
}

#[test]
fn last_line_needs_no_line_feed() {
    assert_eq!(candidates(b"wrong1\nsecret"), vec!["wrong1", "secret"]);
    assert_eq!(candidates(b"secret"), vec!["secret"]);
}

#[test]
fn empty_wordlist_offers_nothing() {
    assert_eq!(candidates(b""), Vec::<&str>::new());
    assert_eq!(candidates(b"\n"), Vec::<&str>::new());
    assert_eq!(candidates(b"\n\n\r\n\n"), Vec::<&str>::new());
}

#[test]
fn blank_lines_are_skipped() {
    assert_eq!(candidates(b"a\n\nb\n\n\nc"), vec!["a", "b", "c"]);
    assert_eq!(candidates(b"\na\n"), vec!["a"]);
}

#[test]
fn carriage_return_before_line_feed_belongs_to_the_ending() {
    assert_eq!(candidates(b"a\r\nb\r\n"), vec!["a", "b"]);
    assert_eq!(candidates(b"a\r\n\r\nb"), vec!["a", "b"]);
    // Only one carriage return is part of the ending.
    assert_eq!(candidates(b"a\r\r\nb"), vec!["a\r", "b"]);
    // Elsewhere it is part of the candidate.
    assert_eq!(candidates(b"a\rb\n"), vec!["a\rb"]);
    // At the end of the data, without a line feed, it stays.
    assert_eq!(candidates(b"a\nb\r"), vec!["a", "b\r"]);
    assert_eq!(candidates(b"\r"), vec!["\r"]);
}

#[test]
fn undecodable_lines_are_skipped() {
    assert_eq!(candidates(b"good\n\xff\xfe\nalso good\n"), vec!["good", "also good"]);
    // A lone continuation byte, an overlong encoding and a surrogate.
    assert_eq!(candidates(b"\x80\nx\n"), vec!["x"]);
    assert_eq!(candidates(b"\xc0\xaf\nx\n"), vec!["x"]);
    assert_eq!(candidates(b"\xed\xa0\x80\nx\n"), vec!["x"]);
    // A truncated sequence at the end of the data.
    assert_eq!(candidates(b"x\n\xe2\x82"), vec!["x"]);
    assert_eq!(candidates(b"\xff"), Vec::<&str>::new());
}

#[test]
fn candidates_are_taken_verbatim() {
    assert_eq!(candidates(b" spaced \n\ttab\nUPPER lower\n"), vec![" spaced ", "\ttab", "UPPER lower"]);
    assert_eq!(candidates("pässwörd\n日本語\n".as_bytes()), vec!["pässwörd", "日本語"]);
    assert_eq!(candidates(b"dup\ndup\ndup\n"), vec!["dup", "dup", "dup"]);
}

#[test]
fn count_is_the_number_of_usable_lines() {
    assert_eq!(candidates(b"a\n\nb\n\xff\nc\r\n\r\nd").len(), 4);
    assert_eq!(candidates(b"").len(), 0);
}
