use xpub_scan::error::ScanError;
use xpub_scan::path::{get_path_except_last, ChildIndex, DerivationPath, HARDENED_BASE, MAX_INDEX};

fn normal(index: u32) -> ChildIndex {
    ChildIndex::normal(index).unwrap()
}

fn hardened(index: u32) -> ChildIndex {
    ChildIndex::hardened(index).unwrap()
}

#[test]
fn child_index_constructors() {
    assert_eq!(normal(5).to_raw(), 5);
    assert_eq!(hardened(5).to_raw(), 5 + HARDENED_BASE);
    assert_eq!(ChildIndex::normal(MAX_INDEX + 1), Err(ScanError::IndexOverflow));
    assert_eq!(ChildIndex::hardened(MAX_INDEX + 1), Err(ScanError::IndexOverflow));
    assert_eq!(ChildIndex::from_raw(0x8000_0002), hardened(2));
}

#[test]
fn child_index_parts() {
    assert_eq!(normal(7).get_index(), 7);
    assert!(!normal(7).get_is_hardened());
    assert_eq!(hardened(7).get_index(), 7);
    assert!(hardened(7).get_is_hardened());
    assert_eq!(hardened(MAX_INDEX).get_index(), MAX_INDEX);
}

#[test]
fn increment_gives_the_next_index() {
    assert_eq!(normal(0).increment(), Ok(normal(1)));
    assert_eq!(normal(41).increment(), Ok(normal(42)));
    assert_eq!(normal(MAX_INDEX - 1).increment(), Ok(normal(MAX_INDEX)));
    assert_eq!(hardened(9).increment(), Ok(hardened(10)));
}

#[test]
fn increment_fails_after_the_largest_index() {
    assert_eq!(MAX_INDEX, 2147483647);
    assert_eq!(normal(MAX_INDEX).increment(), Err(ScanError::IndexOverflow));
    assert_eq!(hardened(MAX_INDEX).increment(), Err(ScanError::IndexOverflow));
}

#[test]
fn parse_reads_plain_paths() {
    assert_eq!(DerivationPath::parse("0/0"), Ok(DerivationPath::new(vec![normal(0), normal(0)])));
    assert_eq!(DerivationPath::parse("7"), Ok(DerivationPath::new(vec![normal(7)])));
    assert_eq!(
        DerivationPath::parse("m/0/2147483647"),
        Ok(DerivationPath::new(vec![normal(0), normal(MAX_INDEX)]))
    );
}

#[test]
fn parse_reads_hardened_components() {
    assert_eq!(
        DerivationPath::parse("m/84'/0h/0'/0/1"),
        Ok(DerivationPath::new(vec![hardened(84), hardened(0), hardened(0), normal(0), normal(1)]))
    );
}

#[test]
fn parse_reads_the_empty_path() {
    assert_eq!(DerivationPath::parse(""), Ok(DerivationPath::new(vec![])));
    assert_eq!(DerivationPath::parse("m"), Ok(DerivationPath::new(vec![])));
    assert_eq!(DerivationPath::parse("m/"), Ok(DerivationPath::new(vec![])));
}

#[test]
fn parse_refuses_malformed_paths() {
    for text in ["n/0'/0", "4/m/5", "//3/0'", "0h/0x", "2147483648", "0/", "a", "0/-1", "0 /1"] {
        assert_eq!(DerivationPath::parse(text), Err(ScanError::MalformedPath));
    }
}

#[test]
fn from_raw_reads_the_flag_from_the_number() {
    let path = DerivationPath::from_raw(&vec![0, 1, 0x8000_0000, 0xffff_ffff]);
    assert_eq!(
        path,
        DerivationPath::new(vec![normal(0), normal(1), hardened(0), hardened(MAX_INDEX)])
    );
    assert_eq!(DerivationPath::from_raw(&vec![]), DerivationPath::new(vec![]));
}

#[test]
fn len_and_is_empty() {
    assert_eq!(DerivationPath::new(vec![]).len(), 0);
    assert!(DerivationPath::new(vec![]).is_empty());
    assert_eq!(DerivationPath::parse("0/1/2").unwrap().len(), 3);
    assert!(!DerivationPath::parse("0").unwrap().is_empty());
}

#[test]
fn child_appends_a_component() {
    let path = DerivationPath::parse("0/1").unwrap();
    assert_eq!(path.child(normal(2)), DerivationPath::parse("0/1/2").unwrap());
    assert_eq!(DerivationPath::new(vec![]).child(hardened(3)), DerivationPath::parse("3'").unwrap());
}

#[test]
fn split_last_gives_parent_and_last() {
    let path = DerivationPath::parse("44'/0/5").unwrap();
    assert_eq!(path.split_last(), Ok((DerivationPath::parse("44'/0").unwrap(), normal(5))));
    let one = DerivationPath::parse("9").unwrap();
    assert_eq!(one.split_last(), Ok((DerivationPath::new(vec![]), normal(9))));
}

#[test]
fn split_last_fails_on_the_empty_path() {
    assert_eq!(DerivationPath::new(vec![]).split_last(), Err(ScanError::EmptyPath));
    assert_eq!(DerivationPath::parse("m").unwrap().split_last(), Err(ScanError::EmptyPath));
}

#[test]
fn split_last_and_child_round_trip() {
    for text in ["0", "0/0", "m/84'/0'/0'/0/17", "1/2/3/4/5/6/7"] {
        let path = DerivationPath::parse(text).unwrap();
        let (parent, last) = path.split_last().unwrap();
        assert_eq!(parent.child(last), path);
    }
}

#[test]
fn get_path_except_last_drops_the_last_component() {
    let path = DerivationPath::parse("0/1/2").unwrap();
    assert_eq!(get_path_except_last(&path), Ok(DerivationPath::parse("0/1").unwrap()));
    let one = DerivationPath::parse("5").unwrap();
    assert_eq!(get_path_except_last(&one), Ok(DerivationPath::new(vec![])));
}

#[test]
fn get_path_except_last_fails_on_the_empty_path() {
    assert_eq!(get_path_except_last(&DerivationPath::new(vec![])), Err(ScanError::EmptyPath));
    assert_eq!(get_path_except_last(&DerivationPath::parse("m").unwrap()), Err(ScanError::EmptyPath));
}

#[test]
fn parse_reads_a_plus_and_leading_zeros() {
    assert_eq!(DerivationPath::parse("+1/007"), Ok(DerivationPath::new(vec![normal(1), normal(7)])));
    assert_eq!(DerivationPath::parse("+1'/00h"), Ok(DerivationPath::new(vec![hardened(1), hardened(0)])));
}

#[test]
fn parse_reads_the_largest_indices() {
    assert_eq!(
        DerivationPath::parse("2147483647/2147483647'"),
        Ok(DerivationPath::new(vec![normal(MAX_INDEX), hardened(MAX_INDEX)]))
    );
    assert_eq!(DerivationPath::parse("2147483648'"), Err(ScanError::MalformedPath));
    assert_eq!(DerivationPath::parse("4294967296"), Err(ScanError::MalformedPath));
}

#[test]
fn parse_takes_the_prefix_off_once() {
    assert_eq!(DerivationPath::parse("m/5"), Ok(DerivationPath::new(vec![normal(5)])));
    for text in ["m/m/0", "mm", "m0", "M/0", "m//", "/", "/0", "m/0/", "0//1"] {
        assert_eq!(DerivationPath::parse(text), Err(ScanError::MalformedPath));
    }
}

#[test]
fn parse_takes_one_mark_behind_the_index() {
    for text in ["h", "'", "0'h", "0h'", "0''", "'0", "h0", "0H", "+", "+'", "0 '", "1e3"] {
        assert_eq!(DerivationPath::parse(text), Err(ScanError::MalformedPath));
    }
}
