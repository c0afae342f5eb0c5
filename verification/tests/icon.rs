use efm::icon::{ico_directory, tier_for, write_ico, IcoEntry, IcoFault, Tier};

#[test]
fn picks_the_tuning_for_each_size() {
    assert_eq!(tier_for(16), Tier::Small);
    assert_eq!(tier_for(28), Tier::Small);
    assert_eq!(tier_for(29), Tier::Medium);
    assert_eq!(tier_for(55), Tier::Medium);
    assert_eq!(tier_for(56), Tier::Large);
    assert_eq!(tier_for(256), Tier::Large);
}

#[test]
fn writes_the_header_and_the_directory_windows_expects() {
    let ico = write_ico(&vec![(16, vec![1, 2, 3]), (256, vec![9; 5])]);
    assert_eq!(&ico[..6], &[0, 0, 1, 0, 2, 0]);
    assert_eq!(&ico[6..22], &[16, 16, 0, 0, 1, 0, 32, 0, 3, 0, 0, 0, 38, 0, 0, 0]);
    assert_eq!(&ico[22..38], &[0, 0, 0, 0, 1, 0, 32, 0, 5, 0, 0, 0, 41, 0, 0, 0]);
    assert_eq!(&ico[38..], &[1, 2, 3, 9, 9, 9, 9, 9]);
}

#[test]
fn reads_back_what_it_wrote() {
    let sizes = [16u32, 20, 24, 32, 48, 64, 128, 256];
    let entries: Vec<(u32, Vec<u8>)> =
        sizes.iter().map(|&n| (n, (0..n as usize).map(|i| (i % 251) as u8).collect())).collect();
    let ico = write_ico(&entries);
    let dir = ico_directory(&ico).unwrap();
    assert_eq!(dir.len(), sizes.len());
    for (entry, (n, png)) in dir.iter().zip(&entries) {
        assert_eq!(entry.declared, *n);
        assert_eq!(entry.len as usize, png.len());
        let at = entry.offset as usize;
        assert_eq!(&ico[at..at + png.len()], png.as_slice());
    }
    assert_eq!(dir[0], IcoEntry { declared: 16, len: 16, offset: 6 + 16 * 8 });
}

#[test]
fn refuses_a_file_that_is_cut_short() {
    assert_eq!(ico_directory(&vec![0, 0, 1, 0]), Err(IcoFault::Truncated));
    let mut ico = write_ico(&vec![(32, vec![7; 10])]);
    ico.truncate(12);
    assert_eq!(ico_directory(&ico), Err(IcoFault::Truncated));
    let mut ico = write_ico(&vec![(32, vec![7; 10]), (48, vec![8; 4])]);
    ico.truncate(ico.len() - 1);
    assert_eq!(ico_directory(&ico), Err(IcoFault::PastEnd(1)));
}

#[test]
fn an_empty_icon_has_no_entries() {
    let ico = write_ico(&vec![]);
    assert_eq!(ico, vec![0, 0, 1, 0, 0, 0]);
    assert_eq!(ico_directory(&ico), Ok(vec![]));
}
