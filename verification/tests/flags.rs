use fatcat::errors::FatcatError;
use fatcat::flags::{ExpandFlags, HideFlags};

#[test]
fn empty_text_is_the_empty_set() {
    assert_eq!(ExpandFlags::from_str(""), Ok(ExpandFlags::none()));
    assert_eq!(HideFlags::from_str(""), Ok(HideFlags::none()));
    assert_eq!(ExpandFlags::none().to_string(), "");
    assert_eq!(HideFlags::none().to_string(), "");
}

#[test]
fn expand_flags_are_read_in_any_order() {
    let f = ExpandFlags::from_str("refs,files,container").unwrap();
    assert!(f.files && f.container && f.refs);
    assert!(!f.filesets && !f.webcaptures && !f.releases && !f.creator && !f.contribs);
    assert_eq!(f.to_string(), "files,container,refs");
}

#[test]
fn a_flag_given_twice_is_set_once() {
    let f = HideFlags::from_str("refs,refs").unwrap();
    assert_eq!(f, HideFlags { abstracts: false, refs: true, contribs: false });
}

#[test]
fn unknown_and_empty_tokens_are_malformed() {
    assert_eq!(ExpandFlags::from_str("files,bogus"), Err(FatcatError::MalformedFlag));
    assert_eq!(ExpandFlags::from_str("files,"), Err(FatcatError::MalformedFlag));
    assert_eq!(ExpandFlags::from_str(",files"), Err(FatcatError::MalformedFlag));
    assert_eq!(ExpandFlags::from_str("Files"), Err(FatcatError::MalformedFlag));
    assert_eq!(ExpandFlags::from_str("abstracts"), Err(FatcatError::MalformedFlag));
    assert_eq!(HideFlags::from_str("files"), Err(FatcatError::MalformedFlag));
    assert_eq!(HideFlags::from_str(" refs"), Err(FatcatError::MalformedFlag));
}

#[test]
fn every_expand_set_is_read_back_from_its_text() {
    for bits in 0u32..256 {
        let f = ExpandFlags {
            files: bits & 1 != 0,
            filesets: bits & 2 != 0,
            webcaptures: bits & 4 != 0,
            releases: bits & 8 != 0,
            container: bits & 16 != 0,
            creator: bits & 32 != 0,
            contribs: bits & 64 != 0,
            refs: bits & 128 != 0,
        };
        assert_eq!(ExpandFlags::from_str(&f.to_string()), Ok(f));
    }
}

#[test]
fn every_hide_set_is_read_back_from_its_text() {
    for bits in 0u32..8 {
        let f = HideFlags { abstracts: bits & 1 != 0, refs: bits & 2 != 0, contribs: bits & 4 != 0 };
        assert_eq!(HideFlags::from_str(&f.to_string()), Ok(f));
    }
    let all = HideFlags { abstracts: true, refs: true, contribs: true };
    assert_eq!(all.to_string(), "abstracts,refs,contribs");
}
