use anthill::flags::{format_flag, transform_flags, Flag};
use anthill::maildir::{maildir_filename, push_decimal, subfolder, uid_in_name};
use regex::Regex;

#[test]
fn flag_letters_seen_before_flagged() {
    assert_eq!(transform_flags(&vec![Flag::Flagged, Flag::Seen]), "SF");
    assert_eq!(transform_flags(&vec![Flag::Seen, Flag::Flagged]), "SF");
}

#[test]
fn flag_letters_fixed_order_all() {
    let flags = vec![Flag::Deleted, Flag::Other, Flag::Answered, Flag::Flagged, Flag::Seen];
    assert_eq!(transform_flags(&flags), "SFRD");
}

#[test]
fn flag_letters_none_and_unknown() {
    assert_eq!(transform_flags(&vec![]), "");
    assert_eq!(transform_flags(&vec![Flag::Other, Flag::Other]), "");
    assert_eq!(transform_flags(&vec![Flag::Seen, Flag::Seen]), "S");
}

#[test]
fn single_flag_letters() {
    assert_eq!(format_flag(&Flag::Seen), "S");
    assert_eq!(format_flag(&Flag::Flagged), "F");
    assert_eq!(format_flag(&Flag::Answered), "R");
    assert_eq!(format_flag(&Flag::Deleted), "D");
    assert_eq!(format_flag(&Flag::Other), "");
}

#[test]
fn subfolder_follows_seen() {
    assert_eq!(subfolder(&vec![Flag::Flagged, Flag::Seen]), "cur");
    assert_eq!(subfolder(&vec![Flag::Flagged, Flag::Answered]), "new");
    assert_eq!(subfolder(&vec![]), "new");
}

#[test]
fn decimal_writing() {
    let mut s = String::from("x");
    push_decimal(&mut s, 0);
    push_decimal(&mut s, 1700000000);
    push_decimal(&mut s, u64::MAX);
    assert_eq!(s, format!("x01700000000{}", u64::MAX));
}

#[test]
fn filename_layout() {
    let name = maildir_filename(1700000000, 42, "host", 2, "");
    assert_eq!(name, "1700000000.42.host,U=2:2,");
    let name = maildir_filename(0, 65535, "mail.example.org", 4294967295, "SF");
    assert_eq!(name, "0.65535.mail.example.org,U=4294967295:2,SF");
}

#[test]
fn uid_scan_cases() {
    assert_eq!(uid_in_name("1.2.h,U=17:2,S"), Some(17));
    assert_eq!(uid_in_name("U=0:"), Some(0));
    assert_eq!(uid_in_name("no marker here"), None);
    assert_eq!(uid_in_name("U=:2,"), None);
    assert_eq!(uid_in_name("U=12"), None);
    assert_eq!(uid_in_name("U=1a:U=5:"), Some(5));
    assert_eq!(uid_in_name("U=4294967295:"), Some(4294967295));
    assert_eq!(uid_in_name("U=4294967296:"), None);
    assert_eq!(uid_in_name("ü.U=7:2,"), Some(7));
}

#[test]
fn uid_scan_agrees_with_regex() {
    let re = Regex::new(r"U=[0-9]+:").unwrap();
    let names = [
        "1.2.h,U=17:2,S",
        "U=U=3:",
        "xU=9x:U=10:",
        "U=1:U=2:",
        "UU==4:",
        "a,U=123456:2,SFRD",
        "nothing",
        "é,U=88:2,",
    ];
    for n in names.iter() {
        let expected = re.find(n).map(|m| n[m.start() + 2..m.end() - 1].parse::<u32>().unwrap());
        assert_eq!(uid_in_name(n), expected, "{}", n);
    }
}

#[test]
fn filename_round_trip() {
    for uid in [0u32, 1, 2, 99, 100000, u32::MAX] {
        for flags in ["", "S", "SF", "SFRD"] {
            let name = maildir_filename(1700000000, 513, "host.example", uid, flags);
            assert_eq!(uid_in_name(&name), Some(uid));
        }
    }
}
