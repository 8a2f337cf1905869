//! The on-disk naming convention of the store: how a message file is named
//! and where it goes, and how a uid is recovered from a file name.
use vstd::prelude::*;
use crate::flags::{Flag, flag_letters, has_flag};

verus! {

/// The decimal digit character for `d < 10`.
pub open spec fn digit_char(d: nat) -> char {
    if d == 0 { '0' }
    else if d == 1 { '1' }
    else if d == 2 { '2' }
    else if d == 3 { '3' }
    else if d == 4 { '4' }
    else if d == 5 { '5' }
    else if d == 6 { '6' }
    else if d == 7 { '7' }
    else if d == 8 { '8' }
    else { '9' }
}

pub open spec fn is_digit(c: char) -> bool {
    '0' <= c && c <= '9'
}

pub open spec fn digit_value(c: char) -> nat {
    (c as nat - '0' as nat) as nat
}

/// The decimal writing of `n`, without leading zeros.
pub open spec fn decimal(n: nat) -> Seq<char>
    decreases n,
{
    if n < 10 {
        seq![digit_char(n)]
    } else {
        decimal(n / 10).push(digit_char(n % 10))
    }
}

/// The number that a run of decimal digits denotes.
pub open spec fn digits_value(s: Seq<char>) -> nat
    decreases s.len(),
{
    if s.len() == 0 {
        0
    } else {
        digits_value(s.drop_last()) * 10 + digit_value(s.last())
    }
}

/// The file name of a message in the store:
/// `{now}.{rnd}.{host},U={uid}:2,{letters}`.
pub open spec fn maildir_name(now: nat, rnd: nat, host: Seq<char>, uid: nat, letters: Seq<char>) -> Seq<char> {
    decimal(now) + seq!['.'] + decimal(rnd) + seq!['.'] + host + seq![',', 'U', '=']
        + decimal(uid) + seq![':', '2', ','] + letters
}

/// The subfolder a message goes to: `cur` once seen, else `new`.
pub open spec fn subfolder_of(flags: Seq<Flag>) -> Seq<char> {
    if flags.contains(Flag::Seen) {
        seq!['c', 'u', 'r']
    } else {
        seq!['n', 'e', 'w']
    }
}

/// A uid marker `U=<digits>:` starts at `i` of `s` and its colon stands at `k`.
pub open spec fn marker_with_end(s: Seq<char>, i: int, k: int) -> bool {
    &&& 0 <= i
    &&& i + 2 < k < s.len()
    &&& s[i] == 'U'
    &&& s[i + 1] == '='
    &&& forall|t: int| i + 2 <= t < k ==> is_digit(#[trigger] s[t])
    &&& s[k] == ':'
}

/// A uid marker starts at `i` of `s`.
pub open spec fn marker_at(s: Seq<char>, i: int) -> bool {
    exists|k: int| marker_with_end(s, i, k)
}

/// The leftmost marker of `s` starts at `i`, ends at `k` and denotes `uid`.
pub open spec fn first_marker_uid(s: Seq<char>, i: int, k: int, uid: nat) -> bool {
    &&& marker_with_end(s, i, k)
    &&& forall|j: int| 0 <= j < i ==> !marker_at(s, j)
    &&& digits_value(s.subrange(i + 2, k)) == uid
}

/// `s` holds a uid marker, and its leftmost one denotes `uid`.
pub open spec fn scans_to(s: Seq<char>, uid: nat) -> bool {
    exists|i: int, k: int| first_marker_uid(s, i, k, uid)
}

/// The uid that the leftmost marker of a file name denotes, if it has one.
pub open spec fn marker_uid(s: Seq<char>) -> Option<nat> {
    if exists|u: nat| scans_to(s, u) {
        Some(choose|u: nat| scans_to(s, u))
    } else {
        None
    }
}

/// What the uid scan yields for a file name: the marker's uid where it fits
/// in 32 bits, else nothing.
pub open spec fn scanned_uid(s: Seq<char>) -> Option<u32> {
    match marker_uid(s) {
        Some(u) => if u <= u32::MAX {
            Some(u as u32)
        } else {
            None
        },
        None => None,
    }
}

proof fn lemma_marker_end_unique(s: Seq<char>, i: int, k1: int, k2: int)
    requires
        marker_with_end(s, i, k1),
        marker_with_end(s, i, k2),
    ensures
        k1 == k2,
{
    if k1 < k2 {
        assert(is_digit(s[k1]));
    } else if k2 < k1 {
        assert(is_digit(s[k2]));
    }
}

proof fn lemma_scans_to_unique(s: Seq<char>, u1: nat, u2: nat)
    requires
        scans_to(s, u1),
        scans_to(s, u2),
    ensures
        u1 == u2,
{
    let (i1, k1) = choose|i: int, k: int| first_marker_uid(s, i, k, u1);
    let (i2, k2) = choose|i: int, k: int| first_marker_uid(s, i, k, u2);
    if i1 < i2 {
        assert(marker_at(s, i1));
    } else if i2 < i1 {
        assert(marker_at(s, i2));
    }
    lemma_marker_end_unique(s, i1, k1, k2);
}

proof fn lemma_marker_uid(s: Seq<char>, i: int, k: int, u: nat)
    requires
        first_marker_uid(s, i, k, u),
    ensures
        marker_uid(s) == Some(u),
{
    assert(scans_to(s, u));
    let c = choose|v: nat| scans_to(s, v);
    lemma_scans_to_unique(s, u, c);
}

proof fn lemma_no_marker_uid(s: Seq<char>)
    requires
        forall|j: int| 0 <= j < s.len() ==> !marker_at(s, j),
    ensures
        marker_uid(s) is None,
{
    if exists|u: nat| scans_to(s, u) {
        let u = choose|u: nat| scans_to(s, u);
        let (i, k) = choose|i: int, k: int| first_marker_uid(s, i, k, u);
        assert(marker_at(s, i));
    }
}

/// The one-character string of a decimal digit.
fn digit_str(d: u64) -> (r: &'static str)
    requires
        d < 10,
    ensures
        r@ == seq![digit_char(d as nat)],
{
    if d == 0 {
        proof { reveal_strlit("0"); }
        "0"
    } else if d == 1 {
        proof { reveal_strlit("1"); }
        "1"
    } else if d == 2 {
        proof { reveal_strlit("2"); }
        "2"
    } else if d == 3 {
        proof { reveal_strlit("3"); }
        "3"
    } else if d == 4 {
        proof { reveal_strlit("4"); }
        "4"
    } else if d == 5 {
        proof { reveal_strlit("5"); }
        "5"
    } else if d == 6 {
        proof { reveal_strlit("6"); }
        "6"
    } else if d == 7 {
        proof { reveal_strlit("7"); }
        "7"
    } else if d == 8 {
        proof { reveal_strlit("8"); }
        "8"
    } else {
        proof { reveal_strlit("9"); }
        "9"
    }
}

/// Appends the decimal writing of `n` to `s`.
pub fn push_decimal(s: &mut String, n: u64)
    ensures
        final(s)@ == old(s)@ + decimal(n as nat),
    decreases n,
{
    if n >= 10 {
        push_decimal(s, n / 10);
    }
    s.append(digit_str(n % 10));
    proof {
        assert(old(s)@ + decimal(n as nat) =~= s@);
    }
}

/// The file name of a message in the store, per `maildir_name`.
pub fn maildir_filename(now: u64, rnd: u16, host: &str, uid: u32, letters: &str) -> (r: String)
    ensures
        r@ == maildir_name(now as nat, rnd as nat, host@, uid as nat, letters@),
{
    let mut r = String::new();
    push_decimal(&mut r, now);
    r.append(".");
    push_decimal(&mut r, rnd as u64);
    r.append(".");
    r.append(host);
    r.append(",U=");
    push_decimal(&mut r, uid as u64);
    r.append(":2,");
    r.append(letters);
    proof {
        reveal_strlit(".");
        reveal_strlit(",U=");
        reveal_strlit(":2,");
        assert(r@ =~= maildir_name(now as nat, rnd as nat, host@, uid as nat, letters@));
    }
    r
}

/// The subfolder of the store that a message with `flags` is written to.
pub fn subfolder(flags: &Vec<Flag>) -> (r: &'static str)
    ensures
        r@ == subfolder_of(flags@),
{
    if has_flag(flags, Flag::Seen) {
        proof { reveal_strlit("cur"); }
        "cur"
    } else {
        proof { reveal_strlit("new"); }
        "new"
    }
}

/// The uid that the leftmost `U=<digits>:` marker of a file name denotes;
/// nothing where the name holds no marker or the number does not fit in
/// 32 bits.
pub fn uid_in_name(name: &str) -> (r: Option<u32>)
    ensures
        r == scanned_uid(name@),
{
    let s = Ghost(name@);
    let n = name.unicode_len();
    let mut i: usize = 0;
    while i < n
        invariant
            n == s@.len(),
            s@ == name@,
            i <= n,
            forall|j: int| 0 <= j < i ==> !marker_at(s@, j),
        decreases n - i,
    {
        if n - i > 2 && name.get_char(i) == 'U' && name.get_char(i + 1) == '=' {
            let mut k: usize = i + 2;
            let mut value: u64 = 0;
            let mut overflow = false;
            while k < n && '0' <= name.get_char(k) && name.get_char(k) <= '9'
                invariant
                    n == s@.len(),
                    s@ == name@,
                    i + 2 <= k <= n,
                    forall|t: int| i + 2 <= t < k ==> is_digit(#[trigger] s@[t]),
                    !overflow ==> value == digits_value(s@.subrange(i + 2, k as int)),
                    !overflow ==> value <= u32::MAX,
                    overflow ==> digits_value(s@.subrange(i + 2, k as int)) > u32::MAX,
                decreases n - k,
            {
                let c = name.get_char(k);
                proof {
                    assert(s@.subrange(i + 2, k + 1).drop_last() =~= s@.subrange(i + 2, k as int));
                }
                if !overflow {
                    let d = (c as u64) - ('0' as u64);
                    value = value * 10 + d;
                    if value > 0xffff_ffff {
                        overflow = true;
                    }
                }
                k = k + 1;
            }
            if k > i + 2 && k < n && name.get_char(k) == ':' {
                proof {
                    assert(marker_with_end(s@, i as int, k as int));
                    let u = digits_value(s@.subrange(i + 2, k as int));
                    assert(first_marker_uid(s@, i as int, k as int, u));
                    lemma_marker_uid(s@, i as int, k as int, u);
                }
                if overflow {
                    return None;
                }
                return Some(value as u32);
            }
            proof {
                assert forall|k2: int| !marker_with_end(s@, i as int, k2) by {
                    if marker_with_end(s@, i as int, k2) {
                        if k2 < k {
                            assert(is_digit(s@[k2]));
                        } else if k2 > k {
                            assert(is_digit(s@[k as int]));
                        }
                    }
                }
            }
        }
        i = i + 1;
    }
    proof {
        lemma_no_marker_uid(s@);
    }
    None
}

proof fn lemma_decimal(n: nat)
    ensures
        decimal(n).len() >= 1,
        forall|t: int| 0 <= t < decimal(n).len() ==> is_digit(#[trigger] decimal(n)[t]),
        digits_value(decimal(n)) == n,
    decreases n,
{
    lemma_digit_char(n % 10);
    let d = decimal(n);
    if n >= 10 {
        lemma_decimal(n / 10);
        assert(d.drop_last() =~= decimal(n / 10));
        assert(d.last() == digit_char(n % 10));
        assert(digits_value(d) == digits_value(decimal(n / 10)) * 10 + digit_value(d.last()));
        assert(n == (n / 10) * 10 + n % 10);
    } else {
        assert(d.drop_last() =~= Seq::<char>::empty());
        assert(digits_value(d) == digits_value(d.drop_last()) * 10 + digit_value(d.last()));
        assert(digits_value(Seq::<char>::empty()) == 0);
    }
}

proof fn lemma_digit_char(d: nat)
    requires
        d < 10,
    ensures
        is_digit(digit_char(d)),
        digit_value(digit_char(d)) == d,
{
}

/// No uid marker starts before the `,` that ends the prefix
/// `{now}.{rnd}.{host},` of a file name, whatever follows it.
proof fn lemma_prefix_has_no_marker(dn: Seq<char>, dr: Seq<char>, host: Seq<char>, b: Seq<char>)
    requires
        forall|t: int| 0 <= t < dn.len() ==> is_digit(#[trigger] dn[t]),
        forall|t: int| 0 <= t < dr.len() ==> is_digit(#[trigger] dr[t]),
        forall|j: int| 0 <= j < host.len() ==> !marker_at(host, j),
    ensures
        forall|j: int|
            0 <= j < (dn + seq!['.'] + dr + seq!['.'] + host + seq![',']).len() ==> !marker_at(
                dn + seq!['.'] + dr + seq!['.'] + host + seq![','] + b,
                j,
            ),
{
    let a = dn + seq!['.'] + dr + seq!['.'] + host + seq![','];
    let name = a + b;
    let p = a.len() as int;
    let h0: int = dn.len() + 1 + dr.len() + 1int;
    assert forall|j: int| 0 <= j < p implies !marker_at(name, j) by {
        if marker_at(name, j) {
            let k2 = choose|k2: int| marker_with_end(name, j, k2);
            assert(name[j] == a[j]);
            if j < dn.len() {
                assert(a[j] == dn[j]);
            } else if j == dn.len() {
            } else if j < h0 - 1 {
                assert(a[j] == dr[j - dn.len() - 1]);
            } else if j < h0 {
            } else if j < p - 1 {
                assert(a[j] == host[j - h0]);
                if k2 < p - 1 {
                    assert(marker_with_end(host, j - h0, k2 - h0)) by {
                        assert(host[j - h0 + 1] == name[j + 1]);
                        assert(host[k2 - h0] == name[k2]);
                        assert forall|t: int| j - h0 + 2 <= t < k2 - h0 implies is_digit(#[trigger] host[t]) by {
                            assert(host[t] == name[t + h0]);
                            assert(is_digit(name[t + h0]));
                        }
                    }
                    assert(!marker_at(host, j - h0));
                } else if j == p - 2 {
                    assert(name[j + 1] == a[p - 1]);
                } else {
                    assert(name[p - 1] == a[p - 1]);
                    assert(is_digit(name[p - 1]));
                }
            } else {
            }
        }
    }
}

/// Recovering the uid from a file name that the store writes gives back
/// exactly the uid it was built with, wherever the host identifier holds no
/// uid marker of its own.
pub proof fn lemma_filename_round_trip(now: u64, rnd: u16, host: Seq<char>, uid: u32, letters: Seq<char>)
    requires
        forall|j: int| 0 <= j < host.len() ==> !marker_at(host, j),
    ensures
        marker_uid(maildir_name(now as nat, rnd as nat, host, uid as nat, letters)) == Some(uid as nat),
        scanned_uid(maildir_name(now as nat, rnd as nat, host, uid as nat, letters)) == Some(uid),
{
    let name = maildir_name(now as nat, rnd as nat, host, uid as nat, letters);
    let dn = decimal(now as nat);
    let dr = decimal(rnd as nat);
    let du = decimal(uid as nat);
    lemma_decimal(now as nat);
    lemma_decimal(rnd as nat);
    lemma_decimal(uid as nat);
    let a = dn + seq!['.'] + dr + seq!['.'] + host + seq![','];
    let b = seq!['U', '='] + du + seq![':', '2', ','] + letters;
    assert(name =~= a + b);
    let p = a.len() as int;
    let k: int = p + 2 + du.len();
    lemma_prefix_has_no_marker(dn, dr, host, b);
    assert(name[p] == b[0]);
    assert(name[p + 1] == b[1]);
    assert(name[k] == b[k - p]);
    assert(marker_with_end(name, p, k)) by {
        assert forall|t: int| p + 2 <= t < k implies is_digit(#[trigger] name[t]) by {
            assert(name[t] == b[t - p]);
            assert(b[t - p] == du[t - p - 2]);
        }
    }
    assert(name.subrange(p + 2, k) =~= du);
    assert(first_marker_uid(name, p, k, uid as nat));
    lemma_marker_uid(name, p, k, uid as nat);
}

} // verus!
