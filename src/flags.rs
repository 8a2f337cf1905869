//! Message flags and the letters that stand for them in a maildir filename.
use vstd::prelude::*;

verus! {

/// A per-message state marker as the server reports it. Every flag other
/// than the four that the store records is `Other`.
#[derive(Clone, Copy, Debug, PartialEq, Eq, Structural)]
pub enum Flag {
    Seen,
    Flagged,
    Answered,
    Deleted,
    Other,
}

/// The maildir letter of a flag, if it has one.
pub open spec fn letter_of(f: Flag) -> Seq<char> {
    match f {
        Flag::Seen => seq!['S'],
        Flag::Flagged => seq!['F'],
        Flag::Answered => seq!['R'],
        Flag::Deleted => seq!['D'],
        Flag::Other => Seq::empty(),
    }
}

/// The letter of `f` when `flags` holds it, else nothing.
pub open spec fn letter_if_present(flags: Seq<Flag>, f: Flag) -> Seq<char> {
    if flags.contains(f) {
        letter_of(f)
    } else {
        Seq::empty()
    }
}

/// The flag block of a maildir filename: one letter per present flag, in
/// the fixed order Seen, Flagged, Answered, Deleted.
pub open spec fn flag_letters(flags: Seq<Flag>) -> Seq<char> {
    letter_if_present(flags, Flag::Seen) + letter_if_present(flags, Flag::Flagged)
        + letter_if_present(flags, Flag::Answered) + letter_if_present(flags, Flag::Deleted)
}

/// The letter of one flag, as a string: empty for a flag without a letter.
pub fn format_flag(flag: &Flag) -> (r: &'static str)
    ensures
        r@ == letter_of(*flag),
{
    match flag {
        Flag::Seen => {
            proof {
                reveal_strlit("S");
            }
            "S"
        },
        Flag::Flagged => {
            proof {
                reveal_strlit("F");
            }
            "F"
        },
        Flag::Answered => {
            proof {
                reveal_strlit("R");
            }
            "R"
        },
        Flag::Deleted => {
            proof {
                reveal_strlit("D");
            }
            "D"
        },
        Flag::Other => {
            proof {
                reveal_strlit("");
            }
            ""
        },
    }
}

/// Whether `flags` holds `f`.
pub fn has_flag(flags: &Vec<Flag>, f: Flag) -> (r: bool)
    ensures
        r == flags@.contains(f),
{
    let mut i: usize = 0;
    while i < flags.len()
        invariant
            i <= flags.len(),
            forall|j: int| 0 <= j < i ==> flags@[j] != f,
        decreases flags.len() - i,
    {
        if flags[i] == f {
            return true;
        }
        i = i + 1;
    }
    false
}

/// The flag block of a maildir filename for a message with `flags`.
pub fn transform_flags(flags: &Vec<Flag>) -> (r: String)
    ensures
        r@ == flag_letters(flags@),
{
    let mut r = String::new();
    let order = [Flag::Seen, Flag::Flagged, Flag::Answered, Flag::Deleted];
    let mut i: usize = 0;
    while i < 4
        invariant
            i <= 4,
            order@ == seq![Flag::Seen, Flag::Flagged, Flag::Answered, Flag::Deleted],
            r@ == (if i == 0 { Seq::empty() } else if i == 1 {
                letter_if_present(flags@, Flag::Seen)
            } else if i == 2 {
                letter_if_present(flags@, Flag::Seen) + letter_if_present(flags@, Flag::Flagged)
            } else if i == 3 {
                letter_if_present(flags@, Flag::Seen) + letter_if_present(flags@, Flag::Flagged)
                    + letter_if_present(flags@, Flag::Answered)
            } else {
                flag_letters(flags@)
            }),
        decreases 4 - i,
    {
        let f = order[i];
        if has_flag(flags, f) {
            r.append(format_flag(&f));
        }
        i = i + 1;
    }
    r
}

/// A message flagged Seen and Flagged, and nothing else that has a letter,
/// gets the flag block `SF`: `S` before `F`, and no other letter.
pub proof fn lemma_seen_flagged_letters(flags: Seq<Flag>)
    requires
        flags.contains(Flag::Seen),
        flags.contains(Flag::Flagged),
        forall|i: int| 0 <= i < flags.len() ==> flags[i] == Flag::Seen || flags[i] == Flag::Flagged,
    ensures
        flag_letters(flags) == seq!['S', 'F'],
{
    assert(!flags.contains(Flag::Answered));
    assert(!flags.contains(Flag::Deleted));
    assert(flag_letters(flags) =~= seq!['S', 'F']);
}

} // verus!
