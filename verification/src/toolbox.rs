//! Small helpers over plain strings: equality usable in contracts, and the
//! naming convention that ties a vault file to the secret it stores.

use vstd::prelude::*;
use vstd::utf8::{decode_utf8, encode_utf8};
use vstd::std_specs::cmp::PartialEqSpec;

verus! {

broadcast use vstd::utf8::encode_utf8_decode_utf8;

/// String equality, pinned to the character sequences: two `&str` are equal
/// exactly when their views are.
pub fn str_eq(a: &str, b: &str) -> (r: bool)
    ensures
        r == (a@ == b@),
{
    let av = a.as_bytes_vec();
    let bv = b.as_bytes_vec();
    let r = av == bv;
    proof {
        if av@ == bv@ {
            assert(decode_utf8(encode_utf8(a@)) == a@);
            assert(decode_utf8(encode_utf8(b@)) == b@);
        }
        if r {
            assert(av@ =~= bv@);
        }
        if av@ == bv@ {
            assert(av.eq_spec(&bv));
        }
    }
    r
}

/// The file-name suffix that marks a vault envelope file.
pub open spec fn slock_suffix() -> Seq<char> {
    seq!['.', 's', 'l', 'o', 'c', 'k']
}

/// A file name that stores a secret: a non-empty stem followed by `.slock`.
pub open spec fn is_slock_file_name(s: Seq<char>) -> bool {
    s.len() > 6 && s.subrange(s.len() - 6, s.len() as int) == slock_suffix()
}

/// The secret name a `.slock` file name carries: everything before the suffix.
pub open spec fn slock_stem(s: Seq<char>) -> Seq<char> {
    s.subrange(0, s.len() - 6)
}

/// Decides whether a file name denotes a stored secret, and if so under
/// which name: `data.slock` is the secret `data`; anything else (including a
/// bare `.slock` with an empty stem) is not a secret file.
pub fn is_this_secret(file_name: &str) -> (r: (bool, Option<String>))
    ensures
        r.0 == is_slock_file_name(file_name@),
        r.0 ==> (r.1 matches Some(stem) && stem@ == slock_stem(file_name@)),
        !r.0 ==> r.1 is None,
{
    let n = file_name.unicode_len();
    if n <= 6 {
        return (false, None);
    }
    let dot = n - 6;
    if file_name.get_char(dot) != '.' || file_name.get_char(dot + 1) != 's' || file_name.get_char(
        dot + 2,
    ) != 'l' || file_name.get_char(dot + 3) != 'o' || file_name.get_char(dot + 4) != 'c'
        || file_name.get_char(dot + 5) != 'k' {
        proof {
            assert(file_name@.subrange(file_name@.len() - 6, file_name@.len() as int)
                != slock_suffix());
        }
        return (false, None);
    }
    proof {
        assert(file_name@.subrange(file_name@.len() - 6, file_name@.len() as int)
            =~= slock_suffix());
    }
    let stem = file_name.substring_char(0, dot).to_owned();
    (true, Some(stem))
}

} // verus!
