//! The on-disk trash naming contract: every entry placed in the trash
//! directory is named `<unix-epoch-seconds>_<original-name>`, and the
//! original name is recovered by stripping a constant-length prefix
//! (ten timestamp digits and one separator).

use vstd::prelude::*;
use crate::text::{udec, udec_string, pow10, lemma_udec_len};

verus! {

/// Characters taken up by the timestamp prefix: ten epoch digits and
/// one underscore.
pub const TRASH_PREFIX_CHARS: usize = 11;

/// The trash entry name for an item deleted at `epoch`.
pub open spec fn spec_trash_name(epoch: nat, name: Seq<char>) -> Seq<char> {
    udec(epoch) + seq!['_'] + name
}

/// Builds the trash entry name `<epoch>_<name>`.
pub fn make_trash_name(epoch: u64, name: &String) -> (r: String)
    ensures
        r@ == spec_trash_name(epoch as nat, name@),
{
    proof {
        reveal_strlit("_");
    }
    let r = udec_string(epoch).concat("_").concat(name.as_str());
    assert("_"@ =~= seq!['_']);
    assert(r@ =~= spec_trash_name(epoch as nat, name@));
    r
}

/// The stored name with its fixed-length timestamp prefix removed;
/// empty when the name is no longer than the prefix.
pub open spec fn spec_strip_trash_prefix(name: Seq<char>) -> Seq<char> {
    if name.len() <= TRASH_PREFIX_CHARS {
        Seq::empty()
    } else {
        name.skip(TRASH_PREFIX_CHARS as int)
    }
}

/// Strips the timestamp prefix from a trash entry name.
pub fn strip_trash_prefix(name: &String) -> (r: String)
    ensures
        r@ == spec_strip_trash_prefix(name@),
{
    let s = name.as_str();
    let len = s.unicode_len();
    if len <= TRASH_PREFIX_CHARS {
        let r = String::new();
        assert(r@ =~= spec_strip_trash_prefix(name@));
        r
    } else {
        let sub = s.substring_char(TRASH_PREFIX_CHARS, len);
        let r = String::from_str(sub);
        assert(r@ =~= spec_strip_trash_prefix(name@));
        r
    }
}

/// For any epoch written with ten digits — every Unix timestamp from
/// 2001 to 2286 — stripping the prefix of a freshly built trash name
/// gives back the original name exactly.
pub proof fn lemma_trash_name_round_trip(epoch: nat, name: Seq<char>)
    requires
        1000000000 <= epoch < 10000000000,
    ensures
        spec_strip_trash_prefix(spec_trash_name(epoch, name)) == name,
{
    reveal_with_fuel(pow10, 12);
    assert(pow10(9) == 1000000000);
    assert(pow10(10) == 10000000000);
    lemma_udec_len(epoch, 9);
    assert(udec(epoch).len() == 10);
    let full = spec_trash_name(epoch, name);
    assert(full.len() == 11 + name.len());
    if name.len() == 0 {
        assert(spec_strip_trash_prefix(full) =~= name);
    } else {
        assert(full.skip(11) =~= name);
    }
}

} // verus!
