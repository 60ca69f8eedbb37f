//! The banner printed at startup for a given count of the verbose flag.

use vstd::prelude::*;

verus! {

/// The fixed banner for a verbosity count: counts 0, 1 and 2 each have a
/// message of their own, and every higher (or negative) count shares one
/// catch-all message.
pub open spec fn verbosity_message_spec(v: int) -> Seq<char> {
    if v == 0 {
        "No verbose info"@
    } else if v == 1 {
        "Some verbose info"@
    } else if v == 2 {
        "Tons of verbose info"@
    } else {
        "Don't be ridiculous"@
    }
}

/// Returns the banner to print for a verbosity count.
pub fn verbosity_message(v: i32) -> (r: String)
    ensures
        r@ == verbosity_message_spec(v as int),
{
    if v == 0 {
        String::from_str("No verbose info")
    } else if v == 1 {
        String::from_str("Some verbose info")
    } else if v == 2 {
        String::from_str("Tons of verbose info")
    } else {
        String::from_str("Don't be ridiculous")
    }
}

/// The four banners are pairwise distinct, and every verbosity count of three
/// or more yields the same catch-all banner.
pub proof fn lemma_verbosity_tiers()
    ensures
        verbosity_message_spec(0) != verbosity_message_spec(1),
        verbosity_message_spec(0) != verbosity_message_spec(2),
        verbosity_message_spec(1) != verbosity_message_spec(2),
        verbosity_message_spec(0) != verbosity_message_spec(3),
        verbosity_message_spec(1) != verbosity_message_spec(3),
        verbosity_message_spec(2) != verbosity_message_spec(3),
        forall|v: int| v >= 3 ==> #[trigger] verbosity_message_spec(v) == verbosity_message_spec(3),
{
    reveal_strlit("No verbose info");
    reveal_strlit("Some verbose info");
    reveal_strlit("Tons of verbose info");
    reveal_strlit("Don't be ridiculous");
    assert(verbosity_message_spec(0).len() == 15);
    assert(verbosity_message_spec(1).len() == 17);
    assert(verbosity_message_spec(2).len() == 20);
    assert(verbosity_message_spec(3).len() == 19);
}

} // verus!
