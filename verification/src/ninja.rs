//! Reading the exchange ratio out of a currency overview.
//!
//! The overview collaborator answers with a list of currency lines; the ratio
//! of interest is the base-unit equivalent of the first line named
//! "Divine Orb". Fetching the overview is plain I/O and stays with the
//! caller; picking the line is logic and lives here.

use vstd::prelude::*;
use vstd::string::*;

verus! {

/// One line of a currency overview: a currency's name and its base-unit
/// ("chaos") equivalent, as a whole number.
pub struct CurrencyOverviewLine {
    pub currency_type_name: String,
    pub chaos_equivalent: u32,
}

/// The base-unit equivalent of the first line named "Divine Orb", if any.
pub open spec fn spec_divine_ratio(lines: Seq<CurrencyOverviewLine>) -> Option<u32>
    decreases lines.len(),
{
    if lines.len() == 0 {
        None
    } else if lines[0].currency_type_name@ == "Divine Orb"@ {
        Some(lines[0].chaos_equivalent)
    } else {
        spec_divine_ratio(lines.drop_first())
    }
}

/// Find the exchange ratio — the base-unit equivalent of the alternate unit —
/// in a currency overview, or report that the overview lacks it.
pub fn divine_chaos_ratio(lines: &Vec<CurrencyOverviewLine>) -> (r: Option<u32>)
    ensures
        r == spec_divine_ratio(lines@),
{
    let divine_orb = String::from_str("Divine Orb");
    let mut i: usize = 0;
    proof {
        assert(lines@.skip(0) =~= lines@);
    }
    while i < lines.len()
        invariant
            i <= lines.len(),
            divine_orb@ == "Divine Orb"@,
            spec_divine_ratio(lines@) == spec_divine_ratio(lines@.skip(i as int)),
        decreases lines.len() - i,
    {
        proof {
            assert(lines@.skip(i as int)[0] == lines@[i as int]);
            assert(lines@.skip(i as int).drop_first() =~= lines@.skip(i + 1));
        }
        let line = &lines[i];
        if line.currency_type_name == divine_orb {
            return Some(line.chaos_equivalent);
        }
        i = i + 1;
    }
    proof {
        assert(lines@.skip(lines@.len() as int) =~= Seq::<CurrencyOverviewLine>::empty());
    }
    None
}

} // verus!
