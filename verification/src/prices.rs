//! Price normalization: converting listed prices into the base unit.
//!
//! A listing priced in the base unit ("chaos") counts as is; one priced in
//! the alternate unit ("divine") is converted with the exchange ratio; one in
//! any other currency is dropped — not every currency is priceable in the
//! base unit, and that is filtering, not an error. The relative order of the
//! kept listings is preserved. Amounts are in hundredths of their unit, and
//! so is the output; the output is wide enough that no product can overflow,
//! so nothing here can fail.

use vstd::prelude::*;
use vstd::string::*;
use crate::trade::FetchItem;

verus! {

/// The normalized prices of a listing sequence, in hundredths of the base
/// unit: base amounts unchanged, alternate amounts multiplied by the ratio,
/// everything else dropped, order kept.
pub open spec fn spec_normalize(items: Seq<FetchItem>, chaos_to_divine: u32) -> Seq<u128>
    decreases items.len(),
{
    if items.len() == 0 {
        Seq::empty()
    } else {
        let p = items[0].listing.price;
        let rest = spec_normalize(items.drop_first(), chaos_to_divine);
        if p.currency@ == "chaos"@ {
            seq![p.amount as u128] + rest
        } else if p.currency@ == "divine"@ {
            seq![(p.amount * chaos_to_divine) as u128] + rest
        } else {
            rest
        }
    }
}

/// Convert each listing's price into hundredths of the base unit with the
/// given exchange ratio, dropping listings in unknown currencies and keeping
/// the relative order of the rest.
pub fn normalize(listings: &Vec<FetchItem>, chaos_to_divine: u32) -> (r: Vec<u128>)
    ensures
        r@ == spec_normalize(listings@, chaos_to_divine),
{
    let chaos = String::from_str("chaos");
    let divine = String::from_str("divine");
    let mut out: Vec<u128> = Vec::new();
    let mut i: usize = 0;
    proof {
        assert(listings@.skip(0) =~= listings@);
        assert(out@ + spec_normalize(listings@, chaos_to_divine) =~= spec_normalize(
            listings@,
            chaos_to_divine,
        ));
    }
    while i < listings.len()
        invariant
            i <= listings.len(),
            chaos@ == "chaos"@,
            divine@ == "divine"@,
            spec_normalize(listings@, chaos_to_divine) == out@ + spec_normalize(
                listings@.skip(i as int),
                chaos_to_divine,
            ),
        decreases listings.len() - i,
    {
        let ghost pre = out@;
        let ghost sk = listings@.skip(i as int);
        proof {
            assert(sk[0] == listings@[i as int]);
            assert(sk.drop_first() =~= listings@.skip(i + 1));
        }
        let it = &listings[i];
        if it.listing.price.currency == chaos {
            let v: u128 = it.listing.price.amount as u128;
            out.push(v);
            proof {
                assert(out@ =~= pre + seq![v]);
                assert(pre + (seq![v] + spec_normalize(listings@.skip(i + 1), chaos_to_divine))
                    =~= out@ + spec_normalize(listings@.skip(i + 1), chaos_to_divine));
            }
        } else if it.listing.price.currency == divine {
            proof {
                assert((it.listing.price.amount as u128) * (chaos_to_divine as u128)
                    <= 0xFFFFFFFFFFFFFFFFu128 * 0xFFFFFFFFu128) by (nonlinear_arith)
                    requires
                        it.listing.price.amount <= 0xFFFFFFFFFFFFFFFFu64,
                        chaos_to_divine <= 0xFFFFFFFFu32,
                ;
            }
            let v: u128 = (it.listing.price.amount as u128) * (chaos_to_divine as u128);
            out.push(v);
            proof {
                assert(out@ =~= pre + seq![v]);
                assert(pre + (seq![v] + spec_normalize(listings@.skip(i + 1), chaos_to_divine))
                    =~= out@ + spec_normalize(listings@.skip(i + 1), chaos_to_divine));
            }
        }
        i = i + 1;
    }
    proof {
        assert(listings@.skip(listings@.len() as int) =~= Seq::<FetchItem>::empty());
        assert(out@ + Seq::<u128>::empty() =~= out@);
    }
    out
}

} // verus!
