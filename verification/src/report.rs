//! The one-line textual report: comma-separated date, symbol and
//! statistics, with prices rendered to two decimal places.

use vstd::prelude::*;
use vstd::string::StringExecFns;

use crate::dates::rfc3339_of;
use crate::dates::rfc3339_utc;
use crate::dates::MAX_UTC_SECONDS;
use crate::text::fixed2;
use crate::text::push_fixed2;

verus! {

/// The report line for one ticker: `date,symbol,$price,percent%,$min,$max,$avg`,
/// the date in RFC 3339, every money amount to two decimal places.
pub open spec fn report_fields(
    date: int,
    symbol: Seq<char>,
    price: int,
    perc: int,
    min: int,
    max: int,
    avg: int,
) -> Seq<char> {
    rfc3339_of(date) + seq![','] + symbol + seq![',', '$'] + fixed2(price) + seq![','] + fixed2(
        perc,
    ) + seq!['%', ',', '$'] + fixed2(min) + seq![',', '$'] + fixed2(max) + seq![',', '$'] + fixed2(
        avg,
    )
}

/// Build the report line for the given already-derived values.
pub fn build_report_line(
    date: u64,
    symbol: &String,
    price: i128,
    perc: i128,
    min: i128,
    max: i128,
    avg: i128,
) -> (r: String)
    requires
        date <= MAX_UTC_SECONDS,
        price > i128::MIN,
        perc > i128::MIN,
        min > i128::MIN,
        max > i128::MIN,
        avg > i128::MIN,
    ensures
        r@ == report_fields(date as int, symbol@, price as int, perc as int, min as int, max as int, avg as int),
{
    let mut s = rfc3339_utc(date);
    proof {
        reveal_strlit(",");
        reveal_strlit(",$");
        reveal_strlit("%,$");
    }
    s.append(",");
    s.append(symbol.as_str());
    s.append(",$");
    push_fixed2(&mut s, price);
    s.append(",");
    push_fixed2(&mut s, perc);
    s.append("%,$");
    push_fixed2(&mut s, min);
    s.append(",$");
    push_fixed2(&mut s, max);
    s.append(",$");
    push_fixed2(&mut s, avg);
    proof {
        assert(","@ =~= seq![',']);
        assert(",$"@ =~= seq![',', '$']);
        assert("%,$"@ =~= seq!['%', ',', '$']);
        assert(s@ =~= report_fields(
            date as int,
            symbol@,
            price as int,
            perc as int,
            min as int,
            max as int,
            avg as int,
        ));
    }
    s
}

} // verus!
