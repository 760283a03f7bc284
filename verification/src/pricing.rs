//! Cost model: per-token prices for each known model identifier and the
//! cost of a finished request. Prices are held in integer units so that
//! every cost is exact: a price is given in thousandths of a dollar per
//! million tokens, and a computed cost in billionths of a dollar.
use vstd::prelude::*;
use vstd::string::StringExecFns;
use crate::strutil::str_to_chars;

verus! {

/// Upper bound on any per-million-token price in the table, in
/// thousandths of a dollar.
pub const MAX_PRICE_MILLI: u64 = 15000;

/// The price table: input and output price per million tokens, in
/// thousandths of a dollar. Unknown identifiers fall back to the
/// cheapest current tier.
pub open spec fn spec_model_pricing(model: Seq<char>) -> (u64, u64) {
    if model == "cheap-tier-4-5"@ {
        (1000u64, 5000u64)
    } else if model == "expensive-tier-4-5"@ {
        (3000u64, 15000u64)
    } else if model == "expensive-tier-3-5"@ {
        (3000u64, 15000u64)
    } else if model == "cheap-tier-3-5"@ {
        (800u64, 4000u64)
    } else {
        (1000u64, 5000u64)
    }
}

/// The exact cost of a request, in billionths of a dollar: each token
/// costs its price-per-million in thousandths of a dollar, so the sum of
/// the two products is the cost in dollars times one billion.
pub open spec fn spec_cost_nanos(
    prompt_tokens: u32,
    completion_tokens: u32,
    model: Seq<char>,
) -> int {
    prompt_tokens * spec_model_pricing(model).0 + completion_tokens * spec_model_pricing(model).1
}

fn str_eq(a: &str, b: &str) -> (r: bool)
    ensures
        r == (a@ == b@),
{
    let va = str_to_chars(a);
    let n = va.len();
    let m = b.unicode_len();
    if n != m {
        return false;
    }
    let mut i: usize = 0;
    while i < n
        invariant
            i <= n,
            n == a@.len() == b@.len(),
            va@ == a@,
            forall|k: int| 0 <= k < i ==> a@[k] == b@[k],
        decreases n - i,
    {
        if va[i] != b.get_char(i) {
            return false;
        }
        i = i + 1;
    }
    proof {
        assert(a@ =~= b@);
    }
    true
}

/// Model pricing: input and output price per million tokens, in
/// thousandths of a dollar.
pub fn get_model_pricing(model: &str) -> (r: (u64, u64))
    ensures
        r == spec_model_pricing(model@),
        r.0 <= MAX_PRICE_MILLI,
        r.1 <= MAX_PRICE_MILLI,
{
    if str_eq(model, "cheap-tier-4-5") {
        (1000, 5000)
    } else if str_eq(model, "expensive-tier-4-5") {
        (3000, 15000)
    } else if str_eq(model, "expensive-tier-3-5") {
        (3000, 15000)
    } else if str_eq(model, "cheap-tier-3-5") {
        (800, 4000)
    } else {
        (1000, 5000)
    }
}

/// The cost of a request, in billionths of a dollar.
pub fn calculate_cost(prompt_tokens: u32, completion_tokens: u32, model: &str) -> (r: u64)
    ensures
        r == spec_cost_nanos(prompt_tokens, completion_tokens, model@),
{
    let (input_price, output_price) = get_model_pricing(model);
    proof {
        vstd::arithmetic::mul::lemma_mul_upper_bound(
            prompt_tokens as int,
            0xffff_ffff,
            input_price as int,
            MAX_PRICE_MILLI as int,
        );
        vstd::arithmetic::mul::lemma_mul_upper_bound(
            completion_tokens as int,
            0xffff_ffff,
            output_price as int,
            MAX_PRICE_MILLI as int,
        );
    }
    (prompt_tokens as u64) * input_price + (completion_tokens as u64) * output_price
}

/// Whatever the model, a request that used no tokens costs nothing.
pub proof fn lemma_cost_zero_tokens(model: Seq<char>)
    ensures
        spec_cost_nanos(0, 0, model) == 0,
{
}

/// The identifiers offered for selection, each with a display name.
pub fn available_models() -> (r: Vec<(String, String)>)
    ensures
        r@.len() == 4,
        r@[0].0@ == "cheap-tier-4-5"@ && r@[0].1@ == "Cheap Tier 4.5 (Fast)"@,
        r@[1].0@ == "expensive-tier-4-5"@ && r@[1].1@ == "Expensive Tier 4.5 (Best Quality)"@,
        r@[2].0@ == "expensive-tier-3-5"@ && r@[2].1@ == "Expensive Tier 3.5"@,
        r@[3].0@ == "cheap-tier-3-5"@ && r@[3].1@ == "Cheap Tier 3.5"@,
{
    let mut v: Vec<(String, String)> = Vec::new();
    v.push(
        (
            String::from_str("cheap-tier-4-5"),
            String::from_str("Cheap Tier 4.5 (Fast)"),
        ),
    );
    v.push(
        (
            String::from_str("expensive-tier-4-5"),
            String::from_str("Expensive Tier 4.5 (Best Quality)"),
        ),
    );
    v.push((String::from_str("expensive-tier-3-5"), String::from_str("Expensive Tier 3.5")));
    v.push((String::from_str("cheap-tier-3-5"), String::from_str("Cheap Tier 3.5")));
    v
}

} // verus!
