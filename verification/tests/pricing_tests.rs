use traylingo::pricing::{calculate_cost, get_model_pricing};

fn cost_usd(prompt: u32, completion: u32, model: &str) -> f64 {
    calculate_cost(prompt, completion, model) as f64 / 1_000_000_000.0
}

#[test]
fn test_calculate_cost_haiku() {
    // 1000 input + 500 output tokens at cheap-tier prices ($1.0/$5.0 per million)
    let cost = cost_usd(1000, 500, "cheap-tier-4-5");
    // input: 1000 * 1.0 / 1_000_000 = 0.001
    // output: 500 * 5.0 / 1_000_000 = 0.0025
    assert!((cost - 0.0035).abs() < 1e-10);
}

#[test]
fn test_calculate_cost_sonnet() {
    // 1000 input + 500 output tokens at expensive-tier prices ($3.0/$15.0 per million)
    let cost = cost_usd(1000, 500, "expensive-tier-4-5");
    // input: 1000 * 3.0 / 1_000_000 = 0.003
    // output: 500 * 15.0 / 1_000_000 = 0.0075
    assert!((cost - 0.0105).abs() < 1e-10);
}

#[test]
fn test_calculate_cost_zero() {
    assert_eq!(cost_usd(0, 0, "cheap-tier-4-5"), 0.0);
}

#[test]
fn test_model_pricing() {
    let (input, output) = get_model_pricing("cheap-tier-4-5");
    assert_eq!(input as f64 / 1000.0, 1.0);
    assert_eq!(output as f64 / 1000.0, 5.0);

    let (input, output) = get_model_pricing("expensive-tier-4-5");
    assert_eq!(input as f64 / 1000.0, 3.0);
    assert_eq!(output as f64 / 1000.0, 15.0);
}

#[test]
fn test_model_pricing_fallback_is_cheapest_tier() {
    // Unknown identifiers fall back to the cheapest current tier.
    assert_eq!(get_model_pricing("model-nobody-knows"), (1000, 5000));
    assert_eq!(get_model_pricing("cheap-tier-3-5"), (800, 4000));
}

#[test]
fn test_calculate_cost_exact_nanos() {
    // 10 input + 5 output on the cheap tier: 10 * 1000 + 5 * 5000 billionths.
    assert_eq!(calculate_cost(10, 5, "cheap-tier-4-5"), 35_000);
    // Cost of nothing is nothing, whatever the model.
    assert_eq!(calculate_cost(0, 0, "some-model"), 0);
}
