use model_inventory::compatibility::{
    assess_compatibility, calculate_confidence_level, estimate_model_memory_requirements,
    memory_multiplier_tenths, required_memory_tenths, validate_model_compatibility,
    CompatibilityWarning, Ratio,
};
use model_inventory::resources::{SystemResources, GIB};

fn host(available_memory: u64, available_storage: u64, cpu_cores: usize) -> SystemResources {
    SystemResources {
        total_memory_bytes: 64 * GIB,
        available_memory_bytes: available_memory,
        available_storage_bytes: available_storage,
        cpu_cores,
    }
}

#[test]
fn seven_b_model_of_four_gigabytes_needs_six() {
    let tenths = estimate_model_memory_requirements(4 * GIB, "model-7b-instruct");
    assert_eq!(tenths, 60 * GIB as u128);
    assert_eq!(tenths as f64 / 10.0 / GIB as f64, 6.0);
}

#[test]
fn tiny_model_is_raised_to_the_minimum() {
    let size = GIB / 10;
    assert_eq!(memory_multiplier_tenths("tiny"), 12);
    let tenths = estimate_model_memory_requirements(size, "tiny");
    assert_eq!(tenths, 20 * GIB as u128);
    assert_eq!(tenths as f64 / 10.0 / GIB as f64, 2.0);
}

#[test]
fn name_is_compared_without_regard_to_case() {
    assert_eq!(estimate_model_memory_requirements(10 * GIB, "Mixtral-70B"), 180 * GIB as u128);
    assert_eq!(estimate_model_memory_requirements(10 * GIB, "LLaVA"), 170 * GIB as u128);
    assert_eq!(estimate_model_memory_requirements(10 * GIB, "DeepSeek-CODER"), 140 * GIB as u128);
}

#[test]
fn multipliers_follow_the_order_of_the_rules() {
    assert_eq!(memory_multiplier_tenths("llama-70b"), 18);
    assert_eq!(memory_multiplier_tenths("llama-70-b"), 18);
    assert_eq!(memory_multiplier_tenths("llama-13b"), 16);
    assert_eq!(memory_multiplier_tenths("llama-13-b"), 16);
    assert_eq!(memory_multiplier_tenths("llama-vision"), 17);
    assert_eq!(memory_multiplier_tenths("llava"), 17);
    assert_eq!(memory_multiplier_tenths("mistral-7b"), 15);
    assert_eq!(memory_multiplier_tenths("mistral-7-b"), 15);
    assert_eq!(memory_multiplier_tenths("starcoder"), 14);
    assert_eq!(memory_multiplier_tenths("code-helper"), 14);
    assert_eq!(memory_multiplier_tenths("phi"), 12);
    assert_eq!(memory_multiplier_tenths(""), 12);
    // An earlier rule wins over a later one.
    assert_eq!(memory_multiplier_tenths("llava-7b"), 17);
    assert_eq!(memory_multiplier_tenths("codellama-13b"), 16);
    assert_eq!(memory_multiplier_tenths("code-7b"), 15);
    assert_eq!(memory_multiplier_tenths("7b-70b"), 18);
    // Only lowercase names match here: lowering is the caller's part.
    assert_eq!(memory_multiplier_tenths("LLAMA-70B"), 12);
}

#[test]
fn required_memory_is_size_times_multiplier_with_a_floor() {
    assert_eq!(required_memory_tenths(4 * GIB, 15), 60 * GIB as u128);
    assert_eq!(required_memory_tenths(0, 18), 20 * GIB as u128);
    assert_eq!(required_memory_tenths(2 * GIB, 10), 20 * GIB as u128);
    assert_eq!(required_memory_tenths(u64::MAX, 18), u64::MAX as u128 * 18);
}

#[test]
fn ten_gigabytes_available_and_six_required() {
    let resources = host(10 * GIB, 100 * GIB, 8);
    let verdict = assess_compatibility(&resources, 4 * GIB, 60 * GIB as u128);
    assert_eq!(verdict.usable_memory_bytes, 8 * GIB as i128);
    assert!(verdict.memory_sufficient);
    assert!(verdict.storage_sufficient);
    assert!(verdict.is_compatible);
    assert_eq!(verdict.confidence_percent, 72);
    assert_eq!(verdict.required_memory_tenths, 60 * GIB as u128);
    assert_eq!(
        verdict.warnings,
        vec![CompatibilityWarning::TightMemory {
            required_tenths: 60 * GIB as u128,
            usable_bytes: 8 * GIB as i128,
        }]
    );
}

#[test]
fn same_verdict_from_the_name() {
    let resources = host(10 * GIB, 100 * GIB, 8);
    let by_name = validate_model_compatibility(&resources, 4 * GIB, "Model-7B-Instruct");
    let by_amount = assess_compatibility(&resources, 4 * GIB, 60 * GIB as u128);
    assert_eq!(by_name, by_amount);
}

#[test]
fn confidence_is_weighted_seven_to_three() {
    let r = |n: i128, d: u128| Ratio { numerator: n, denominator: d };
    assert_eq!(calculate_confidence_level(r(2, 1), r(2, 1)), 100);
    assert_eq!(calculate_confidence_level(r(3, 2), r(2, 1)), 86);
    assert_eq!(calculate_confidence_level(r(1, 1), r(2, 1)), 72);
    assert_eq!(calculate_confidence_level(r(0, 1), r(2, 1)), 30);
    assert_eq!(calculate_confidence_level(r(2, 1), r(3, 2)), 97);
    assert_eq!(calculate_confidence_level(r(2, 1), r(1, 1)), 91);
    assert_eq!(calculate_confidence_level(r(2, 1), r(0, 1)), 70);
    assert_eq!(calculate_confidence_level(r(1, 1), r(1, 1)), 63);
    assert_eq!(calculate_confidence_level(r(-5, 1), r(1, 2)), 0);
    // Just below each step.
    assert_eq!(calculate_confidence_level(r(199, 100), r(149, 100)), 56 + 21);
    assert_eq!(calculate_confidence_level(r(99, 100), r(99, 100)), 0);
}

#[test]
fn ratio_comparisons_hold_at_the_ends_of_the_range() {
    let big = Ratio { numerator: i128::MAX, denominator: u128::MAX };
    assert!(!big.is_at_least_one());
    assert!(!big.is_at_least_one_and_a_half());
    assert!(!big.is_at_least_two());
    let huge = Ratio { numerator: i128::MAX, denominator: 1 };
    assert!(huge.is_at_least_two());
    let low = Ratio { numerator: i128::MIN, denominator: 1 };
    assert!(!low.is_at_least_one());
    let odd = Ratio { numerator: 5, denominator: 3 };
    assert!(odd.is_at_least_one_and_a_half());
    let under = Ratio { numerator: 4, denominator: 3 };
    assert!(!under.is_at_least_one_and_a_half());
    let exact = Ratio { numerator: 3, denominator: 2 };
    assert!(exact.is_at_least_one_and_a_half());
}

#[test]
fn nothing_is_divided_by_zero() {
    let resources = host(10 * GIB, 100 * GIB, 8);
    // No size: the storage ratio counts as one, whatever storage is free.
    let no_size = assess_compatibility(&resources, 0, 20 * GIB as u128);
    assert_eq!(no_size.confidence_percent, 7 * 10 + 3 * 7);
    // Nothing required: the memory ratio counts as one.
    let nothing_required = assess_compatibility(&resources, 4 * GIB, 0);
    assert!(nothing_required.memory_sufficient);
    assert_eq!(nothing_required.confidence_percent, 7 * 6 + 3 * 10);
}

#[test]
fn two_cores_are_always_warned_of() {
    for (memory, storage) in [(64 * GIB, 500 * GIB), (GIB, 500 * GIB), (64 * GIB, 0), (0, 0)] {
        let verdict = assess_compatibility(&host(memory, storage, 2), 4 * GIB, 60 * GIB as u128);
        assert!(verdict.warnings.contains(&CompatibilityWarning::LowCoreCount));
        assert_eq!(verdict.warnings.last(), Some(&CompatibilityWarning::LowCoreCount));
        let enough = assess_compatibility(&host(memory, storage, 4), 4 * GIB, 60 * GIB as u128);
        assert!(!enough.warnings.contains(&CompatibilityWarning::LowCoreCount));
    }
}

#[test]
fn host_below_the_reserve_has_negative_usable_memory() {
    let verdict = assess_compatibility(&host(GIB, 2 * GIB, 1), 4 * GIB, 60 * GIB as u128);
    assert_eq!(verdict.usable_memory_bytes, -(GIB as i128));
    assert!(!verdict.memory_sufficient);
    assert!(!verdict.storage_sufficient);
    assert!(!verdict.is_compatible);
    assert_eq!(verdict.confidence_percent, 0);
    assert_eq!(
        verdict.warnings,
        vec![
            CompatibilityWarning::InsufficientMemory {
                required_tenths: 60 * GIB as u128,
                usable_bytes: -(GIB as i128),
            },
            CompatibilityWarning::InsufficientStorage {
                needed_bytes: 5 * GIB as u128,
                available_bytes: 2 * GIB,
            },
            CompatibilityWarning::LowCoreCount,
        ]
    );
}

#[test]
fn ample_host_gives_full_confidence_and_no_warning() {
    let verdict = assess_compatibility(&host(64 * GIB, 500 * GIB, 16), 4 * GIB, 60 * GIB as u128);
    assert!(verdict.is_compatible);
    assert_eq!(verdict.confidence_percent, 100);
    assert!(verdict.warnings.is_empty());
}

#[test]
fn storage_needs_the_size_and_one_gigabyte_more() {
    let just = assess_compatibility(&host(64 * GIB, 5 * GIB, 8), 4 * GIB, 60 * GIB as u128);
    assert!(just.storage_sufficient);
    assert_eq!(just.confidence_percent, 70 + 21);
    let short = assess_compatibility(&host(64 * GIB, 5 * GIB - 1, 8), 4 * GIB, 60 * GIB as u128);
    assert!(!short.storage_sufficient);
    assert!(!short.is_compatible);
    assert_eq!(short.confidence_percent, 70);
}

#[test]
fn greatest_amounts_do_not_overflow() {
    let resources = host(u64::MAX, u64::MAX, usize::MAX);
    let verdict = validate_model_compatibility(&resources, u64::MAX, "llama-70b");
    assert_eq!(verdict.required_memory_tenths, u64::MAX as u128 * 18);
    assert!(!verdict.memory_sufficient);
    assert!(!verdict.storage_sufficient);
    assert_eq!(verdict.confidence_percent, 0);
}
