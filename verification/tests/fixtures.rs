use temper::corpus::{mix as control_mix, parse_count, rotate, run_control};
use temper::fixtures::{
    accumulate, missing_profile_function, mix, optimized_result, profiled_function,
    sentinel_report, strict_report, units_report, UNITS_SEED,
};

#[test]
fn mixtures_have_their_exact_values() {
    assert_eq!(mix(0), 0xd85d_1d82_3d12_cde7);
    assert_eq!(mix(1), 0xbb24_fce5_2f5e_10d7);
    assert_eq!(mix(2), 0x9eb0_10ad_a100_8280);
    assert_eq!(mix(u64::MAX), 0x782a_e3bd_0a73_ace7);
}

#[test]
fn rounds_accumulate_their_mixtures() {
    assert_eq!(accumulate(7, 0), 7);
    assert_eq!(accumulate(UNITS_SEED, 5), 11_267_109_233_641_046_918);
    assert_eq!(accumulate(0, 1000), 18_303_915_149_580_434_213);
}

#[test]
fn experiment_programs_report_their_accumulator() {
    assert_eq!(units_report(12), "units accumulator=12");
    assert_eq!(strict_report(0), "strict accumulator=0");
    assert_eq!(sentinel_report(true, 3), "sentinel=present accumulator=3");
    assert_eq!(sentinel_report(false, 3), "sentinel=absent accumulator=3");
}

#[test]
fn profiled_functions_wrap_around() {
    assert_eq!(profiled_function(41), 124);
    assert_eq!(missing_profile_function(7), 37);
    assert_eq!(profiled_function(u64::MAX), u64::MAX.wrapping_mul(3).wrapping_add(1));
    assert_eq!(optimized_result(), 161);
}

#[test]
fn control_operations_have_their_exact_states() {
    assert_eq!(control_mix(0), 0x243f_6a88_85a3_08d3);
    assert_eq!(control_mix(1), 0x7bf4_8b18_d83b_190e);
    assert_eq!(control_mix(100), 0x99a3_f717_c37e_1d97);
    assert_eq!(rotate(0), 0x1319_8a2e_0370_7344);
    assert_eq!(rotate(1), 0x5b91_6128_1687_d28a);
    assert_eq!(rotate(100), 0x3152_f2ca_2971_c5bc);
}

#[test]
fn iteration_counts_parse_like_unsigned_numbers() {
    for text in ["0", "+7", "00042", "18446744073709551615"] {
        assert_eq!(parse_count(text), text.parse::<u64>().ok(), "{text}");
    }
    for text in ["", "+", "-1", "1a", " 1", "18446744073709551616", "++1"] {
        assert_eq!(parse_count(text), None, "{text}");
        assert!(text.parse::<u64>().is_err(), "{text}");
    }
}

#[test]
fn the_control_program_prints_sixteen_digits_or_refuses() {
    let run = |values: &[&str]| {
        run_control(&values.iter().map(|value| (*value).to_owned()).collect())
    };
    assert_eq!(run(&["mix", "100"]), Ok("99a3f717c37e1d97".to_owned()));
    assert_eq!(run(&["rotate", "0"]), Ok("13198a2e03707344".to_owned()));
    assert_eq!(run(&[]), Err("missing operation"));
    assert_eq!(run(&["mix"]), Err("missing or invalid iteration count"));
    assert_eq!(run(&["mix", "x"]), Err("missing or invalid iteration count"));
    assert_eq!(run(&["mix", "1", "2"]), Err("unexpected argument"));
    assert_eq!(run(&["spin", "1"]), Err("unknown operation"));
}
