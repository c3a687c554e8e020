use sysfetch::format::{format_duration, format_gpu, format_memory, format_packages};
use sysfetch::numfmt::u64_to_string;

#[test]
fn duration_floor_both_places() {
    assert_eq!(format_duration(3661), "1 Hours, 1 Minutes");
}

#[test]
fn duration_under_a_minute() {
    assert_eq!(format_duration(59), "0 Hours, 0 Minutes");
}

#[test]
fn duration_zero() {
    assert_eq!(format_duration(0), "0 Hours, 0 Minutes");
}

#[test]
fn duration_two_hours_two_minutes() {
    assert_eq!(format_duration(7325), "2 Hours, 2 Minutes");
}

#[test]
fn duration_minutes_stay_below_sixty() {
    // 59 minutes and 59 seconds: still 0 hours, 59 minutes.
    assert_eq!(format_duration(3599), "0 Hours, 59 Minutes");
}

#[test]
fn duration_large() {
    // 1000 hours exactly.
    assert_eq!(format_duration(3_600_000), "1000 Hours, 0 Minutes");
}

#[test]
fn memory_two_of_sixteen_gib() {
    assert_eq!(format_memory(2147483648, 17179869184), "2.00GiB / 16.00GiB");
}

#[test]
fn memory_hundredths_round_to_nearest() {
    // just above and just below 1.005 GiB: up to 1.01, down to 1.00
    assert_eq!(format_memory(1079110534, 1079110533), "1.01GiB / 1.00GiB");
    // 1.5 GiB exactly; 1 GiB plus one byte still shows as 1.00
    assert_eq!(format_memory(1610612736, 1073741825), "1.50GiB / 1.00GiB");
}

#[test]
fn memory_rounding_carries_into_whole_gib() {
    // one byte short of 2 GiB still shows as 2.00
    assert_eq!(format_memory(2147483647, 2147483648), "2.00GiB / 2.00GiB");
}

#[test]
fn memory_tie_rounds_up() {
    // exactly 0.125 GiB: the tie goes up to 0.13
    assert_eq!(format_memory(134217728, 1610612736), "0.13GiB / 1.50GiB");
}

#[test]
fn memory_zero() {
    assert_eq!(format_memory(0, 0), "0.00GiB / 0.00GiB");
}

#[test]
fn packages_two_managers() {
    let pkgs = vec![
        (String::from("pacman"), 900u64),
        (String::from("flatpak"), 12u64),
    ];
    assert_eq!(
        format_packages(&pkgs),
        Some(String::from("900 (pacman), 12 (flatpak)"))
    );
}

#[test]
fn packages_empty_is_absent_not_empty_string() {
    let pkgs: Vec<(String, u64)> = vec![];
    assert_eq!(format_packages(&pkgs), None);
}

#[test]
fn packages_single_manager_has_no_separator() {
    let pkgs = vec![(String::from("dpkg"), 1u64)];
    assert_eq!(format_packages(&pkgs), Some(String::from("1 (dpkg)")));
}

#[test]
fn gpu_list_joined() {
    let gpus = vec![String::from("iGPU"), String::from("dGPU")];
    assert_eq!(format_gpu(&gpus), "iGPU, dGPU");
}

#[test]
fn gpu_single() {
    let gpus = vec![String::from("iGPU")];
    assert_eq!(format_gpu(&gpus), "iGPU");
}

#[test]
fn gpu_empty_is_empty_string() {
    let gpus: Vec<String> = vec![];
    assert_eq!(format_gpu(&gpus), "");
}

#[test]
fn decimal_rendering() {
    assert_eq!(u64_to_string(0), "0");
    assert_eq!(u64_to_string(9), "9");
    assert_eq!(u64_to_string(10), "10");
    assert_eq!(u64_to_string(12345), "12345");
    assert_eq!(u64_to_string(u64::MAX), "18446744073709551615");
}
