use nix_throttle::resources::rules::rules_table;
use nix_throttle::resources::{profile_for, ResourceProfile};

fn profile_of(program: &str) -> Option<ResourceProfile> {
    profile_for(&[program.to_string()])
}

#[test]
fn profile_components() {
    let p = ResourceProfile::new(3, -7);
    assert_eq!(p.cpus, 3);
    assert_eq!(p.mem_gb, -7);
}

#[test]
fn addition_is_componentwise() {
    assert_eq!(ResourceProfile::new(1, 2) + ResourceProfile::new(10, 20), ResourceProfile::new(11, 22));
    assert_eq!(ResourceProfile::new(-3, -3) + ResourceProfile::new(4, 4), ResourceProfile::new(1, 1));
}

#[test]
fn subtraction_goes_below_zero() {
    assert_eq!(ResourceProfile::new(1, 1) - ResourceProfile::new(4, 4), ResourceProfile::new(-3, -3));
    assert_eq!(ResourceProfile::new(5, 1) - ResourceProfile::new(1, 4), ResourceProfile::new(4, -3));
}

#[test]
fn fits_needs_both_dimensions() {
    let free = ResourceProfile::new(2, 2);
    assert!(ResourceProfile::new(2, 2).has_free_resources(&free));
    assert!(ResourceProfile::new(0, 0).has_free_resources(&free));
    assert!(!ResourceProfile::new(3, 1).has_free_resources(&free));
    assert!(!ResourceProfile::new(1, 3).has_free_resources(&free));
    assert!(!ResourceProfile::new(1, 1).has_free_resources(&ResourceProfile::new(-1, 5)));
}

#[test]
fn rules_table_is_reproduced() {
    let expected: [(&str, i64, i64); 23] = [
        ("cc", 1, 1),
        ("gcc", 1, 1),
        ("g++", 1, 1),
        ("c++", 1, 1),
        ("clang", 1, 1),
        ("clang++", 1, 1),
        ("rustc", 4, 4),
        ("llc", 1, 2),
        ("lld", 1, 2),
        ("ld.lld", 1, 2),
        ("ld", 1, 1),
        ("gold", 1, 1),
        ("go", 1, 1),
        ("ghc", 1, 4),
        ("java", 1, 2),
        ("javac", 1, 2),
        ("scalac", 1, 2),
        ("kotlinc", 1, 2),
        ("nvcc", 1, 4),
        ("ptxas", 1, 4),
        ("cicc", 1, 4),
        ("cudafe++", 1, 4),
        ("fatbinary", 1, 4),
    ];
    for (program, cpus, mem_gb) in expected {
        assert_eq!(profile_of(program), Some(ResourceProfile::new(cpus, mem_gb)), "{}", program);
    }
    assert_eq!(rules_table().len(), expected.len());
}

#[test]
fn anything_else_is_not_throttled() {
    for program in ["bash", "make", "", "CC", "gcc ", "rust", "rustcc", "ld.gold", "nix-daemon"] {
        assert_eq!(profile_of(program), None, "{}", program);
    }
}

#[test]
fn empty_argv_has_no_profile() {
    assert_eq!(profile_for(&[]), None);
}

#[test]
fn only_the_program_name_counts() {
    let args: Vec<String> = vec!["bash".into(), "rustc".into()];
    assert_eq!(profile_for(&args), None);
    let args: Vec<String> = vec!["rustc".into(), "--version".into()];
    assert_eq!(profile_for(&args), Some(ResourceProfile::new(4, 4)));
}
