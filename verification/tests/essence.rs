use essence_math::{essence_order, CalqAst, Essence};

const NAMES: [&str; 27] = [
    "lightning",
    "cloud/mist",
    "wood/life",
    "metal",
    "destruction/death",
    "acid/corrosion",
    "miasma",
    "force",
    "sun/light",
    "sky",
    "purity/healing",
    "gravity",
    "heat",
    "ice",
    "mud",
    "magma",
    "plasma",
    "abyss/darkness/moon",
    "vacuum/void",
    "stone",
    "yin",
    "yang",
    "water",
    "fire",
    "earth",
    "air",
    "unaligned",
];

#[test]
fn new_keeps_the_axes() {
    assert_eq!(Essence::new(1, -2, 3), Essence::new(1, -2, 3));
    assert_ne!(Essence::new(1, -2, 3), Essence::new(1, -2, 4));
    assert_ne!(Essence::new(1, -2, 3), Essence::new(1, 2, 3));
    assert_ne!(Essence::new(1, -2, 3), Essence::new(-1, -2, 3));
}

#[test]
fn combine_adds_like_axes() {
    let a = Essence::new(1, -2, 3);
    let b = Essence::new(10, 20, -30);
    assert_eq!(a.combine(&b), Essence::new(11, 18, -27));
}

#[test]
fn remove_subtracts_like_axes() {
    let a = Essence::new(1, -2, 3);
    let b = Essence::new(10, 20, -30);
    assert_eq!(a.remove(&b), Essence::new(-9, -22, 33));
}

#[test]
fn product_multiplies_every_axis() {
    let a = Essence::new(1, -2, 3);
    assert_eq!(a.product(7), Essence::new(7, -14, 21));
    assert_eq!(a.product(1), a);
    assert_eq!(a.product(0), Essence::new(0, 0, 0));
}

#[test]
fn product_reaches_the_ends_of_the_range() {
    let down = Essence::new(-1, 0, 0);
    let most = isize::MAX as usize + 1;
    assert_eq!(down.product(most), Essence::new(isize::MIN, 0, 0));
    assert_eq!(down.checked_product(most), Some(Essence::new(isize::MIN, 0, 0)));
    assert_eq!(down.checked_product(most + 1), None);
    assert_eq!(Essence::new(1, 0, 0).checked_product(most), None);
    assert_eq!(Essence::new(0, 0, 0).checked_product(usize::MAX), Some(Essence::new(0, 0, 0)));
    assert_eq!(Essence::new(0, 0, 0).product(usize::MAX), Essence::new(0, 0, 0));
}

#[test]
fn remove_undoes_combine() {
    let a = Essence::new(5, -7, 11);
    let b = Essence::new(-3, 2, 40);
    assert_eq!(a.combine(&b).remove(&b), a);
}

#[test]
fn combine_is_commutative_and_associative() {
    let a = Essence::new(5, -7, 11);
    let b = Essence::new(-3, 2, 40);
    let c = Essence::new(9, 9, -9);
    assert_eq!(a.combine(&b), b.combine(&a));
    assert_eq!(a.combine(&b).combine(&c), a.combine(&b.combine(&c)));
}

#[test]
fn checked_operations_refuse_what_leaves_the_range() {
    let top = Essence::new(isize::MAX, 0, 0);
    let one = Essence::new(1, 0, 0);
    assert_eq!(top.checked_combine(&one), None);
    assert_eq!(one.checked_combine(&one), Some(Essence::new(2, 0, 0)));
    let bottom = Essence::new(0, isize::MIN, 0);
    assert_eq!(bottom.checked_remove(&Essence::new(0, 1, 0)), None);
    assert_eq!(bottom.checked_remove(&Essence::new(0, -1, 0)), Some(Essence::new(0, isize::MIN + 1, 0)));
    assert_eq!(Essence::new(0, 0, isize::MAX / 2 + 1).checked_product(2), None);
    assert_eq!(Essence::new(0, 0, 3).checked_product(2), Some(Essence::new(0, 0, 6)));
}

#[test]
fn contains_ignores_magnitude() {
    let heat = Essence::new(0, 1, 1);
    assert!(Essence::new(0, 4, 1).contains(&heat));
    assert!(heat.contains(&Essence::new(0, 4, 1)));
    assert!(Essence::new(-3, -1, 9).contains(&Essence::new(-1, -1, 1)));
    assert!(Essence::new(0, 0, 0).contains(&Essence::new(0, 0, 0)));
}

#[test]
fn contains_fails_on_one_mismatched_axis() {
    let v = Essence::new(2, -3, 4);
    assert!(v.contains(&Essence::new(2, -3, 4)));
    assert!(!v.contains(&Essence::new(-2, -3, 4)));
    assert!(!v.contains(&Essence::new(0, -3, 4)));
    assert!(!v.contains(&Essence::new(2, 3, 4)));
    assert!(!v.contains(&Essence::new(2, 0, 4)));
    assert!(!v.contains(&Essence::new(2, -3, -4)));
    assert!(!v.contains(&Essence::new(2, -3, 0)));
    assert!(!Essence::new(0, 1, 1).contains(&Essence::new(1, 1, 1)));
}

#[test]
fn the_zero_vector_is_unaligned() {
    assert_eq!(Essence::new(0, 0, 0).to_string(), "unaligned");
}

#[test]
fn rendering_goes_by_priority() {
    assert_eq!(Essence::new(1, 1, 1).to_string(), "lightning");
    assert_eq!(Essence::new(3, 2, 1).to_string(), "lightning+sun/light+yang");
    assert_eq!(Essence::new(-5, 2, -2).to_string(), "2*force+3*yin");
    assert_eq!(Essence::new(2, 2, 0).to_string(), "2*sun/light");
    assert_eq!(Essence::new(0, -12, 0).to_string(), "12*water");
    assert_eq!(Essence::new(7, -10, 120).to_string(), "7*cloud/mist+3*ice+110*air");
    assert_eq!(Essence::new(1, 0, -1).to_string(), "gravity");
    assert_eq!(Essence::new(4, 0, -1).to_string(), "gravity+3*yang");
    assert_eq!(Essence::new(1, -1, 0).to_string(), "purity/healing");
}

#[test]
fn decompose_counts_each_kind() {
    let counts = Essence::new(0, 4, 1).decompose();
    let mut expected = vec![0usize; 27];
    expected[12] = 1;
    expected[23] = 3;
    assert_eq!(counts, expected);
}

#[test]
fn decompose_never_counts_the_unaligned_kind() {
    assert_eq!(Essence::new(0, 0, 0).decompose(), vec![0usize; 27]);
    let counts = Essence::new(1, 1, 1).decompose();
    let mut expected = vec![0usize; 27];
    expected[0] = 1;
    assert_eq!(counts, expected);
    let counts = Essence::new(-2, 2, -1).decompose();
    let mut expected = vec![0usize; 27];
    expected[7] = 1;
    expected[16] = 1;
    assert_eq!(counts, expected);
}

#[test]
fn decomposition_adds_up() {
    let order = essence_order();
    for v in [
        Essence::new(3, -8, 5),
        Essence::new(-1, -1, -1),
        Essence::new(0, 9, -9),
        Essence::new(40, 0, 0),
    ] {
        let counts = v.decompose();
        let mut sum = Essence::new(0, 0, 0);
        for (unit, count) in order.iter().zip(counts.iter()) {
            sum = sum.combine(&unit.product(*count));
        }
        assert_eq!(sum, v);
    }
}

#[test]
fn catalog_has_the_kinds_in_order() {
    let order = essence_order();
    assert_eq!(order.len(), 27);
    assert_eq!(order[0], Essence::new(1, 1, 1));
    assert_eq!(order[7], Essence::new(-1, 1, -1));
    assert_eq!(order[8], Essence::new(1, 1, 0));
    assert_eq!(order[10], Essence::new(1, -1, 0));
    assert_eq!(order[11], Essence::new(1, 0, -1));
    assert_eq!(order[19], Essence::new(-1, 0, -1));
    assert_eq!(order[20], Essence::new(-1, 0, 0));
    assert_eq!(order[25], Essence::new(0, 0, 1));
    assert_eq!(order[26], Essence::new(0, 0, 0));
    for (i, a) in order.iter().enumerate() {
        for b in order.iter().skip(i + 1) {
            assert_ne!(a, b);
        }
    }
}

#[test]
fn catalog_names_go_with_the_order() {
    let order = essence_order();
    for (unit, name) in order.iter().zip(NAMES.iter()) {
        assert_eq!(unit.primary_name(), Some(*name));
        assert_eq!(unit.to_string_simple(), *name);
        assert_eq!(Essence::from_string_simple(name.to_string()), Some(*unit));
        for part in name.split('/') {
            assert_eq!(Essence::from_string_simple(part.to_string()), Some(*unit));
        }
    }
}

#[test]
fn each_kind_renders_and_parses_back_to_itself() {
    for unit in essence_order() {
        let text = unit.to_string();
        let tree = CalqAst::from_str(&text).unwrap();
        assert_eq!(tree, CalqAst::Atom(1, unit));
        assert_eq!(tree.eval(), unit);
        assert_eq!(CalqAst::parse_prefix(&text).unwrap().1, text.chars().count());
    }
}

#[test]
fn lookup_trims_and_folds_case() {
    let fire = Some(Essence::new(0, 1, 0));
    assert_eq!(Essence::from_string_simple("fire".to_string()), fire);
    assert_eq!(Essence::from_string_simple("  Fire\t\n".to_string()), fire);
    assert_eq!(Essence::from_string_simple("\u{a0}FIRE\u{3000}".to_string()), fire);
    assert_eq!(
        Essence::from_string_simple("Abyss/Darkness/Moon".to_string()),
        Some(Essence::new(-1, -1, 0))
    );
    assert_eq!(
        Essence::from_string_simple("DARKNESS".to_string()),
        Some(Essence::new(-1, -1, 0))
    );
}

#[test]
fn lookup_is_exact() {
    assert_eq!(Essence::from_string_simple("".to_string()), None);
    assert_eq!(Essence::from_string_simple("   ".to_string()), None);
    assert_eq!(Essence::from_string_simple("fir".to_string()), None);
    assert_eq!(Essence::from_string_simple("fires".to_string()), None);
    assert_eq!(Essence::from_string_simple("fi re".to_string()), None);
    assert_eq!(Essence::from_string_simple("sun/".to_string()), None);
    assert_eq!(Essence::from_string_simple("/light".to_string()), None);
    assert_eq!(Essence::from_string_simple("darkness/moon".to_string()), None);
    assert_eq!(Essence::from_string_simple("abyss/moon".to_string()), None);
    assert_eq!(Essence::from_string_simple("unknown".to_string()), None);
}

#[test]
fn to_string_simple_names_the_direction() {
    assert_eq!(Essence::new(0, 4, 1).to_string_simple(), "heat");
    assert_eq!(Essence::new(-9, -1, 3).to_string_simple(), "miasma");
    assert_eq!(Essence::new(0, 0, -5).to_string_simple(), "earth");
    assert_eq!(Essence::new(8, 0, -5).to_string_simple(), "gravity");
    assert_eq!(Essence::new(0, 0, 0).to_string_simple(), "unaligned");
}

#[test]
fn primary_name_is_for_exact_kinds_only() {
    assert_eq!(Essence::new(0, 1, 1).primary_name(), Some("heat"));
    assert_eq!(Essence::new(0, 0, 0).primary_name(), Some("unaligned"));
    assert_eq!(Essence::new(0, 4, 1).primary_name(), None);
    assert_eq!(Essence::new(2, 0, 0).primary_name(), None);
}
