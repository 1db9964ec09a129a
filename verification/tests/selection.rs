use pokescript::catalog::{Catalog, CatalogEntry};
use pokescript::selector::{
    decide_shiny, generation_range_inverted, resolve_explicit, resolve_random_by_generation,
    resolve_random_by_names,
};
use pokescript::Error;

fn catalog_of(names: &[&str]) -> Catalog {
    Catalog::new(
        names
            .iter()
            .map(|n| CatalogEntry { name: n.to_string(), forms: vec!["regular".to_string()] })
            .collect(),
    )
}

fn numbered_catalog(count: usize) -> Catalog {
    let names: Vec<String> = (1..=count).map(|i| format!("p{}", i)).collect();
    Catalog::new(
        names
            .into_iter()
            .map(|name| CatalogEntry { name, forms: vec!["regular".to_string()] })
            .collect(),
    )
}

fn entry_number(name: &str) -> usize {
    name.strip_prefix('p').unwrap().parse().unwrap()
}

#[test]
fn explicit_valid_name_is_unchanged() {
    let catalog = catalog_of(&["bulbasaur", "pikachu", "eevee"]);
    let mut rng = rand::thread_rng();
    let ra = resolve_explicit(&catalog, "pikachu", None, false, false, &mut rng).unwrap();
    assert_eq!(ra.display_name, "pikachu");
    assert!(!ra.is_large);
}

#[test]
fn explicit_unknown_name_fails() {
    let catalog = catalog_of(&["bulbasaur", "pikachu"]);
    let mut rng = rand::thread_rng();
    let r = resolve_explicit(&catalog, "missingno", None, false, false, &mut rng);
    assert_eq!(r.unwrap_err(), Error::UnknownPokemon);
}

#[test]
fn explicit_known_form_gets_suffix() {
    let mut catalog = catalog_of(&["bulbasaur"]);
    catalog.entries.push(CatalogEntry {
        name: "pikachu".to_string(),
        forms: vec!["regular".to_string(), "alola".to_string()],
    });
    let mut rng = rand::thread_rng();
    let ra = resolve_explicit(&catalog, "pikachu", Some("alola"), false, false, &mut rng).unwrap();
    assert_eq!(ra.display_name, "pikachu-alola");
}

#[test]
fn explicit_unknown_form_reports_alternatives() {
    let mut catalog = catalog_of(&["bulbasaur"]);
    catalog.entries.push(CatalogEntry {
        name: "pikachu".to_string(),
        forms: vec!["regular".to_string(), "alola".to_string()],
    });
    let mut rng = rand::thread_rng();
    let r = resolve_explicit(&catalog, "pikachu", Some("galar"), false, false, &mut rng);
    assert_eq!(r.unwrap_err(), Error::UnknownForm { alternatives: vec!["alola".to_string()] });
}

#[test]
fn explicit_unknown_form_with_no_alternates() {
    let catalog = catalog_of(&["pikachu"]);
    let mut rng = rand::thread_rng();
    let r = resolve_explicit(&catalog, "pikachu", Some("alola"), false, false, &mut rng);
    assert_eq!(r.unwrap_err(), Error::UnknownForm { alternatives: vec![] });
}

#[test]
fn explicit_shiny_flag_forces_shiny() {
    let catalog = catalog_of(&["pikachu"]);
    let mut rng = rand::thread_rng();
    for _ in 0..50 {
        let ra = resolve_explicit(&catalog, "pikachu", None, true, true, &mut rng).unwrap();
        assert!(ra.is_shiny);
        assert!(ra.is_large);
    }
}

#[test]
fn random_single_generation_stays_in_range() {
    let catalog = numbered_catalog(898);
    let mut rng = rand::thread_rng();
    for _ in 0..100 {
        let ra = resolve_random_by_generation(&catalog, "3", false, false, &mut rng).unwrap();
        let id = entry_number(&ra.display_name);
        assert!((252..=386).contains(&id));
    }
}

#[test]
fn random_generation_range_pools_ids() {
    let catalog = numbered_catalog(898);
    let mut rng = rand::thread_rng();
    for _ in 0..100 {
        let ra = resolve_random_by_generation(&catalog, "1-2", false, false, &mut rng).unwrap();
        let id = entry_number(&ra.display_name);
        assert!((1..=251).contains(&id));
    }
}

#[test]
fn random_generation_list_picks_one_listed_range() {
    let catalog = numbered_catalog(898);
    let mut rng = rand::thread_rng();
    for _ in 0..100 {
        let ra = resolve_random_by_generation(&catalog, "2,4", false, false, &mut rng).unwrap();
        let id = entry_number(&ra.display_name);
        assert!((152..=251).contains(&id) || (387..=493).contains(&id));
    }
}

#[test]
fn random_generation_list_drops_bad_pieces() {
    let catalog = numbered_catalog(898);
    let mut rng = rand::thread_rng();
    for _ in 0..50 {
        let ra = resolve_random_by_generation(&catalog, "3,zzz", false, false, &mut rng).unwrap();
        let id = entry_number(&ra.display_name);
        assert!((252..=386).contains(&id));
    }
}

#[test]
fn random_default_spec_covers_whole_table() {
    let catalog = numbered_catalog(898);
    let mut rng = rand::thread_rng();
    for _ in 0..100 {
        let ra = resolve_random_by_generation(&catalog, "1-8", false, false, &mut rng).unwrap();
        let id = entry_number(&ra.display_name);
        assert!((1..=898).contains(&id));
    }
}

#[test]
fn random_generation_range_ignores_extra_pieces() {
    let catalog = numbered_catalog(898);
    let mut rng = rand::thread_rng();
    for _ in 0..50 {
        let ra = resolve_random_by_generation(&catalog, "1-2-8", false, false, &mut rng).unwrap();
        let id = entry_number(&ra.display_name);
        assert!((1..=251).contains(&id));
    }
}

#[test]
fn random_generation_bad_formats_fail() {
    let catalog = numbered_catalog(898);
    let mut rng = rand::thread_rng();
    for spec in ["abc", "", "x-y", "1-", "-3", "zz,qq"] {
        let r = resolve_random_by_generation(&catalog, spec, false, false, &mut rng);
        assert_eq!(r.unwrap_err(), Error::InvalidGenerationFormat, "spec {:?}", spec);
    }
}

#[test]
fn random_generation_outside_table_fails() {
    let catalog = numbered_catalog(898);
    let mut rng = rand::thread_rng();
    for spec in ["9", "0", "1-9", "9-1", "200"] {
        let r = resolve_random_by_generation(&catalog, spec, false, false, &mut rng);
        assert_eq!(r.unwrap_err(), Error::InvalidGeneration, "spec {:?}", spec);
    }
}

#[test]
fn random_generation_short_catalog_overflows() {
    let catalog = numbered_catalog(10);
    let mut rng = rand::thread_rng();
    let r = resolve_random_by_generation(&catalog, "2", false, false, &mut rng);
    assert_eq!(r.unwrap_err(), Error::IndexOutOfBounds);
}

#[test]
fn inverted_range_is_detected() {
    assert!(generation_range_inverted("3-1"));
    assert!(generation_range_inverted("8-7"));
    assert!(!generation_range_inverted("1-3"));
    assert!(!generation_range_inverted("3-3"));
    assert!(!generation_range_inverted("3,1"));
    assert!(!generation_range_inverted("abc"));
    assert!(!generation_range_inverted("9-1"));
}

#[test]
fn random_by_names_warns_once_and_picks_valid() {
    let catalog = catalog_of(&["bulbasaur", "pikachu", "eevee"]);
    let mut rng = rand::thread_rng();
    for _ in 0..50 {
        let (warnings, r) =
            resolve_random_by_names(&catalog, "pikachu,not-a-name,eevee", false, false, &mut rng);
        assert_eq!(warnings, vec!["not-a-name".to_string()]);
        let ra = r.unwrap();
        assert!(ra.display_name == "pikachu" || ra.display_name == "eevee");
    }
}

#[test]
fn random_by_names_all_invalid_fails() {
    let catalog = catalog_of(&["bulbasaur", "pikachu"]);
    let mut rng = rand::thread_rng();
    let (warnings, r) = resolve_random_by_names(&catalog, "foo,bar", false, false, &mut rng);
    assert_eq!(warnings, vec!["foo".to_string(), "bar".to_string()]);
    assert_eq!(r.unwrap_err(), Error::NoValidNames);
}

#[test]
fn shiny_fraction_converges() {
    let mut rng = rand::thread_rng();
    let n = 200_000u32;
    let mut shiny = 0u32;
    for _ in 0..n {
        if decide_shiny(&mut rng, false) {
            shiny += 1;
        }
    }
    let observed = shiny as f64 / n as f64;
    let expected = 1.0 / 128.0;
    assert!(
        (observed - expected).abs() < 0.002,
        "observed shiny fraction {} too far from {}",
        observed,
        expected
    );
}

#[test]
fn shiny_flag_always_wins() {
    let mut rng = rand::thread_rng();
    for _ in 0..100 {
        assert!(decide_shiny(&mut rng, true));
    }
}
