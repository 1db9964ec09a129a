use pokescript::assets::{render, AssetStore};
use pokescript::catalog::{Catalog, CatalogEntry};
use pokescript::selector::ResolvedAsset;
use pokescript::Error;

fn resolved(name: &str, shiny: bool, large: bool) -> ResolvedAsset {
    ResolvedAsset { display_name: name.to_string(), is_shiny: shiny, is_large: large }
}

fn store_with(entries: &[(&str, &[u8])]) -> AssetStore {
    let mut store = AssetStore::new();
    for (path, data) in entries {
        store.insert(path.to_string(), data.to_vec());
    }
    store
}

#[test]
fn render_with_title() {
    let store = store_with(&[("small/regular/pikachu", b"ART\n")]);
    let out = render(&store, &resolved("pikachu", false, false), true).unwrap();
    assert_eq!(out, "pikachu\nART\n");
}

#[test]
fn render_without_title() {
    let store = store_with(&[("small/regular/pikachu", b"ART\n")]);
    let out = render(&store, &resolved("pikachu", false, false), false).unwrap();
    assert_eq!(out, "ART\n");
}

#[test]
fn render_shiny_title_suffix() {
    let store = store_with(&[("small/shiny/pikachu", b"SHINY ART\n")]);
    let out = render(&store, &resolved("pikachu", true, false), true).unwrap();
    assert_eq!(out, "pikachu (shiny)\nSHINY ART\n");
}

#[test]
fn render_large_variant_key() {
    let store = store_with(&[
        ("small/regular/eevee", b"small art\n"),
        ("large/regular/eevee", b"large art\n"),
    ]);
    let out = render(&store, &resolved("eevee", false, true), false).unwrap();
    assert_eq!(out, "large art\n");
}

#[test]
fn render_missing_asset_fails() {
    let store = store_with(&[("small/regular/pikachu", b"ART\n")]);
    let r = render(&store, &resolved("eevee", false, false), true);
    assert_eq!(r.unwrap_err(), Error::AssetNotFound);
    let r = render(&store, &resolved("pikachu", true, false), true);
    assert_eq!(r.unwrap_err(), Error::AssetNotFound);
}

#[test]
fn render_non_utf8_asset_fails() {
    let store = store_with(&[("small/regular/glitch", &[0xff, 0xfe, 0x00])]);
    let r = render(&store, &resolved("glitch", false, false), false);
    assert_eq!(r.unwrap_err(), Error::AssetNotUtf8);
}

#[test]
fn render_decodes_multibyte_content() {
    let art = "\u{2593}\u{2592}\u{2591} \u{00e9}art\n";
    let store = store_with(&[("small/regular/sprite", art.as_bytes())]);
    let out = render(&store, &resolved("sprite", false, false), false).unwrap();
    assert_eq!(out, art);
}

#[test]
fn resolve_then_render_shows_form_sprite() {
    let catalog = Catalog::new(vec![CatalogEntry {
        name: "pikachu".to_string(),
        forms: vec!["regular".to_string(), "alola".to_string()],
    }]);
    // The shiny roll can fire even without the flag, so both variants
    // are stocked.
    let store = store_with(&[
        ("small/regular/pikachu-alola", b"ALOLA ART\n"),
        ("small/shiny/pikachu-alola", b"ALOLA ART\n"),
    ]);
    let mut rng = rand::thread_rng();
    let ra = pokescript::selector::resolve_explicit(
        &catalog,
        "pikachu",
        Some("alola"),
        false,
        false,
        &mut rng,
    )
    .unwrap();
    let out = render(&store, &ra, true).unwrap();
    assert!(out.starts_with("pikachu-alola"));
    assert!(out.ends_with("ALOLA ART\n"));
}

#[test]
fn list_names_keeps_order_and_count() {
    let names = ["bulbasaur", "ivysaur", "venusaur", "pikachu"];
    let catalog = Catalog::new(
        names
            .iter()
            .map(|n| CatalogEntry { name: n.to_string(), forms: vec![] })
            .collect(),
    );
    let listed = catalog.list_names();
    assert_eq!(listed.len(), catalog.entries.len());
    assert_eq!(listed, names.iter().map(|n| n.to_string()).collect::<Vec<_>>());
}
