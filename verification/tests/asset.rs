use cypher_looper::asset::{Asset, AssetKind, AssetLibrary, AssetRef, LibraryFolder};

fn segs(parts: &[&str]) -> Vec<String> {
    parts.iter().map(|s| s.to_string()).collect()
}

fn sample(name: &str, path: &str) -> Asset {
    Asset { kind: AssetKind::Sample, name: name.to_string(), path: path.to_string() }
}

#[test]
fn assets_are_filed_under_their_folders() {
    let mut root = LibraryFolder::new();
    root.insert_asset(&segs(&["Drums", "kick.wav"]), sample("kick", "/lib/Drums/kick.wav"));
    root.insert_asset(&segs(&["Drums", "Snares", "snare.wav"]), sample("snare", "/lib/Drums/Snares/snare.wav"));
    root.insert_asset(&segs(&["top.wav"]), sample("top", "/lib/top.wav"));
    assert_eq!(root.assets.len(), 1);
    assert_eq!(root.assets[0].name(), "top");
    assert_eq!(root.subfolders.len(), 1);
    let (name, drums) = &root.subfolders[0];
    assert_eq!(name, "Drums");
    assert_eq!(drums.assets.len(), 1);
    assert_eq!(drums.assets[0].path(), "/lib/Drums/kick.wav");
    assert_eq!(drums.subfolders.len(), 1);
    assert_eq!(drums.subfolders[0].0, "Snares");
    assert_eq!(drums.subfolders[0].1.assets[0].name, "snare");
}

#[test]
fn existing_folders_are_reused() {
    let mut root = LibraryFolder::new();
    root.insert_asset(&segs(&["Pads", "a.wav"]), sample("a", "/p/a.wav"));
    root.insert_asset(&segs(&["Pads", "b.wav"]), sample("b", "/p/b.wav"));
    assert_eq!(root.subfolders.len(), 1);
    assert_eq!(root.subfolders[0].1.assets.len(), 2);
}

#[test]
fn an_asset_is_filed_once() {
    let mut root = LibraryFolder::new();
    root.insert_asset(&segs(&["x.json"]), Asset { kind: AssetKind::SynthPreset, name: "x".into(), path: "/x.json".into() });
    root.insert_asset(&segs(&["x.json"]), Asset { kind: AssetKind::SamplerKit, name: "x".into(), path: "/x.json".into() });
    assert_eq!(root.assets.len(), 1);
    assert_eq!(root.assets[0].kind, AssetKind::SynthPreset);
    root.insert_asset(&segs(&["x.json"]), Asset { kind: AssetKind::SamplerKit, name: "y".into(), path: "/x.json".into() });
    assert_eq!(root.assets.len(), 2);
}

#[test]
fn an_empty_path_files_nothing() {
    let mut root = LibraryFolder::new();
    root.insert_asset(&Vec::new(), sample("a", "/a.wav"));
    assert!(root.assets.is_empty());
    assert!(root.subfolders.is_empty());
}

#[test]
fn clearing_the_library() {
    let mut lib = AssetLibrary::new();
    lib.sample_root.insert_asset(&segs(&["A", "a.wav"]), sample("a", "/A/a.wav"));
    lib.kit_root.insert_asset(&segs(&["k.json"]), Asset { kind: AssetKind::SamplerKit, name: "k".into(), path: "/k.json".into() });
    lib.clear();
    assert!(lib.sample_root.subfolders.is_empty());
    assert!(lib.kit_root.assets.is_empty());
}

#[test]
fn assets_and_folders_are_listed_in_order() {
    let mut root = LibraryFolder::new();
    root.insert_asset(&segs(&["Zeta", "z.wav"]), sample("z", "/lib/Zeta/z.wav"));
    root.insert_asset(&segs(&["Alpha", "a.wav"]), sample("a", "/lib/Alpha/a.wav"));
    root.insert_asset(&segs(&["Mid", "m.wav"]), sample("m", "/lib/Mid/m.wav"));
    root.insert_asset(&segs(&["snare.wav"]), sample("snare", "/lib/snare.wav"));
    root.insert_asset(&segs(&["kick.wav"]), sample("kick", "/lib/kick.wav"));
    root.insert_asset(&segs(&["hat.wav"]), sample("hat", "/lib/hat.wav"));
    let names: Vec<&str> = root.subfolders.iter().map(|(n, _)| n.as_str()).collect();
    assert_eq!(names, vec!["Alpha", "Mid", "Zeta"]);
    let assets: Vec<&str> = root.assets.iter().map(|a| a.name.as_str()).collect();
    assert_eq!(assets, vec!["hat", "kick", "snare"]);
}

#[test]
fn assets_order_by_path_then_name() {
    let mut root = LibraryFolder::new();
    root.insert_asset(&segs(&["x.wav"]), sample("b", "/lib/x.wav"));
    root.insert_asset(&segs(&["x.wav"]), sample("a", "/lib/x.wav"));
    root.insert_asset(&segs(&["w.wav"]), sample("c", "/lib/w.wav"));
    let assets: Vec<&str> = root.assets.iter().map(|a| a.name.as_str()).collect();
    assert_eq!(assets, vec!["c", "a", "b"]);
}

#[test]
fn paths_order_by_component() {
    let mut root = LibraryFolder::new();
    root.insert_asset(&segs(&["k.wav"]), sample("dash", "/lib/a-b/k.wav"));
    root.insert_asset(&segs(&["k.wav"]), sample("slash", "/lib/a/b/k.wav"));
    let assets: Vec<&str> = root.assets.iter().map(|a| a.name.as_str()).collect();
    let mut paths: Vec<std::path::PathBuf> =
        vec![std::path::PathBuf::from("/lib/a-b/k.wav"), std::path::PathBuf::from("/lib/a/b/k.wav")];
    paths.sort();
    assert_eq!(paths[0], std::path::PathBuf::from("/lib/a/b/k.wav"));
    assert_eq!(assets, vec!["slash", "dash"]);
}
